//! Properties of the library as a whole.
use vstd::prelude::*;
use vstd::string::*;

use crate::apply::{
    RenderV, TITLE_HEAD, TITLE_HEIGHT, TITLE_LABEL, TITLE_TAIL, TITLE_TEXT_WIDTH, document_edges, effective, recolor_pairs,
    render_all, render_step, title_slide_xml, transformed,
};
use crate::cell::{
    GeometryV, LabelStyle, attr_value, cell_fold, key_index, key_index_from, set_attr, cell_id, cell_step, embed_index_from, patched_cell, patched_wrapper, wrapper_fold,
    wrapper_id, wrapper_step,
};
use crate::markdown::{escape_attr, escape_char, format_items, markdown_html, markdown_label, spaced_html};
use crate::model::{ResourceV, TransformV};
use crate::style::{append_token, patched_style, token_prefix, value_end};
use crate::run::{frame_plan, digest_entries, digest_entry, digest_file, digest_lines, recorded_digest, text_lines};
use crate::text::{decimal, ends_with, starts_with, find, find_from, join, lemma_find_from, lemma_find_from_none, lemma_find_from_unique, occurs_at, split_from, trim};
use crate::transform::{resolved_all, tag_entries};
use crate::validate::{all_refs_to_check, first_conflict, tagged_cells};
use crate::xml::{TagV, TokenV, document_tokens};

verus! {

/// A position in a list, moved past a marker inserted at `i`.
pub open spec fn past_marker(o: Option<int>, i: int) -> Option<int> {
    match o {
        Some(j) => Some(
            if j < i {
                j
            } else {
                j + 1
            },
        ),
        None => None,
    }
}

proof fn lemma_effective_marker(ts: Seq<TransformV>, i: int)
    requires
        0 <= i <= ts.len(),
    ensures
        effective(ts.insert(i, TransformV::Animation)) == effective(ts),
    decreases ts.len(),
{
    let ta = ts.insert(i, TransformV::Animation);
    if i == ts.len() {
        assert(ta.drop_last() =~= ts);
    } else {
        assert(ta.drop_last() =~= ts.drop_last().insert(i, TransformV::Animation));
        assert(ta.last() == ts.last());
        lemma_effective_marker(ts.drop_last(), i);
    }
}

proof fn lemma_refs_marker(ts: Seq<TransformV>, i: int)
    requires
        0 <= i <= ts.len(),
    ensures
        all_refs_to_check(ts.insert(i, TransformV::Animation)) == all_refs_to_check(ts),
    decreases ts.len(),
{
    let ta = ts.insert(i, TransformV::Animation);
    if i == ts.len() {
        assert(ta.drop_last() =~= ts);
        assert(all_refs_to_check(ta) =~= all_refs_to_check(ts));
    } else {
        assert(ta.drop_last() =~= ts.drop_last().insert(i, TransformV::Animation));
        assert(ta.last() == ts.last());
        lemma_refs_marker(ts.drop_last(), i);
    }
}

proof fn lemma_recolor_marker(ts: Seq<TransformV>, i: int, edges: Seq<(Seq<char>, Option<Seq<char>>, Option<Seq<char>>)>)
    requires
        0 <= i <= ts.len(),
    ensures
        recolor_pairs(ts.insert(i, TransformV::Animation), edges) == recolor_pairs(ts, edges),
    decreases ts.len(),
{
    let ta = ts.insert(i, TransformV::Animation);
    if i == ts.len() {
        assert(ta.drop_last() =~= ts);
        assert(recolor_pairs(ta, edges) =~= recolor_pairs(ts, edges));
    } else {
        assert(ta.drop_last() =~= ts.drop_last().insert(i, TransformV::Animation));
        assert(ta.last() == ts.last());
        lemma_recolor_marker(ts.drop_last(), i, edges);
    }
}

proof fn lemma_conflict_marker(ts: Seq<TransformV>, i: int, cells: Seq<(Seq<char>, Seq<Seq<char>>)>)
    requires
        0 <= i <= ts.len(),
    ensures
        first_conflict(ts.insert(i, TransformV::Animation), cells) == first_conflict(ts, cells),
    decreases ts.len(),
{
    let ta = ts.insert(i, TransformV::Animation);
    if i == 0 {
        assert(ta.drop_first() =~= ts);
    } else {
        assert(ta[0] == ts[0]);
        assert(ta.drop_first() =~= ts.drop_first().insert(i - 1, TransformV::Animation));
        lemma_conflict_marker(ts.drop_first(), i - 1, cells);
    }
}

proof fn lemma_cell_fold_shift(
    attrs: Seq<(Seq<char>, Seq<char>)>,
    ts: Seq<TransformV>,
    rs: Seq<ResourceV>,
    i: int,
    r: ResourceV,
    id: Seq<char>,
    recolor: Seq<(Seq<char>, Seq<char>)>,
    ls: LabelStyle,
    k: int,
)
    requires
        0 <= i <= k,
        i <= ts.len(),
        rs.len() == ts.len(),
    ensures
        cell_fold(attrs, ts.insert(i, TransformV::Animation), rs.insert(i, r), id, recolor, ls, k + 1) == cell_fold(
            attrs,
            ts,
            rs,
            id,
            recolor,
            ls,
            k,
        ),
    decreases ts.len() - k,
{
    let ta = ts.insert(i, TransformV::Animation);
    let ra = rs.insert(i, r);
    if k < ts.len() {
        assert(ta[k + 1] == ts[k] && ra[k + 1] == rs[k]);
        match cell_step(attrs, ts[k], rs[k], id, recolor, ls) {
            Ok(a) => lemma_cell_fold_shift(a, ts, rs, i, r, id, recolor, ls, k + 1),
            Err(_) => {},
        }
    }
}

proof fn lemma_cell_fold_marker(
    attrs: Seq<(Seq<char>, Seq<char>)>,
    ts: Seq<TransformV>,
    rs: Seq<ResourceV>,
    i: int,
    r: ResourceV,
    id: Seq<char>,
    recolor: Seq<(Seq<char>, Seq<char>)>,
    ls: LabelStyle,
    k: int,
)
    requires
        0 <= k <= i <= ts.len(),
        rs.len() == ts.len(),
    ensures
        cell_fold(attrs, ts.insert(i, TransformV::Animation), rs.insert(i, r), id, recolor, ls, k) == cell_fold(
            attrs,
            ts,
            rs,
            id,
            recolor,
            ls,
            k,
        ),
    decreases i - k,
{
    let ta = ts.insert(i, TransformV::Animation);
    let ra = rs.insert(i, r);
    if k < i {
        assert(ta[k] == ts[k] && ra[k] == rs[k]);
        match cell_step(attrs, ts[k], rs[k], id, recolor, ls) {
            Ok(a) => lemma_cell_fold_marker(a, ts, rs, i, r, id, recolor, ls, k + 1),
            Err(_) => {},
        }
    } else {
        assert(ta[i] == TransformV::Animation);
        lemma_cell_fold_shift(attrs, ts, rs, i, r, id, recolor, ls, i);
    }
}

proof fn lemma_wrapper_fold_shift(
    attrs: Seq<(Seq<char>, Seq<char>)>,
    ts: Seq<TransformV>,
    rs: Seq<ResourceV>,
    i: int,
    r: ResourceV,
    id: Seq<char>,
    ls: LabelStyle,
    k: int,
)
    requires
        0 <= i <= k,
        i <= ts.len(),
        rs.len() == ts.len(),
    ensures
        wrapper_fold(attrs, ts.insert(i, TransformV::Animation), rs.insert(i, r), id, ls, k + 1) == wrapper_fold(
            attrs,
            ts,
            rs,
            id,
            ls,
            k,
        ),
    decreases ts.len() - k,
{
    let ta = ts.insert(i, TransformV::Animation);
    let ra = rs.insert(i, r);
    if k < ts.len() {
        assert(ta[k + 1] == ts[k] && ra[k + 1] == rs[k]);
        match wrapper_step(attrs, ts[k], rs[k], id, ls) {
            Ok(a) => lemma_wrapper_fold_shift(a, ts, rs, i, r, id, ls, k + 1),
            Err(_) => {},
        }
    }
}

proof fn lemma_wrapper_fold_marker(
    attrs: Seq<(Seq<char>, Seq<char>)>,
    ts: Seq<TransformV>,
    rs: Seq<ResourceV>,
    i: int,
    r: ResourceV,
    id: Seq<char>,
    ls: LabelStyle,
    k: int,
)
    requires
        0 <= k <= i <= ts.len(),
        rs.len() == ts.len(),
    ensures
        wrapper_fold(attrs, ts.insert(i, TransformV::Animation), rs.insert(i, r), id, ls, k) == wrapper_fold(
            attrs,
            ts,
            rs,
            id,
            ls,
            k,
        ),
    decreases i - k,
{
    let ta = ts.insert(i, TransformV::Animation);
    let ra = rs.insert(i, r);
    if k < i {
        assert(ta[k] == ts[k] && ra[k] == rs[k]);
        match wrapper_step(attrs, ts[k], rs[k], id, ls) {
            Ok(a) => lemma_wrapper_fold_marker(a, ts, rs, i, r, id, ls, k + 1),
            Err(_) => {},
        }
    } else {
        assert(ta[i] == TransformV::Animation);
        lemma_wrapper_fold_shift(attrs, ts, rs, i, r, id, ls, i);
    }
}

proof fn lemma_embed_index_range(ts: Seq<TransformV>, id: Seq<char>, k: int)
    ensures
        embed_index_from(ts, id, k) matches Some(j) ==> k <= j < ts.len(),
    decreases ts.len() - k,
{
    if 0 <= k < ts.len() {
        lemma_embed_index_range(ts, id, k + 1);
    }
}

proof fn lemma_embed_index_shift(ts: Seq<TransformV>, i: int, id: Seq<char>, k: int)
    requires
        0 <= i <= k,
        i <= ts.len(),
    ensures
        embed_index_from(ts.insert(i, TransformV::Animation), id, k + 1) == past_marker(embed_index_from(ts, id, k), i),
    decreases ts.len() - k,
{
    let ta = ts.insert(i, TransformV::Animation);
    if k < ts.len() {
        assert(ta[k + 1] == ts[k]);
        lemma_embed_index_shift(ts, i, id, k + 1);
    }
}

proof fn lemma_embed_index_marker(ts: Seq<TransformV>, i: int, id: Seq<char>, k: int)
    requires
        0 <= k <= i <= ts.len(),
    ensures
        embed_index_from(ts.insert(i, TransformV::Animation), id, k) == past_marker(embed_index_from(ts, id, k), i),
    decreases i - k,
{
    let ta = ts.insert(i, TransformV::Animation);
    if k < i {
        assert(ta[k] == ts[k]);
        lemma_embed_index_marker(ts, i, id, k + 1);
    } else {
        assert(ta[i] == TransformV::Animation);
        lemma_embed_index_shift(ts, i, id, i);
    }
}

proof fn lemma_patched_cell_marker(
    tag: TagV,
    ts: Seq<TransformV>,
    rs: Seq<ResourceV>,
    i: int,
    r: ResourceV,
    recolor: Seq<(Seq<char>, Seq<char>)>,
    ls: LabelStyle,
    wrapper: Option<Seq<char>>,
)
    requires
        0 <= i <= ts.len(),
        rs.len() == ts.len(),
    ensures
        patched_cell(tag, ts.insert(i, TransformV::Animation), rs.insert(i, r), recolor, ls, wrapper) == patched_cell(
            tag,
            ts,
            rs,
            recolor,
            ls,
            wrapper,
        ),
{
    let ta = ts.insert(i, TransformV::Animation);
    let ra = rs.insert(i, r);
    let id = cell_id(tag.attrs, wrapper);
    lemma_cell_fold_marker(tag.attrs, ts, rs, i, r, id, recolor, ls, 0);
    lemma_embed_index_marker(ts, i, id, 0);
    lemma_embed_index_range(ts, id, 0);
    match embed_index_from(ts, id, 0) {
        Some(j) => {
            if j < i {
                assert(ta[j] == ts[j] && ra[j] == rs[j]);
            } else {
                assert(ta[j + 1] == ts[j] && ra[j + 1] == rs[j]);
            }
        },
        None => {},
    }
}

proof fn lemma_render_step_marker(
    st: RenderV,
    tok: TokenV,
    ts: Seq<TransformV>,
    rs: Seq<ResourceV>,
    i: int,
    r: ResourceV,
    recolor: Seq<(Seq<char>, Seq<char>)>,
    ls: LabelStyle,
)
    requires
        0 <= i <= ts.len(),
        rs.len() == ts.len(),
    ensures
        render_step(st, tok, ts.insert(i, TransformV::Animation), rs.insert(i, r), recolor, ls) == render_step(
            st,
            tok,
            ts,
            rs,
            recolor,
            ls,
        ),
{
    match tok {
        TokenV::Start { tag, .. } => {
            lemma_wrapper_fold_marker(tag.attrs, ts, rs, i, r, wrapper_id(tag.attrs), ls, 0);
            lemma_patched_cell_marker(tag, ts, rs, i, r, recolor, ls, st.wrapper);
        },
        TokenV::Empty { tag, .. } => {
            lemma_patched_cell_marker(tag, ts, rs, i, r, recolor, ls, st.wrapper);
        },
        _ => {},
    }
}

proof fn lemma_render_marker(
    tokens: Seq<TokenV>,
    ts: Seq<TransformV>,
    rs: Seq<ResourceV>,
    i: int,
    r: ResourceV,
    recolor: Seq<(Seq<char>, Seq<char>)>,
    ls: LabelStyle,
)
    requires
        0 <= i <= ts.len(),
        rs.len() == ts.len(),
    ensures
        render_all(tokens, ts.insert(i, TransformV::Animation), rs.insert(i, r), recolor, ls) == render_all(
            tokens,
            ts,
            rs,
            recolor,
            ls,
        ),
    decreases tokens.len(),
{
    if tokens.len() > 0 {
        lemma_render_marker(tokens.drop_last(), ts, rs, i, r, recolor, ls);
        match render_all(tokens.drop_last(), ts, rs, recolor, ls) {
            Ok(st) => lemma_render_step_marker(st, tokens.last(), ts, rs, i, r, recolor, ls),
            Err(_) => {},
        }
    }
}

/// An Animation marker changes nothing in the document: with a marker
/// inserted at any position of the transform list (and any resource beside
/// it), the transformed document, or the error, is the same.
pub proof fn lemma_animation_marker_is_noop(
    xml: Seq<char>,
    ts: Seq<TransformV>,
    rs: Seq<ResourceV>,
    i: int,
    r: ResourceV,
    ref_size: Option<(u32, u32)>,
    ls: LabelStyle,
)
    requires
        0 <= i <= ts.len(),
        rs.len() == ts.len(),
    ensures
        transformed(xml, ts.insert(i, TransformV::Animation), ref_size, ls, rs.insert(i, r)) == transformed(
            xml,
            ts,
            ref_size,
            ls,
            rs,
        ),
{
    let ta = ts.insert(i, TransformV::Animation);
    lemma_effective_marker(ts, i);
    match document_tokens(xml) {
        Ok(tokens) => {
            lemma_refs_marker(ts, i);
            lemma_conflict_marker(ts, i, tagged_cells(tokens));
            let e = tag_entries(tokens);
            let rt = resolved_all(ts, e);
            assert(resolved_all(ta, e) =~= rt.insert(i, TransformV::Animation));
            lemma_recolor_marker(rt, i, document_edges(tokens));
            lemma_render_marker(tokens, rt, rs, i, r, recolor_pairs(rt, document_edges(tokens)), ls);
        },
        Err(_) => {},
    }
}

/// The transforms without their Animation markers, and the resources of the
/// transforms that stay, in order.
pub open spec fn without_markers(ts: Seq<TransformV>, rs: Seq<ResourceV>) -> (Seq<TransformV>, Seq<ResourceV>)
    decreases ts.len(),
{
    if ts.len() == 0 {
        (Seq::empty(), Seq::empty())
    } else {
        let (a, b) = without_markers(ts.drop_last(), rs.drop_last());
        if ts.last() is Animation {
            (a, b)
        } else {
            (a.push(ts.last()), b.push(rs.last()))
        }
    }
}

proof fn lemma_without_markers_remove(ts: Seq<TransformV>, rs: Seq<ResourceV>, i: int)
    requires
        0 <= i < ts.len(),
        rs.len() == ts.len(),
        ts[i] is Animation,
    ensures
        without_markers(ts.remove(i), rs.remove(i)) == without_markers(ts, rs),
    decreases ts.len(),
{
    if i == ts.len() - 1 {
        assert(ts.remove(i) =~= ts.drop_last());
        assert(rs.remove(i) =~= rs.drop_last());
    } else {
        assert(ts.remove(i).drop_last() =~= ts.drop_last().remove(i));
        assert(rs.remove(i).drop_last() =~= rs.drop_last().remove(i));
        assert(ts.remove(i).last() == ts.last());
        assert(rs.remove(i).last() == rs.last());
        lemma_without_markers_remove(ts.drop_last(), rs.drop_last(), i);
    }
}

proof fn lemma_without_markers_none(ts: Seq<TransformV>, rs: Seq<ResourceV>)
    requires
        rs.len() == ts.len(),
        forall|i: int| 0 <= i < ts.len() ==> !(#[trigger] ts[i] is Animation),
    ensures
        without_markers(ts, rs) == (ts, rs),
    decreases ts.len(),
{
    if ts.len() > 0 {
        assert(!(ts[ts.len() - 1] is Animation));
        lemma_without_markers_none(ts.drop_last(), rs.drop_last());
        assert(ts.drop_last().push(ts.last()) =~= ts);
        assert(rs.drop_last().push(rs.last()) =~= rs);
    }
}

/// Animation markers never change the document: with every marker taken
/// out of the transform list (and the resources beside them), the
/// transformed document, or the error, is the same.
pub proof fn lemma_animation_markers_are_noop(
    xml: Seq<char>,
    ts: Seq<TransformV>,
    rs: Seq<ResourceV>,
    ref_size: Option<(u32, u32)>,
    ls: LabelStyle,
)
    requires
        rs.len() == ts.len(),
    ensures
        transformed(xml, ts, ref_size, ls, rs) == transformed(
            xml,
            without_markers(ts, rs).0,
            ref_size,
            ls,
            without_markers(ts, rs).1,
        ),
    decreases ts.len(),
{
    if exists|i: int| 0 <= i < ts.len() && #[trigger] ts[i] is Animation {
        let i = choose|i: int| 0 <= i < ts.len() && #[trigger] ts[i] is Animation;
        let t2 = ts.remove(i);
        let r2 = rs.remove(i);
        assert(t2.insert(i, TransformV::Animation) =~= ts);
        assert(r2.insert(i, rs[i]) =~= rs);
        lemma_animation_marker_is_noop(xml, t2, r2, i, rs[i], ref_size, ls);
        lemma_without_markers_remove(ts, rs, i);
        lemma_animation_markers_are_noop(xml, t2, r2, ref_size, ls);
    } else {
        lemma_without_markers_none(ts, rs);
    }
}

/// A character that may stand unescaped in a double-quoted XML attribute
/// value as a label: no double quote, angle bracket, newline or carriage
/// return.
pub open spec fn attribute_safe(c: char) -> bool {
    c != '"' && c != '<' && c != '>' && c != '\n' && c != '\r'
}

proof fn lemma_escape_safe(s: Seq<char>)
    ensures
        forall|i: int| 0 <= i < escape_attr(s).len() ==> attribute_safe(#[trigger] escape_attr(s)[i]),
    decreases s.len(),
{
    if s.len() > 0 {
        lemma_escape_safe(s.drop_last());
        reveal_strlit("&amp;");
        reveal_strlit("&quot;");
        reveal_strlit("&lt;");
        reveal_strlit("&gt;");
        reveal_strlit("&#xa;");
        let a = escape_attr(s.drop_last());
        let b = escape_char(s.last());
        assert forall|j: int| 0 <= j < b.len() implies attribute_safe(#[trigger] b[j]) by {}
        assert forall|i: int| 0 <= i < escape_attr(s).len() implies attribute_safe(#[trigger] escape_attr(s)[i]) by {
            if i < a.len() {
                assert(escape_attr(s)[i] == a[i]);
            } else {
                assert(escape_attr(s)[i] == b[i - a.len()]);
            }
        }
    }
}

/// A label made from Markdown is escaped for an XML attribute value: it
/// holds no double quote, angle bracket, newline or carriage return.
pub proof fn lemma_label_is_attribute_safe(text: Seq<char>, heading_margin_bottom: nat, list_item_spacing: nat, list_item_indent: nat)
    ensures
        forall|i: int|
            0 <= i < markdown_label(text, heading_margin_bottom, list_item_spacing, list_item_indent).len()
                ==> attribute_safe(
                #[trigger] markdown_label(text, heading_margin_bottom, list_item_spacing, list_item_indent)[i],
            ),
{
    lemma_escape_safe(trim(spaced_html(markdown_html(text), heading_margin_bottom, list_item_spacing, list_item_indent)));
}

/// A title slide is made from its text and the reference size alone: the
/// document and the resources it is given do not matter.
pub proof fn lemma_title_slide_ignores_document(
    xml1: Seq<char>,
    xml2: Seq<char>,
    ts: Seq<TransformV>,
    ref_size: Option<(u32, u32)>,
    ls: LabelStyle,
    rs1: Seq<ResourceV>,
    rs2: Seq<ResourceV>,
)
    requires
        effective(ts).len() == 1,
        effective(ts)[0] is TitleSlide,
    ensures
        transformed(xml1, ts, ref_size, ls, rs1) == transformed(xml2, ts, ref_size, ls, rs2),
{
}

/// Two texts that agree on their first `n` characters have the same
/// occurrences of `pat` inside those characters.
proof fn lemma_occurs_in_common_prefix(s: Seq<char>, t: Seq<char>, pat: Seq<char>, q: int, n: int)
    requires
        0 <= q,
        q + pat.len() <= n,
        n <= s.len(),
        n <= t.len(),
        forall|i: int| 0 <= i < n ==> s[i] == t[i],
    ensures
        occurs_at(s, pat, q) == occurs_at(t, pat, q),
{
    assert(s.subrange(q, q + pat.len()) =~= t.subrange(q, q + pat.len()));
}

/// A value holding no `;` that is followed by a `;` or by the end of the
/// text ends where that `;` or the end is.
proof fn lemma_value_end_after(s1: Seq<char>, a: int, v: Seq<char>)
    requires
        0 <= a,
        a + v.len() <= s1.len(),
        s1.subrange(a, a + v.len()) == v,
        !v.contains(';'),
        a + v.len() == s1.len() || s1[a + v.len()] == ';',
    ensures
        value_end(s1, a) == a + v.len(),
{
    let e = a + v.len();
    assert forall|j: int| a <= j < e implies !occurs_at(s1, seq![';'], j) by {
        if occurs_at(s1, seq![';'], j) {
            assert(s1.subrange(j, j + 1)[0] == ';');
            assert(v[j - a] == s1.subrange(a, e)[j - a]);
            assert(v.contains(';'));
        }
    }
    if e < s1.len() {
        assert(s1.subrange(e, e + 1) =~= seq![';']);
        lemma_find_from_unique(s1, seq![';'], a, e);
    } else {
        assert forall|j: int| a <= j implies !occurs_at(s1, seq![';'], j) by {}
        lemma_find_from_none(s1, seq![';'], a);
    }
}

/// Patching a style token again leaves only what the second patch wrote:
/// with a key and a first value that hold no `;`, the first value is
/// replaced where it was put, or where it was appended.
pub proof fn lemma_patch_last_write_wins(s: Seq<char>, k: Seq<char>, v1: Seq<char>, v2: Seq<char>)
    requires
        !k.contains(';'),
        !v1.contains(';'),
    ensures
        patched_style(patched_style(s, k, v1), k, v2) == patched_style(s, k, v2),
{
    let pat = token_prefix(k);
    let m = pat.len() as int;
    assert(!pat.contains(';')) by {
        if pat.contains(';') {
            let i = choose|i: int| 0 <= i < pat.len() && pat[i] == ';';
            if i < k.len() {
                assert(k[i] == ';');
            }
        }
    }
    lemma_find_from(s, pat, 0);
    let s1 = patched_style(s, k, v1);
    match find(s, pat) {
        Some(p) => {
            let a = p + k.len() + 1;
            let e = value_end(s, a);
            lemma_find_from(s, seq![';'], a);
            assert(a <= e <= s.len());
            assert(s1 == s.take(a) + v1 + s.skip(e));
            assert forall|i: int| 0 <= i < a implies s1[i] == s[i] by {}
            assert forall|j: int| 0 <= j < p implies !occurs_at(s1, pat, j) by {
                lemma_occurs_in_common_prefix(s1, s, pat, j, a);
            }
            lemma_occurs_in_common_prefix(s1, s, pat, p, a);
            lemma_find_from_unique(s1, pat, 0, p);
            assert(s1.subrange(a, a + v1.len()) =~= v1);
            if e < s.len() {
                assert(s[e] == ';') by {
                    assert(occurs_at(s, seq![';'], e));
                    assert(s.subrange(e, e + 1)[0] == s[e]);
                }
                assert(s1[a + v1.len()] == s[e]);
            }
            lemma_value_end_after(s1, a, v1);
            assert(s1.take(a) =~= s.take(a));
            assert(s1.skip(a + v1.len()) =~= s.skip(e));
        },
        None => {
            let sep: Seq<char> = if s.len() > 0 && s.last() == ';' {
                Seq::empty()
            } else {
                seq![';']
            };
            let q0: int = (s.len() + sep.len()) as int;
            assert(s1 =~= s + sep + k + seq!['='] + v1 + seq![';']);
            assert(s1.subrange(q0, q0 + m) =~= pat);
            assert forall|j: int| 0 <= j < q0 implies !occurs_at(s1, pat, j) by {
                if j + m <= s.len() {
                    assert forall|i: int| 0 <= i < s.len() implies s1[i] == s[i] by {}
                    lemma_occurs_in_common_prefix(s1, s, pat, j, s.len() as int);
                } else if occurs_at(s1, pat, j) {
                    let pos = if sep.len() == 0 {
                        s.len() - 1
                    } else {
                        s.len() as int
                    };
                    assert(j <= pos < j + m);
                    assert(s1[pos] == ';');
                    assert(s1.subrange(j, j + m)[pos - j] == s1[pos]);
                    assert(pat[pos - j] == ';');
                    assert(pat.contains(';'));
                }
            }
            lemma_find_from_unique(s1, pat, 0, q0);
            let a = q0 + m;
            assert(s1.subrange(a, a + v1.len()) =~= v1);
            assert(s1[a + v1.len()] == ';');
            lemma_value_end_after(s1, a, v1);
            assert(s1.take(a) + v2 + s1.skip(a + v1.len()) =~= append_token(s, k, v2));
        },
    }
}

/// Patching a style token twice with the same value is patching it once,
/// for a key and a value that hold no `;`.
pub proof fn lemma_patch_idempotent(s: Seq<char>, k: Seq<char>, v: Seq<char>)
    requires
        !k.contains(';'),
        !v.contains(';'),
    ensures
        patched_style(patched_style(s, k, v), k, v) == patched_style(s, k, v),
{
    lemma_patch_last_write_wins(s, k, v, v);
}

/// Whether transform `t` names the cell `id`: lists it among its tags or
/// targets, or, for a ColorEdges transform, recolors it (`recolor` holds the
/// (color, edge id) pairs that ColorEdges transforms recolor).
pub open spec fn names_cell(t: TransformV, id: Seq<char>, recolor: Seq<(Seq<char>, Seq<char>)>) -> bool {
    match t {
        TransformV::Color { tags, .. } => tags.contains(id),
        TransformV::ColorEdges { color, .. } => recolor.contains((color, id)),
        TransformV::ElementVisibility { show, hide } => show.contains(id) || hide.contains(id),
        TransformV::ReplaceText { tag, .. } => tag == id,
        TransformV::ImportMarkdown { tag, .. } => tag == id,
        TransformV::ArrowVisibility { tags, .. } => tags.contains(id),
        TransformV::ShapeAttributes { tags, .. } => tags.contains(id),
        TransformV::EdgeAttributes { tags, .. } => tags.contains(id),
        TransformV::EmbedImage { tag, .. } => tag == id,
        _ => false,
    }
}

proof fn lemma_cell_fold_untouched(
    attrs: Seq<(Seq<char>, Seq<char>)>,
    ts: Seq<TransformV>,
    rs: Seq<ResourceV>,
    id: Seq<char>,
    recolor: Seq<(Seq<char>, Seq<char>)>,
    ls: LabelStyle,
    k: int,
)
    requires
        0 <= k,
        forall|j: int| k <= j < ts.len() ==> !names_cell(#[trigger] ts[j], id, recolor),
    ensures
        cell_fold(attrs, ts, rs, id, recolor, ls, k) == Ok::<Seq<(Seq<char>, Seq<char>)>, Seq<char>>(attrs),
        embed_index_from(ts, id, k) is None,
    decreases ts.len() - k,
{
    if k < ts.len() {
        assert(!names_cell(ts[k], id, recolor));
        lemma_cell_fold_untouched(attrs, ts, rs, id, recolor, ls, k + 1);
    }
}

proof fn lemma_wrapper_fold_untouched(
    attrs: Seq<(Seq<char>, Seq<char>)>,
    ts: Seq<TransformV>,
    rs: Seq<ResourceV>,
    id: Seq<char>,
    ls: LabelStyle,
    k: int,
)
    requires
        0 <= k,
        forall|j: int| k <= j < ts.len() ==> !names_cell(#[trigger] ts[j], id, Seq::empty()),
    ensures
        wrapper_fold(attrs, ts, rs, id, ls, k) == Ok::<Seq<(Seq<char>, Seq<char>)>, Seq<char>>(attrs),
    decreases ts.len() - k,
{
    if k < ts.len() {
        assert(!names_cell(ts[k], id, Seq::empty()));
        lemma_wrapper_fold_untouched(attrs, ts, rs, id, ls, k + 1);
    }
}

/// A cell that no transform names is left exactly as it is, and its
/// geometry is not touched, whatever the resources hold.
pub proof fn lemma_unnamed_cell_unchanged(
    tag: TagV,
    ts: Seq<TransformV>,
    rs: Seq<ResourceV>,
    recolor: Seq<(Seq<char>, Seq<char>)>,
    ls: LabelStyle,
    wrapper: Option<Seq<char>>,
)
    requires
        forall|j: int| 0 <= j < ts.len() ==> !names_cell(#[trigger] ts[j], cell_id(tag.attrs, wrapper), recolor),
    ensures
        patched_cell(tag, ts, rs, recolor, ls, wrapper) == Ok::<(TagV, GeometryV), Seq<char>>((tag, None)),
{
    lemma_cell_fold_untouched(tag.attrs, ts, rs, cell_id(tag.attrs, wrapper), recolor, ls, 0);
}

/// A cell wrapper that no transform names keeps its label: it is left
/// exactly as it is, whatever the resources hold.
pub proof fn lemma_unnamed_wrapper_unchanged(tag: TagV, ts: Seq<TransformV>, rs: Seq<ResourceV>, ls: LabelStyle)
    requires
        forall|j: int| 0 <= j < ts.len() ==> !names_cell(#[trigger] ts[j], wrapper_id(tag.attrs), Seq::empty()),
    ensures
        patched_wrapper(tag, ts, rs, ls) == Ok::<TagV, Seq<char>>(tag),
{
    lemma_wrapper_fold_untouched(tag.attrs, ts, rs, wrapper_id(tag.attrs), ls, 0);
}

/// Text without a line break.
pub open spec fn no_line_break(s: Seq<char>) -> bool {
    forall|i: int| 0 <= i < s.len() ==> s[i] != '\n' && s[i] != '\r'
}

/// Text without a space or a line break, as a digest is written.
pub open spec fn digest_like(s: Seq<char>) -> bool {
    forall|i: int| 0 <= i < s.len() ==> s[i] != ' ' && s[i] != '\n' && s[i] != '\r'
}

/// A line that `str::lines` gives back as it is: no `\n` in it, and no
/// `\r` at its end.
spec fn kept_line(l: Seq<char>) -> bool {
    &&& forall|i: int| 0 <= i < l.len() ==> l[i] != '\n'
    &&& l.len() > 0 ==> l.last() != '\r'
}

/// Lines each followed by a newline.
spec fn terminated(ls: Seq<Seq<char>>) -> Seq<char>
    decreases ls.len(),
{
    if ls.len() == 0 {
        Seq::empty()
    } else {
        ls[0] + seq!['\n'] + terminated(ls.skip(1))
    }
}

proof fn lemma_terminated_push(ls: Seq<Seq<char>>, x: Seq<char>)
    ensures
        terminated(ls.push(x)) == terminated(ls) + x + seq!['\n'],
    decreases ls.len(),
{
    if ls.len() == 0 {
        let a = ls.push(x);
        assert(a.skip(1) =~= Seq::<Seq<char>>::empty());
        assert(a[0] == x);
        assert(terminated(a.skip(1)) == Seq::<char>::empty());
        assert(terminated(ls) == Seq::<char>::empty());
        assert(terminated(a) == a[0] + seq!['\n'] + terminated(a.skip(1)));
        assert(terminated(a) =~= terminated(ls) + x + seq!['\n']);
    } else {
        let a = ls.push(x);
        assert(a.skip(1) =~= ls.skip(1).push(x));
        assert(a[0] == ls[0]);
        lemma_terminated_push(ls.skip(1), x);
        assert(terminated(a) == a[0] + seq!['\n'] + terminated(a.skip(1)));
        assert(terminated(a.skip(1)) == terminated(ls.skip(1)) + x + seq!['\n']);
        assert(terminated(ls) == ls[0] + seq!['\n'] + terminated(ls.skip(1)));
        assert(terminated(a) =~= terminated(ls) + x + seq!['\n']);
    }
}

proof fn lemma_join_terminated(ls: Seq<Seq<char>>)
    requires
        ls.len() > 0,
    ensures
        join(ls, "\n"@) + "\n"@ == terminated(ls),
    decreases ls.len(),
{
    reveal_strlit("\n");
    if ls.len() == 1 {
        assert(ls.skip(1) =~= Seq::<Seq<char>>::empty());
        assert(terminated(ls.skip(1)) == Seq::<char>::empty());
        assert("\n"@ =~= seq!['\n']);
        assert(join(ls, "\n"@) + "\n"@ =~= terminated(ls));
    } else {
        let init = ls.drop_last();
        lemma_join_terminated(init);
        lemma_terminated_push(init, ls.last());
        assert(init.push(ls.last()) =~= ls);
        assert("\n"@ =~= seq!['\n']);
        assert(join(ls, "\n"@) == join(init, "\n"@) + "\n"@ + ls.last());
        assert(join(init, "\n"@) + "\n"@ == terminated(init));
        assert(terminated(ls) == terminated(init) + ls.last() + seq!['\n']);
        assert(join(ls, "\n"@) + "\n"@ =~= terminated(ls));
    }
}

/// Splitting newline-terminated lines at `\n` gives the lines and an empty
/// last piece.
proof fn lemma_split_terminated(s: Seq<char>, from: int, ls: Seq<Seq<char>>)
    requires
        0 <= from <= s.len(),
        s.subrange(from, s.len() as int) == terminated(ls),
        forall|k: int| 0 <= k < ls.len() ==> kept_line(#[trigger] ls[k]),
    ensures
        split_from(s, '\n', from) == ls.push(Seq::<char>::empty()),
    decreases ls.len(),
{
    if ls.len() == 0 {
        assert(s.subrange(from, s.len() as int).len() == 0);
        assert(s.subrange(from, s.len() as int) =~= Seq::<char>::empty());
        assert(split_from(s, '\n', from) =~= ls.push(Seq::<char>::empty()));
    } else {
        let first = ls[0];
        let i = from + first.len();
        let t = s.subrange(from, s.len() as int);
        assert(kept_line(ls[0]));
        assert(t == first + seq!['\n'] + terminated(ls.skip(1)));
        assert(t.len() == s.len() - from);
        assert(i < s.len());
        assert(s[i] == t[first.len() as int]);
        assert(occurs_at(s, seq!['\n'], i)) by {
            assert(s.subrange(i, i + 1) =~= seq!['\n']);
        }
        assert forall|j: int| from <= j < i implies !occurs_at(s, seq!['\n'], j) by {
            assert(s[j] == t[j - from]);
            assert(t[j - from] == first[j - from]);
            if occurs_at(s, seq!['\n'], j) {
                assert(s.subrange(j, j + 1)[0] == s[j]);
            }
        }
        lemma_find_from_unique(s, seq!['\n'], from, i);
        assert(s.subrange(from, i) =~= first);
        assert(t.subrange(first.len() as int + 1, t.len() as int) =~= terminated(ls.skip(1)));
        assert(s.subrange(i + 1, s.len() as int) =~= t.subrange(first.len() as int + 1, t.len() as int));
        assert forall|k: int| 0 <= k < ls.skip(1).len() implies kept_line(#[trigger] ls.skip(1)[k]) by {
            assert(ls.skip(1)[k] == ls[k + 1]);
        }
        lemma_split_terminated(s, i + 1, ls.skip(1));
        assert(split_from(s, '\n', from) =~= ls.push(Seq::<char>::empty()));
    }
}

/// A digest recorded among digests without spaces or line breaks has none.
proof fn lemma_recorded_digest_like(digests: Seq<(Seq<char>, Seq<char>)>, o: Seq<char>)
    requires
        forall|k: int| 0 <= k < digests.len() ==> digest_like(#[trigger] digests[k].1),
    ensures
        recorded_digest(digests, o) matches Some(d) ==> digest_like(d),
    decreases digests.len(),
{
    if digests.len() > 0 {
        assert(digest_like(digests[digests.len() - 1].1));
        lemma_recorded_digest_like(digests.drop_last(), o);
    }
}

/// The line of one output reads back as its (output, digest).
proof fn lemma_digest_line(d: Seq<char>, o: Seq<char>)
    requires
        digest_like(d),
        no_line_break(o),
    ensures
        digest_entry(d + "  "@ + o) == Some((o, d)),
        kept_line(d + "  "@ + o),
{
    reveal_strlit("  ");
    let line = d + "  "@ + o;
    let n = d.len() as int;
    assert(occurs_at(line, "  "@, n)) by {
        assert(line.subrange(n, n + 2) =~= "  "@);
    }
    assert forall|j: int| 0 <= j < n implies !occurs_at(line, "  "@, j) by {
        if occurs_at(line, "  "@, j) {
            assert(line.subrange(j, j + 2)[0] == line[j]);
            assert(line[j] == d[j]);
        }
    }
    lemma_find_from_unique(line, "  "@, 0, n);
    assert(line.skip(n + 2) =~= o);
    assert(line.take(n) =~= d);
    assert forall|i: int| 0 <= i < line.len() implies line[i] != '\n' by {
        if i < n {
            assert(line[i] == d[i]);
        } else if i >= n + 2 {
            assert(line[i] == o[i - n - 2]);
        }
    }
    if o.len() > 0 {
        assert(line.last() == o[o.len() - 1]);
    }
}

/// The lines of the digest file read back as the digests recorded for the
/// outputs, and each is kept as it is by `str::lines`.
proof fn lemma_digest_lines_read_back(outputs: Seq<Seq<char>>, digests: Seq<(Seq<char>, Seq<char>)>, o: Seq<char>)
    requires
        forall|k: int| 0 <= k < digests.len() ==> digest_like(#[trigger] digests[k].1),
        forall|j: int| 0 <= j < outputs.len() ==> no_line_break(#[trigger] outputs[j]),
    ensures
        forall|k: int|
            0 <= k < digest_lines(outputs, digests).len() ==> kept_line(#[trigger] digest_lines(outputs, digests)[k]),
        recorded_digest(digest_entries(digest_lines(outputs, digests)), o) == (if outputs.contains(o) {
            recorded_digest(digests, o)
        } else {
            None
        }),
    decreases outputs.len(),
{
    if outputs.len() > 0 {
        let rest = outputs.drop_last();
        let x = outputs.last();
        assert forall|j: int| 0 <= j < rest.len() implies no_line_break(#[trigger] rest[j]) by {
            assert(rest[j] == outputs[j]);
        }
        lemma_digest_lines_read_back(rest, digests, o);
        let lines0 = digest_lines(rest, digests);
        assert(no_line_break(outputs[outputs.len() - 1]));
        assert(outputs.contains(o) <==> (rest.contains(o) || x == o)) by {
            if outputs.contains(o) {
                let j = choose|j: int| 0 <= j < outputs.len() && outputs[j] == o;
                if j < rest.len() {
                    assert(rest[j] == o);
                }
            }
            if rest.contains(o) {
                let j = choose|j: int| 0 <= j < rest.len() && rest[j] == o;
                assert(outputs[j] == o);
            }
            if x == o {
                assert(outputs[outputs.len() - 1] == o);
            }
        }
        lemma_recorded_digest_like(digests, x);
        match recorded_digest(digests, x) {
            Some(d) => {
                let line = d + "  "@ + x;
                lemma_digest_line(d, x);
                assert(digest_lines(outputs, digests) == lines0.push(line));
                assert(lines0.push(line).drop_last() =~= lines0);
                assert(digest_entries(lines0.push(line)) == digest_entries(lines0).push((x, d)));
                assert(digest_entries(lines0).push((x, d)).drop_last() =~= digest_entries(lines0));
            },
            None => {
                assert(digest_lines(outputs, digests) == lines0);
            },
        }
    }
}

/// What the next run reads back of the digest file is what this run
/// recorded: for every output, the digest that reading the file gives it
/// is the last one computed for it when it is a step of the configuration,
/// and there is none otherwise. Digests hold no space or line break, and
/// outputs no line break.
pub proof fn lemma_digest_file_round_trip(outputs: Seq<Seq<char>>, digests: Seq<(Seq<char>, Seq<char>)>, o: Seq<char>)
    requires
        forall|k: int| 0 <= k < digests.len() ==> digest_like(#[trigger] digests[k].1),
        forall|j: int| 0 <= j < outputs.len() ==> no_line_break(#[trigger] outputs[j]),
    ensures
        recorded_digest(digest_entries(text_lines(digest_file(outputs, digests))), o) == (if outputs.contains(o) {
            recorded_digest(digests, o)
        } else {
            None
        }),
{
    reveal_strlit("\n");
    reveal_strlit("  ");
    let lines = digest_lines(outputs, digests);
    let file = digest_file(outputs, digests);
    lemma_digest_lines_read_back(outputs, digests, o);
    if lines.len() == 0 {
        assert(file =~= seq!['\n']);
        assert(occurs_at(file, seq!['\n'], 0)) by {
            assert(file.subrange(0, 1) =~= seq!['\n']);
        }
        lemma_find_from_unique(file, seq!['\n'], 0, 0);
        assert(file.subrange(1, 1) =~= Seq::<char>::empty());
        assert(file.subrange(0, 0) =~= Seq::<char>::empty());
        assert(split_from(file, '\n', 1) =~= seq![Seq::<char>::empty()]);
        assert(split_from(file, '\n', 0) =~= seq![Seq::<char>::empty(), Seq::<char>::empty()]);
        let one = text_lines(file);
        assert(one =~= seq![Seq::<char>::empty()]);
        assert(find_from(Seq::<char>::empty(), "  "@, 0) is None);
        assert(one.drop_last() =~= Seq::<Seq<char>>::empty());
        assert(one.last() =~= Seq::<char>::empty());
        assert(find(one.last(), "  "@) is None);
        assert(digest_entry(one.last()) is None);
        assert(one.drop_last() == Seq::<Seq<char>>::empty());
        assert(digest_entries(Seq::<Seq<char>>::empty()) =~= Seq::<(Seq<char>, Seq<char>)>::empty());
        assert(digest_entries(one) == digest_entries(one.drop_last()));
        assert(digest_entries(one) =~= Seq::<(Seq<char>, Seq<char>)>::empty());
    } else {
        lemma_join_terminated(lines);
        assert(file.subrange(0, file.len() as int) =~= file);
        lemma_split_terminated(file, 0, lines);
        let pieces = split_from(file, '\n', 0);
        assert(pieces.drop_last() =~= lines);
        assert(text_lines(file) =~= lines);
    }
}

// ---------------------------------------------------------------------------
// What single transforms and plans do.

/// The items of a flattened list count up: in a numbered list the item at
/// position `k` (from 0) is the indent, the number `k + 1`, `. ` and the
/// item; in a bullet list it is the indent, `• ` and the item. There is one
/// line per item.
pub proof fn lemma_list_items_count_up(items: Seq<Seq<char>>, indent: Seq<char>, k: int)
    requires
        0 <= k < items.len(),
    ensures
        format_items(items, true, indent).len() == items.len(),
        format_items(items, false, indent).len() == items.len(),
        format_items(items, true, indent)[k] == indent + decimal((k + 1) as nat) + ". "@ + items[k],
        format_items(items, false, indent)[k] == indent + "• "@ + items[k],
{
}

/// The frames of a section grow one transform at a time, in order: there
/// is one frame more than transforms, the first applies none, the last
/// applies the whole section, and frame `k + 1` is frame `k` followed by
/// the section's transform `k`.
pub proof fn lemma_frames_grow_in_order(section: Seq<TransformV>, k: int)
    requires
        0 <= k < section.len(),
    ensures
        frame_plan(section).len() == section.len() + 1,
        frame_plan(section)[0] == Seq::<TransformV>::empty(),
        frame_plan(section)[section.len() as int] == section,
        frame_plan(section)[k + 1] == frame_plan(section)[k].push(section[k]),
{
    assert(section.take(0) =~= Seq::<TransformV>::empty());
    assert(section.take(section.len() as int) =~= section);
    assert(section.take(k + 1) =~= section.take(k).push(section[k]));
}

proof fn lemma_key_index_update(attrs: Seq<(Seq<char>, Seq<char>)>, key: Seq<char>, value: Seq<char>, i: int, j: int)
    requires
        0 <= j <= i < attrs.len(),
        key_index_from(attrs, key, j) == Some(i),
    ensures
        key_index_from(attrs.update(i, (key, value)), key, j) == Some(i),
    decreases i - j,
{
    let a2 = attrs.update(i, (key, value));
    if j < i {
        assert(attrs[j].0 != key);
        assert(a2[j] == attrs[j]);
        lemma_key_index_update(attrs, key, value, i, j + 1);
    } else {
        assert(a2[i].0 == key);
    }
}

proof fn lemma_key_index_push(attrs: Seq<(Seq<char>, Seq<char>)>, key: Seq<char>, value: Seq<char>, j: int)
    requires
        0 <= j <= attrs.len(),
        key_index_from(attrs, key, j) is None,
    ensures
        key_index_from(attrs.push((key, value)), key, j) == Some(attrs.len() as int),
    decreases attrs.len() - j,
{
    if j < attrs.len() {
        lemma_key_index_push(attrs, key, value, j + 1);
    }
}

/// Setting an attribute makes it read back: afterwards the attribute named
/// `key` has the value `value`, whether it was there or added.
proof fn lemma_set_attr_reads_back(attrs: Seq<(Seq<char>, Seq<char>)>, key: Seq<char>, value: Seq<char>)
    ensures
        attr_value(set_attr(attrs, key, value), key) == Some(value),
{
    match key_index(attrs, key) {
        Some(i) => {
            lemma_key_index_from_range(attrs, key, 0);
            lemma_key_index_update(attrs, key, value, i, 0);
        },
        None => {
            lemma_key_index_push(attrs, key, value, 0);
        },
    }
}

proof fn lemma_key_index_from_range(attrs: Seq<(Seq<char>, Seq<char>)>, key: Seq<char>, i: int)
    requires
        0 <= i,
    ensures
        key_index_from(attrs, key, i) matches Some(j) ==> i <= j < attrs.len() && attrs[j].0 == key,
    decreases attrs.len() - i,
{
    if i < attrs.len() && attrs[i].0 != key {
        lemma_key_index_from_range(attrs, key, i + 1);
    }
}

/// Showing a cell makes it visible and hiding one makes it invisible: after
/// an ElementVisibility transform whose `show` list names the cell, its
/// `visible` attribute is `1`; when only the `hide` list names it, `0`.
/// Either way the attribute is set if present and added otherwise. A cell
/// that neither list names is left as it is.
pub proof fn lemma_visibility_is_set(
    attrs: Seq<(Seq<char>, Seq<char>)>,
    show: Seq<Seq<char>>,
    hide: Seq<Seq<char>>,
    r: ResourceV,
    id: Seq<char>,
    recolor: Seq<(Seq<char>, Seq<char>)>,
    ls: LabelStyle,
)
    ensures
        show.contains(id) ==> (cell_step(attrs, TransformV::ElementVisibility { show, hide }, r, id, recolor, ls) matches Ok(
            a,
        ) && attr_value(a, "visible"@) == Some("1"@)),
        !show.contains(id) && hide.contains(id) ==> (cell_step(
            attrs,
            TransformV::ElementVisibility { show, hide },
            r,
            id,
            recolor,
            ls,
        ) matches Ok(a) && attr_value(a, "visible"@) == Some("0"@)),
        !show.contains(id) && !hide.contains(id) ==> cell_step(
            attrs,
            TransformV::ElementVisibility { show, hide },
            r,
            id,
            recolor,
            ls,
        ) == Ok::<Seq<(Seq<char>, Seq<char>)>, Seq<char>>(attrs),
{
    lemma_set_attr_reads_back(attrs, "visible"@, "1"@);
    lemma_set_attr_reads_back(attrs, "visible"@, "0"@);
}

/// The edge color of an EdgeAttributes transform is drawn: on a cell it
/// names, with only `color` given, the style's `strokeColor` token is set
/// to that color (replaced where it is, appended otherwise), or, for a cell
/// without a style, the style becomes `strokeColor=color;`. Every other
/// attribute is left as it is.
pub proof fn lemma_edge_color_is_drawn(
    attrs: Seq<(Seq<char>, Seq<char>)>,
    tags: Seq<Seq<char>>,
    c: Seq<char>,
    r: ResourceV,
    id: Seq<char>,
    recolor: Seq<(Seq<char>, Seq<char>)>,
    ls: LabelStyle,
)
    requires
        tags.contains(id),
    ensures
        ({
            let t = TransformV::EdgeAttributes {
                tags,
                text: None,
                color: Some(c),
                line_style: None,
                thickness: None,
                font_color: None,
                font_size: None,
                text_background: None,
                text_border_color: None,
                start_arrow: None,
                end_arrow: None,
            };
            cell_step(attrs, t, r, id, recolor, ls) matches Ok(a) && match key_index(attrs, "style"@) {
                Some(i) => a == attrs.update(i, (attrs[i].0, patched_style(attrs[i].1, "strokeColor"@, c))),
                None => a == attrs.push(("style"@, "strokeColor="@ + c + ";"@)),
            }
        }),
{
    reveal_strlit("strokeColor=");
    reveal_strlit(";");
    reveal_strlit("strokeColor");
    assert("strokeColor"@ + seq!['='] + c + seq![';'] =~= "strokeColor="@ + c + ";"@);
}

/// A title slide's text cell covers the whole slide: the background cell
/// that opens the document and the text cell that closes it have the same
/// geometry, the slide's width and height.
pub proof fn lemma_title_text_covers_slide(
    text: Seq<char>,
    width: nat,
    height: nat,
    heading_margin_bottom: nat,
    list_item_spacing: nat,
    list_item_indent: nat,
)
    ensures
        ({
            let x = title_slide_xml(text, width, height, heading_margin_bottom, list_item_spacing, list_item_indent);
            let size = decimal(width) + TITLE_HEIGHT@ + decimal(height);
            &&& starts_with(x, TITLE_HEAD@ + size + TITLE_LABEL@)
            &&& ends_with(x, TITLE_TEXT_WIDTH@ + size + TITLE_TAIL@)
        }),
{
    let x = title_slide_xml(text, width, height, heading_margin_bottom, list_item_spacing, list_item_indent);
    let size = decimal(width) + TITLE_HEIGHT@ + decimal(height);
    let head = TITLE_HEAD@ + size + TITLE_LABEL@;
    let tail = TITLE_TEXT_WIDTH@ + size + TITLE_TAIL@;
    assert(x.take(head.len() as int) =~= head);
    assert(x.skip(x.len() - tail.len()) =~= tail);
}

} // verus!
