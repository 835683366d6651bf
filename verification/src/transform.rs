//! Applying a list of transforms to a draw.io document.
use vstd::prelude::*;
use vstd::string::*;

use crate::cell::opt_chars;

use crate::model::{Transform, TransformV, copy_opt, strs, transforms_view};
use crate::text::{chars_eq, from_chars, split_chars, split_from, to_chars, trim, trim_chars};
use crate::xml::{TagV, TokenV, XmlToken, pairs_view, tokens_view};

verus! {

/// Names of the elements draw.io uses as cell wrappers carrying `id` and
/// `tags` attributes.
pub open spec fn is_wrapper_name(name: Seq<char>) -> bool {
    name == "UserObject"@ || name == "object"@
}

/// Returns true for XML element names that draw.io uses as cell wrappers
/// (`UserObject` and `object`).
pub fn is_cell_wrapper(name: &Vec<char>) -> (r: bool)
    ensures
        r == is_wrapper_name(name@),
{
    let u = to_chars("UserObject");
    let o = to_chars("object");
    chars_eq(name, &u) || chars_eq(name, &o)
}

/// The value of the last attribute named `key` (attributes read in order,
/// each overriding the one before).
pub open spec fn last_value(attrs: Seq<(Seq<char>, Seq<char>)>, key: Seq<char>) -> Option<Seq<char>>
    decreases attrs.len(),
{
    if attrs.len() == 0 {
        None
    } else if attrs.last().0 == key {
        Some(attrs.last().1)
    } else {
        last_value(attrs.drop_last(), key)
    }
}

pub fn last_value_exec(attrs: &Vec<(Vec<char>, Vec<char>)>, key: &str) -> (r: Option<Vec<char>>)
    ensures
        opt_chars(r) == last_value(pairs_view(attrs@), key@),
{
    let k = to_chars(key);
    let ghost pv = pairs_view(attrs@);
    let mut r: Option<Vec<char>> = None;
    let n = attrs.len();
    for i in 0..n
        invariant
            n == attrs@.len(),
            pv == pairs_view(attrs@),
            k@ == key@,
            opt_chars(r) == last_value(pv.take(i as int), key@),
    {
        assert(pv.take(i + 1).drop_last() =~= pv.take(i as int));
        if chars_eq(&attrs[i].0, &k) {
            r = Some(attrs[i].1.clone());
        }
    }
    assert(pv.take(n as int) =~= pv);
    r
}

/// The trimmed, non-empty pieces of a list.
pub open spec fn nonempty_trimmed(ps: Seq<Seq<char>>) -> Seq<Seq<char>>
    decreases ps.len(),
{
    if ps.len() == 0 {
        Seq::empty()
    } else if trim(ps.last()).len() == 0 {
        nonempty_trimmed(ps.drop_last())
    } else {
        nonempty_trimmed(ps.drop_last()).push(trim(ps.last()))
    }
}

/// The tags of a comma-separated `tags` attribute: trimmed, empty ones dropped.
pub open spec fn tag_list(v: Seq<char>) -> Seq<Seq<char>> {
    nonempty_trimmed(split_from(v, ',', 0))
}

pub fn tag_list_exec(v: &Vec<char>) -> (r: Vec<Vec<char>>)
    ensures
        r@.map_values(|p: Vec<char>| p@) == tag_list(v@),
{
    let pieces = split_chars(v, ',');
    let ghost pv = pieces@.map_values(|p: Vec<char>| p@);
    let mut r: Vec<Vec<char>> = Vec::new();
    let n = pieces.len();
    for i in 0..n
        invariant
            n == pieces@.len(),
            pv == pieces@.map_values(|p: Vec<char>| p@),
            r@.map_values(|p: Vec<char>| p@) == nonempty_trimmed(pv.take(i as int)),
    {
        let ghost rv = r@.map_values(|p: Vec<char>| p@);
        assert(pv.take(i + 1).drop_last() =~= pv.take(i as int));
        let t = trim_chars(&pieces[i]);
        if t.len() > 0 {
            r.push(t);
            assert(r@.map_values(|p: Vec<char>| p@) =~= rv.push(trim(pv[i as int])));
        }
    }
    assert(pv.take(n as int) =~= pv);
    r
}

/// The tag of a start or empty-element token.
pub open spec fn token_tag(tok: TokenV) -> Option<TagV> {
    match tok {
        TokenV::Start { tag, .. } => Some(tag),
        TokenV::Empty { tag, .. } => Some(tag),
        _ => None,
    }
}

/// Each tag paired with `id`.
pub open spec fn with_id(tags: Seq<Seq<char>>, id: Seq<char>) -> Seq<(Seq<char>, Seq<char>)> {
    Seq::new(tags.len(), |i: int| (tags[i], id))
}

/// The (tag, id) entries of one wrapper: each of its tags with its id, when
/// it has both an `id` and a `tags` attribute.
pub open spec fn wrapper_tag_entries(tag: TagV) -> Seq<(Seq<char>, Seq<char>)> {
    match (last_value(tag.attrs, "id"@), last_value(tag.attrs, "tags"@)) {
        (Some(id), Some(tags)) => with_id(tag_list(tags), id),
        _ => Seq::empty(),
    }
}

/// The (tag, id) entries of a token: those of a wrapper tag, none otherwise.
pub open spec fn token_tag_entries(tok: TokenV) -> Seq<(Seq<char>, Seq<char>)> {
    match token_tag(tok) {
        Some(tag) => if is_wrapper_name(tag.name) {
            wrapper_tag_entries(tag)
        } else {
            Seq::empty()
        },
        None => Seq::empty(),
    }
}

/// Every (tag, id) entry of the document, in document order.
pub open spec fn tag_entries(tokens: Seq<TokenV>) -> Seq<(Seq<char>, Seq<char>)>
    decreases tokens.len(),
{
    if tokens.len() == 0 {
        Seq::empty()
    } else {
        tag_entries(tokens.drop_last()) + token_tag_entries(tokens.last())
    }
}

/// The ids that carry `tag`, in document order.
pub open spec fn ids_of_tag(entries: Seq<(Seq<char>, Seq<char>)>, tag: Seq<char>) -> Seq<Seq<char>>
    decreases entries.len(),
{
    if entries.len() == 0 {
        Seq::empty()
    } else if entries.last().0 == tag {
        ids_of_tag(entries.drop_last(), tag).push(entries.last().1)
    } else {
        ids_of_tag(entries.drop_last(), tag)
    }
}

/// Build the (tag, id) entries of every wrapper element (`UserObject` /
/// `object`): each tag of its comma-separated `tags` attribute maps to its id.
pub fn collect_tag_to_ids(tokens: &Vec<XmlToken>) -> (r: Vec<(Vec<char>, Vec<char>)>)
    ensures
        pairs_view(r@) == tag_entries(tokens_view(tokens@)),
{
    let ghost tv = tokens_view(tokens@);
    let mut r: Vec<(Vec<char>, Vec<char>)> = Vec::new();
    let n = tokens.len();
    for i in 0..n
        invariant
            n == tokens@.len(),
            tv == tokens_view(tokens@),
            pairs_view(r@) == tag_entries(tv.take(i as int)),
    {
        let ghost before = pairs_view(r@);
        assert(tv.take(i + 1).drop_last() =~= tv.take(i as int));
        let tag_opt = match &tokens[i] {
            XmlToken::Start { tag, .. } => Some(tag),
            XmlToken::Empty { tag, .. } => Some(tag),
            _ => None,
        };
        if let Some(tag) = tag_opt {
            if is_cell_wrapper(&tag.name) {
                let id = last_value_exec(&tag.attrs, "id");
                let tags = last_value_exec(&tag.attrs, "tags");
                if let (Some(id), Some(tags)) = (id, tags) {
                    let list = tag_list_exec(&tags);
                    let ghost lv = list@.map_values(|p: Vec<char>| p@);
                    let m = list.len();
                    for j in 0..m
                        invariant
                            m == list@.len(),
                            lv == list@.map_values(|p: Vec<char>| p@),
                            pairs_view(r@) == before + with_id(lv.take(j as int), id@),
                    {
                        let ghost prev = r@;
                        r.push((list[j].clone(), id.clone()));
                        assert(pairs_view(r@) =~= pairs_view(prev).push((lv[j as int], id@)));
                        assert(with_id(lv.take(j + 1), id@) =~= with_id(lv.take(j as int), id@).push((lv[j as int], id@)));
                    }
                    assert(lv.take(m as int) =~= lv);
                }
            }
        }
        assert(pairs_view(r@) =~= tag_entries(tv.take(i + 1)));
    }
    assert(tv.take(n as int) =~= tv);
    r
}

/// One reference expanded: a tag to all ids that carry it, anything else
/// (a plain cell id) to itself.
pub open spec fn expand_ref(entries: Seq<(Seq<char>, Seq<char>)>, s: Seq<char>) -> Seq<Seq<char>> {
    if ids_of_tag(entries, s).len() > 0 {
        ids_of_tag(entries, s)
    } else {
        seq![s]
    }
}

/// A list of references expanded, flattened in order.
pub open spec fn expand_refs(entries: Seq<(Seq<char>, Seq<char>)>, refs: Seq<Seq<char>>) -> Seq<Seq<char>>
    decreases refs.len(),
{
    if refs.len() == 0 {
        Seq::empty()
    } else {
        expand_refs(entries, refs.drop_last()) + expand_ref(entries, refs.last())
    }
}

/// A single-target reference resolved: the first id of the expansion.
pub open spec fn resolve_single(entries: Seq<(Seq<char>, Seq<char>)>, s: Seq<char>) -> Seq<char> {
    expand_ref(entries, s)[0]
}

/// A transform with every id-or-tag reference resolved to cell ids.
pub open spec fn resolved(t: TransformV, entries: Seq<(Seq<char>, Seq<char>)>) -> TransformV {
    match t {
        TransformV::Color { tags, color } => TransformV::Color { tags: expand_refs(entries, tags), color },
        TransformV::ColorEdges { exclude, color } => TransformV::ColorEdges {
            exclude: expand_refs(entries, exclude),
            color,
        },
        TransformV::ReplaceText { tag, text } => TransformV::ReplaceText {
            tag: resolve_single(entries, tag),
            text,
        },
        TransformV::ImportMarkdown { tag, file } => TransformV::ImportMarkdown {
            tag: resolve_single(entries, tag),
            file,
        },
        TransformV::ElementVisibility { show, hide } => TransformV::ElementVisibility {
            show: expand_refs(entries, show),
            hide: expand_refs(entries, hide),
        },
        TransformV::ArrowVisibility { tags, begin, end } => TransformV::ArrowVisibility {
            tags: expand_refs(entries, tags),
            begin,
            end,
        },
        TransformV::ShapeAttributes { tags, shape, fill_color, stroke_color, stroke_style, text, font_size } => {
            TransformV::ShapeAttributes {
                tags: expand_refs(entries, tags),
                shape,
                fill_color,
                stroke_color,
                stroke_style,
                text,
                font_size,
            }
        },
        TransformV::EdgeAttributes {
            tags,
            text,
            color,
            line_style,
            thickness,
            font_color,
            font_size,
            text_background,
            text_border_color,
            start_arrow,
            end_arrow,
        } => TransformV::EdgeAttributes {
            tags: expand_refs(entries, tags),
            text,
            color,
            line_style,
            thickness,
            font_color,
            font_size,
            text_background,
            text_border_color,
            start_arrow,
            end_arrow,
        },
        TransformV::EmbedImage { tag, file, width, height } => TransformV::EmbedImage {
            tag: resolve_single(entries, tag),
            file,
            width,
            height,
        },
        other => other,
    }
}

/// The ids carrying `tag`.
fn ids_of_tag_exec(entries: &Vec<(Vec<char>, Vec<char>)>, tag: &Vec<char>) -> (r: Vec<Vec<char>>)
    ensures
        r@.map_values(|p: Vec<char>| p@) == ids_of_tag(pairs_view(entries@), tag@),
{
    let ghost ev = pairs_view(entries@);
    let mut r: Vec<Vec<char>> = Vec::new();
    let n = entries.len();
    for i in 0..n
        invariant
            n == entries@.len(),
            ev == pairs_view(entries@),
            r@.map_values(|p: Vec<char>| p@) == ids_of_tag(ev.take(i as int), tag@),
    {
        let ghost rv = r@.map_values(|p: Vec<char>| p@);
        assert(ev.take(i + 1).drop_last() =~= ev.take(i as int));
        if chars_eq(&entries[i].0, tag) {
            r.push(entries[i].1.clone());
            assert(r@.map_values(|p: Vec<char>| p@) =~= rv.push(ev[i as int].1));
        }
    }
    assert(ev.take(n as int) =~= ev);
    r
}

/// One reference expanded.
fn expand_ref_exec(entries: &Vec<(Vec<char>, Vec<char>)>, s: &String) -> (r: Vec<Vec<char>>)
    ensures
        r@.map_values(|p: Vec<char>| p@) == expand_ref(pairs_view(entries@), s@),
{
    let sc = to_chars(s.as_str());
    let ids = ids_of_tag_exec(entries, &sc);
    if ids.len() > 0 {
        ids
    } else {
        let mut r: Vec<Vec<char>> = Vec::new();
        r.push(sc);
        assert(r@.map_values(|p: Vec<char>| p@) =~= seq![s@]);
        r
    }
}

/// A list of references expanded, as strings.
fn expand_refs_exec(entries: &Vec<(Vec<char>, Vec<char>)>, refs: &Vec<String>) -> (r: Vec<String>)
    ensures
        strs(r@) == expand_refs(pairs_view(entries@), strs(refs@)),
{
    let ghost ev = pairs_view(entries@);
    let ghost rv = strs(refs@);
    let mut r: Vec<String> = Vec::new();
    let n = refs.len();
    for i in 0..n
        invariant
            n == refs@.len(),
            ev == pairs_view(entries@),
            rv == strs(refs@),
            strs(r@) == expand_refs(ev, rv.take(i as int)),
    {
        let ghost before = strs(r@);
        assert(rv.take(i + 1).drop_last() =~= rv.take(i as int));
        assert(rv.take(i + 1).last() == refs@[i as int]@);
        let ids = expand_ref_exec(entries, &refs[i]);
        let ghost iv = ids@.map_values(|p: Vec<char>| p@);
        let m = ids.len();
        for j in 0..m
            invariant
                m == ids@.len(),
                iv == ids@.map_values(|p: Vec<char>| p@),
                strs(r@) == before + iv.take(j as int),
        {
            let s = from_chars(&ids[j]);
            let ghost prev = r@;
            r.push(s);
            assert(strs(r@) =~= strs(prev).push(iv[j as int]));
            assert(iv.take(j + 1) =~= iv.take(j as int).push(iv[j as int]));
            assert(strs(r@) =~= before + iv.take(j + 1));
        }
        assert(iv.take(m as int) =~= iv);
    }
    assert(rv.take(n as int) =~= rv);
    r
}

/// A single-target reference resolved.
fn resolve_single_exec(entries: &Vec<(Vec<char>, Vec<char>)>, s: &String) -> (r: String)
    ensures
        r@ == resolve_single(pairs_view(entries@), s@),
{
    let ids = expand_ref_exec(entries, s);
    assert(ids@.map_values(|p: Vec<char>| p@).len() == ids@.len());
    assert(ids@.len() > 0);
    assert(ids@[0]@ == ids@.map_values(|p: Vec<char>| p@)[0]);
    from_chars(&ids[0])
}

/// A transform with its references resolved.
fn resolve_transform(t: &Transform, entries: &Vec<(Vec<char>, Vec<char>)>) -> (r: Transform)
    ensures
        r@ == resolved(t@, pairs_view(entries@)),
{
    match t {
        Transform::Color { tags, color } => Transform::Color { tags: expand_refs_exec(entries, tags), color: color.clone() },
        Transform::ColorEdges { exclude, color } => Transform::ColorEdges {
            exclude: expand_refs_exec(entries, exclude),
            color: color.clone(),
        },
        Transform::ReplaceText { tag, text } => Transform::ReplaceText {
            tag: resolve_single_exec(entries, tag),
            text: text.clone(),
        },
        Transform::ImportMarkdown { tag, file } => Transform::ImportMarkdown {
            tag: resolve_single_exec(entries, tag),
            file: file.clone(),
        },
        Transform::ElementVisibility { show, hide } => Transform::ElementVisibility {
            show: expand_refs_exec(entries, show),
            hide: expand_refs_exec(entries, hide),
        },
        Transform::TitleSlide { text } => Transform::TitleSlide { text: text.clone() },
        Transform::Animation => Transform::Animation,
        Transform::ArrowVisibility { tags, begin, end } => Transform::ArrowVisibility {
            tags: expand_refs_exec(entries, tags),
            begin: *begin,
            end: *end,
        },
        Transform::ShapeAttributes { tags, shape, fill_color, stroke_color, stroke_style, text, font_size } => {
            Transform::ShapeAttributes {
                tags: expand_refs_exec(entries, tags),
                shape: copy_opt(shape),
                fill_color: copy_opt(fill_color),
                stroke_color: copy_opt(stroke_color),
                stroke_style: *stroke_style,
                text: copy_opt(text),
                font_size: *font_size,
            }
        },
        Transform::EdgeAttributes {
            tags,
            text,
            color,
            line_style,
            thickness,
            font_color,
            font_size,
            text_background,
            text_border_color,
            start_arrow,
            end_arrow,
        } => Transform::EdgeAttributes {
            tags: expand_refs_exec(entries, tags),
            text: copy_opt(text),
            color: copy_opt(color),
            line_style: copy_opt(line_style),
            thickness: copy_opt(thickness),
            font_color: copy_opt(font_color),
            font_size: *font_size,
            text_background: copy_opt(text_background),
            text_border_color: copy_opt(text_border_color),
            start_arrow: copy_opt(start_arrow),
            end_arrow: copy_opt(end_arrow),
        },
        Transform::EmbedImage { tag, file, width, height } => Transform::EmbedImage {
            tag: resolve_single_exec(entries, tag),
            file: file.clone(),
            width: copy_opt(width),
            height: copy_opt(height),
        },
    }
}

/// The transforms with every id-or-tag reference resolved.
pub open spec fn resolved_all(ts: Seq<TransformV>, entries: Seq<(Seq<char>, Seq<char>)>) -> Seq<TransformV> {
    ts.map_values(|t: TransformV| resolved(t, entries))
}

/// Return a copy of `transforms` with every id-or-tag reference resolved to
/// concrete cell ids using the (tag, id) entries. A tag may map to multiple
/// ids; a plain cell id (no entry) is kept as-is; single-target transforms
/// take the first id.
pub fn resolve_transforms(transforms: &Vec<Transform>, entries: &Vec<(Vec<char>, Vec<char>)>) -> (r: Vec<Transform>)
    ensures
        transforms_view(r@) == resolved_all(transforms_view(transforms@), pairs_view(entries@)),
{
    let ghost tv = transforms_view(transforms@);
    let mut r: Vec<Transform> = Vec::new();
    let n = transforms.len();
    for i in 0..n
        invariant
            n == transforms@.len(),
            tv == transforms_view(transforms@),
            r@.len() == i,
            forall|j: int| 0 <= j < i ==> (#[trigger] r@[j])@ == resolved(tv[j], pairs_view(entries@)),
    {
        r.push(resolve_transform(&transforms[i], entries));
    }
    assert(transforms_view(r@) =~= resolved_all(tv, pairs_view(entries@)));
    r
}

} // verus!
