//! Applying a list of transforms to a whole draw.io document.
use vstd::prelude::*;

use crate::cell::{GeometryV, LabelStyle, attr_value, find_key, geometry_view, opt_chars, patch_cell_with_geometry, patch_geometry, patch_wrapper, patched_cell, patched_geometry, patched_wrapper, tags_contain};
use crate::model::{Resource, ResourceV, Transform, TransformV, resources_view, strs, transforms_view};
use crate::markdown::{markdown_label, markdown_label_chars};
use crate::text::{char_seqs, chars_eq, contains_seq, decimal, find_chars, from_chars, push_all, push_decimal, push_str, split_chars, split_from, starts_with, starts_with_chars, to_chars, trim, trim_chars};
use crate::transform::{collect_tag_to_ids, is_cell_wrapper, is_wrapper_name, last_value, last_value_exec, resolve_transforms, resolved_all, tag_entries, token_tag};
use crate::validate::{TransformError, TransformErrorV, unknown_tag_error, validate_element_visibility_conflicts, validate_replace_text_transforms, visibility_conflict_error};
use crate::xml::{TokenV, XmlTag, XmlToken, document_tokens, pairs_view, tag_text, tokenize, tokens_view, write_tag};

verus! {

// ---------------------------------------------------------------------------
// Edges that ColorEdges transforms recolor.

/// An edge of the document: its id, and the ids of its source and target
/// when it has them.
pub type EdgeV = (Seq<char>, Option<Seq<char>>, Option<Seq<char>>);

/// The edge an `mxCell` token is: one whose last `edge` attribute is `1`
/// and that has an `id` (the last attribute of each name counts).
pub open spec fn token_edges(tok: TokenV) -> Seq<EdgeV> {
    match token_tag(tok) {
        Some(tag) => if tag.name == "mxCell"@ && last_value(tag.attrs, "edge"@) == Some("1"@) {
            match last_value(tag.attrs, "id"@) {
                Some(id) => seq![(id, last_value(tag.attrs, "source"@), last_value(tag.attrs, "target"@))],
                None => Seq::empty(),
            }
        } else {
            Seq::empty()
        },
        None => Seq::empty(),
    }
}

/// The edges of the document, in document order.
pub open spec fn document_edges(tokens: Seq<TokenV>) -> Seq<EdgeV>
    decreases tokens.len(),
{
    if tokens.len() == 0 {
        Seq::empty()
    } else {
        document_edges(tokens.drop_last()) + token_edges(tokens.last())
    }
}

/// Whether an edge end is one of the excluded ids.
pub open spec fn end_excluded(end: Option<Seq<char>>, exclude: Seq<Seq<char>>) -> bool {
    match end {
        Some(s) => exclude.contains(s),
        None => false,
    }
}

/// The (color, edge id) pairs of the edges touching no excluded id.
pub open spec fn edges_to_recolor(edges: Seq<EdgeV>, exclude: Seq<Seq<char>>, color: Seq<char>) -> Seq<(Seq<char>, Seq<char>)>
    decreases edges.len(),
{
    if edges.len() == 0 {
        Seq::empty()
    } else {
        let e = edges.last();
        let rest = edges_to_recolor(edges.drop_last(), exclude, color);
        if !end_excluded(e.1, exclude) && !end_excluded(e.2, exclude) {
            rest.push((color, e.0))
        } else {
            rest
        }
    }
}

/// The (color, edge id) pairs of every ColorEdges transform, in order.
pub open spec fn recolor_pairs(ts: Seq<TransformV>, edges: Seq<EdgeV>) -> Seq<(Seq<char>, Seq<char>)>
    decreases ts.len(),
{
    if ts.len() == 0 {
        Seq::empty()
    } else {
        recolor_pairs(ts.drop_last(), edges) + match ts.last() {
            TransformV::ColorEdges { exclude, color } => edges_to_recolor(edges, exclude, color),
            _ => Seq::empty(),
        }
    }
}

/// Edges as held by the program.
pub open spec fn edges_view(v: Seq<(Vec<char>, Option<Vec<char>>, Option<Vec<char>>)>) -> Seq<EdgeV> {
    v.map_values(|e: (Vec<char>, Option<Vec<char>>, Option<Vec<char>>)| (e.0@, opt_chars(e.1), opt_chars(e.2)))
}

fn collect_edges(tokens: &Vec<XmlToken>) -> (r: Vec<(Vec<char>, Option<Vec<char>>, Option<Vec<char>>)>)
    ensures
        edges_view(r@) == document_edges(tokens_view(tokens@)),
{
    let ghost tv = tokens_view(tokens@);
    let mut r: Vec<(Vec<char>, Option<Vec<char>>, Option<Vec<char>>)> = Vec::new();
    assert(edges_view(r@) =~= Seq::<EdgeV>::empty());
    let n = tokens.len();
    let mx = to_chars("mxCell");
    let one = to_chars("1");
    for i in 0..n
        invariant
            n == tokens@.len(),
            tv == tokens_view(tokens@),
            mx@ == "mxCell"@,
            one@ == "1"@,
            edges_view(r@) == document_edges(tv.take(i as int)),
    {
        assert(tv.take(i + 1).drop_last() =~= tv.take(i as int));
        let ghost before = edges_view(r@);
        let tag_opt = match &tokens[i] {
            XmlToken::Start { tag, .. } => Some(tag),
            XmlToken::Empty { tag, .. } => Some(tag),
            _ => None,
        };
        let mut added = false;
        if let Some(tag) = tag_opt {
            if chars_eq(&tag.name, &mx) {
                let edge = last_value_exec(&tag.attrs, "edge");
                let is_edge = match &edge {
                    Some(v) => chars_eq(v, &one),
                    None => false,
                };
                if is_edge {
                    if let Some(id) = last_value_exec(&tag.attrs, "id") {
                        let source = last_value_exec(&tag.attrs, "source");
                        let target = last_value_exec(&tag.attrs, "target");
                        let ghost e = (id@, opt_chars(source), opt_chars(target));
                        r.push((id, source, target));
                        added = true;
                        assert(edges_view(r@) =~= before + seq![e]);
                    }
                }
            }
        }
        if !added {
            assert(edges_view(r@) =~= before + token_edges(tv[i as int]));
        }
    }
    assert(tv.take(n as int) =~= tv);
    r
}

fn end_excluded_exec(end: &Option<Vec<char>>, exclude: &Vec<String>) -> (r: bool)
    ensures
        r == end_excluded(opt_chars(*end), strs(exclude@)),
{
    match end {
        Some(s) => tags_contain(exclude, s),
        None => false,
    }
}

/// The ids of the edges touching no excluded id, in document order.
pub open spec fn edges_kept(edges: Seq<EdgeV>, exclude: Seq<Seq<char>>) -> Seq<Seq<char>>
    decreases edges.len(),
{
    if edges.len() == 0 {
        Seq::empty()
    } else {
        let e = edges.last();
        let rest = edges_kept(edges.drop_last(), exclude);
        if !end_excluded(e.1, exclude) && !end_excluded(e.2, exclude) {
            rest.push(e.0)
        } else {
            rest
        }
    }
}

/// For every ColorEdges transform, in order, its color and the ids of the
/// edges it recolors; a color whose edges are all excluded has no ids.
pub open spec fn recolor_groups(ts: Seq<TransformV>, edges: Seq<EdgeV>) -> Seq<(Seq<char>, Seq<Seq<char>>)>
    decreases ts.len(),
{
    if ts.len() == 0 {
        Seq::empty()
    } else {
        recolor_groups(ts.drop_last(), edges) + match ts.last() {
            TransformV::ColorEdges { exclude, color } => seq![(color, edges_kept(edges, exclude))],
            _ => Seq::empty(),
        }
    }
}

/// The (color, edge id) pairs of the groups, in order.
pub open spec fn group_pairs(groups: Seq<(Seq<char>, Seq<Seq<char>>)>) -> Seq<(Seq<char>, Seq<char>)>
    decreases groups.len(),
{
    if groups.len() == 0 {
        Seq::empty()
    } else {
        let g = groups.last();
        group_pairs(groups.drop_last()) + g.1.map_values(|id: Seq<char>| (g.0, id))
    }
}

/// Groups as held by the program.
pub open spec fn groups_view(v: Seq<(Vec<char>, Vec<Vec<char>>)>) -> Seq<(Seq<char>, Seq<Seq<char>>)> {
    v.map_values(|g: (Vec<char>, Vec<Vec<char>>)| (g.0@, char_seqs(g.1@)))
}

proof fn lemma_edges_kept_pairs(edges: Seq<EdgeV>, exclude: Seq<Seq<char>>, color: Seq<char>)
    ensures
        edges_to_recolor(edges, exclude, color) == edges_kept(edges, exclude).map_values(|id: Seq<char>| (color, id)),
    decreases edges.len(),
{
    if edges.len() > 0 {
        lemma_edges_kept_pairs(edges.drop_last(), exclude, color);
        assert(edges_to_recolor(edges, exclude, color) =~= edges_kept(edges, exclude).map_values(
            |id: Seq<char>| (color, id),
        ));
    }
}

/// The pairs of the groups are the recolor pairs.
proof fn lemma_group_pairs(ts: Seq<TransformV>, edges: Seq<EdgeV>)
    ensures
        group_pairs(recolor_groups(ts, edges)) == recolor_pairs(ts, edges),
    decreases ts.len(),
{
    if ts.len() > 0 {
        let init = recolor_groups(ts.drop_last(), edges);
        lemma_group_pairs(ts.drop_last(), edges);
        match ts.last() {
            TransformV::ColorEdges { exclude, color } => {
                let g = (color, edges_kept(edges, exclude));
                assert((init + seq![g]).drop_last() =~= init);
                assert((init + seq![g]).last() == g);
                lemma_edges_kept_pairs(edges, exclude, color);
            },
            _ => {
                assert(init + Seq::<(Seq<char>, Seq<Seq<char>>)>::empty() =~= init);
                assert(recolor_pairs(ts, edges) =~= recolor_pairs(ts.drop_last(), edges));
            },
        }
    }
}

fn kept_edge_ids(edges: &Vec<(Vec<char>, Option<Vec<char>>, Option<Vec<char>>)>, exclude: &Vec<String>) -> (r: Vec<
    Vec<char>,
>)
    ensures
        char_seqs(r@) == edges_kept(edges_view(edges@), strs(exclude@)),
{
    let ghost ev = edges_view(edges@);
    let mut out: Vec<Vec<char>> = Vec::new();
    assert(char_seqs(out@) =~= Seq::<Seq<char>>::empty());
    let n = edges.len();
    for i in 0..n
        invariant
            n == edges@.len(),
            ev == edges_view(edges@),
            char_seqs(out@) == edges_kept(ev.take(i as int), strs(exclude@)),
    {
        assert(ev.take(i + 1).drop_last() =~= ev.take(i as int));
        let ghost prev = char_seqs(out@);
        if !end_excluded_exec(&edges[i].1, exclude) && !end_excluded_exec(&edges[i].2, exclude) {
            out.push(edges[i].0.clone());
            assert(char_seqs(out@) =~= prev.push(ev[i as int].0));
        }
        assert(char_seqs(out@) =~= edges_kept(ev.take(i + 1), strs(exclude@)));
    }
    assert(ev.take(n as int) =~= ev);
    out
}

/// For each ColorEdges transform, in order, its color and the edges of the
/// document whose source and target are both outside its `exclude` list. A
/// color whose edges are all excluded keeps its entry, with no edges. The
/// transforms are given with their references resolved, so that `exclude`
/// holds the ids of the excluded nodes, those of each excluded tag
/// included.
pub fn collect_edge_ids_to_recolor(tokens: &Vec<XmlToken>, transforms: &Vec<Transform>) -> (r: Vec<
    (Vec<char>, Vec<Vec<char>>),
>)
    ensures
        groups_view(r@) == recolor_groups(transforms_view(transforms@), document_edges(tokens_view(tokens@))),
{
    let edges = collect_edges(tokens);
    let ghost tv = transforms_view(transforms@);
    let ghost ev = edges_view(edges@);
    let mut r: Vec<(Vec<char>, Vec<Vec<char>>)> = Vec::new();
    assert(groups_view(r@) =~= Seq::<(Seq<char>, Seq<Seq<char>>)>::empty());
    let n = transforms.len();
    for k in 0..n
        invariant
            n == transforms@.len(),
            tv == transforms_view(transforms@),
            ev == edges_view(edges@),
            groups_view(r@) == recolor_groups(tv.take(k as int), ev),
    {
        assert(tv.take(k + 1).drop_last() =~= tv.take(k as int));
        assert(tv.take(k + 1).last() == transforms@[k as int]@);
        let ghost before = groups_view(r@);
        match &transforms[k] {
            Transform::ColorEdges { exclude, color } => {
                let ids = kept_edge_ids(&edges, exclude);
                r.push((to_chars(color.as_str()), ids));
                assert(groups_view(r@) =~= before + seq![(color@, edges_kept(ev, strs(exclude@)))]);
            },
            _ => {
                assert(groups_view(r@) =~= before + Seq::<(Seq<char>, Seq<Seq<char>>)>::empty());
            },
        }
    }
    assert(tv.take(n as int) =~= tv);
    r
}

/// The (color, edge id) pairs of the groups, in order.
fn recolor_list(groups: &Vec<(Vec<char>, Vec<Vec<char>>)>) -> (r: Vec<(Vec<char>, Vec<char>)>)
    ensures
        pairs_view(r@) == group_pairs(groups_view(groups@)),
{
    let ghost gv = groups_view(groups@);
    let mut r: Vec<(Vec<char>, Vec<char>)> = Vec::new();
    assert(pairs_view(r@) =~= Seq::<(Seq<char>, Seq<char>)>::empty());
    let n = groups.len();
    for k in 0..n
        invariant
            n == groups@.len(),
            gv == groups_view(groups@),
            pairs_view(r@) == group_pairs(gv.take(k as int)),
    {
        assert(gv.take(k + 1).drop_last() =~= gv.take(k as int));
        let ghost before = pairs_view(r@);
        let ghost g = gv[k as int];
        let m = groups[k].1.len();
        for j in 0..m
            invariant
                m == groups@[k as int].1@.len(),
                g == gv[k as int],
                gv == groups_view(groups@),
                k < n,
                n == groups@.len(),
                pairs_view(r@) == before + g.1.take(j as int).map_values(|id: Seq<char>| (g.0, id)),
        {
            let ghost prev = pairs_view(r@);
            r.push((groups[k].0.clone(), groups[k].1[j].clone()));
            assert(g.1[j as int] == groups@[k as int].1@[j as int]@);
            assert(g.1.take(j + 1).map_values(|id: Seq<char>| (g.0, id)) =~= g.1.take(j as int).map_values(
                |id: Seq<char>| (g.0, id),
            ).push((g.0, g.1[j as int])));
            assert(pairs_view(r@) =~= prev.push((g.0, g.1[j as int])));
        }
        assert(g.1.take(m as int) =~= g.1);
        assert(gv.take(k + 1).last() == g);
    }
    assert(gv.take(n as int) =~= gv);
    r
}

// ---------------------------------------------------------------------------
// Rendering the document.

/// What the writer has written so far, the id of the cell wrapper being
/// inside of, and the geometry waiting for the next `mxGeometry`.
pub struct RenderV {
    pub out: Seq<char>,
    pub wrapper: Option<Seq<char>>,
    pub pending: GeometryV,
}

/// Nothing written yet.
pub open spec fn render_start() -> RenderV {
    RenderV { out: Seq::empty(), wrapper: None, pending: None }
}

/// The text written for a token, with the state's other parts unchanged.
pub open spec fn wrote(st: RenderV, text: Seq<char>) -> RenderV {
    RenderV { out: st.out + text, wrapper: st.wrapper, pending: st.pending }
}

/// One token written: a cell wrapper start tag patched and remembered, its
/// end tag forgotten; an `mxCell` tag patched with the geometry it gives
/// kept for the next `mxGeometry`; that empty `mxGeometry` tag patched;
/// everything else written as it was read.
pub open spec fn render_step(
    st: RenderV,
    tok: TokenV,
    ts: Seq<TransformV>,
    rs: Seq<ResourceV>,
    recolor: Seq<(Seq<char>, Seq<char>)>,
    ls: LabelStyle,
) -> Result<RenderV, Seq<char>> {
    match tok {
        TokenV::Start { tag, raw } => if is_wrapper_name(tag.name) {
            match patched_wrapper(tag, ts, rs, ls) {
                Ok(t) => Ok(
                    RenderV { out: st.out + tag_text(t.name, t.attrs, false), wrapper: attr_value(tag.attrs, "id"@), pending: st.pending },
                ),
                Err(e) => Err(e),
            }
        } else if tag.name == "mxCell"@ {
            match patched_cell(tag, ts, rs, recolor, ls, st.wrapper) {
                Ok((t, g)) => Ok(RenderV { out: st.out + tag_text(t.name, t.attrs, false), wrapper: st.wrapper, pending: g }),
                Err(e) => Err(e),
            }
        } else {
            Ok(wrote(st, raw))
        },
        TokenV::Empty { tag, raw } => if tag.name == "mxCell"@ {
            match patched_cell(tag, ts, rs, recolor, ls, st.wrapper) {
                Ok((t, g)) => Ok(RenderV { out: st.out + tag_text(t.name, t.attrs, true), wrapper: st.wrapper, pending: g }),
                Err(e) => Err(e),
            }
        } else if tag.name == "mxGeometry"@ {
            match st.pending {
                Some((w, h)) => {
                    let t = patched_geometry(tag, w, h);
                    Ok(RenderV { out: st.out + tag_text(t.name, t.attrs, true), wrapper: st.wrapper, pending: None })
                },
                None => Ok(wrote(st, raw)),
            }
        } else {
            Ok(wrote(st, raw))
        },
        TokenV::End { name, raw } => if is_wrapper_name(name) {
            Ok(RenderV { out: st.out + raw, wrapper: None, pending: st.pending })
        } else {
            Ok(wrote(st, raw))
        },
        TokenV::Other { raw } => Ok(wrote(st, raw)),
    }
}

/// The tokens written in order; the first failure stops.
pub open spec fn render_all(
    tokens: Seq<TokenV>,
    ts: Seq<TransformV>,
    rs: Seq<ResourceV>,
    recolor: Seq<(Seq<char>, Seq<char>)>,
    ls: LabelStyle,
) -> Result<RenderV, Seq<char>>
    decreases tokens.len(),
{
    if tokens.len() == 0 {
        Ok(render_start())
    } else {
        match render_all(tokens.drop_last(), ts, rs, recolor, ls) {
            Ok(st) => render_step(st, tokens.last(), ts, rs, recolor, ls),
            Err(e) => Err(e),
        }
    }
}

proof fn lemma_render_failed(
    tokens: Seq<TokenV>,
    ts: Seq<TransformV>,
    rs: Seq<ResourceV>,
    recolor: Seq<(Seq<char>, Seq<char>)>,
    ls: LabelStyle,
    j: int,
    e: Seq<char>,
)
    requires
        0 <= j <= tokens.len(),
        render_all(tokens.take(j), ts, rs, recolor, ls) == Err::<RenderV, Seq<char>>(e),
    ensures
        render_all(tokens, ts, rs, recolor, ls) == Err::<RenderV, Seq<char>>(e),
    decreases tokens.len() - j,
{
    if j < tokens.len() {
        assert(tokens.take(j + 1).drop_last() =~= tokens.take(j));
        lemma_render_failed(tokens, ts, rs, recolor, ls, j + 1, e);
    } else {
        assert(tokens.take(j) =~= tokens);
    }
}

/// The program's state while rendering.
struct Render {
    out: Vec<char>,
    wrapper: Option<Vec<char>>,
    pending: Option<(Option<Vec<char>>, Option<Vec<char>>)>,
}

impl Render {
    spec fn state(&self) -> RenderV {
        RenderV { out: self.out@, wrapper: opt_chars(self.wrapper), pending: geometry_view(self.pending) }
    }
}

fn write_patched(out: &mut Vec<char>, tag: &XmlTag, empty: bool)
    ensures
        final(out)@ == old(out)@ + tag_text(tag@.name, tag@.attrs, empty),
{
    let s = write_tag(tag, empty);
    push_str(out, s.as_str());
}

fn render_token(
    st: &mut Render,
    tok: &XmlToken,
    transforms: &Vec<Transform>,
    resources: &Vec<Resource>,
    recolor: &Vec<(Vec<char>, Vec<char>)>,
    ls: LabelStyle,
) -> (res: Result<(), String>)
    requires
        resources@.len() == transforms@.len(),
    ensures
        match render_step(old(st).state(), tok@, transforms_view(transforms@), resources_view(resources@), pairs_view(recolor@), ls) {
            Ok(s2) => res is Ok && final(st).state() == s2,
            Err(e) => res matches Err(m) && m@ == e,
        },
{
    let mx = to_chars("mxCell");
    let geo = to_chars("mxGeometry");
    match tok {
        XmlToken::Start { tag, raw } => {
            if is_cell_wrapper(&tag.name) {
                let patched = match patch_wrapper(tag, transforms, resources, ls) {
                    Ok(t) => t,
                    Err(e) => return Err(e),
                };
                let key = to_chars("id");
                let id = match find_key(&tag.attrs, &key) {
                    Some(i) => Some(tag.attrs[i].1.clone()),
                    None => None,
                };
                write_patched(&mut st.out, &patched, false);
                st.wrapper = id;
            } else if chars_eq(&tag.name, &mx) {
                let (patched, g) = match patch_cell_with_geometry(tag, transforms, resources, recolor, ls, &st.wrapper) {
                    Ok(p) => p,
                    Err(e) => return Err(e),
                };
                write_patched(&mut st.out, &patched, false);
                st.pending = g;
            } else {
                push_str(&mut st.out, raw.as_str());
            }
        },
        XmlToken::Empty { tag, raw } => {
            if chars_eq(&tag.name, &mx) {
                let (patched, g) = match patch_cell_with_geometry(tag, transforms, resources, recolor, ls, &st.wrapper) {
                    Ok(p) => p,
                    Err(e) => return Err(e),
                };
                write_patched(&mut st.out, &patched, true);
                st.pending = g;
            } else if chars_eq(&tag.name, &geo) {
                match &st.pending {
                    Some((w, h)) => {
                        let patched = patch_geometry(tag, w, h);
                        write_patched(&mut st.out, &patched, true);
                        st.pending = None;
                    },
                    None => {
                        push_str(&mut st.out, raw.as_str());
                    },
                }
            } else {
                push_str(&mut st.out, raw.as_str());
            }
        },
        XmlToken::End { name, raw } => {
            if is_cell_wrapper(name) {
                st.wrapper = None;
            }
            push_str(&mut st.out, raw.as_str());
        },
        XmlToken::Other { raw } => {
            push_str(&mut st.out, raw.as_str());
        },
    }
    Ok(())
}

/// Writes the document's tokens with the transforms applied: the text of
/// the transformed document, or the message of a file that could not be
/// read.
pub fn render_document(
    tokens: &Vec<XmlToken>,
    transforms: &Vec<Transform>,
    resources: &Vec<Resource>,
    recolor: &Vec<(Vec<char>, Vec<char>)>,
    ls: LabelStyle,
) -> (res: Result<String, String>)
    requires
        resources@.len() == transforms@.len(),
    ensures
        match render_all(tokens_view(tokens@), transforms_view(transforms@), resources_view(resources@), pairs_view(recolor@), ls) {
            Ok(s) => res matches Ok(out) && out@ == s.out,
            Err(e) => res matches Err(m) && m@ == e,
        },
{
    let ghost tv = tokens_view(tokens@);
    let ghost ts = transforms_view(transforms@);
    let ghost rs = resources_view(resources@);
    let ghost rc = pairs_view(recolor@);
    let mut st = Render { out: Vec::new(), wrapper: None, pending: None };
    let n = tokens.len();
    assert(tv.take(0) =~= Seq::<TokenV>::empty());
    for i in 0..n
        invariant
            n == tokens@.len(),
            resources@.len() == transforms@.len(),
            tv == tokens_view(tokens@),
            ts == transforms_view(transforms@),
            rs == resources_view(resources@),
            rc == pairs_view(recolor@),
            render_all(tv.take(i as int), ts, rs, rc, ls) == Ok::<RenderV, Seq<char>>(st.state()),
    {
        assert(tv.take(i + 1).drop_last() =~= tv.take(i as int));
        assert(tv.take(i + 1).last() == tokens@[i as int]@);
        let step = render_token(&mut st, &tokens[i], transforms, resources, recolor, ls);
        if let Err(e) = step {
            proof {
                lemma_render_failed(tv, ts, rs, rc, ls, i + 1, e@);
            }
            return Err(e);
        }
    }
    assert(tv.take(n as int) =~= tv);
    Ok(from_chars(&st.out))
}

// ---------------------------------------------------------------------------
// The title slide.

/// The text of the title slide document before its width.
pub const TITLE_HEAD: &'static str = r#"<mxfile host="drawio-lc"><diagram name="Title"><mxGraphModel><root><mxCell id="0"/><mxCell id="1" parent="0"/><mxCell id="bg" parent="1" vertex="1" style="rounded=0;whiteSpace=wrap;html=1;fillColor=#ffffff;strokeColor=none;"><mxGeometry x="0" y="0" width=""#;

/// Between a width and a height.
pub const TITLE_HEIGHT: &'static str = r#"" height=""#;

/// Between the background's height and the label.
pub const TITLE_LABEL: &'static str = r#"" as="geometry"/></mxCell><mxCell id="2" parent="1" value=""#;

/// Between the label and the alignment.
pub const TITLE_ALIGN: &'static str = r#"" vertex="1" style="text;html=1;align="#;

/// Between the alignment and the text cell's width.
pub const TITLE_TEXT_WIDTH: &'static str = r#";verticalAlign=middle;fontSize=24;fontStyle=0;whiteSpace=wrap;"><mxGeometry x="0" y="0" width=""#;

/// After the text cell's height.
pub const TITLE_TAIL: &'static str = r#"" as="geometry"/></mxCell></root></mxGraphModel></diagram></mxfile>"#;

/// An ASCII digit.
pub open spec fn is_ascii_digit(c: char) -> bool {
    48 <= (c as u32) && (c as u32) <= 57
}

/// A trimmed line that starts a list item: `- `, `* `, `+ `, or a digit in
/// a line holding `. `.
pub open spec fn is_list_line(t: Seq<char>) -> bool {
    ||| starts_with(t, "- "@)
    ||| starts_with(t, "* "@)
    ||| starts_with(t, "+ "@)
    ||| (t.len() > 0 && is_ascii_digit(t[0]) && contains_seq(t, ". "@))
}

/// Whether some line of Markdown `text` is a list item.
pub open spec fn has_list(text: Seq<char>) -> bool {
    let lines = split_from(text, '\n', 0);
    exists|i: int| 0 <= i < lines.len() && is_list_line(trim(#[trigger] lines[i]))
}

/// A minimal draw.io document holding only a white background and a text
/// cell with the Markdown `text` rendered as its label, both of the given
/// size; the text is left-aligned when it holds a list, centered otherwise.
pub open spec fn title_slide_xml(
    text: Seq<char>,
    width: nat,
    height: nat,
    heading_margin_bottom: nat,
    list_item_spacing: nat,
    list_item_indent: nat,
) -> Seq<char> {
    let w = decimal(width);
    let h = decimal(height);
    let label = markdown_label(text, heading_margin_bottom, list_item_spacing, list_item_indent);
    let align = if has_list(text) {
        "left"@
    } else {
        "center"@
    };
    TITLE_HEAD@ + w + TITLE_HEIGHT@ + h + TITLE_LABEL@ + label + TITLE_ALIGN@ + align + TITLE_TEXT_WIDTH@ + w
        + TITLE_HEIGHT@ + h + TITLE_TAIL@
}

fn is_list_line_exec(t: &Vec<char>) -> (r: bool)
    ensures
        r == is_list_line(t@),
{
    let dash = to_chars("- ");
    let star = to_chars("* ");
    let plus = to_chars("+ ");
    if starts_with_chars(t, &dash) || starts_with_chars(t, &star) || starts_with_chars(t, &plus) {
        return true;
    }
    if t.len() == 0 {
        return false;
    }
    let c = t[0] as u32;
    if c < 48 || c > 57 {
        return false;
    }
    let pat = to_chars(". ");
    let found = find_chars(t, &pat);
    found.is_some()
}

fn has_list_exec(text: &Vec<char>) -> (r: bool)
    ensures
        r == has_list(text@),
{
    let lines = split_chars(text, '\n');
    let ghost lv = lines@.map_values(|p: Vec<char>| p@);
    let n = lines.len();
    for i in 0..n
        invariant
            n == lines@.len(),
            lv == lines@.map_values(|p: Vec<char>| p@),
            lv == split_from(text@, '\n', 0),
            forall|j: int| 0 <= j < i ==> !is_list_line(trim(#[trigger] lv[j])),
    {
        let t = trim_chars(&lines[i]);
        assert(lv[i as int] == lines@[i as int]@);
        if is_list_line_exec(&t) {
            return true;
        }
    }
    false
}

/// Generate a minimal draw.io document holding only a text label rendered
/// from Markdown, sized to match the reference image. A text with a list is
/// left-aligned so its bullets are not centered.
pub fn build_title_slide_xml(
    text: &str,
    width: u32,
    height: u32,
    heading_margin_bottom: u32,
    list_item_spacing: u32,
    list_item_indent: u32,
) -> (r: String)
    ensures
        r@ == title_slide_xml(
            text@,
            width as nat,
            height as nat,
            heading_margin_bottom as nat,
            list_item_spacing as nat,
            list_item_indent as nat,
        ),
{
    let tc = to_chars(text);
    let label = markdown_label_chars(&tc, heading_margin_bottom, list_item_spacing, list_item_indent);
    let left = has_list_exec(&tc);
    let mut out: Vec<char> = Vec::new();
    push_str(&mut out, TITLE_HEAD);
    push_decimal(&mut out, width as u64);
    push_str(&mut out, TITLE_HEIGHT);
    push_decimal(&mut out, height as u64);
    push_str(&mut out, TITLE_LABEL);
    push_all(&mut out, &label);
    push_str(&mut out, TITLE_ALIGN);
    if left {
        push_str(&mut out, "left");
    } else {
        push_str(&mut out, "center");
    }
    push_str(&mut out, TITLE_TEXT_WIDTH);
    push_decimal(&mut out, width as u64);
    push_str(&mut out, TITLE_HEIGHT);
    push_decimal(&mut out, height as u64);
    push_str(&mut out, TITLE_TAIL);
    from_chars(&out)
}

// ---------------------------------------------------------------------------
// The whole document.

/// The transforms that change the document: all but the Animation markers.
pub open spec fn effective(ts: Seq<TransformV>) -> Seq<TransformV>
    decreases ts.len(),
{
    if ts.len() == 0 {
        Seq::empty()
    } else if ts.last() is Animation {
        effective(ts.drop_last())
    } else {
        effective(ts.drop_last()).push(ts.last())
    }
}

/// The transformed document, or why it could not be made, for the tokens
/// of a document that reads without failure.
pub open spec fn transformed_tokens(
    tokens: Seq<TokenV>,
    ts: Seq<TransformV>,
    rs: Seq<ResourceV>,
    ls: LabelStyle,
) -> Result<Seq<char>, TransformErrorV> {
    match unknown_tag_error(tokens, ts) {
        Some(e) => Err(e),
        None => match visibility_conflict_error(tokens, ts) {
            Some(e) => Err(e),
            None => match render_all(
                tokens,
                resolved_all(ts, tag_entries(tokens)),
                rs,
                recolor_pairs(resolved_all(ts, tag_entries(tokens)), document_edges(tokens)),
                ls,
            ) {
                Ok(st) => Ok(st.out),
                Err(m) => Err(TransformErrorV::Resource(m)),
            },
        },
    }
}

/// The document `xml` with the transforms `ts` applied, `rs` holding what
/// each transform reads from a file.
///
/// A TitleSlide that is the only transform besides Animation markers makes a
/// title slide of the reference size; any other TitleSlide is refused. Then
/// the document is read, every referenced tag is checked, ElementVisibility
/// conflicts are refused, references are resolved to cell ids (the
/// `exclude` tags of ColorEdges too, before its edges are chosen), and every
/// element is written with the transforms applied.
pub open spec fn transformed(
    xml: Seq<char>,
    ts: Seq<TransformV>,
    ref_size: Option<(u32, u32)>,
    ls: LabelStyle,
    rs: Seq<ResourceV>,
) -> Result<Seq<char>, TransformErrorV> {
    let eff = effective(ts);
    if eff.len() == 1 && eff[0] is TitleSlide {
        match ref_size {
            None => Err(TransformErrorV::MissingReferenceSize),
            Some((w, h)) => Ok(
                title_slide_xml(
                    eff[0]->TitleSlide_text,
                    w as nat,
                    h as nat,
                    ls.heading_margin_bottom as nat,
                    ls.list_item_spacing as nat,
                    ls.list_item_indent as nat,
                ),
            ),
        }
    } else if exists|i: int| 0 <= i < eff.len() && (#[trigger] eff[i]) is TitleSlide {
        Err(TransformErrorV::TitleSlideNotAlone)
    } else {
        match document_tokens(xml) {
            Err(m) => Err(TransformErrorV::Xml(m)),
            Ok(tokens) => transformed_tokens(tokens, ts, rs, ls),
        }
    }
}

/// The positions of the transforms that are not Animation markers.
fn effective_indices(ts: &Vec<Transform>) -> (r: Vec<usize>)
    ensures
        r@.len() == effective(transforms_view(ts@)).len(),
        forall|j: int|
            #![trigger r@[j]]
            0 <= j < r@.len() ==> r@[j] < ts@.len() && effective(transforms_view(ts@))[j] == ts@[r@[j] as int]@,
{
    let ghost tv = transforms_view(ts@);
    let mut r: Vec<usize> = Vec::new();
    let n = ts.len();
    for i in 0..n
        invariant
            n == ts@.len(),
            tv == transforms_view(ts@),
            r@.len() == effective(tv.take(i as int)).len(),
            forall|j: int|
                #![trigger r@[j]]
                0 <= j < r@.len() ==> r@[j] < i && effective(tv.take(i as int))[j] == ts@[r@[j] as int]@,
    {
        assert(tv.take(i + 1).drop_last() =~= tv.take(i as int));
        assert(tv.take(i + 1).last() == ts@[i as int]@);
        let is_marker = match &ts[i] {
            Transform::Animation => true,
            _ => false,
        };
        let ghost prev = r@;
        if !is_marker {
            r.push(i);
            assert(r@[prev.len() as int] == i);
        }
        assert forall|j: int| 0 <= j < r@.len() implies r@[j] < i + 1 && #[trigger] effective(tv.take(i + 1))[j]
            == ts@[r@[j] as int]@ by {
            if j < prev.len() {
                assert(r@[j] == prev[j]);
            }
        }
    }
    assert(tv.take(n as int) =~= tv);
    r
}

/// Walk the document and apply every transform in order, returning the
/// modified document. `resources` holds, at the position of each
/// ImportMarkdown or EmbedImage transform, what it reads from its file.
pub fn apply_transforms(
    input_xml: &str,
    transforms: &Vec<Transform>,
    ref_size: Option<(u32, u32)>,
    heading_margin_bottom: u32,
    list_item_spacing: u32,
    list_item_indent: u32,
    resources: &Vec<Resource>,
) -> (r: Result<String, TransformError>)
    requires
        resources@.len() == transforms@.len(),
    ensures
        match transformed(
            input_xml@,
            transforms_view(transforms@),
            ref_size,
            LabelStyle { heading_margin_bottom, list_item_spacing, list_item_indent },
            resources_view(resources@),
        ) {
            Ok(s) => r matches Ok(out) && out@ == s,
            Err(e) => r matches Err(x) && x@ == e,
        },
{
    let ghost tv = transforms_view(transforms@);
    let ghost eff = effective(tv);
    let ls = LabelStyle { heading_margin_bottom, list_item_spacing, list_item_indent };
    let idx = effective_indices(transforms);
    if idx.len() == 1 {
        assert(eff[0] == transforms@[idx@[0] as int]@);
        if let Transform::TitleSlide { text } = &transforms[idx[0]] {
            return match ref_size {
                None => Err(TransformError::MissingReferenceSize),
                Some((w, h)) => Ok(
                    build_title_slide_xml(text.as_str(), w, h, heading_margin_bottom, list_item_spacing, list_item_indent),
                ),
            };
        }
    }
    let m = idx.len();
    for j in 0..m
        invariant
            m == idx@.len(),
            m == eff.len(),
            tv == transforms_view(transforms@),
            eff == effective(tv),
            forall|q: int|
                #![trigger idx@[q]]
                0 <= q < idx@.len() ==> idx@[q] < transforms@.len() && eff[q] == transforms@[idx@[q] as int]@,
            forall|q: int| 0 <= q < j ==> !((#[trigger] eff[q]) is TitleSlide),
            !(eff.len() == 1 && eff[0] is TitleSlide),
    {
        assert(eff[j as int] == transforms@[idx@[j as int] as int]@);
        if let Transform::TitleSlide { .. } = &transforms[idx[j]] {
            return Err(TransformError::TitleSlideNotAlone);
        }
    }
    let tokens = match tokenize(input_xml) {
        Ok(t) => t,
        Err(msg) => return Err(TransformError::Xml(msg)),
    };
    if let Err(e) = validate_replace_text_transforms(&tokens, transforms) {
        return Err(e);
    }
    if let Err(e) = validate_element_visibility_conflicts(&tokens, transforms) {
        return Err(e);
    }
    let entries = collect_tag_to_ids(&tokens);
    let resolved = resolve_transforms(transforms, &entries);
    let groups = collect_edge_ids_to_recolor(&tokens, &resolved);
    let recolor = recolor_list(&groups);
    proof {
        lemma_group_pairs(resolved_all(transforms_view(transforms@), pairs_view(entries@)), document_edges(tokens_view(tokens@)));
    }
    assert(transforms_view(resolved@).len() == resolved@.len());
    match render_document(&tokens, &resolved, resources, &recolor, ls) {
        Ok(out) => Ok(out),
        Err(msg) => Err(TransformError::Resource(msg)),
    }
}

} // verus!
