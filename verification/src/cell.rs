//! Patching the attributes of one element: cell wrappers (`UserObject` /
//! `object`), `mxCell`s and `mxGeometry`s.
use vstd::prelude::*;
use vstd::string::*;

use base64::Engine;

use crate::html_export::base64_text;
use crate::markdown::{markdown_label, markdown_label_chars};
use crate::model::{Resource, ResourceV, StrokeStyle, Transform, TransformV, ostr, resources_view, strs, transforms_view};
use crate::style::{fill_color_chars, patch_token_chars, patched_style, stroke_color_chars};
use crate::text::{split_chars, split_from, chars_eq, decimal, ends_with, ends_with_chars, join, join_chars, push_all, push_decimal, to_chars, trim, trim_chars};
use crate::xml::{TagV, XmlTag, pairs_view};

verus! {

/// Attributes of an element as (key, value) character vectors.
pub type Attrs = Vec<(Vec<char>, Vec<char>)>;

/// How Markdown labels are laid out.
#[derive(Clone, Copy)]
pub struct LabelStyle {
    pub heading_margin_bottom: u32,
    pub list_item_spacing: u32,
    pub list_item_indent: u32,
}

/// The label that Markdown `text` becomes under a layout.
pub open spec fn label_of(text: Seq<char>, ls: LabelStyle) -> Seq<char> {
    markdown_label(text, ls.heading_margin_bottom as nat, ls.list_item_spacing as nat, ls.list_item_indent as nat)
}

fn label_chars(text: &Vec<char>, ls: LabelStyle) -> (r: Vec<char>)
    ensures
        r@ == label_of(text@, ls),
{
    markdown_label_chars(text, ls.heading_margin_bottom, ls.list_item_spacing, ls.list_item_indent)
}

/// The first position at or after `i` of an attribute named `key`.
pub open spec fn key_index_from(attrs: Seq<(Seq<char>, Seq<char>)>, key: Seq<char>, i: int) -> Option<int>
    decreases attrs.len() - i,
{
    if i < 0 || i >= attrs.len() {
        None
    } else if attrs[i].0 == key {
        Some(i)
    } else {
        key_index_from(attrs, key, i + 1)
    }
}

/// The position of the first attribute named `key`.
pub open spec fn key_index(attrs: Seq<(Seq<char>, Seq<char>)>, key: Seq<char>) -> Option<int> {
    key_index_from(attrs, key, 0)
}

/// The value of the first attribute named `key`.
pub open spec fn attr_value(attrs: Seq<(Seq<char>, Seq<char>)>, key: Seq<char>) -> Option<Seq<char>> {
    match key_index(attrs, key) {
        Some(i) => Some(attrs[i].1),
        None => None,
    }
}

proof fn lemma_key_index_from(attrs: Seq<(Seq<char>, Seq<char>)>, key: Seq<char>, i: int)
    requires
        0 <= i,
    ensures
        key_index_from(attrs, key, i) matches Some(j) ==> i <= j < attrs.len() && attrs[j].0 == key,
    decreases attrs.len() - i,
{
    if i < attrs.len() && attrs[i].0 != key {
        lemma_key_index_from(attrs, key, i + 1);
    }
}

/// The first attribute named `key` set to `value`, or `key="value"` appended
/// when there is none.
pub open spec fn set_attr(attrs: Seq<(Seq<char>, Seq<char>)>, key: Seq<char>, value: Seq<char>) -> Seq<(Seq<char>, Seq<char>)> {
    match key_index(attrs, key) {
        Some(i) => attrs.update(i, (key, value)),
        None => attrs.push((key, value)),
    }
}

/// The first attribute named `key` set to `value` when there is one.
pub open spec fn set_existing(attrs: Seq<(Seq<char>, Seq<char>)>, key: Seq<char>, value: Option<Seq<char>>) -> Seq<(Seq<char>, Seq<char>)> {
    match (key_index(attrs, key), value) {
        (Some(i), Some(v)) => attrs.update(i, (key, v)),
        _ => attrs,
    }
}

/// Every attribute named `key` with its value replaced by `f` of it.
pub open spec fn map_key(attrs: Seq<(Seq<char>, Seq<char>)>, key: Seq<char>, f: spec_fn(Seq<char>) -> Seq<char>) -> Seq<(Seq<char>, Seq<char>)> {
    Seq::new(attrs.len(), |i: int| if attrs[i].0 == key { (attrs[i].0, f(attrs[i].1)) } else { attrs[i] })
}

/// Every `style` attribute with `fillColor` and `strokeColor` set to `color`.
pub open spec fn color_styles(attrs: Seq<(Seq<char>, Seq<char>)>, color: Seq<char>) -> Seq<(Seq<char>, Seq<char>)> {
    map_key(attrs, "style"@, |v: Seq<char>| patched_style(patched_style(v, "fillColor"@, color), "strokeColor"@, color))
}

/// The style with one arrowhead shown (`classic`), hidden (`none`) or left as it is.
pub open spec fn arrow_token(style: Seq<char>, key: Seq<char>, show: Option<bool>) -> Seq<char> {
    match show {
        Some(true) => patched_style(style, key, "classic"@),
        Some(false) => patched_style(style, key, "none"@),
        None => style,
    }
}

/// Every `style` attribute with its begin and end arrowheads set.
pub open spec fn arrow_styles(attrs: Seq<(Seq<char>, Seq<char>)>, begin: Option<bool>, end: Option<bool>) -> Seq<(Seq<char>, Seq<char>)> {
    map_key(attrs, "style"@, |v: Seq<char>| arrow_token(arrow_token(v, "startArrow"@, begin), "endArrow"@, end))
}

/// The first `style` attribute with the token `key` set to `value`, or a new
/// `style="key=value;"` when there is none.
pub open spec fn style_token(attrs: Seq<(Seq<char>, Seq<char>)>, key: Seq<char>, value: Seq<char>) -> Seq<(Seq<char>, Seq<char>)> {
    match key_index(attrs, "style"@) {
        Some(i) => attrs.update(i, (attrs[i].0, patched_style(attrs[i].1, key, value))),
        None => attrs.push(("style"@, key + seq!['='] + value + seq![';'])),
    }
}

/// The pieces whose trimmed text is not `overflow=hidden`.
pub open spec fn keep_visible_overflow(ps: Seq<Seq<char>>) -> Seq<Seq<char>>
    decreases ps.len(),
{
    if ps.len() == 0 {
        Seq::empty()
    } else if trim(ps.last()) == "overflow=hidden"@ {
        keep_visible_overflow(ps.drop_last())
    } else {
        keep_visible_overflow(ps.drop_last()).push(ps.last())
    }
}

/// The style without its `overflow=hidden` tokens.
pub open spec fn without_hidden_overflow(style: Seq<char>) -> Seq<char> {
    join(keep_visible_overflow(split_from(style, ';', 0)), seq![';'])
}

/// Every `value` attribute set to `label`, and every `style` attribute rid of
/// `overflow=hidden` so that the new text is not clipped.
pub open spec fn relabel(attrs: Seq<(Seq<char>, Seq<char>)>, label: Seq<char>) -> Seq<(Seq<char>, Seq<char>)> {
    Seq::new(
        attrs.len(),
        |i: int|
            if attrs[i].0 == "value"@ {
                (attrs[i].0, label)
            } else if attrs[i].0 == "style"@ {
                (attrs[i].0, without_hidden_overflow(attrs[i].1))
            } else {
                attrs[i]
            },
    )
}

/// Every `value` and `label` attribute set to `label`.
pub open spec fn set_labels(attrs: Seq<(Seq<char>, Seq<char>)>, label: Seq<char>) -> Seq<(Seq<char>, Seq<char>)> {
    Seq::new(
        attrs.len(),
        |i: int| if attrs[i].0 == "value"@ || attrs[i].0 == "label"@ { (attrs[i].0, label) } else { attrs[i] },
    )
}

/// Every attribute named `key` set to `value`.
pub open spec fn set_all(attrs: Seq<(Seq<char>, Seq<char>)>, key: Seq<char>, value: Seq<char>) -> Seq<(Seq<char>, Seq<char>)> {
    Seq::new(attrs.len(), |i: int| if attrs[i].0 == key { (attrs[i].0, value) } else { attrs[i] })
}

/// `style_token` when a value is given.
pub open spec fn opt_token(attrs: Seq<(Seq<char>, Seq<char>)>, key: Seq<char>, value: Option<Seq<char>>) -> Seq<(Seq<char>, Seq<char>)> {
    match value {
        Some(v) => style_token(attrs, key, v),
        None => attrs,
    }
}

/// The dash tokens of a line style.
pub open spec fn dash_tokens(attrs: Seq<(Seq<char>, Seq<char>)>, style: StrokeStyle) -> Seq<(Seq<char>, Seq<char>)> {
    match style {
        StrokeStyle::Solid => style_token(attrs, "dashed"@, "0"@),
        StrokeStyle::Dashed => style_token(attrs, "dashed"@, "1"@),
        StrokeStyle::Dotted => style_token(style_token(attrs, "dashed"@, "1"@), "dashPattern"@, "1 4"@),
    }
}

/// The line style named in an edge's configuration, if it is one of
/// `dashed`, `dotted` and `solid`.
pub open spec fn named_line_style(name: Seq<char>) -> Option<StrokeStyle> {
    if name == "dashed"@ {
        Some(StrokeStyle::Dashed)
    } else if name == "dotted"@ {
        Some(StrokeStyle::Dotted)
    } else if name == "solid"@ {
        Some(StrokeStyle::Solid)
    } else {
        None
    }
}

/// A ShapeAttributes transform applied to a matching cell.
pub open spec fn shape_attributes(attrs: Seq<(Seq<char>, Seq<char>)>, t: TransformV, ls: LabelStyle) -> Seq<(Seq<char>, Seq<char>)> {
    match t {
        TransformV::ShapeAttributes { shape, fill_color, stroke_color, stroke_style, text, font_size, .. } => {
            let a1 = match shape {
                Some(s) => style_token(attrs, "shape"@, "mxgraph.basic."@ + s),
                None => attrs,
            };
            let a2 = opt_token(a1, "fillColor"@, fill_color);
            let a3 = opt_token(a2, "strokeColor"@, stroke_color);
            let a4 = match stroke_style {
                Some(st) => dash_tokens(a3, st),
                None => a3,
            };
            let a5 = match font_size {
                Some(n) => style_token(a4, "fontSize"@, decimal(n as nat)),
                None => a4,
            };
            match text {
                Some(tx) => set_labels(a5, label_of(tx, ls)),
                None => a5,
            }
        },
        _ => attrs,
    }
}

/// An EdgeAttributes transform applied to a matching cell.
pub open spec fn edge_attributes(attrs: Seq<(Seq<char>, Seq<char>)>, t: TransformV, ls: LabelStyle) -> Seq<(Seq<char>, Seq<char>)> {
    match t {
        TransformV::EdgeAttributes {
            text,
            color,
            line_style,
            thickness,
            font_color,
            font_size,
            text_background,
            text_border_color,
            start_arrow,
            end_arrow,
            ..
        } => {
            let a1 = opt_token(attrs, "strokeColor"@, color);
            let a2 = match line_style {
                Some(l) => match named_line_style(l) {
                    Some(st) => dash_tokens(a1, st),
                    None => a1,
                },
                None => a1,
            };
            let a3 = opt_token(a2, "strokeWidth"@, thickness);
            let a4 = match font_color {
                Some(c) => set_all(style_token(a3, "fontColor"@, c), "fontColor"@, c),
                None => a3,
            };
            let a5 = match font_size {
                Some(n) => style_token(a4, "fontSize"@, decimal(n as nat)),
                None => a4,
            };
            let a6 = opt_token(a5, "labelBackgroundColor"@, text_background);
            let a7 = opt_token(a6, "labelBorderColor"@, text_border_color);
            let a8 = opt_token(a7, "startArrow"@, start_arrow);
            let a9 = opt_token(a8, "endArrow"@, end_arrow);
            match text {
                Some(tx) => set_labels(a9, label_of(tx, ls)),
                None => a9,
            }
        },
        _ => attrs,
    }
}

/// One transform applied to the attributes of the `mxCell` whose id is `id`.
/// `recolor` holds the (color, edge id) pairs that ColorEdges transforms
/// recolor. A failure to read a Markdown file gives its message.
pub open spec fn cell_step(
    attrs: Seq<(Seq<char>, Seq<char>)>,
    t: TransformV,
    r: ResourceV,
    id: Seq<char>,
    recolor: Seq<(Seq<char>, Seq<char>)>,
    ls: LabelStyle,
) -> Result<Seq<(Seq<char>, Seq<char>)>, Seq<char>> {
    match t {
        TransformV::Color { tags, color } => Ok(if tags.contains(id) { color_styles(attrs, color) } else { attrs }),
        TransformV::ColorEdges { color, .. } => Ok(
            if recolor.contains((color, id)) {
                color_styles(attrs, color)
            } else {
                attrs
            },
        ),
        TransformV::ElementVisibility { show, hide } => Ok(
            if show.contains(id) {
                set_attr(attrs, "visible"@, "1"@)
            } else if hide.contains(id) {
                set_attr(attrs, "visible"@, "0"@)
            } else {
                attrs
            },
        ),
        TransformV::ReplaceText { tag, text } => Ok(if tag == id { relabel(attrs, label_of(text, ls)) } else { attrs }),
        TransformV::ImportMarkdown { tag, .. } => if tag == id {
            match r {
                ResourceV::Markdown(Ok(text)) => Ok(relabel(attrs, label_of(text, ls))),
                ResourceV::Markdown(Err(e)) => Err(e),
                _ => Ok(attrs),
            }
        } else {
            Ok(attrs)
        },
        TransformV::ArrowVisibility { tags, begin, end } => Ok(
            if tags.contains(id) {
                arrow_styles(attrs, begin, end)
            } else {
                attrs
            },
        ),
        TransformV::ShapeAttributes { tags, .. } => Ok(
            if tags.contains(id) {
                shape_attributes(attrs, t, ls)
            } else {
                attrs
            },
        ),
        TransformV::EdgeAttributes { tags, .. } => Ok(
            if tags.contains(id) {
                edge_attributes(attrs, t, ls)
            } else {
                attrs
            },
        ),
        _ => Ok(attrs),
    }
}

/// The transforms from index `k` on applied in order; the first failure stops.
pub open spec fn cell_fold(
    attrs: Seq<(Seq<char>, Seq<char>)>,
    ts: Seq<TransformV>,
    rs: Seq<ResourceV>,
    id: Seq<char>,
    recolor: Seq<(Seq<char>, Seq<char>)>,
    ls: LabelStyle,
    k: int,
) -> Result<Seq<(Seq<char>, Seq<char>)>, Seq<char>>
    decreases ts.len() - k,
{
    if k < 0 || k >= ts.len() {
        Ok(attrs)
    } else {
        match cell_step(attrs, ts[k], rs[k], id, recolor, ls) {
            Ok(a) => cell_fold(a, ts, rs, id, recolor, ls, k + 1),
            Err(e) => Err(e),
        }
    }
}

/// The first EmbedImage transform from index `k` on that targets `id`.
pub open spec fn embed_index_from(ts: Seq<TransformV>, id: Seq<char>, k: int) -> Option<int>
    decreases ts.len() - k,
{
    if k < 0 || k >= ts.len() {
        None
    } else if ts[k] matches TransformV::EmbedImage { tag, .. } && tag == id {
        Some(k)
    } else {
        embed_index_from(ts, id, k + 1)
    }
}

/// The MIME type an embedded image file is given, by its extension.
pub open spec fn image_mime(file: Seq<char>) -> Seq<char> {
    if ends_with(file, ".png"@) {
        "image/png"@
    } else if ends_with(file, ".jpg"@) || ends_with(file, ".jpeg"@) {
        "image/jpeg"@
    } else {
        "image/png"@
    }
}

/// The prefix of the style of an embedded image, up to its data URI.
pub open spec fn image_style_prefix() -> Seq<char> {
    "shape=image;verticalLabelPosition=bottom;labelBackgroundColor=#ffffff;verticalAlign=top;align=center;strokeColor=none;fillColor=none;image;image="@
}

/// The style of an image cell showing `data` as a data URI.
pub open spec fn image_style(file: Seq<char>, data: Seq<u8>) -> Seq<char> {
    image_style_prefix() + "data:"@ + image_mime(file) + ";base64,"@ + base64_text(data) + seq![';']
}

/// Width and height that the geometry of an image cell takes.
pub type GeometryV = Option<(Option<Seq<char>>, Option<Seq<char>>)>;

/// The EmbedImage step: the first EmbedImage transform that targets `id`
/// gives the cell an image style and its geometry; a failure to read the
/// image gives its message.
pub open spec fn embed_image(
    attrs: Seq<(Seq<char>, Seq<char>)>,
    ts: Seq<TransformV>,
    rs: Seq<ResourceV>,
    id: Seq<char>,
) -> Result<(Seq<(Seq<char>, Seq<char>)>, GeometryV), Seq<char>> {
    match embed_index_from(ts, id, 0) {
        None => Ok((attrs, None)),
        Some(k) => match (ts[k], rs[k]) {
            (TransformV::EmbedImage { file, .. }, ResourceV::Image(Ok(img))) => Ok(
                (set_attr(attrs, "style"@, image_style(file, img.data)), Some((img.width, img.height))),
            ),
            (_, ResourceV::Image(Err(e))) => Err(e),
            _ => Ok((attrs, None)),
        },
    }
}

/// The id a cell is known by: its own `id`, else that of its wrapper, else empty.
pub open spec fn cell_id(attrs: Seq<(Seq<char>, Seq<char>)>, wrapper_id: Option<Seq<char>>) -> Seq<char> {
    match attr_value(attrs, "id"@) {
        Some(v) => v,
        None => match wrapper_id {
            Some(u) => u,
            None => Seq::empty(),
        },
    }
}

/// An `mxCell` tag with every transform applied, and the geometry that an
/// EmbedImage transform gives its `mxGeometry` child.
pub open spec fn patched_cell(
    tag: TagV,
    ts: Seq<TransformV>,
    rs: Seq<ResourceV>,
    recolor: Seq<(Seq<char>, Seq<char>)>,
    ls: LabelStyle,
    wrapper_id: Option<Seq<char>>,
) -> Result<(TagV, GeometryV), Seq<char>> {
    let id = cell_id(tag.attrs, wrapper_id);
    match cell_fold(tag.attrs, ts, rs, id, recolor, ls, 0) {
        Err(e) => Err(e),
        Ok(a) => match embed_image(a, ts, rs, id) {
            Err(e) => Err(e),
            Ok((a2, g)) => Ok((TagV { name: tag.name, attrs: a2 }, g)),
        },
    }
}

/// One transform applied to the attributes of a cell wrapper whose id is `id`.
pub open spec fn wrapper_step(
    attrs: Seq<(Seq<char>, Seq<char>)>,
    t: TransformV,
    r: ResourceV,
    id: Seq<char>,
    ls: LabelStyle,
) -> Result<Seq<(Seq<char>, Seq<char>)>, Seq<char>> {
    match t {
        TransformV::ReplaceText { tag, text } => Ok(
            if tag == id {
                set_attr(attrs, "label"@, label_of(text, ls))
            } else {
                attrs
            },
        ),
        TransformV::ImportMarkdown { tag, .. } => if tag == id {
            match r {
                ResourceV::Markdown(Ok(text)) => Ok(set_attr(attrs, "label"@, label_of(text, ls))),
                ResourceV::Markdown(Err(e)) => Err(e),
                _ => Ok(attrs),
            }
        } else {
            Ok(attrs)
        },
        _ => Ok(attrs),
    }
}

pub open spec fn wrapper_fold(
    attrs: Seq<(Seq<char>, Seq<char>)>,
    ts: Seq<TransformV>,
    rs: Seq<ResourceV>,
    id: Seq<char>,
    ls: LabelStyle,
    k: int,
) -> Result<Seq<(Seq<char>, Seq<char>)>, Seq<char>>
    decreases ts.len() - k,
{
    if k < 0 || k >= ts.len() {
        Ok(attrs)
    } else {
        match wrapper_step(attrs, ts[k], rs[k], id, ls) {
            Ok(a) => wrapper_fold(a, ts, rs, id, ls, k + 1),
            Err(e) => Err(e),
        }
    }
}

/// The id of a wrapper: its first `id` attribute, or empty.
pub open spec fn wrapper_id(attrs: Seq<(Seq<char>, Seq<char>)>) -> Seq<char> {
    match attr_value(attrs, "id"@) {
        Some(v) => v,
        None => Seq::empty(),
    }
}

/// A cell wrapper tag with its label replaced by every ReplaceText or
/// ImportMarkdown transform that targets its id.
pub open spec fn patched_wrapper(tag: TagV, ts: Seq<TransformV>, rs: Seq<ResourceV>, ls: LabelStyle) -> Result<TagV, Seq<char>> {
    match wrapper_fold(tag.attrs, ts, rs, wrapper_id(tag.attrs), ls, 0) {
        Ok(a) => Ok(TagV { name: tag.name, attrs: a }),
        Err(e) => Err(e),
    }
}

/// An `mxGeometry` tag with its existing `width` and `height` set.
pub open spec fn patched_geometry(tag: TagV, width: Option<Seq<char>>, height: Option<Seq<char>>) -> TagV {
    TagV { name: tag.name, attrs: set_existing(set_existing(tag.attrs, "width"@, width), "height"@, height) }
}

} // verus!

verus! {

/// Whether a key is the given literal.
fn key_is(k: &Vec<char>, lit: &str) -> (b: bool)
    ensures
        b == (k@ == lit@),
{
    let l = to_chars(lit);
    chars_eq(k, &l)
}

/// The position of the first attribute named `key`.
pub fn find_key(attrs: &Attrs, key: &Vec<char>) -> (r: Option<usize>)
    ensures
        r matches Some(i) ==> key_index(pairs_view(attrs@), key@) == Some(i as int) && i < attrs@.len(),
        r is None ==> key_index(pairs_view(attrs@), key@) is None,
{
    let ghost pv = pairs_view(attrs@);
    let n = attrs.len();
    for i in 0..n
        invariant
            n == attrs@.len(),
            pv == pairs_view(attrs@),
            key_index(pv, key@) == key_index_from(pv, key@, i as int),
    {
        if chars_eq(&attrs[i].0, key) {
            return Some(i);
        }
    }
    None
}

/// Sets the first attribute named `key`, or appends one.
fn set_attr_chars(attrs: &mut Attrs, key: &Vec<char>, value: Vec<char>)
    ensures
        pairs_view(final(attrs)@) == set_attr(pairs_view(old(attrs)@), key@, value@),
{
    match find_key(attrs, key) {
        Some(i) => {
            attrs.set(i, (key.clone(), value));
        },
        None => {
            attrs.push((key.clone(), value));
        },
    }
    assert(pairs_view(attrs@) =~= set_attr(pairs_view(old(attrs)@), key@, value@));
}

/// Sets the first attribute named `key` when there is one and a value is given.
fn set_existing_chars(attrs: &mut Attrs, key: &Vec<char>, value: &Option<Vec<char>>)
    ensures
        pairs_view(final(attrs)@) == set_existing(pairs_view(old(attrs)@), key@, opt_chars(*value)),
{
    if let Some(v) = value {
        if let Some(i) = find_key(attrs, key) {
            attrs.set(i, (key.clone(), v.clone()));
        }
    }
    assert(pairs_view(attrs@) =~= set_existing(pairs_view(old(attrs)@), key@, opt_chars(*value)));
}

/// An optional character vector, seen as a sequence.
pub open spec fn opt_chars(o: Option<Vec<char>>) -> Option<Seq<char>> {
    match o {
        Some(v) => Some(v@),
        None => None,
    }
}

/// Patch the `style` attribute in an attr list to set `fillColor` and `strokeColor`.
pub fn patch_style_color(attrs: &mut Attrs, color: &str)
    ensures
        pairs_view(final(attrs)@) == color_styles(pairs_view(old(attrs)@), color@),
{
    let c = to_chars(color);
    let ghost before = pairs_view(attrs@);
    let n = attrs.len();
    for i in 0..n
        invariant
            n == attrs@.len(),
            before.len() == n,
            forall|j: int| 0 <= j < i ==> pairs_view(attrs@)[j] == color_styles(before, c@)[j],
            forall|j: int| i <= j < n ==> pairs_view(attrs@)[j] == before[j],
    {
        if key_is(&attrs[i].0, "style") {
            let filled = fill_color_chars(&attrs[i].1, &c);
            let stroked = stroke_color_chars(&filled, &c);
            let k = attrs[i].0.clone();
            attrs.set(i, (k, stroked));
        }
    }
    assert(pairs_view(attrs@) =~= color_styles(before, c@));
}

/// Set `visible="0"` on the cell — the draw.io-native way to hide an element.
pub fn patch_visibility_hidden(attrs: &mut Attrs)
    ensures
        pairs_view(final(attrs)@) == set_attr(pairs_view(old(attrs)@), "visible"@, "0"@),
{
    let k = to_chars("visible");
    let v = to_chars("0");
    set_attr_chars(attrs, &k, v);
}

/// Set `visible="1"` on the cell — the draw.io-native way to show an element.
pub fn patch_visibility_visible(attrs: &mut Attrs)
    ensures
        pairs_view(final(attrs)@) == set_attr(pairs_view(old(attrs)@), "visible"@, "1"@),
{
    let k = to_chars("visible");
    let v = to_chars("1");
    set_attr_chars(attrs, &k, v);
}

fn arrow_token_chars(style: &Vec<char>, key: &str, show: Option<bool>) -> (r: Vec<char>)
    ensures
        r@ == arrow_token(style@, key@, show),
{
    let k = to_chars(key);
    match show {
        Some(true) => {
            let v = to_chars("classic");
            patch_token_chars(style, &k, &v)
        },
        Some(false) => {
            let v = to_chars("none");
            patch_token_chars(style, &k, &v)
        },
        None => {
            let r = style.clone();
            assert(r@ =~= style@);
            r
        },
    }
}

/// Patch `startArrow` / `endArrow` in the style attribute of an edge cell.
/// `Some(false)` sets the token to `none`, `Some(true)` to `classic`, `None`
/// leaves it unchanged.
pub fn patch_arrow_visibility(attrs: &mut Attrs, begin: Option<bool>, end: Option<bool>)
    ensures
        pairs_view(final(attrs)@) == arrow_styles(pairs_view(old(attrs)@), begin, end),
{
    let ghost before = pairs_view(attrs@);
    let n = attrs.len();
    for i in 0..n
        invariant
            n == attrs@.len(),
            before.len() == n,
            forall|j: int| 0 <= j < i ==> pairs_view(attrs@)[j] == arrow_styles(before, begin, end)[j],
            forall|j: int| i <= j < n ==> pairs_view(attrs@)[j] == before[j],
    {
        if key_is(&attrs[i].0, "style") {
            let s1 = arrow_token_chars(&attrs[i].1, "startArrow", begin);
            let s2 = arrow_token_chars(&s1, "endArrow", end);
            let k = attrs[i].0.clone();
            attrs.set(i, (k, s2));
        }
    }
    assert(pairs_view(attrs@) =~= arrow_styles(before, begin, end));
}

/// Character-vector form of [`patch_style_token_in_attrs`].
fn style_token_chars(attrs: &mut Attrs, key: &Vec<char>, value: &Vec<char>)
    ensures
        pairs_view(final(attrs)@) == style_token(pairs_view(old(attrs)@), key@, value@),
{
    let style_key = to_chars("style");
    match find_key(attrs, &style_key) {
        Some(i) => {
            let patched = patch_token_chars(&attrs[i].1, key, value);
            let k = attrs[i].0.clone();
            attrs.set(i, (k, patched));
        },
        None => {
            let mut v = key.clone();
            v.push('=');
            push_all(&mut v, value);
            v.push(';');
            assert(v@ =~= key@ + seq!['='] + value@ + seq![';']);
            attrs.push((style_key, v));
        },
    }
    assert(pairs_view(attrs@) =~= style_token(pairs_view(old(attrs)@), key@, value@));
}

/// Replace (or append) a style token, working directly on the attrs list:
/// the first `style` attribute is patched, or `style="key=value;"` is added.
pub fn patch_style_token_in_attrs(attrs: &mut Attrs, key: &str, value: &str)
    ensures
        pairs_view(final(attrs)@) == style_token(pairs_view(old(attrs)@), key@, value@),
{
    let k = to_chars(key);
    let v = to_chars(value);
    style_token_chars(attrs, &k, &v);
}

/// Patch a style token using the mutable attrs form.
pub fn patch_style_token_mut(attrs: &mut Attrs, key: &str, value: &str)
    ensures
        pairs_view(final(attrs)@) == style_token(pairs_view(old(attrs)@), key@, value@),
{
    patch_style_token_in_attrs(attrs, key, value);
}

/// The style rid of `overflow=hidden` tokens.
fn without_hidden_overflow_chars(style: &Vec<char>) -> (r: Vec<char>)
    ensures
        r@ == without_hidden_overflow(style@),
{
    let pieces = split_chars(style, ';');
    let ghost pv = pieces@.map_values(|p: Vec<char>| p@);
    let hidden = to_chars("overflow=hidden");
    let n = pieces.len();
    let mut kept: Vec<Vec<char>> = Vec::new();
    for i in 0..n
        invariant
            n == pieces@.len(),
            pv == pieces@.map_values(|p: Vec<char>| p@),
            hidden@ == "overflow=hidden"@,
            kept@.map_values(|p: Vec<char>| p@) == keep_visible_overflow(pv.take(i as int)),
    {
        let ghost kv = kept@.map_values(|p: Vec<char>| p@);
        let t = trim_chars(&pieces[i]);
        assert(pv.take(i + 1).drop_last() =~= pv.take(i as int));
        if !chars_eq(&t, &hidden) {
            kept.push(pieces[i].clone());
            assert(kept@.map_values(|p: Vec<char>| p@) =~= kv.push(pv[i as int]));
        }
    }
    assert(pv.take(n as int) =~= pv);
    let semi = vec![';'];
    assert(semi@ =~= seq![';']);
    join_chars(&kept, &semi)
}

/// Sets every `value` attribute to `label`, and removes `overflow=hidden`
/// from every `style` attribute.
fn relabel_chars(attrs: &mut Attrs, label: &Vec<char>)
    ensures
        pairs_view(final(attrs)@) == relabel(pairs_view(old(attrs)@), label@),
{
    let ghost before = pairs_view(attrs@);
    let n = attrs.len();
    for i in 0..n
        invariant
            n == attrs@.len(),
            before.len() == n,
            forall|j: int| 0 <= j < i ==> pairs_view(attrs@)[j] == relabel(before, label@)[j],
            forall|j: int| i <= j < n ==> pairs_view(attrs@)[j] == before[j],
    {
        if key_is(&attrs[i].0, "value") {
            let k = attrs[i].0.clone();
            attrs.set(i, (k, label.clone()));
        } else if key_is(&attrs[i].0, "style") {
            let v = without_hidden_overflow_chars(&attrs[i].1);
            let k = attrs[i].0.clone();
            attrs.set(i, (k, v));
        }
    }
    assert(pairs_view(attrs@) =~= relabel(before, label@));
}

/// Sets every `value` and `label` attribute to `label`.
fn set_labels_chars(attrs: &mut Attrs, label: &Vec<char>)
    ensures
        pairs_view(final(attrs)@) == set_labels(pairs_view(old(attrs)@), label@),
{
    let ghost before = pairs_view(attrs@);
    let n = attrs.len();
    for i in 0..n
        invariant
            n == attrs@.len(),
            before.len() == n,
            forall|j: int| 0 <= j < i ==> pairs_view(attrs@)[j] == set_labels(before, label@)[j],
            forall|j: int| i <= j < n ==> pairs_view(attrs@)[j] == before[j],
    {
        if key_is(&attrs[i].0, "value") || key_is(&attrs[i].0, "label") {
            let k = attrs[i].0.clone();
            attrs.set(i, (k, label.clone()));
        }
    }
    assert(pairs_view(attrs@) =~= set_labels(before, label@));
}

/// Sets every attribute named `key` to `value`.
fn set_all_chars(attrs: &mut Attrs, key: &Vec<char>, value: &Vec<char>)
    ensures
        pairs_view(final(attrs)@) == set_all(pairs_view(old(attrs)@), key@, value@),
{
    let ghost before = pairs_view(attrs@);
    let n = attrs.len();
    for i in 0..n
        invariant
            n == attrs@.len(),
            before.len() == n,
            forall|j: int| 0 <= j < i ==> pairs_view(attrs@)[j] == set_all(before, key@, value@)[j],
            forall|j: int| i <= j < n ==> pairs_view(attrs@)[j] == before[j],
    {
        let ghost prev = pairs_view(attrs@);
        if chars_eq(&attrs[i].0, key) {
            let k = attrs[i].0.clone();
            attrs.set(i, (k, value.clone()));
            assert(pairs_view(attrs@) =~= prev.update(i as int, (key@, value@)));
        } else {
            assert(pairs_view(attrs@) == prev);
        }
    }
    assert(pairs_view(attrs@) =~= set_all(before, key@, value@));
}

} // verus!

verus! {

/// Whether a list of tags holds `id`.
pub fn tags_contain(tags: &Vec<String>, id: &Vec<char>) -> (r: bool)
    ensures
        r == strs(tags@).contains(id@),
{
    let n = tags.len();
    for i in 0..n
        invariant
            n == tags@.len(),
            forall|j: int| 0 <= j < i ==> strs(tags@)[j] != id@,
    {
        let t = to_chars(tags[i].as_str());
        if chars_eq(&t, id) {
            assert(strs(tags@)[i as int] == id@);
            return true;
        }
    }
    false
}

/// Whether the pair (color, id) is in a list of pairs.
pub fn pair_listed(pairs: &Vec<(Vec<char>, Vec<char>)>, color: &Vec<char>, id: &Vec<char>) -> (r: bool)
    ensures
        r == pairs_view(pairs@).contains((color@, id@)),
{
    let n = pairs.len();
    for i in 0..n
        invariant
            n == pairs@.len(),
            forall|j: int| 0 <= j < i ==> pairs_view(pairs@)[j] != (color@, id@),
    {
        if chars_eq(&pairs[i].0, color) && chars_eq(&pairs[i].1, id) {
            assert(pairs_view(pairs@)[i as int] == (color@, id@));
            return true;
        }
    }
    false
}

/// The outcome of patching attributes: on success the new attributes, or
/// the message of a failed read.
pub open spec fn patched_as(
    res: Result<(), String>,
    attrs: Seq<(Seq<char>, Seq<char>)>,
    expected: Result<Seq<(Seq<char>, Seq<char>)>, Seq<char>>,
) -> bool {
    match expected {
        Ok(a) => res is Ok && attrs == a,
        Err(e) => res matches Err(m) && m@ == e,
    }
}

fn dash_tokens_chars(attrs: &mut Attrs, style: StrokeStyle)
    ensures
        pairs_view(final(attrs)@) == dash_tokens(pairs_view(old(attrs)@), style),
{
    match style {
        StrokeStyle::Solid => patch_style_token_in_attrs(attrs, "dashed", "0"),
        StrokeStyle::Dashed => patch_style_token_in_attrs(attrs, "dashed", "1"),
        StrokeStyle::Dotted => {
            patch_style_token_in_attrs(attrs, "dashed", "1");
            patch_style_token_in_attrs(attrs, "dashPattern", "1 4");
        },
    }
}

fn opt_token_chars(attrs: &mut Attrs, key: &str, value: &Option<String>)
    ensures
        pairs_view(final(attrs)@) == opt_token(pairs_view(old(attrs)@), key@, ostr(*value)),
{
    if let Some(v) = value {
        patch_style_token_in_attrs(attrs, key, v.as_str());
    }
}

fn font_size_chars(attrs: &mut Attrs, font_size: Option<u32>)
    ensures
        pairs_view(final(attrs)@) == match font_size {
            Some(n) => style_token(pairs_view(old(attrs)@), "fontSize"@, decimal(n as nat)),
            None => pairs_view(old(attrs)@),
        },
{
    if let Some(n) = font_size {
        let k = to_chars("fontSize");
        let mut v: Vec<char> = Vec::new();
        push_decimal(&mut v, n as u64);
        assert(v@ =~= decimal(n as nat));
        style_token_chars(attrs, &k, &v);
    }
}

fn text_labels_chars(attrs: &mut Attrs, text: &Option<String>, ls: LabelStyle)
    ensures
        pairs_view(final(attrs)@) == match ostr(*text) {
            Some(tx) => set_labels(pairs_view(old(attrs)@), label_of(tx, ls)),
            None => pairs_view(old(attrs)@),
        },
{
    if let Some(t) = text {
        let tc = to_chars(t.as_str());
        let label = label_chars(&tc, ls);
        set_labels_chars(attrs, &label);
    }
}

/// The line style named by an edge's configuration.
fn named_line_style_exec(name: &String) -> (r: Option<StrokeStyle>)
    ensures
        r == named_line_style(name@),
{
    let n = to_chars(name.as_str());
    if key_is(&n, "dashed") {
        Some(StrokeStyle::Dashed)
    } else if key_is(&n, "dotted") {
        Some(StrokeStyle::Dotted)
    } else if key_is(&n, "solid") {
        Some(StrokeStyle::Solid)
    } else {
        None
    }
}

/// One transform applied to the attributes of the `mxCell` whose id is `id`.
fn cell_step_exec(
    attrs: &mut Attrs,
    t: &Transform,
    r: &Resource,
    id: &Vec<char>,
    recolor: &Vec<(Vec<char>, Vec<char>)>,
    ls: LabelStyle,
) -> (res: Result<(), String>)
    ensures
        patched_as(res, pairs_view(final(attrs)@), cell_step(pairs_view(old(attrs)@), t@, r@, id@, pairs_view(recolor@), ls)),
{
    match t {
        Transform::Color { tags, color } => {
            if tags_contain(tags, id) {
                patch_style_color(attrs, color.as_str());
            }
            Ok(())
        },
        Transform::ColorEdges { color, .. } => {
            let c = to_chars(color.as_str());
            if pair_listed(recolor, &c, id) {
                patch_style_color(attrs, color.as_str());
            }
            Ok(())
        },
        Transform::ElementVisibility { show, hide } => {
            if tags_contain(show, id) {
                patch_visibility_visible(attrs);
            } else if tags_contain(hide, id) {
                patch_visibility_hidden(attrs);
            }
            Ok(())
        },
        Transform::ReplaceText { tag, text } => {
            let tg = to_chars(tag.as_str());
            if chars_eq(&tg, id) {
                let tc = to_chars(text.as_str());
                let label = label_chars(&tc, ls);
                relabel_chars(attrs, &label);
            }
            Ok(())
        },
        Transform::ImportMarkdown { tag, .. } => {
            let tg = to_chars(tag.as_str());
            if chars_eq(&tg, id) {
                match r {
                    Resource::Markdown(Ok(text)) => {
                        let tc = to_chars(text.as_str());
                        let label = label_chars(&tc, ls);
                        relabel_chars(attrs, &label);
                    },
                    Resource::Markdown(Err(e)) => {
                        return Err(e.clone());
                    },
                    _ => {},
                }
            }
            Ok(())
        },
        Transform::ArrowVisibility { tags, begin, end } => {
            if tags_contain(tags, id) {
                patch_arrow_visibility(attrs, *begin, *end);
            }
            Ok(())
        },
        Transform::ShapeAttributes { tags, shape, fill_color, stroke_color, stroke_style, text, font_size } => {
            if tags_contain(tags, id) {
                if let Some(s) = shape {
                    let k = to_chars("shape");
                    let mut v = to_chars("mxgraph.basic.");
                    let sc = to_chars(s.as_str());
                    push_all(&mut v, &sc);
                    style_token_chars(attrs, &k, &v);
                }
                opt_token_chars(attrs, "fillColor", fill_color);
                opt_token_chars(attrs, "strokeColor", stroke_color);
                if let Some(st) = stroke_style {
                    dash_tokens_chars(attrs, *st);
                }
                font_size_chars(attrs, *font_size);
                text_labels_chars(attrs, text, ls);
            }
            Ok(())
        },
        Transform::EdgeAttributes {
            tags,
            text,
            color,
            line_style,
            thickness,
            font_color,
            font_size,
            text_background,
            text_border_color,
            start_arrow,
            end_arrow,
        } => {
            if tags_contain(tags, id) {
                opt_token_chars(attrs, "strokeColor", color);
                if let Some(l) = line_style {
                    if let Some(st) = named_line_style_exec(l) {
                        dash_tokens_chars(attrs, st);
                    }
                }
                opt_token_chars(attrs, "strokeWidth", thickness);
                if let Some(c) = font_color {
                    patch_style_token_in_attrs(attrs, "fontColor", c.as_str());
                    let k = to_chars("fontColor");
                    let v = to_chars(c.as_str());
                    set_all_chars(attrs, &k, &v);
                }
                font_size_chars(attrs, *font_size);
                opt_token_chars(attrs, "labelBackgroundColor", text_background);
                opt_token_chars(attrs, "labelBorderColor", text_border_color);
                opt_token_chars(attrs, "startArrow", start_arrow);
                opt_token_chars(attrs, "endArrow", end_arrow);
                text_labels_chars(attrs, text, ls);
            }
            Ok(())
        },
        _ => Ok(()),
    }
}

/// Every transform applied in order to the attributes of the cell `id`.
fn cell_fold_exec(
    attrs: &mut Attrs,
    ts: &Vec<Transform>,
    rs: &Vec<Resource>,
    id: &Vec<char>,
    recolor: &Vec<(Vec<char>, Vec<char>)>,
    ls: LabelStyle,
) -> (res: Result<(), String>)
    requires
        rs@.len() == ts@.len(),
    ensures
        patched_as(
            res,
            pairs_view(final(attrs)@),
            cell_fold(pairs_view(old(attrs)@), transforms_view(ts@), resources_view(rs@), id@, pairs_view(recolor@), ls, 0),
        ),
{
    let ghost tv = transforms_view(ts@);
    let ghost rv = resources_view(rs@);
    let ghost rc = pairs_view(recolor@);
    let n = ts.len();
    for k in 0..n
        invariant
            n == ts@.len(),
            rs@.len() == n,
            tv == transforms_view(ts@),
            rv == resources_view(rs@),
            rc == pairs_view(recolor@),
            cell_fold(pairs_view(old(attrs)@), tv, rv, id@, rc, ls, 0) == cell_fold(
                pairs_view(attrs@),
                tv,
                rv,
                id@,
                rc,
                ls,
                k as int,
            ),
    {
        let step = cell_step_exec(attrs, &ts[k], &rs[k], id, recolor, ls);
        if let Err(e) = step {
            return Err(e);
        }
    }
    Ok(())
}

/// Standard base64 of `data` (base64 crate, `general_purpose::STANDARD`:
/// the RFC 4648 alphabet with `=` padding).
#[verifier::external_body]
fn base64_standard(data: &[u8]) -> (r: String)
    ensures
        r@ == base64_text(data@),
{
    base64::engine::general_purpose::STANDARD.encode(data)
}

/// The first EmbedImage transform that targets `id`.
fn embed_index_exec(ts: &Vec<Transform>, id: &Vec<char>) -> (r: Option<usize>)
    ensures
        r matches Some(k) ==> embed_index_from(transforms_view(ts@), id@, 0) == Some(k as int) && k < ts@.len(),
        r is None ==> embed_index_from(transforms_view(ts@), id@, 0) is None,
{
    let ghost tv = transforms_view(ts@);
    let n = ts.len();
    for k in 0..n
        invariant
            n == ts@.len(),
            tv == transforms_view(ts@),
            embed_index_from(tv, id@, 0) == embed_index_from(tv, id@, k as int),
    {
        if let Transform::EmbedImage { tag, .. } = &ts[k] {
            let tg = to_chars(tag.as_str());
            if chars_eq(&tg, id) {
                return Some(k);
            }
        }
    }
    None
}

/// The style of an image cell showing the image data as a data URI.
fn image_style_chars(file: &String, data: &Vec<u8>) -> (r: Vec<char>)
    ensures
        r@ == image_style(file@, data@),
{
    let f = to_chars(file.as_str());
    let png = to_chars(".png");
    let jpg = to_chars(".jpg");
    let jpeg = to_chars(".jpeg");
    let mime = if ends_with_chars(&f, &png) {
        to_chars("image/png")
    } else if ends_with_chars(&f, &jpg) || ends_with_chars(&f, &jpeg) {
        to_chars("image/jpeg")
    } else {
        to_chars("image/png")
    };
    let mut style = to_chars(
        "shape=image;verticalLabelPosition=bottom;labelBackgroundColor=#ffffff;verticalAlign=top;align=center;strokeColor=none;fillColor=none;image;image=",
    );
    let data_prefix = to_chars("data:");
    push_all(&mut style, &data_prefix);
    push_all(&mut style, &mime);
    let b64_marker = to_chars(";base64,");
    push_all(&mut style, &b64_marker);
    let b64 = base64_standard(data.as_slice());
    let b64c = to_chars(b64.as_str());
    push_all(&mut style, &b64c);
    style.push(';');
    assert(style@ =~= image_style(file@, data@));
    style
}

/// Geometry of an image cell, seen as sequences.
pub open spec fn geometry_view(g: Option<(Option<Vec<char>>, Option<Vec<char>>)>) -> GeometryV {
    match g {
        Some((w, h)) => Some((opt_chars(w), opt_chars(h))),
        None => None,
    }
}

fn opt_string_chars(o: &Option<String>) -> (r: Option<Vec<char>>)
    ensures
        opt_chars(r) == ostr(*o),
{
    match o {
        Some(s) => Some(to_chars(s.as_str())),
        None => None,
    }
}

/// The EmbedImage step on the attributes of cell `id`.
fn embed_image_exec(attrs: &mut Attrs, ts: &Vec<Transform>, rs: &Vec<Resource>, id: &Vec<char>) -> (res: Result<
    Option<(Option<Vec<char>>, Option<Vec<char>>)>,
    String,
>)
    requires
        rs@.len() == ts@.len(),
    ensures
        match embed_image(pairs_view(old(attrs)@), transforms_view(ts@), resources_view(rs@), id@) {
            Ok((a, g)) => res matches Ok(geo) && pairs_view(final(attrs)@) == a && geometry_view(geo) == g,
            Err(e) => res matches Err(m) && m@ == e,
        },
{
    match embed_index_exec(ts, id) {
        None => Ok(None),
        Some(k) => {
            match (&ts[k], &rs[k]) {
                (Transform::EmbedImage { file, .. }, Resource::Image(Ok(img))) => {
                    let style = image_style_chars(file, &img.data);
                    let key = to_chars("style");
                    set_attr_chars(attrs, &key, style);
                    let w = opt_string_chars(&img.width);
                    let h = opt_string_chars(&img.height);
                    Ok(Some((w, h)))
                },
                (_, Resource::Image(Err(e))) => Err(e.clone()),
                _ => Ok(None),
            }
        },
    }
}

/// The id a cell is known by: its own `id`, else that of its wrapper, else empty.
fn cell_id_exec(attrs: &Attrs, wrapper: &Option<Vec<char>>) -> (r: Vec<char>)
    ensures
        r@ == cell_id(pairs_view(attrs@), opt_chars(*wrapper)),
{
    let key = to_chars("id");
    match find_key(attrs, &key) {
        Some(i) => attrs[i].1.clone(),
        None => match wrapper {
            Some(u) => u.clone(),
            None => Vec::new(),
        },
    }
}

/// A copy of a list of attributes.
fn copy_attrs(attrs: &Attrs) -> (r: Attrs)
    ensures
        pairs_view(r@) == pairs_view(attrs@),
{
    let mut r: Attrs = Vec::new();
    let n = attrs.len();
    for i in 0..n
        invariant
            n == attrs@.len(),
            r@.len() == i,
            forall|j: int| 0 <= j < i ==> pairs_view(r@)[j] == pairs_view(attrs@)[j],
    {
        r.push((attrs[i].0.clone(), attrs[i].1.clone()));
    }
    assert(pairs_view(r@) =~= pairs_view(attrs@));
    r
}

/// For one `<mxCell …>` element, apply Color, ColorEdges, ElementVisibility,
/// ReplaceText, ImportMarkdown, ArrowVisibility, ShapeAttributes,
/// EdgeAttributes and EmbedImage transforms. Returns the patched element and,
/// for EmbedImage targets, the (width, height) to apply to the following
/// mxGeometry child.
pub fn patch_cell_with_geometry(
    tag: &XmlTag,
    transforms: &Vec<Transform>,
    resources: &Vec<Resource>,
    recolor: &Vec<(Vec<char>, Vec<char>)>,
    ls: LabelStyle,
    wrapper: &Option<Vec<char>>,
) -> (res: Result<(XmlTag, Option<(Option<Vec<char>>, Option<Vec<char>>)>), String>)
    requires
        resources@.len() == transforms@.len(),
    ensures
        match patched_cell(tag@, transforms_view(transforms@), resources_view(resources@), pairs_view(recolor@), ls, opt_chars(*wrapper)) {
            Ok((t2, g)) => res matches Ok((t, geo)) && t@ == t2 && geometry_view(geo) == g,
            Err(e) => res matches Err(m) && m@ == e,
        },
{
    let mut attrs = copy_attrs(&tag.attrs);
    let id = cell_id_exec(&tag.attrs, wrapper);
    let folded = cell_fold_exec(&mut attrs, transforms, resources, &id, recolor, ls);
    if let Err(e) = folded {
        return Err(e);
    }
    let geom = embed_image_exec(&mut attrs, transforms, resources, &id);
    match geom {
        Err(e) => Err(e),
        Ok(g) => Ok((XmlTag { name: tag.name.clone(), attrs }, g)),
    }
}

/// For one `<object …>` / `<UserObject …>` wrapper element, apply any
/// ReplaceText or ImportMarkdown transform that targets its id (replacing the
/// `label` attribute).
pub fn patch_wrapper(tag: &XmlTag, transforms: &Vec<Transform>, resources: &Vec<Resource>, ls: LabelStyle) -> (res: Result<XmlTag, String>)
    requires
        resources@.len() == transforms@.len(),
    ensures
        match patched_wrapper(tag@, transforms_view(transforms@), resources_view(resources@), ls) {
            Ok(t2) => res matches Ok(t) && t@ == t2,
            Err(e) => res matches Err(m) && m@ == e,
        },
{
    let ghost tv = transforms_view(transforms@);
    let ghost rv = resources_view(resources@);
    let mut attrs = copy_attrs(&tag.attrs);
    let key = to_chars("id");
    let id = match find_key(&tag.attrs, &key) {
        Some(i) => tag.attrs[i].1.clone(),
        None => Vec::new(),
    };
    let label_key = to_chars("label");
    let n = transforms.len();
    for k in 0..n
        invariant
            n == transforms@.len(),
            resources@.len() == n,
            tv == transforms_view(transforms@),
            rv == resources_view(resources@),
            id@ == wrapper_id(tag@.attrs),
            label_key@ == "label"@,
            wrapper_fold(tag@.attrs, tv, rv, id@, ls, 0) == wrapper_fold(pairs_view(attrs@), tv, rv, id@, ls, k as int),
    {
        match &transforms[k] {
            Transform::ReplaceText { tag: target, text } => {
                let tg = to_chars(target.as_str());
                if chars_eq(&tg, &id) {
                    let tc = to_chars(text.as_str());
                    let label = label_chars(&tc, ls);
                    set_attr_chars(&mut attrs, &label_key, label);
                }
            },
            Transform::ImportMarkdown { tag: target, .. } => {
                let tg = to_chars(target.as_str());
                if chars_eq(&tg, &id) {
                    match &resources[k] {
                        Resource::Markdown(Ok(text)) => {
                            let tc = to_chars(text.as_str());
                            let label = label_chars(&tc, ls);
                            set_attr_chars(&mut attrs, &label_key, label);
                        },
                        Resource::Markdown(Err(e)) => {
                            return Err(e.clone());
                        },
                        _ => {},
                    }
                }
            },
            _ => {},
        }
    }
    Ok(XmlTag { name: tag.name.clone(), attrs })
}

/// Patch the `width` and/or `height` attributes of an `mxGeometry` element.
pub fn patch_geometry(tag: &XmlTag, width: &Option<Vec<char>>, height: &Option<Vec<char>>) -> (r: XmlTag)
    ensures
        r@ == patched_geometry(tag@, opt_chars(*width), opt_chars(*height)),
{
    let mut attrs = copy_attrs(&tag.attrs);
    let wk = to_chars("width");
    let hk = to_chars("height");
    set_existing_chars(&mut attrs, &wk, width);
    set_existing_chars(&mut attrs, &hk, height);
    XmlTag { name: tag.name.clone(), attrs }
}

} // verus!
