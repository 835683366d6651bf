//! The configuration model: derived steps and the transforms they apply.
use vstd::prelude::*;

verus! {

/// Top-level configuration.
pub struct Config {
    pub derived: Vec<Derived>,
    /// Delay between slides in the animated GIF and MP4, in milliseconds.
    pub delay_between_slides: u32,
    /// Bottom margin applied to heading tags (h1–h6) in Markdown-rendered text, in pixels.
    pub heading_margin_bottom: u32,
    /// Number of spacer units inserted between list items.
    pub list_item_spacing: u32,
    /// Number of non-breaking spaces prepended before each bullet/number in list items.
    pub list_item_indent: u32,
    /// Transition effect applied between slides in the MP4 output.
    pub transition: Option<String>,
    /// Duration of the transition effect in milliseconds.
    pub transition_duration_ms: u32,
    /// Optional: if present, the generated slides are pushed to Confluence.
    pub confluence: Option<ConfluenceConfig>,
}

pub fn default_delay_between_slides() -> (r: u32)
    ensures
        r == 1000,
{
    1000
}

pub fn default_heading_margin_bottom() -> (r: u32)
    ensures
        r == 4,
{
    4
}

pub fn default_list_item_spacing() -> (r: u32)
    ensures
        r == 0,
{
    0
}

pub fn default_transition_duration_ms() -> (r: u32)
    ensures
        r == 500,
{
    500
}

pub fn default_list_item_indent() -> (r: u32)
    ensures
        r == 0,
{
    0
}

/// Confluence Cloud target.
pub struct ConfluenceConfig {
    /// Base URL of the Confluence Cloud instance.
    pub url: String,
    /// Space key, e.g. "TEAM".
    pub space_key: String,
    /// Title of the page to create or update.
    pub page_title: String,
}

/// One generated slide.
pub struct Derived {
    pub output: String,
    /// Source file or the output name of a previous step to use as input.
    pub from: Option<String>,
    pub transforms: Vec<Transform>,
    /// Crop the exported PNG to the cell carrying this tag.
    pub bounding_box_tag: Option<String>,
    /// Per-slide delay in milliseconds.
    pub delay: Option<u32>,
}

/// Border/stroke line style for shape cells.
#[derive(Clone, Copy, Debug, PartialEq, Eq, Structural)]
pub enum StrokeStyle {
    /// Continuous line (draw.io: `dashed=0`).
    Solid,
    /// Dashed line (draw.io: `dashed=1`).
    Dashed,
    /// Dotted line (draw.io: `dashed=1; dashPattern=1 4`).
    Dotted,
}

/// One transform of a derived step.
///
/// Numbers that the configuration gives as decimals (an edge's thickness, an
/// embedded image's width and height) are carried as the text they are
/// written into the diagram with.
#[allow(inconsistent_fields)]
pub enum Transform {
    /// Recolor cells. Each entry in `tags` is a draw.io tag.
    Color { tags: Vec<String>, color: String },
    /// Recolor all edges that are NOT connected to any node whose tag is in `exclude`.
    ColorEdges { exclude: Vec<String>, color: String },
    /// Replace the display text of a cell.
    ReplaceText { tag: String, text: String },
    /// Show or hide cells by draw.io tag.
    ElementVisibility { show: Vec<String>, hide: Vec<String> },
    /// Generate a title slide with centered text. Must be the only transform in the list.
    TitleSlide { text: String },
    /// Replace the display text of a cell with the contents of a Markdown file.
    ImportMarkdown { tag: String, file: String },
    /// Animation marker: splits the transform list into sections. Does not modify the XML.
    Animation,
    /// Show or hide the begin/end arrows of edge cells by draw.io tag.
    ArrowVisibility { tags: Vec<String>, begin: Option<bool>, end: Option<bool> },
    /// Change visual attributes of shape cells selected by tag.
    ShapeAttributes {
        tags: Vec<String>,
        shape: Option<String>,
        fill_color: Option<String>,
        stroke_color: Option<String>,
        stroke_style: Option<StrokeStyle>,
        text: Option<String>,
        font_size: Option<u32>,
    },
    /// Change visual attributes of edge cells selected by tag.
    EdgeAttributes {
        tags: Vec<String>,
        text: Option<String>,
        color: Option<String>,
        line_style: Option<String>,
        thickness: Option<String>,
        font_color: Option<String>,
        font_size: Option<u32>,
        text_background: Option<String>,
        text_border_color: Option<String>,
        start_arrow: Option<String>,
        end_arrow: Option<String>,
    },
    /// Embed an external image file into an image-placeholder cell.
    EmbedImage { tag: String, file: String, width: Option<String>, height: Option<String> },
}

/// A list of strings, seen as character sequences.
pub open spec fn strs(v: Seq<String>) -> Seq<Seq<char>> {
    v.map_values(|s: String| s@)
}

/// An optional string, seen as a character sequence.
pub open spec fn ostr(o: Option<String>) -> Option<Seq<char>> {
    match o {
        Some(s) => Some(s@),
        None => None,
    }
}

/// The mathematical form of a [`Transform`]: the same variants, with every
/// string seen as its characters.
#[allow(inconsistent_fields)]
pub enum TransformV {
    Color { tags: Seq<Seq<char>>, color: Seq<char> },
    ColorEdges { exclude: Seq<Seq<char>>, color: Seq<char> },
    ReplaceText { tag: Seq<char>, text: Seq<char> },
    ElementVisibility { show: Seq<Seq<char>>, hide: Seq<Seq<char>> },
    TitleSlide { text: Seq<char> },
    ImportMarkdown { tag: Seq<char>, file: Seq<char> },
    Animation,
    ArrowVisibility { tags: Seq<Seq<char>>, begin: Option<bool>, end: Option<bool> },
    ShapeAttributes {
        tags: Seq<Seq<char>>,
        shape: Option<Seq<char>>,
        fill_color: Option<Seq<char>>,
        stroke_color: Option<Seq<char>>,
        stroke_style: Option<StrokeStyle>,
        text: Option<Seq<char>>,
        font_size: Option<u32>,
    },
    EdgeAttributes {
        tags: Seq<Seq<char>>,
        text: Option<Seq<char>>,
        color: Option<Seq<char>>,
        line_style: Option<Seq<char>>,
        thickness: Option<Seq<char>>,
        font_color: Option<Seq<char>>,
        font_size: Option<u32>,
        text_background: Option<Seq<char>>,
        text_border_color: Option<Seq<char>>,
        start_arrow: Option<Seq<char>>,
        end_arrow: Option<Seq<char>>,
    },
    EmbedImage { tag: Seq<char>, file: Seq<char>, width: Option<Seq<char>>, height: Option<Seq<char>> },
}

impl View for Transform {
    type V = TransformV;

    open spec fn view(&self) -> TransformV {
        match self {
            Transform::Color { tags, color } => TransformV::Color { tags: strs(tags@), color: color@ },
            Transform::ColorEdges { exclude, color } => TransformV::ColorEdges {
                exclude: strs(exclude@),
                color: color@,
            },
            Transform::ReplaceText { tag, text } => TransformV::ReplaceText { tag: tag@, text: text@ },
            Transform::ElementVisibility { show, hide } => TransformV::ElementVisibility {
                show: strs(show@),
                hide: strs(hide@),
            },
            Transform::TitleSlide { text } => TransformV::TitleSlide { text: text@ },
            Transform::ImportMarkdown { tag, file } => TransformV::ImportMarkdown { tag: tag@, file: file@ },
            Transform::Animation => TransformV::Animation,
            Transform::ArrowVisibility { tags, begin, end } => TransformV::ArrowVisibility {
                tags: strs(tags@),
                begin: *begin,
                end: *end,
            },
            Transform::ShapeAttributes {
                tags,
                shape,
                fill_color,
                stroke_color,
                stroke_style,
                text,
                font_size,
            } => TransformV::ShapeAttributes {
                tags: strs(tags@),
                shape: ostr(*shape),
                fill_color: ostr(*fill_color),
                stroke_color: ostr(*stroke_color),
                stroke_style: *stroke_style,
                text: ostr(*text),
                font_size: *font_size,
            },
            Transform::EdgeAttributes {
                tags,
                text,
                color,
                line_style,
                thickness,
                font_color,
                font_size,
                text_background,
                text_border_color,
                start_arrow,
                end_arrow,
            } => TransformV::EdgeAttributes {
                tags: strs(tags@),
                text: ostr(*text),
                color: ostr(*color),
                line_style: ostr(*line_style),
                thickness: ostr(*thickness),
                font_color: ostr(*font_color),
                font_size: *font_size,
                text_background: ostr(*text_background),
                text_border_color: ostr(*text_border_color),
                start_arrow: ostr(*start_arrow),
                end_arrow: ostr(*end_arrow),
            },
            Transform::EmbedImage { tag, file, width, height } => TransformV::EmbedImage {
                tag: tag@,
                file: file@,
                width: ostr(*width),
                height: ostr(*height),
            },
        }
    }
}

/// The transforms of a list, seen mathematically.
pub open spec fn transforms_view(ts: Seq<Transform>) -> Seq<TransformV> {
    ts.map_values(|t: Transform| t@)
}

/// A copy of a list of strings.
pub fn copy_strings(v: &Vec<String>) -> (r: Vec<String>)
    ensures
        strs(r@) == strs(v@),
{
    let mut r: Vec<String> = Vec::new();
    let n = v.len();
    for i in 0..n
        invariant
            n == v@.len(),
            r@.len() == i,
            forall|j: int| 0 <= j < i ==> #[trigger] r@[j]@ == v@[j]@,
    {
        r.push(v[i].clone());
    }
    assert(strs(r@) =~= strs(v@));
    r
}

/// A copy of an optional string.
pub fn copy_opt(o: &Option<String>) -> (r: Option<String>)
    ensures
        ostr(r) == ostr(*o),
{
    match o {
        Some(s) => Some(s.clone()),
        None => None,
    }
}

/// A copy of a transform.
pub fn copy_transform(t: &Transform) -> (r: Transform)
    ensures
        r@ == t@,
{
    match t {
        Transform::Color { tags, color } => Transform::Color { tags: copy_strings(tags), color: color.clone() },
        Transform::ColorEdges { exclude, color } => Transform::ColorEdges {
            exclude: copy_strings(exclude),
            color: color.clone(),
        },
        Transform::ReplaceText { tag, text } => Transform::ReplaceText { tag: tag.clone(), text: text.clone() },
        Transform::ElementVisibility { show, hide } => Transform::ElementVisibility {
            show: copy_strings(show),
            hide: copy_strings(hide),
        },
        Transform::TitleSlide { text } => Transform::TitleSlide { text: text.clone() },
        Transform::ImportMarkdown { tag, file } => Transform::ImportMarkdown {
            tag: tag.clone(),
            file: file.clone(),
        },
        Transform::Animation => Transform::Animation,
        Transform::ArrowVisibility { tags, begin, end } => Transform::ArrowVisibility {
            tags: copy_strings(tags),
            begin: *begin,
            end: *end,
        },
        Transform::ShapeAttributes { tags, shape, fill_color, stroke_color, stroke_style, text, font_size } => {
            Transform::ShapeAttributes {
                tags: copy_strings(tags),
                shape: copy_opt(shape),
                fill_color: copy_opt(fill_color),
                stroke_color: copy_opt(stroke_color),
                stroke_style: *stroke_style,
                text: copy_opt(text),
                font_size: *font_size,
            }
        },
        Transform::EdgeAttributes {
            tags,
            text,
            color,
            line_style,
            thickness,
            font_color,
            font_size,
            text_background,
            text_border_color,
            start_arrow,
            end_arrow,
        } => Transform::EdgeAttributes {
            tags: copy_strings(tags),
            text: copy_opt(text),
            color: copy_opt(color),
            line_style: copy_opt(line_style),
            thickness: copy_opt(thickness),
            font_color: copy_opt(font_color),
            font_size: *font_size,
            text_background: copy_opt(text_background),
            text_border_color: copy_opt(text_border_color),
            start_arrow: copy_opt(start_arrow),
            end_arrow: copy_opt(end_arrow),
        },
        Transform::EmbedImage { tag, file, width, height } => Transform::EmbedImage {
            tag: tag.clone(),
            file: file.clone(),
            width: copy_opt(width),
            height: copy_opt(height),
        },
    }
}

} // verus!

verus! {

/// An image file read for an `EmbedImage` transform: its bytes, and the
/// width and height, as written into the diagram, that its geometry takes.
pub struct EmbeddedImage {
    pub data: Vec<u8>,
    pub width: Option<String>,
    pub height: Option<String>,
}

/// What a transform needs from outside the document: the Markdown text of an
/// `ImportMarkdown` file, the image of an `EmbedImage` file, each or the
/// message of the failure to read it; nothing for the other transforms.
pub enum Resource {
    Nothing,
    Markdown(Result<String, String>),
    Image(Result<EmbeddedImage, String>),
}

pub struct ImageV {
    pub data: Seq<u8>,
    pub width: Option<Seq<char>>,
    pub height: Option<Seq<char>>,
}

pub enum ResourceV {
    Nothing,
    Markdown(Result<Seq<char>, Seq<char>>),
    Image(Result<ImageV, Seq<char>>),
}

impl View for Resource {
    type V = ResourceV;

    open spec fn view(&self) -> ResourceV {
        match self {
            Resource::Nothing => ResourceV::Nothing,
            Resource::Markdown(Ok(s)) => ResourceV::Markdown(Ok(s@)),
            Resource::Markdown(Err(e)) => ResourceV::Markdown(Err(e@)),
            Resource::Image(Ok(img)) => ResourceV::Image(
                Ok(ImageV { data: img.data@, width: ostr(img.width), height: ostr(img.height) }),
            ),
            Resource::Image(Err(e)) => ResourceV::Image(Err(e@)),
        }
    }
}

pub open spec fn resources_view(rs: Seq<Resource>) -> Seq<ResourceV> {
    rs.map_values(|r: Resource| r@)
}

} // verus!
