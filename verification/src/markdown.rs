//! Markdown labels: rendered to HTML with pulldown-cmark, given explicit
//! spacing, and escaped for an XML attribute value.
use vstd::prelude::*;
use vstd::string::*;

use crate::text::{
    decimal, find_chars_from, find_from, from_chars, join, join_chars, lemma_find_from,
    push_all, push_decimal, repeat, repeat_chars, replace_all, replace_chars, slice_of,
    to_chars, trim, trim_chars,
};

verus! {

/// The HTML that pulldown-cmark's `push_html` renders for `text`, parsed with
/// every extension (`Options::all()`).
pub uninterp spec fn markdown_html(text: Seq<char>) -> Seq<char>;

/// pulldown-cmark `html::push_html` over `Parser::new_ext(text, Options::all())`
/// into an empty string. The contract names the rendering as a function of
/// the text alone; what it is, is not stated.
#[verifier::external_body]
fn render_markdown(text: &str) -> (html: String)
    ensures
        html@ == markdown_html(text@),
{
    let mut out = String::new();
    pulldown_cmark::html::push_html(
        &mut out,
        pulldown_cmark::Parser::new_ext(text, pulldown_cmark::Options::all()),
    );
    out
}

/// `<hN>` for a heading level.
pub open spec fn heading_open(level: nat) -> Seq<char> {
    "<h"@ + decimal(level) + seq!['>']
}

/// `<hN style="margin-top:0;margin-bottom:Mpx">` for a heading level and margin.
pub open spec fn heading_styled(level: nat, margin: nat) -> Seq<char> {
    "<h"@ + decimal(level) + " style=\"margin-top:0;margin-bottom:"@ + decimal(margin) + "px\">"@
}

/// The heading tags of levels `level..=6` given an explicit bottom margin,
/// level by level.
pub open spec fn style_headings(s: Seq<char>, margin: nat, level: nat) -> Seq<char>
    decreases 7 - level,
{
    if level > 6 || level == 0 {
        s
    } else {
        style_headings(replace_all(s, heading_open(level), heading_styled(level, margin)), margin, level + 1)
    }
}

/// `<li>`.
pub open spec fn li_open() -> Seq<char> {
    seq!['<', 'l', 'i', '>']
}

/// `</li>`.
pub open spec fn li_close() -> Seq<char> {
    seq!['<', '/', 'l', 'i', '>']
}

/// The contents of the `<li>…</li>` items found from position `from` on; an
/// item without a closing tag runs to the end.
pub open spec fn li_items(c: Seq<char>, from: int) -> Seq<Seq<char>>
    decreases c.len() + 1 - from,
{
    if from < 0 || from > c.len() {
        Seq::empty()
    } else {
        match find_from(c, li_open(), from) {
            None => Seq::empty(),
            Some(i) => {
                let a = i + li_open().len();
                if i < from || a > c.len() {
                    Seq::empty()
                } else {
                    match find_from(c, li_close(), a) {
                        Some(j) => if a <= j && j + li_close().len() <= c.len() {
                            seq![c.subrange(a, j)] + li_items(c, j + li_close().len())
                        } else {
                            Seq::empty()
                        },
                        None => seq![c.subrange(a, c.len() as int)],
                    }
                }
            },
        }
    }
}

/// The marker of item `k` (counted from 1) of a list: `• ` for a bullet list,
/// `k. ` for a numbered one.
pub open spec fn item_marker(numbered: bool, k: nat) -> Seq<char> {
    if numbered {
        decimal(k) + ". "@
    } else {
        "• "@
    }
}

/// The items of a list as plain lines: indent, marker, content.
pub open spec fn format_items(items: Seq<Seq<char>>, numbered: bool, indent: Seq<char>) -> Seq<Seq<char>> {
    Seq::new(items.len(), |k: int| indent + item_marker(numbered, (k + 1) as nat) + items[k])
}

/// `s` from position `from` on, with every `open…close` list replaced by its
/// items as plain lines joined by `sep`; a list without a closing tag runs to
/// the end.
pub open spec fn flatten_lists(
    s: Seq<char>,
    open: Seq<char>,
    close: Seq<char>,
    numbered: bool,
    indent: Seq<char>,
    sep: Seq<char>,
    from: int,
) -> Seq<char>
    decreases s.len() + 1 - from,
{
    if open.len() == 0 || from < 0 || from > s.len() {
        Seq::empty()
    } else {
        match find_from(s, open, from) {
            None => s.subrange(from, s.len() as int),
            Some(i) => {
                let a = i + open.len();
                if i < from || a > s.len() {
                    Seq::empty()
                } else {
                    let (content, next) = match find_from(s, close, a) {
                        Some(j) => if a <= j && j + close.len() <= s.len() {
                            (s.subrange(a, j), j + close.len())
                        } else {
                            (Seq::empty(), s.len() as int)
                        },
                        None => (s.subrange(a, s.len() as int), s.len() as int),
                    };
                    s.subrange(from, i) + join(format_items(li_items(content, 0), numbered, indent), sep)
                        + flatten_lists(s, open, close, numbered, indent, sep, next)
                }
            },
        }
    }
}

/// The spacer unit placed between list items.
pub open spec fn spacer_unit() -> Seq<char> {
    "<font style=\"font-size:1px\">.</font><br>"@
}

/// HTML with explicit margins on headings and paragraphs, and with bullet
/// and numbered lists replaced by plain lines separated by spacer units.
pub open spec fn spaced_html(html: Seq<char>, heading_margin_bottom: nat, list_item_spacing: nat, list_item_indent: nat) -> Seq<char> {
    let s1 = style_headings(html, heading_margin_bottom, 1);
    let s2 = replace_all(s1, "<p>"@, "<p style=\"margin-top:0\">"@);
    let sep = "<br>"@ + repeat(spacer_unit(), list_item_spacing);
    let indent = repeat("&nbsp;"@, list_item_indent);
    let s3 = flatten_lists(s2, "<ul>"@, "</ul>"@, false, indent, sep, 0);
    flatten_lists(s3, "<ol>"@, "</ol>"@, true, indent, sep, 0)
}

/// The item contents of a list body.
fn li_items_chars(c: &Vec<char>) -> (r: Vec<Vec<char>>)
    ensures
        r@.map_values(|p: Vec<char>| p@) == li_items(c@, 0),
{
    let open = to_chars("<li>");
    let close = to_chars("</li>");
    proof {
        reveal_strlit("<li>");
        reveal_strlit("</li>");
        assert(open@ =~= li_open());
        assert(close@ =~= li_close());
    }
    let n = c.len();
    let mut r: Vec<Vec<char>> = Vec::new();
    let mut pos: usize = 0;
    loop
        invariant
            n == c@.len(),
            open@ == li_open(),
            close@ == li_close(),
            open@.len() == 4,
            close@.len() == 5,
            pos <= n,
            r@.map_values(|p: Vec<char>| p@) + li_items(c@, pos as int) == li_items(c@, 0),
        decreases n - pos,
    {
        let ghost rv = r@.map_values(|p: Vec<char>| p@);
        match find_chars_from(c, &open, pos) {
            None => {
                assert(r@.map_values(|p: Vec<char>| p@) =~= rv + li_items(c@, pos as int));
                return r;
            },
            Some(i) => {
                proof { lemma_find_from(c@, open@, pos as int); }
                let a = i + 4;
                match find_chars_from(c, &close, a) {
                    Some(j) => {
                        proof { lemma_find_from(c@, close@, a as int); }
                        let item = slice_of(c, a, j);
                        r.push(item);
                        assert(r@.map_values(|p: Vec<char>| p@) =~= rv + seq![c@.subrange(a as int, j as int)]);
                        pos = j + 5;
                    },
                    None => {
                        let item = slice_of(c, a, n);
                        r.push(item);
                        assert(r@.map_values(|p: Vec<char>| p@) =~= rv + seq![c@.subrange(a as int, n as int)]);
                        return r;
                    },
                }
            },
        }
    }
}

/// The lines for the items of one list.
fn format_items_chars(items: &Vec<Vec<char>>, numbered: bool, indent: &Vec<char>) -> (r: Vec<Vec<char>>)
    ensures
        r@.map_values(|p: Vec<char>| p@) == format_items(items@.map_values(|p: Vec<char>| p@), numbered, indent@),
{
    let ghost iv = items@.map_values(|p: Vec<char>| p@);
    let bullet = to_chars("• ");
    let dot = to_chars(". ");
    let n = items.len();
    let mut r: Vec<Vec<char>> = Vec::new();
    for k in 0..n
        invariant
            n == items@.len(),
            iv == items@.map_values(|p: Vec<char>| p@),
            bullet@ == "• "@,
            dot@ == ". "@,
            r@.len() == k,
            forall|m: int| 0 <= m < k ==> (#[trigger] r@[m])@ == indent@ + item_marker(numbered, (m + 1) as nat) + iv[m],
    {
        let mut line = indent.clone();
        assert(line@ =~= indent@);
        if numbered {
            push_decimal(&mut line, (k as u64) + 1);
            push_all(&mut line, &dot);
        } else {
            push_all(&mut line, &bullet);
        }
        push_all(&mut line, &items[k]);
        assert(line@ =~= indent@ + item_marker(numbered, (k + 1) as nat) + iv[k as int]);
        r.push(line);
    }
    assert(r@.map_values(|p: Vec<char>| p@) =~= format_items(iv, numbered, indent@));
    r
}

/// One pass that flattens every `open…close` list of `s`.
fn flatten_lists_chars(
    s: &Vec<char>,
    open: &Vec<char>,
    close: &Vec<char>,
    numbered: bool,
    indent: &Vec<char>,
    sep: &Vec<char>,
) -> (r: Vec<char>)
    requires
        open@.len() > 0,
    ensures
        r@ == flatten_lists(s@, open@, close@, numbered, indent@, sep@, 0),
{
    let n = s.len();
    let mut out: Vec<char> = Vec::new();
    let mut pos: usize = 0;
    loop
        invariant
            n == s@.len(),
            open@.len() > 0,
            pos <= n,
            out@ + flatten_lists(s@, open@, close@, numbered, indent@, sep@, pos as int)
                == flatten_lists(s@, open@, close@, numbered, indent@, sep@, 0),
        decreases n - pos,
    {
        match find_chars_from(s, open, pos) {
            None => {
                let rest = slice_of(s, pos, n);
                push_all(&mut out, &rest);
                return out;
            },
            Some(i) => {
                proof { lemma_find_from(s@, open@, pos as int); }
                let a = i + open.len();
                let (content, next) = match find_chars_from(s, close, a) {
                    Some(j) => {
                        proof { lemma_find_from(s@, close@, a as int); }
                        (slice_of(s, a, j), j + close.len())
                    },
                    None => (slice_of(s, a, n), n),
                };
                let before = slice_of(s, pos, i);
                push_all(&mut out, &before);
                let items = li_items_chars(&content);
                let lines = format_items_chars(&items, numbered, indent);
                let joined = join_chars(&lines, sep);
                push_all(&mut out, &joined);
                pos = next;
            },
        }
    }
}

/// Appends `"<h" + level + ">"` or the styled form to `out`.
fn heading_tags(level: u64, margin: u32) -> (r: (Vec<char>, Vec<char>))
    ensures
        r.0@ == heading_open(level as nat),
        r.1@ == heading_styled(level as nat, margin as nat),
{
    let mut open = to_chars("<h");
    push_decimal(&mut open, level);
    open.push('>');
    let mut styled = to_chars("<h");
    push_decimal(&mut styled, level);
    let mid = to_chars(" style=\"margin-top:0;margin-bottom:");
    push_all(&mut styled, &mid);
    push_decimal(&mut styled, margin as u64);
    let tail = to_chars("px\">");
    push_all(&mut styled, &tail);
    assert(open@ =~= heading_open(level as nat));
    assert(styled@ =~= heading_styled(level as nat, margin as nat));
    (open, styled)
}

/// Character-vector form of [`inject_html_spacing`].
pub fn spaced_html_chars(html: &Vec<char>, heading_margin_bottom: u32, list_item_spacing: u32, list_item_indent: u32) -> (r: Vec<char>)
    ensures
        r@ == spaced_html(html@, heading_margin_bottom as nat, list_item_spacing as nat, list_item_indent as nat),
{
    let mut out = html.clone();
    assert(out@ =~= html@);
    let mut level: u64 = 1;
    while level <= 6
        invariant
            1 <= level <= 7,
            style_headings(out@, heading_margin_bottom as nat, level as nat) == style_headings(
                html@,
                heading_margin_bottom as nat,
                1,
            ),
        decreases 7 - level,
    {
        let (open, styled) = heading_tags(level, heading_margin_bottom);
        proof { reveal_strlit("<h"); }
        out = replace_chars(&out, &open, &styled);
        level += 1;
    }
    let p = to_chars("<p>");
    let p_styled = to_chars("<p style=\"margin-top:0\">");
    proof { reveal_strlit("<p>"); }
    let s2 = replace_chars(&out, &p, &p_styled);
    let spacer = to_chars("<font style=\"font-size:1px\">.</font><br>");
    let between = repeat_chars(&spacer, list_item_spacing as usize);
    let mut sep = to_chars("<br>");
    push_all(&mut sep, &between);
    let nbsp = to_chars("&nbsp;");
    let indent = repeat_chars(&nbsp, list_item_indent as usize);
    let ul = to_chars("<ul>");
    let ul_end = to_chars("</ul>");
    let ol = to_chars("<ol>");
    let ol_end = to_chars("</ol>");
    proof {
        reveal_strlit("<ul>");
        reveal_strlit("<ol>");
    }
    let s3 = flatten_lists_chars(&s2, &ul, &ul_end, false, &indent, &sep);
    flatten_lists_chars(&s3, &ol, &ol_end, true, &indent, &sep)
}

/// Inject explicit margin styles on headings and paragraphs, and replace
/// lists by plain lines, so spacing is controlled rather than driven by
/// renderer defaults.
pub fn inject_html_spacing(html: &str, heading_margin_bottom: u32, list_item_spacing: u32, list_item_indent: u32) -> (r: String)
    ensures
        r@ == spaced_html(html@, heading_margin_bottom as nat, list_item_spacing as nat, list_item_indent as nat),
{
    let h = to_chars(html);
    from_chars(&spaced_html_chars(&h, heading_margin_bottom, list_item_spacing, list_item_indent))
}

/// The escape of one character inside an XML attribute value.
pub open spec fn escape_char(c: char) -> Seq<char> {
    if c == '&' {
        "&amp;"@
    } else if c == '"' {
        "&quot;"@
    } else if c == '<' {
        "&lt;"@
    } else if c == '>' {
        "&gt;"@
    } else if c == '\n' {
        "&#xa;"@
    } else if c == '\r' {
        Seq::empty()
    } else {
        seq![c]
    }
}

/// `s` escaped for an XML attribute value: the replacements of `&`, `"`,
/// `<`, `>`, newline and carriage return, in that order, which amount to
/// escaping each character on its own since no replacement text holds a
/// character replaced after it.
pub open spec fn escape_attr(s: Seq<char>) -> Seq<char>
    decreases s.len(),
{
    if s.len() == 0 {
        Seq::empty()
    } else {
        escape_attr(s.drop_last()) + escape_char(s.last())
    }
}

fn escape_attr_chars(s: &Vec<char>) -> (r: Vec<char>)
    ensures
        r@ == escape_attr(s@),
{
    let amp = to_chars("&amp;");
    let quot = to_chars("&quot;");
    let lt = to_chars("&lt;");
    let gt = to_chars("&gt;");
    let nl = to_chars("&#xa;");
    let n = s.len();
    let mut r: Vec<char> = Vec::new();
    for i in 0..n
        invariant
            n == s@.len(),
            amp@ == "&amp;"@,
            quot@ == "&quot;"@,
            lt@ == "&lt;"@,
            gt@ == "&gt;"@,
            nl@ == "&#xa;"@,
            r@ == escape_attr(s@.take(i as int)),
    {
        let c = s[i];
        if c == '&' {
            push_all(&mut r, &amp);
        } else if c == '"' {
            push_all(&mut r, &quot);
        } else if c == '<' {
            push_all(&mut r, &lt);
        } else if c == '>' {
            push_all(&mut r, &gt);
        } else if c == '\n' {
            push_all(&mut r, &nl);
        } else if c == '\r' {
        } else {
            r.push(c);
        }
        proof {
            assert(s@.take(i + 1).drop_last() =~= s@.take(i as int));
            assert(r@ =~= escape_attr(s@.take(i as int)) + escape_char(c));
        }
    }
    assert(s@.take(n as int) =~= s@);
    r
}

/// The label text of Markdown `text`: rendered HTML with spacing injected,
/// trimmed, and escaped for an XML attribute value.
pub open spec fn markdown_label(text: Seq<char>, heading_margin_bottom: nat, list_item_spacing: nat, list_item_indent: nat) -> Seq<char> {
    escape_attr(trim(spaced_html(markdown_html(text), heading_margin_bottom, list_item_spacing, list_item_indent)))
}

/// Character-vector form of [`markdown_to_xml_attr`].
pub fn markdown_label_chars(text: &Vec<char>, heading_margin_bottom: u32, list_item_spacing: u32, list_item_indent: u32) -> (r: Vec<char>)
    ensures
        r@ == markdown_label(text@, heading_margin_bottom as nat, list_item_spacing as nat, list_item_indent as nat),
{
    let t = from_chars(text);
    let html = render_markdown(t.as_str());
    let h = to_chars(html.as_str());
    let spaced = spaced_html_chars(&h, heading_margin_bottom, list_item_spacing, list_item_indent);
    let trimmed = trim_chars(&spaced);
    escape_attr_chars(&trimmed)
}

/// Convert Markdown text to an HTML string escaped for use inside an XML
/// attribute value (as draw.io stores cell labels).
pub fn markdown_to_xml_attr(text: &str, heading_margin_bottom: u32, list_item_spacing: u32, list_item_indent: u32) -> (r: String)
    ensures
        r@ == markdown_label(text@, heading_margin_bottom as nat, list_item_spacing as nat, list_item_indent as nat),
{
    let t = to_chars(text);
    from_chars(&markdown_label_chars(&t, heading_margin_bottom, list_item_spacing, list_item_indent))
}

} // verus!
