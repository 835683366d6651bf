//! The XML document as a sequence of tokens, read and written with quick-xml.
use vstd::prelude::*;

use quick_xml::events::{BytesStart, Event};
use quick_xml::{Reader, Writer};

use crate::text::{from_chars, push_str, starts_with, to_chars};

verus! {

#[verifier::external_type_specification]
#[verifier::external_body]
#[verifier::reject_recursive_types(R)]
pub struct ExXmlReader<R>(Reader<R>);

/// One event as quick-xml's reader reports it: element names and the tag
/// content (name and attributes) of start and empty-element tags, and for
/// any other event the exact text that quick-xml's writer produces for it
/// when it is written back unchanged.
pub enum RawToken {
    Start { name: String, content: String },
    Empty { name: String, content: String },
    End { name: String },
    Other { raw: String },
    Eof,
}

/// What one read of the document yields, including a failed read.
pub enum RawItem {
    Start { name: Seq<char>, content: Seq<char> },
    Empty { name: Seq<char>, content: Seq<char> },
    End { name: Seq<char> },
    Other { raw: Seq<char> },
    Eof,
    Failed { message: Seq<char> },
}

impl View for RawToken {
    type V = RawItem;

    open spec fn view(&self) -> RawItem {
        match self {
            RawToken::Start { name, content } => RawItem::Start { name: name@, content: content@ },
            RawToken::Empty { name, content } => RawItem::Empty { name: name@, content: content@ },
            RawToken::End { name } => RawItem::End { name: name@ },
            RawToken::Other { raw } => RawItem::Other { raw: raw@ },
            RawToken::Eof => RawItem::Eof,
        }
    }
}

/// The item that a read with this outcome yields.
pub open spec fn outcome(r: Result<RawToken, String>) -> RawItem {
    match r {
        Ok(t) => t@,
        Err(e) => RawItem::Failed { message: e@ },
    }
}

/// Reading stops at the end of the document or at the first failure.
pub open spec fn is_final(it: RawItem) -> bool {
    it is Eof || it is Failed
}

/// A sequence of reads that ends with its first final item.
pub open spec fn well_terminated(s: Seq<RawItem>) -> bool {
    &&& s.len() > 0
    &&& is_final(s.last())
    &&& forall|i: int| 0 <= i < s.len() - 1 ==> !is_final(#[trigger] s[i])
}

/// The items that successive reads of quick-xml's reader yield for the
/// document `xml` (reader configured not to trim text), up to and including
/// the first end-of-document or failure.
pub uninterp spec fn xml_items(xml: Seq<char>) -> Seq<RawItem>;

/// The items that the reader still has to yield, up to and including the
/// first end-of-document or failure.
pub uninterp spec fn pending_items(reader: Reader<&[u8]>) -> Seq<RawItem>;

/// The attributes (key, value) that quick-xml's attribute iterator yields
/// without error for a start tag with this content and name.
pub uninterp spec fn start_attributes(content: Seq<char>, name: Seq<char>) -> Seq<(Seq<char>, Seq<char>)>;

/// quick-xml `Reader::from_str` with text trimming switched off. The
/// contract names the reads to come as a function of the document alone and
/// claims that they end, with an end-of-document or a failure.
#[verifier::external_body]
fn open_reader<'a>(xml: &'a str) -> (r: Reader<&'a [u8]>)
    ensures
        pending_items(r) == xml_items(xml@),
        well_terminated(pending_items(r)),
{
    let mut reader = Reader::from_str(xml);
    reader.config_mut().trim_text(false);
    reader
}

/// quick-xml `Reader::read_event`, with the event converted to a
/// [`RawToken`]; the raw text of an event other than a tag is what
/// `Writer::write_event` writes for it. The contract claims that a read
/// yields the next pending item, and, when that item is neither the end of
/// the document nor a failure, that the items after it are still pending;
/// nothing is claimed of the reader after an end or a failure. The name of
/// a start or empty tag is its content up to the first whitespace
/// (`name_len` in quick-xml), so the content starts with it.
#[verifier::external_body]
fn read_token(reader: &mut Reader<&[u8]>) -> (res: Result<RawToken, String>)
    requires
        pending_items(*old(reader)).len() > 0,
    ensures
        outcome(res) == pending_items(*old(reader))[0],
        !is_final(outcome(res)) ==> pending_items(*final(reader)) == pending_items(*old(reader)).drop_first(),
        res matches Ok(RawToken::Start { name, content }) ==> starts_with(content@, name@),
        res matches Ok(RawToken::Empty { name, content }) ==> starts_with(content@, name@),
{
    let event = reader.read_event().map_err(|e| e.to_string())?;
    let text = |b: &[u8]| String::from_utf8_lossy(b).into_owned();
    Ok(match event {
        Event::Start(e) => RawToken::Start { name: text(e.name().as_ref()), content: text(&e) },
        Event::Empty(e) => RawToken::Empty { name: text(e.name().as_ref()), content: text(&e) },
        Event::End(e) => RawToken::End { name: text(&e) },
        Event::Eof => RawToken::Eof,
        other => {
            let mut writer = Writer::new(Vec::new());
            let _ = writer.write_event(other);
            RawToken::Other { raw: text(&writer.into_inner()) }
        },
    })
}

/// Pairs of strings, seen as pairs of character sequences.
pub open spec fn string_pairs(v: Seq<(String, String)>) -> Seq<(Seq<char>, Seq<char>)> {
    v.map_values(|p: (String, String)| (p.0@, p.1@))
}

/// quick-xml's attribute iterator over a start tag with this content (name
/// followed by attributes), keeping the attributes it yields without error.
/// The iterator starts after the name, so the content must start with it
/// (a name longer than the content would make it panic).
#[verifier::external_body]
fn read_attributes(content: &str, name: &str) -> (attrs: Vec<(String, String)>)
    requires
        starts_with(content@, name@),
    ensures
        string_pairs(attrs@) == start_attributes(content@, name@),
{
    let text = |b: &[u8]| String::from_utf8_lossy(b).into_owned();
    BytesStart::from_content(content, name.len())
        .attributes()
        .filter_map(|a| a.ok())
        .map(|a| (text(a.key.as_ref()), text(&a.value)))
        .collect()
}

/// The text of `key="value"` pairs, each preceded by a space.
pub open spec fn attrs_text(attrs: Seq<(Seq<char>, Seq<char>)>) -> Seq<char>
    decreases attrs.len(),
{
    if attrs.len() == 0 {
        Seq::empty()
    } else {
        attrs_text(attrs.drop_last()) + seq![' '] + attrs.last().0 + seq!['=', '"'] + attrs.last().1
            + seq!['"']
    }
}

/// The text of a tag with this name and these attributes, ending in `>` or,
/// for an empty tag, in `/>`.
pub open spec fn tag_text(name: Seq<char>, attrs: Seq<(Seq<char>, Seq<char>)>, empty: bool) -> Seq<char> {
    seq!['<'] + name + attrs_text(attrs) + if empty {
        seq!['/', '>']
    } else {
        seq!['>']
    }
}

/// quick-xml `BytesStart::new(name).with_attributes(..)` on raw key/value
/// bytes, written as a start event by `Writer::write_event`. The writer
/// writes `<`, the name, ` key="value"` for each attribute (no escaping),
/// then `>`.
#[verifier::external_body]
fn write_start_tag(name: &str, attrs: &Vec<(String, String)>) -> (out: String)
    ensures
        out@ == tag_text(name@, string_pairs(attrs@), false),
{
    let start = BytesStart::new(name).with_attributes(attrs.iter().map(|(k, v)| (k.as_bytes(), v.as_bytes())));
    let mut writer = Writer::new(Vec::new());
    let _ = writer.write_event(Event::Start(start));
    String::from_utf8_lossy(&writer.into_inner()).into_owned()
}

/// As [`write_start_tag`], written as an empty-element event: the text ends
/// in `/>`.
#[verifier::external_body]
fn write_empty_tag(name: &str, attrs: &Vec<(String, String)>) -> (out: String)
    ensures
        out@ == tag_text(name@, string_pairs(attrs@), true),
{
    let start = BytesStart::new(name).with_attributes(attrs.iter().map(|(k, v)| (k.as_bytes(), v.as_bytes())));
    let mut writer = Writer::new(Vec::new());
    let _ = writer.write_event(Event::Empty(start));
    String::from_utf8_lossy(&writer.into_inner()).into_owned()
}

/// An element tag: its name and its attributes in document order.
pub struct XmlTag {
    pub name: Vec<char>,
    pub attrs: Vec<(Vec<char>, Vec<char>)>,
}

/// A tag seen mathematically.
pub struct TagV {
    pub name: Seq<char>,
    pub attrs: Seq<(Seq<char>, Seq<char>)>,
}

/// Pairs of character vectors, seen as pairs of sequences.
pub open spec fn pairs_view(v: Seq<(Vec<char>, Vec<char>)>) -> Seq<(Seq<char>, Seq<char>)> {
    v.map_values(|p: (Vec<char>, Vec<char>)| (p.0@, p.1@))
}

impl View for XmlTag {
    type V = TagV;

    open spec fn view(&self) -> TagV {
        TagV { name: self.name@, attrs: pairs_view(self.attrs@) }
    }
}

/// One token of a document that read without failure.
pub enum XmlToken {
    Start { tag: XmlTag, raw: String },
    Empty { tag: XmlTag, raw: String },
    End { name: Vec<char>, raw: String },
    Other { raw: String },
}

pub enum TokenV {
    Start { tag: TagV, raw: Seq<char> },
    Empty { tag: TagV, raw: Seq<char> },
    End { name: Seq<char>, raw: Seq<char> },
    Other { raw: Seq<char> },
}

impl View for XmlToken {
    type V = TokenV;

    open spec fn view(&self) -> TokenV {
        match self {
            XmlToken::Start { tag, raw } => TokenV::Start { tag: tag@, raw: raw@ },
            XmlToken::Empty { tag, raw } => TokenV::Empty { tag: tag@, raw: raw@ },
            XmlToken::End { name, raw } => TokenV::End { name: name@, raw: raw@ },
            XmlToken::Other { raw } => TokenV::Other { raw: raw@ },
        }
    }
}

pub open spec fn tokens_view(v: Seq<XmlToken>) -> Seq<TokenV> {
    v.map_values(|t: XmlToken| t@)
}

/// The text quick-xml's writer writes for a start tag with this content:
/// the content between `<` and `>`.
pub open spec fn start_text(content: Seq<char>) -> Seq<char> {
    "<"@ + content + ">"@
}

/// The text written for an empty-element tag: the content between `<` and `/>`.
pub open spec fn empty_text(content: Seq<char>) -> Seq<char> {
    "<"@ + content + "/>"@
}

/// The text written for an end tag: the name between `</` and `>`.
pub open spec fn end_text(name: Seq<char>) -> Seq<char> {
    "</"@ + name + ">"@
}

/// The token that a non-final item becomes.
pub open spec fn item_token(it: RawItem) -> TokenV {
    match it {
        RawItem::Start { name, content } => TokenV::Start {
            tag: TagV { name, attrs: start_attributes(content, name) },
            raw: start_text(content),
        },
        RawItem::Empty { name, content } => TokenV::Empty {
            tag: TagV { name, attrs: start_attributes(content, name) },
            raw: empty_text(content),
        },
        RawItem::End { name } => TokenV::End { name, raw: end_text(name) },
        RawItem::Other { raw } => TokenV::Other { raw },
        _ => TokenV::Other { raw: Seq::empty() },
    }
}

/// The tokens of a sequence of reads: every item before the end of the
/// document, or the message of the first failed read.
pub open spec fn items_tokens(items: Seq<RawItem>) -> Result<Seq<TokenV>, Seq<char>>
    decreases items.len(),
{
    if items.len() == 0 {
        Ok(Seq::empty())
    } else {
        match items[0] {
            RawItem::Eof => Ok(Seq::empty()),
            RawItem::Failed { message } => Err(message),
            _ => match items_tokens(items.drop_first()) {
                Ok(rest) => Ok(seq![item_token(items[0])] + rest),
                Err(m) => Err(m),
            },
        }
    }
}

/// The tokens of the document `xml` as quick-xml reads it.
pub open spec fn document_tokens(xml: Seq<char>) -> Result<Seq<TokenV>, Seq<char>> {
    items_tokens(xml_items(xml))
}

/// A result of tokenizing, seen mathematically.
pub open spec fn tokenized_view(r: Result<Vec<XmlToken>, String>) -> Result<Seq<TokenV>, Seq<char>> {
    match r {
        Ok(v) => Ok(tokens_view(v@)),
        Err(e) => Err(e@),
    }
}

/// Character vectors made from a list of string pairs.
fn pairs_to_chars(v: &Vec<(String, String)>) -> (r: Vec<(Vec<char>, Vec<char>)>)
    ensures
        pairs_view(r@) == string_pairs(v@),
{
    let mut r: Vec<(Vec<char>, Vec<char>)> = Vec::new();
    let n = v.len();
    for i in 0..n
        invariant
            n == v@.len(),
            r@.len() == i,
            forall|j: int| 0 <= j < i ==> (#[trigger] r@[j]).0@ == v@[j].0@ && r@[j].1@ == v@[j].1@,
    {
        let k = to_chars(v[i].0.as_str());
        let val = to_chars(v[i].1.as_str());
        r.push((k, val));
    }
    assert(pairs_view(r@) =~= string_pairs(v@));
    r
}

/// String pairs made from character vectors.
pub fn pairs_to_strings(v: &Vec<(Vec<char>, Vec<char>)>) -> (r: Vec<(String, String)>)
    ensures
        string_pairs(r@) == pairs_view(v@),
{
    let mut r: Vec<(String, String)> = Vec::new();
    let n = v.len();
    for i in 0..n
        invariant
            n == v@.len(),
            r@.len() == i,
            forall|j: int| 0 <= j < i ==> (#[trigger] r@[j]).0@ == v@[j].0@ && r@[j].1@ == v@[j].1@,
    {
        let k = from_chars(&v[i].0);
        let val = from_chars(&v[i].1);
        r.push((k, val));
    }
    assert(string_pairs(r@) =~= pairs_view(v@));
    r
}

/// The tag of a start or empty-element event.
fn make_tag(name: String, content: String) -> (t: XmlTag)
    requires
        starts_with(content@, name@),
    ensures
        t@ == (TagV { name: name@, attrs: start_attributes(content@, name@) }),
{
    let attrs = read_attributes(content.as_str(), name.as_str());
    XmlTag { name: to_chars(name.as_str()), attrs: pairs_to_chars(&attrs) }
}

/// `inner` between `open` and `close`.
fn wrapped(open: &str, inner: &str, close: &str) -> (r: String)
    ensures
        r@ == open@ + inner@ + close@,
{
    let mut v = to_chars(open);
    push_str(&mut v, inner);
    push_str(&mut v, close);
    from_chars(&v)
}

/// Reads the whole document into tokens; a failed read ends with its message.
pub fn tokenize(xml: &str) -> (res: Result<Vec<XmlToken>, String>)
    ensures
        tokenized_view(res) == document_tokens(xml@),
{
    let mut reader = open_reader(xml);
    let ghost all = pending_items(reader);
    let mut out: Vec<XmlToken> = Vec::new();
    loop
        invariant
            well_terminated(all),
            all == xml_items(xml@),
            pending_items(reader).len() > 0,
            all.len() == out@.len() + pending_items(reader).len(),
            pending_items(reader) == all.skip(out@.len() as int),
            forall|i: int| 0 <= i < out@.len() ==> !is_final(#[trigger] all[i]),
            forall|i: int| 0 <= i < out@.len() ==> (#[trigger] out@[i])@ == item_token(all[i]),
        decreases pending_items(reader).len(),
    {
        let ghost before = pending_items(reader);
        let ghost k = out@.len() as int;
        let item = read_token(&mut reader);
        proof {
            assert(before[0] == all[k]);
        }
        match item {
            Err(e) => {
                proof { lemma_items_prefix(all, k); }
                return Err(e);
            },
            Ok(RawToken::Eof) => {
                proof {
                    lemma_items_prefix(all, k);
                    assert(tokens_view(out@) =~= Seq::new(k as nat, |i: int| item_token(all[i])));
                }
                return Ok(out);
            },
            Ok(RawToken::Start { name, content }) => {
                let raw = wrapped("<", content.as_str(), ">");
                let tag = make_tag(name, content);
                out.push(XmlToken::Start { tag, raw });
            },
            Ok(RawToken::Empty { name, content }) => {
                let raw = wrapped("<", content.as_str(), "/>");
                let tag = make_tag(name, content);
                out.push(XmlToken::Empty { tag, raw });
            },
            Ok(RawToken::End { name }) => {
                let raw = wrapped("</", name.as_str(), ">");
                out.push(XmlToken::End { name: to_chars(name.as_str()), raw });
            },
            Ok(RawToken::Other { raw }) => {
                out.push(XmlToken::Other { raw });
            },
        }
        proof {
            assert(!is_final(all[k]));
            assert(all.skip(k + 1) =~= before.drop_first());
            if pending_items(reader).len() == 0 {
                assert(k == all.len() - 1);
            }
        }
    }
}

/// The tokens of a well-terminated sequence of reads are the conversions of
/// the non-final items before its final one.
proof fn lemma_items_prefix(all: Seq<RawItem>, k: int)
    requires
        well_terminated(all),
        0 <= k < all.len(),
        is_final(all[k]),
    ensures
        all[k] is Eof ==> items_tokens(all) == Ok::<Seq<TokenV>, Seq<char>>(
            Seq::new(k as nat, |i: int| item_token(all[i])),
        ),
        all[k] matches RawItem::Failed { message } ==> items_tokens(all) == Err::<Seq<TokenV>, Seq<char>>(
            message,
        ),
    decreases k,
{
    if k == 0 {
        assert(Seq::new(0, |i: int| item_token(all[i])) =~= Seq::<TokenV>::empty());
    } else {
        let rest = all.drop_first();
        assert(!is_final(all[0]));
        assert(rest[k - 1] == all[k]);
        assert(well_terminated(rest)) by {
            assert forall|i: int| 0 <= i < rest.len() - 1 implies !is_final(#[trigger] rest[i]) by {
                assert(rest[i] == all[i + 1]);
            }
        }
        lemma_items_prefix(rest, k - 1);
        if all[k] is Eof {
            assert(seq![item_token(all[0])] + Seq::new((k - 1) as nat, |i: int| item_token(rest[i]))
                =~= Seq::new(k as nat, |i: int| item_token(all[i])));
        }
    }
}

/// The text of a tag, written by quick-xml.
pub fn write_tag(tag: &XmlTag, empty: bool) -> (out: String)
    ensures
        out@ == tag_text(tag.name@, pairs_view(tag.attrs@), empty),
{
    let name = from_chars(&tag.name);
    let attrs = pairs_to_strings(&tag.attrs);
    if empty {
        write_empty_tag(name.as_str(), &attrs)
    } else {
        write_start_tag(name.as_str(), &attrs)
    }
}

} // verus!
