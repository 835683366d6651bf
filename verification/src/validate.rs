//! Checks made before a document is transformed, and the errors that
//! transforming a document can end in.
use vstd::prelude::*;

use crate::cell::tags_contain;
use crate::model::{Transform, TransformV, strs, transforms_view};
use crate::text::{char_seqs, chars_eq, join, join_chars, push_all, push_str, sort_distinct, sorted_distinct, to_chars, from_chars};
use crate::transform::{is_cell_wrapper, is_wrapper_name, last_value, last_value_exec, tag_list, tag_list_exec, token_tag};
use crate::xml::{TokenV, XmlToken, pairs_view, string_pairs, tokens_view};

verus! {

/// The text that std's `{:?}` formatting gives a string: the string in
/// double quotes, with special characters escaped.
pub uninterp spec fn debug_text(s: Seq<char>) -> Seq<char>;

/// std `format!("{:?}", s)` on a string slice.
#[verifier::external_body]
pub(crate) fn debug_quoted(s: &str) -> (r: String)
    ensures
        r@ == debug_text(s@),
{
    format!("{:?}", s)
}

/// Why transforming a document failed.
#[derive(Debug)]
pub enum TransformError {
    /// A title slide needs the size of the reference image.
    MissingReferenceSize,
    /// A title slide was combined with other transforms.
    TitleSlideNotAlone,
    /// The document is not well-formed XML; the reader's message.
    Xml(String),
    /// A transform references a tag or cell id the document does not have.
    UnknownTag { transform: String, tag: String, available: Vec<String> },
    /// An ElementVisibility transform both shows and hides a cell.
    VisibilityConflict { cell: String, show_tags: Vec<String>, hide_tags: Vec<String> },
    /// A file that a transform reads could not be read; its message.
    Resource(String),
}

/// A [`TransformError`] seen mathematically.
pub enum TransformErrorV {
    MissingReferenceSize,
    TitleSlideNotAlone,
    Xml(Seq<char>),
    UnknownTag { transform: Seq<char>, tag: Seq<char>, available: Seq<Seq<char>> },
    VisibilityConflict { cell: Seq<char>, show_tags: Seq<Seq<char>>, hide_tags: Seq<Seq<char>> },
    Resource(Seq<char>),
}

impl View for TransformError {
    type V = TransformErrorV;

    open spec fn view(&self) -> TransformErrorV {
        match self {
            TransformError::MissingReferenceSize => TransformErrorV::MissingReferenceSize,
            TransformError::TitleSlideNotAlone => TransformErrorV::TitleSlideNotAlone,
            TransformError::Xml(m) => TransformErrorV::Xml(m@),
            TransformError::UnknownTag { transform, tag, available } => TransformErrorV::UnknownTag {
                transform: transform@,
                tag: tag@,
                available: strs(available@),
            },
            TransformError::VisibilityConflict { cell, show_tags, hide_tags } => TransformErrorV::VisibilityConflict {
                cell: cell@,
                show_tags: strs(show_tags@),
                hide_tags: strs(hide_tags@),
            },
            TransformError::Resource(m) => TransformErrorV::Resource(m@),
        }
    }
}

/// The message of an error.
pub open spec fn error_text(e: TransformErrorV) -> Seq<char> {
    match e {
        TransformErrorV::MissingReferenceSize => "TitleSlide requires a reference size — ensure the original file is exported first"@,
        TransformErrorV::TitleSlideNotAlone => "TitleSlide must be the only transform in the list"@,
        TransformErrorV::Xml(m) => m,
        TransformErrorV::UnknownTag { transform, tag, available } => transform + ": tag "@ + debug_text(tag)
            + " does not exist in the document. Available tags: ["@ + join(available, ", "@) + "]"@,
        TransformErrorV::VisibilityConflict { cell, show_tags, hide_tags } => "ElementVisibility conflict: cell '"@
            + cell + "' is targeted by both show (via tag(s): ["@ + join(show_tags, ", "@)
            + "]) and hide (via tag(s): ["@ + join(hide_tags, ", "@) + "])"@,
        TransformErrorV::Resource(m) => m,
    }
}

/// Strings seen as character vectors.
pub fn string_chars(v: &Vec<String>) -> (r: Vec<Vec<char>>)
    ensures
        char_seqs(r@) == strs(v@),
{
    let mut r: Vec<Vec<char>> = Vec::new();
    let n = v.len();
    for i in 0..n
        invariant
            n == v@.len(),
            r@.len() == i,
            forall|j: int| 0 <= j < i ==> (#[trigger] r@[j])@ == v@[j]@,
    {
        r.push(to_chars(v[i].as_str()));
    }
    assert(char_seqs(r@) =~= strs(v@));
    r
}

/// Character vectors made into strings.
pub fn chars_strings(v: &Vec<Vec<char>>) -> (r: Vec<String>)
    ensures
        strs(r@) == char_seqs(v@),
{
    let mut r: Vec<String> = Vec::new();
    let n = v.len();
    for i in 0..n
        invariant
            n == v@.len(),
            r@.len() == i,
            forall|j: int| 0 <= j < i ==> (#[trigger] r@[j])@ == v@[j]@,
    {
        r.push(from_chars(&v[i]));
    }
    assert(strs(r@) =~= char_seqs(v@));
    r
}

fn join_strings(v: &Vec<String>) -> (r: Vec<char>)
    ensures
        r@ == join(strs(v@), ", "@),
{
    let parts = string_chars(v);
    let sep = to_chars(", ");
    join_chars(&parts, &sep)
}

impl TransformError {
    /// The error's message.
    pub fn message(&self) -> (m: String)
        ensures
            m@ == error_text(self@),
    {
        let mut out: Vec<char> = Vec::new();
        match self {
            TransformError::MissingReferenceSize => {
                push_str(&mut out, "TitleSlide requires a reference size — ensure the original file is exported first");
            },
            TransformError::TitleSlideNotAlone => {
                push_str(&mut out, "TitleSlide must be the only transform in the list");
            },
            TransformError::Xml(m) => {
                push_str(&mut out, m.as_str());
            },
            TransformError::UnknownTag { transform, tag, available } => {
                push_str(&mut out, transform.as_str());
                push_str(&mut out, ": tag ");
                let quoted = debug_quoted(tag.as_str());
                push_str(&mut out, quoted.as_str());
                push_str(&mut out, " does not exist in the document. Available tags: [");
                let joined = join_strings(available);
                push_all(&mut out, &joined);
                push_str(&mut out, "]");
            },
            TransformError::VisibilityConflict { cell, show_tags, hide_tags } => {
                push_str(&mut out, "ElementVisibility conflict: cell '");
                push_str(&mut out, cell.as_str());
                push_str(&mut out, "' is targeted by both show (via tag(s): [");
                let s = join_strings(show_tags);
                push_all(&mut out, &s);
                push_str(&mut out, "]) and hide (via tag(s): [");
                let h = join_strings(hide_tags);
                push_all(&mut out, &h);
                push_str(&mut out, "])");
            },
            TransformError::Resource(m) => {
                push_str(&mut out, m.as_str());
            },
        }
        from_chars(&out)
    }
}

// ---------------------------------------------------------------------------
// Every referenced tag exists.

/// A transform name paired with each reference.
pub open spec fn named_refs(name: Seq<char>, refs: Seq<Seq<char>>) -> Seq<(Seq<char>, Seq<char>)> {
    Seq::new(refs.len(), |i: int| (name, refs[i]))
}

/// The (transform name, reference) pairs of one transform that must name a
/// cell id or tag of the document. Color and ColorEdges are not checked.
pub open spec fn refs_to_check(t: TransformV) -> Seq<(Seq<char>, Seq<char>)> {
    match t {
        TransformV::ReplaceText { tag, .. } => seq![("ReplaceText"@, tag)],
        TransformV::ImportMarkdown { tag, .. } => seq![("ImportMarkdown"@, tag)],
        TransformV::ArrowVisibility { tags, .. } => named_refs("ArrowVisibility"@, tags),
        TransformV::ShapeAttributes { tags, .. } => named_refs("ShapeAttributes"@, tags),
        TransformV::EdgeAttributes { tags, .. } => named_refs("EdgeAttributes"@, tags),
        TransformV::EmbedImage { tag, .. } => seq![("EmbedImage"@, tag)],
        TransformV::ElementVisibility { show, hide } => named_refs("ElementVisibility"@, show + hide),
        _ => Seq::empty(),
    }
}

/// The references to check of all transforms, in order.
pub open spec fn all_refs_to_check(ts: Seq<TransformV>) -> Seq<(Seq<char>, Seq<char>)>
    decreases ts.len(),
{
    if ts.len() == 0 {
        Seq::empty()
    } else {
        all_refs_to_check(ts.drop_last()) + refs_to_check(ts.last())
    }
}

/// The names one attribute gives an element: an `id` value, and for a cell
/// wrapper each tag of a `tags` attribute.
pub open spec fn attr_names(a: (Seq<char>, Seq<char>), wrapper: bool) -> Seq<Seq<char>> {
    if a.0 == "id"@ {
        seq![a.1]
    } else if wrapper && a.0 == "tags"@ {
        tag_list(a.1)
    } else {
        Seq::empty()
    }
}

/// The names all attributes of an element give it, in order.
pub open spec fn attrs_names(attrs: Seq<(Seq<char>, Seq<char>)>, wrapper: bool) -> Seq<Seq<char>>
    decreases attrs.len(),
{
    if attrs.len() == 0 {
        Seq::empty()
    } else {
        attrs_names(attrs.drop_last(), wrapper) + attr_names(attrs.last(), wrapper)
    }
}

/// The names of one token: the ids of an `mxCell`, the ids and tags of a
/// cell wrapper, nothing for other tokens.
pub open spec fn token_names(tok: TokenV) -> Seq<Seq<char>> {
    match token_tag(tok) {
        Some(tag) => if tag.name == "mxCell"@ {
            attrs_names(tag.attrs, false)
        } else if is_wrapper_name(tag.name) {
            attrs_names(tag.attrs, true)
        } else {
            Seq::empty()
        },
        None => Seq::empty(),
    }
}

/// Every cell id and tag present in the document, in document order.
pub open spec fn document_names(tokens: Seq<TokenV>) -> Seq<Seq<char>>
    decreases tokens.len(),
{
    if tokens.len() == 0 {
        Seq::empty()
    } else {
        document_names(tokens.drop_last()) + token_names(tokens.last())
    }
}

/// The first reference whose name is not among `names`.
pub open spec fn first_unknown(refs: Seq<(Seq<char>, Seq<char>)>, names: Seq<Seq<char>>) -> Option<(Seq<char>, Seq<char>)>
    decreases refs.len(),
{
    if refs.len() == 0 {
        None
    } else if !names.contains(refs[0].1) {
        Some(refs[0])
    } else {
        first_unknown(refs.drop_first(), names)
    }
}

/// The error for the first reference that names nothing in the document,
/// listing the distinct names the document has, sorted.
pub open spec fn unknown_tag_error(tokens: Seq<TokenV>, ts: Seq<TransformV>) -> Option<TransformErrorV> {
    let names = document_names(tokens);
    match first_unknown(all_refs_to_check(ts), names) {
        Some(r) => Some(TransformErrorV::UnknownTag { transform: r.0, tag: r.1, available: sorted_distinct(names) }),
        None => None,
    }
}

fn push_named(out: &mut Vec<(String, String)>, name: &str, refs: &Vec<String>)
    ensures
        string_pairs(final(out)@) == string_pairs(old(out)@) + named_refs(name@, strs(refs@)),
{
    let ghost before = string_pairs(out@);
    let ghost rv = strs(refs@);
    let n = refs.len();
    for i in 0..n
        invariant
            n == refs@.len(),
            rv == strs(refs@),
            string_pairs(out@) == before + named_refs(name@, rv.take(i as int)),
    {
        let ghost prev = out@;
        out.push((name.to_owned(), refs[i].clone()));
        proof {
            assert(string_pairs(out@) =~= string_pairs(prev).push((name@, rv[i as int])));
            assert(named_refs(name@, rv.take(i + 1)) =~= named_refs(name@, rv.take(i as int)).push((name@, rv[i as int])));
        }
    }
    assert(rv.take(n as int) =~= rv);
}

fn push_one(out: &mut Vec<(String, String)>, name: &str, tag: &String)
    ensures
        string_pairs(final(out)@) == string_pairs(old(out)@) + seq![(name@, tag@)],
{
    let ghost prev = out@;
    out.push((name.to_owned(), tag.clone()));
    assert(string_pairs(out@) =~= string_pairs(prev) + seq![(name@, tag@)]);
}

fn push_refs_to_check(out: &mut Vec<(String, String)>, t: &Transform)
    ensures
        string_pairs(final(out)@) == string_pairs(old(out)@) + refs_to_check(t@),
{
    match t {
        Transform::ReplaceText { tag, .. } => push_one(out, "ReplaceText", tag),
        Transform::ImportMarkdown { tag, .. } => push_one(out, "ImportMarkdown", tag),
        Transform::ArrowVisibility { tags, .. } => push_named(out, "ArrowVisibility", tags),
        Transform::ShapeAttributes { tags, .. } => push_named(out, "ShapeAttributes", tags),
        Transform::EdgeAttributes { tags, .. } => push_named(out, "EdgeAttributes", tags),
        Transform::EmbedImage { tag, .. } => push_one(out, "EmbedImage", tag),
        Transform::ElementVisibility { show, hide } => {
            let ghost before = string_pairs(out@);
            push_named(out, "ElementVisibility", show);
            push_named(out, "ElementVisibility", hide);
            assert(strs(show@ + hide@) =~= strs(show@) + strs(hide@));
            assert(named_refs("ElementVisibility"@, strs(show@) + strs(hide@)) =~= named_refs(
                "ElementVisibility"@,
                strs(show@),
            ) + named_refs("ElementVisibility"@, strs(hide@)));
            assert(t@ == TransformV::ElementVisibility { show: strs(show@), hide: strs(hide@) });
        },
        _ => {
            assert(string_pairs(out@) =~= string_pairs(out@) + Seq::<(Seq<char>, Seq<char>)>::empty());
        },
    }
}

fn collect_refs_to_check(ts: &Vec<Transform>) -> (r: Vec<(String, String)>)
    ensures
        string_pairs(r@) == all_refs_to_check(transforms_view(ts@)),
{
    let ghost tv = transforms_view(ts@);
    let mut r: Vec<(String, String)> = Vec::new();
    assert(string_pairs(r@) =~= Seq::<(Seq<char>, Seq<char>)>::empty());
    let n = ts.len();
    for i in 0..n
        invariant
            n == ts@.len(),
            tv == transforms_view(ts@),
            string_pairs(r@) == all_refs_to_check(tv.take(i as int)),
    {
        assert(tv.take(i + 1).drop_last() =~= tv.take(i as int));
        push_refs_to_check(&mut r, &ts[i]);
    }
    assert(tv.take(n as int) =~= tv);
    r
}

fn key_is(k: &Vec<char>, lit: &str) -> (b: bool)
    ensures
        b == (k@ == lit@),
{
    let l = to_chars(lit);
    chars_eq(k, &l)
}

fn push_attrs_names(out: &mut Vec<Vec<char>>, attrs: &Vec<(Vec<char>, Vec<char>)>, wrapper: bool)
    ensures
        char_seqs(final(out)@) == char_seqs(old(out)@) + attrs_names(pairs_view(attrs@), wrapper),
{
    let ghost before = char_seqs(out@);
    let ghost av = pairs_view(attrs@);
    let n = attrs.len();
    for i in 0..n
        invariant
            n == attrs@.len(),
            av == pairs_view(attrs@),
            char_seqs(out@) == before + attrs_names(av.take(i as int), wrapper),
    {
        assert(av.take(i + 1).drop_last() =~= av.take(i as int));
        let ghost prev = char_seqs(out@);
        if key_is(&attrs[i].0, "id") {
            let ghost p = out@;
            out.push(attrs[i].1.clone());
            assert(char_seqs(out@) =~= prev + seq![av[i as int].1]);
        } else if wrapper && key_is(&attrs[i].0, "tags") {
            let list = tag_list_exec(&attrs[i].1);
            let m = list.len();
            for j in 0..m
                invariant
                    m == list@.len(),
                    char_seqs(out@) == prev + char_seqs(list@).take(j as int),
            {
                let ghost p = char_seqs(out@);
                out.push(list[j].clone());
                assert(char_seqs(out@) =~= p.push(list@[j as int]@));
                assert(char_seqs(list@).take(j + 1) =~= char_seqs(list@).take(j as int).push(list@[j as int]@));
            }
            assert(char_seqs(list@).take(m as int) =~= char_seqs(list@));
            assert(char_seqs(list@) == list@.map_values(|p: Vec<char>| p@));
        } else {
            assert(char_seqs(out@) =~= prev + Seq::<Seq<char>>::empty());
        }
        assert(char_seqs(out@) =~= before + attrs_names(av.take(i + 1), wrapper));
    }
    assert(av.take(n as int) =~= av);
}

fn collect_document_names(tokens: &Vec<XmlToken>) -> (r: Vec<Vec<char>>)
    ensures
        char_seqs(r@) == document_names(tokens_view(tokens@)),
{
    let ghost tv = tokens_view(tokens@);
    let mut r: Vec<Vec<char>> = Vec::new();
    assert(char_seqs(r@) =~= Seq::<Seq<char>>::empty());
    let n = tokens.len();
    for i in 0..n
        invariant
            n == tokens@.len(),
            tv == tokens_view(tokens@),
            char_seqs(r@) == document_names(tv.take(i as int)),
    {
        assert(tv.take(i + 1).drop_last() =~= tv.take(i as int));
        let ghost before = char_seqs(r@);
        let tag_opt = match &tokens[i] {
            XmlToken::Start { tag, .. } => Some(tag),
            XmlToken::Empty { tag, .. } => Some(tag),
            _ => None,
        };
        match tag_opt {
            Some(tag) => {
                if key_is(&tag.name, "mxCell") {
                    push_attrs_names(&mut r, &tag.attrs, false);
                } else if is_cell_wrapper(&tag.name) {
                    push_attrs_names(&mut r, &tag.attrs, true);
                } else {
                    assert(char_seqs(r@) =~= before + Seq::<Seq<char>>::empty());
                }
            },
            None => {
                assert(char_seqs(r@) =~= before + Seq::<Seq<char>>::empty());
            },
        }
    }
    assert(tv.take(n as int) =~= tv);
    r
}

fn names_contain(names: &Vec<Vec<char>>, x: &Vec<char>) -> (r: bool)
    ensures
        r == char_seqs(names@).contains(x@),
{
    let n = names.len();
    for i in 0..n
        invariant
            n == names@.len(),
            forall|j: int| 0 <= j < i ==> char_seqs(names@)[j] != x@,
    {
        if chars_eq(&names[i], x) {
            assert(char_seqs(names@)[i as int] == x@);
            return true;
        }
    }
    false
}

/// Validate the ReplaceText, ImportMarkdown, ArrowVisibility,
/// ShapeAttributes, EdgeAttributes, EmbedImage and ElementVisibility
/// transforms: every tag or cell id they reference must exist in the
/// document. The first that does not is reported, with the sorted list of
/// the names the document has.
pub fn validate_replace_text_transforms(tokens: &Vec<XmlToken>, transforms: &Vec<Transform>) -> (r: Result<(), TransformError>)
    ensures
        match unknown_tag_error(tokens_view(tokens@), transforms_view(transforms@)) {
            Some(e) => r matches Err(x) && x@ == e,
            None => r is Ok,
        },
{
    let refs = collect_refs_to_check(transforms);
    let names = collect_document_names(tokens);
    let ghost rv = string_pairs(refs@);
    let ghost nv = char_seqs(names@);
    let n = refs.len();
    assert(rv.skip(0) =~= rv);
    for i in 0..n
        invariant
            n == refs@.len(),
            rv == string_pairs(refs@),
            nv == char_seqs(names@),
            rv == all_refs_to_check(transforms_view(transforms@)),
            nv == document_names(tokens_view(tokens@)),
            first_unknown(rv, nv) == first_unknown(rv.skip(i as int), nv),
    {
        let tag = to_chars(refs[i].1.as_str());
        assert(rv.skip(i as int)[0] == rv[i as int]);
        assert(rv[i as int] == (refs@[i as int].0@, refs@[i as int].1@));
        if !names_contain(&names, &tag) {
            let sorted = sort_distinct(&names);
            let available = chars_strings(&sorted);
            return Err(TransformError::UnknownTag { transform: refs[i].0.clone(), tag: refs[i].1.clone(), available });
        }
        assert(rv.skip(i as int).drop_first() =~= rv.skip(i + 1));
    }
    assert(rv.skip(n as int) =~= Seq::<(Seq<char>, Seq<char>)>::empty());
    Ok(())
}

// ---------------------------------------------------------------------------
// No cell is both shown and hidden.

/// The (id, tags) of a cell wrapper with an id and at least one tag (the
/// last `id` and `tags` attributes count).
pub open spec fn token_cell_tags(tok: TokenV) -> Seq<(Seq<char>, Seq<Seq<char>>)> {
    match token_tag(tok) {
        Some(tag) => if is_wrapper_name(tag.name) {
            match last_value(tag.attrs, "id"@) {
                Some(id) => {
                    let tags = match last_value(tag.attrs, "tags"@) {
                        Some(v) => tag_list(v),
                        None => Seq::empty(),
                    };
                    if tags.len() > 0 {
                        seq![(id, tags)]
                    } else {
                        Seq::empty()
                    }
                },
                None => Seq::empty(),
            }
        } else {
            Seq::empty()
        },
        None => Seq::empty(),
    }
}

/// The tagged cells of the document, in document order.
pub open spec fn tagged_cells(tokens: Seq<TokenV>) -> Seq<(Seq<char>, Seq<Seq<char>>)>
    decreases tokens.len(),
{
    if tokens.len() == 0 {
        Seq::empty()
    } else {
        tagged_cells(tokens.drop_last()) + token_cell_tags(tokens.last())
    }
}

/// The tags of `tags` that are in `list`, in order.
pub open spec fn tags_in(tags: Seq<Seq<char>>, list: Seq<Seq<char>>) -> Seq<Seq<char>>
    decreases tags.len(),
{
    if tags.len() == 0 {
        Seq::empty()
    } else if list.contains(tags.last()) {
        tags_in(tags.drop_last(), list).push(tags.last())
    } else {
        tags_in(tags.drop_last(), list)
    }
}

/// The first cell that both `show` and `hide` target through its tags.
pub open spec fn conflict_in(
    show: Seq<Seq<char>>,
    hide: Seq<Seq<char>>,
    cells: Seq<(Seq<char>, Seq<Seq<char>>)>,
) -> Option<TransformErrorV>
    decreases cells.len(),
{
    if cells.len() == 0 {
        None
    } else if tags_in(cells[0].1, show).len() > 0 && tags_in(cells[0].1, hide).len() > 0 {
        Some(TransformErrorV::VisibilityConflict {
            cell: cells[0].0,
            show_tags: tags_in(cells[0].1, show),
            hide_tags: tags_in(cells[0].1, hide),
        })
    } else {
        conflict_in(show, hide, cells.drop_first())
    }
}

/// The first conflict, taking the ElementVisibility transforms in order and
/// the cells of each in document order.
pub open spec fn first_conflict(ts: Seq<TransformV>, cells: Seq<(Seq<char>, Seq<Seq<char>>)>) -> Option<TransformErrorV>
    decreases ts.len(),
{
    if ts.len() == 0 {
        None
    } else {
        match ts[0] {
            TransformV::ElementVisibility { show, hide } => match conflict_in(show, hide, cells) {
                Some(e) => Some(e),
                None => first_conflict(ts.drop_first(), cells),
            },
            _ => first_conflict(ts.drop_first(), cells),
        }
    }
}

/// A list of cells with their tags, seen mathematically.
pub open spec fn cells_view(v: Seq<(Vec<char>, Vec<Vec<char>>)>) -> Seq<(Seq<char>, Seq<Seq<char>>)> {
    v.map_values(|p: (Vec<char>, Vec<Vec<char>>)| (p.0@, char_seqs(p.1@)))
}

fn collect_tagged_cells(tokens: &Vec<XmlToken>) -> (r: Vec<(Vec<char>, Vec<Vec<char>>)>)
    ensures
        cells_view(r@) == tagged_cells(tokens_view(tokens@)),
{
    let ghost tv = tokens_view(tokens@);
    let mut r: Vec<(Vec<char>, Vec<Vec<char>>)> = Vec::new();
    assert(cells_view(r@) =~= Seq::<(Seq<char>, Seq<Seq<char>>)>::empty());
    let n = tokens.len();
    for i in 0..n
        invariant
            n == tokens@.len(),
            tv == tokens_view(tokens@),
            cells_view(r@) == tagged_cells(tv.take(i as int)),
    {
        assert(tv.take(i + 1).drop_last() =~= tv.take(i as int));
        let ghost before = cells_view(r@);
        let tag_opt = match &tokens[i] {
            XmlToken::Start { tag, .. } => Some(tag),
            XmlToken::Empty { tag, .. } => Some(tag),
            _ => None,
        };
        let mut added = false;
        if let Some(tag) = tag_opt {
            if is_cell_wrapper(&tag.name) {
                let id = last_value_exec(&tag.attrs, "id");
                if let Some(id) = id {
                    let tags = match last_value_exec(&tag.attrs, "tags") {
                        Some(v) => tag_list_exec(&v),
                        None => Vec::new(),
                    };
                    assert(char_seqs(tags@) =~= match last_value(pairs_view(tag.attrs@), "tags"@) {
                        Some(v) => tag_list(v),
                        None => Seq::<Seq<char>>::empty(),
                    });
                    if tags.len() > 0 {
                        let ghost idv = id@;
                        let ghost tgv = char_seqs(tags@);
                        r.push((id, tags));
                        added = true;
                        assert(cells_view(r@) =~= before + seq![(idv, tgv)]);
                    }
                }
            }
        }
        if !added {
            assert(cells_view(r@) =~= before + token_cell_tags(tv[i as int]));
        }
    }
    assert(tv.take(n as int) =~= tv);
    r
}

fn tags_in_exec(tags: &Vec<Vec<char>>, list: &Vec<String>) -> (r: Vec<Vec<char>>)
    ensures
        char_seqs(r@) == tags_in(char_seqs(tags@), strs(list@)),
{
    let ghost tv = char_seqs(tags@);
    let mut r: Vec<Vec<char>> = Vec::new();
    let n = tags.len();
    for i in 0..n
        invariant
            n == tags@.len(),
            tv == char_seqs(tags@),
            char_seqs(r@) == tags_in(tv.take(i as int), strs(list@)),
    {
        assert(tv.take(i + 1).drop_last() =~= tv.take(i as int));
        let ghost before = char_seqs(r@);
        if tags_contain(list, &tags[i]) {
            r.push(tags[i].clone());
            assert(char_seqs(r@) =~= before.push(tv[i as int]));
        }
    }
    assert(tv.take(n as int) =~= tv);
    r
}

fn conflict_in_exec(show: &Vec<String>, hide: &Vec<String>, cells: &Vec<(Vec<char>, Vec<Vec<char>>)>) -> (r: Option<TransformError>)
    ensures
        match conflict_in(strs(show@), strs(hide@), cells_view(cells@)) {
            Some(e) => r matches Some(x) && x@ == e,
            None => r is None,
        },
{
    let ghost cv = cells_view(cells@);
    let ghost sv = strs(show@);
    let ghost hv = strs(hide@);
    let n = cells.len();
    assert(cv.skip(0) =~= cv);
    for i in 0..n
        invariant
            n == cells@.len(),
            cv == cells_view(cells@),
            sv == strs(show@),
            hv == strs(hide@),
            conflict_in(sv, hv, cv) == conflict_in(sv, hv, cv.skip(i as int)),
    {
        assert(cv.skip(i as int)[0] == cv[i as int]);
        let s = tags_in_exec(&cells[i].1, show);
        let h = tags_in_exec(&cells[i].1, hide);
        if s.len() > 0 && h.len() > 0 {
            let cell = from_chars(&cells[i].0);
            let show_tags = chars_strings(&s);
            let hide_tags = chars_strings(&h);
            return Some(TransformError::VisibilityConflict { cell, show_tags, hide_tags });
        }
        assert(cv.skip(i as int).drop_first() =~= cv.skip(i + 1));
    }
    assert(cv.skip(n as int) =~= Seq::<(Seq<char>, Seq<Seq<char>>)>::empty());
    None
}

/// The error of the first ElementVisibility conflict, if any.
pub open spec fn visibility_conflict_error(tokens: Seq<TokenV>, ts: Seq<TransformV>) -> Option<TransformErrorV> {
    first_conflict(ts, tagged_cells(tokens))
}

/// Validate ElementVisibility transforms: no cell may be targeted by both a
/// show tag and a hide tag of one transform, whether through one tag named
/// in both lists or through two of its tags; it would otherwise get
/// contradictory instructions.
pub fn validate_element_visibility_conflicts(tokens: &Vec<XmlToken>, transforms: &Vec<Transform>) -> (r: Result<(), TransformError>)
    ensures
        match visibility_conflict_error(tokens_view(tokens@), transforms_view(transforms@)) {
            Some(e) => r matches Err(x) && x@ == e,
            None => r is Ok,
        },
{
    let cells = collect_tagged_cells(tokens);
    let ghost cv = cells_view(cells@);
    let ghost tv = transforms_view(transforms@);
    let n = transforms.len();
    assert(tv.skip(0) =~= tv);
    for k in 0..n
        invariant
            n == transforms@.len(),
            tv == transforms_view(transforms@),
            cv == cells_view(cells@),
            cv == tagged_cells(tokens_view(tokens@)),
            first_conflict(tv, cv) == first_conflict(tv.skip(k as int), cv),
    {
        assert(tv.skip(k as int)[0] == tv[k as int]);
        assert(tv.skip(k as int).drop_first() =~= tv.skip(k + 1));
        if let Transform::ElementVisibility { show, hide } = &transforms[k] {
            assert(tv[k as int] == transforms@[k as int]@);
            let c = conflict_in_exec(show, hide, &cells);
            if let Some(e) = c {
                return Err(e);
            }
        }
    }
    assert(tv.skip(n as int) =~= Seq::<TransformV>::empty());
    Ok(())
}

} // verus!
