//! Checking that a configuration file uses only known fields.
use vstd::prelude::*;

use crate::text::{chars_eq, decimal, from_chars, join, push_decimal, push_str, to_chars};

verus! {

/// The key of a YAML mapping entry: a plain string, a tagged string, or
/// anything else.
pub enum YamlKey {
    Str(String),
    TaggedStr(String),
    Other,
}

/// A YAML document as far as checking its fields needs it: mappings with
/// their entries in document order, sequences, strings, and other scalars.
/// Tags on values are dropped; tags on keys are kept, since a tagged key is
/// not found by a lookup by name.
pub enum YamlValue {
    Mapping(Vec<(YamlKey, YamlValue)>),
    Sequence(Vec<YamlValue>),
    Str(String),
    Other,
}

/// The text of a key, when it is a string, tagged or not.
pub open spec fn key_text(k: YamlKey) -> Option<Seq<char>> {
    match k {
        YamlKey::Str(s) => Some(s@),
        YamlKey::TaggedStr(s) => Some(s@),
        YamlKey::Other => None,
    }
}

/// The value of the first entry whose key is the plain string `name`.
pub open spec fn entry_value(es: Seq<(YamlKey, YamlValue)>, name: Seq<char>) -> Option<YamlValue>
    decreases es.len(),
{
    if es.len() == 0 {
        None
    } else if es[0].0 matches YamlKey::Str(s) && s@ == name {
        Some(es[0].1)
    } else {
        entry_value(es.drop_first(), name)
    }
}

/// The value a mapping holds under `name`; nothing for other values.
pub open spec fn lookup(v: YamlValue, name: Seq<char>) -> Option<YamlValue> {
    match v {
        YamlValue::Mapping(es) => entry_value(es@, name),
        _ => None,
    }
}

/// The text of a string value.
pub open spec fn text_of(v: Option<YamlValue>) -> Option<Seq<char>> {
    match v {
        Some(YamlValue::Str(s)) => Some(s@),
        _ => None,
    }
}

/// The text of a string value, or `?`.
pub open spec fn label_of(v: Option<YamlValue>) -> Seq<char> {
    match text_of(v) {
        Some(t) => t,
        None => "?"@,
    }
}

/// The items of a sequence value.
pub open spec fn items_of(v: Option<YamlValue>) -> Option<Seq<YamlValue>> {
    match v {
        Some(YamlValue::Sequence(items)) => Some(items@),
        _ => None,
    }
}

/// The first string key of a mapping's entries that is not in `known`.
pub open spec fn first_unknown_key(es: Seq<(YamlKey, YamlValue)>, known: Seq<Seq<char>>) -> Option<Seq<char>>
    decreases es.len(),
{
    if es.len() == 0 {
        None
    } else {
        match key_text(es[0].0) {
            Some(k) => if !known.contains(k) {
                Some(k)
            } else {
                first_unknown_key(es.drop_first(), known)
            },
            None => first_unknown_key(es.drop_first(), known),
        }
    }
}

/// The first string key of a mapping value not in `known`; nothing for
/// other values.
pub open spec fn unknown_key(v: YamlValue, known: Seq<Seq<char>>) -> Option<Seq<char>> {
    match v {
        YamlValue::Mapping(es) => first_unknown_key(es@, known),
        _ => None,
    }
}

/// The fields a configuration may have, sorted.
pub open spec fn config_fields() -> Seq<Seq<char>> {
    seq![
        "confluence"@,
        "delay_between_slides"@,
        "derived"@,
        "heading_margin_bottom"@,
        "list_item_indent"@,
        "list_item_spacing"@,
        "transition"@,
        "transition_duration_ms"@,
    ]
}

/// The fields a step may have, sorted.
pub open spec fn step_fields() -> Seq<Seq<char>> {
    seq!["bounding_box_tag"@, "delay"@, "from"@, "output"@, "transforms"@]
}

/// The transform types, sorted.
pub open spec fn transform_types() -> Seq<Seq<char>> {
    seq![
        "Animation"@,
        "ArrowVisibility"@,
        "Color"@,
        "ColorEdges"@,
        "EdgeAttributes"@,
        "ElementVisibility"@,
        "EmbedImage"@,
        "ImportMarkdown"@,
        "ReplaceText"@,
        "ShapeAttributes"@,
        "TitleSlide"@,
    ]
}

/// The fields a transform of a type may have, sorted; nothing for an
/// unknown type.
pub open spec fn transform_fields(ty: Seq<char>) -> Option<Seq<Seq<char>>> {
    if ty == "Animation"@ {
        Some(seq!["type"@])
    } else if ty == "ArrowVisibility"@ {
        Some(seq!["begin"@, "end"@, "tags"@, "type"@])
    } else if ty == "Color"@ {
        Some(seq!["color"@, "tags"@, "type"@])
    } else if ty == "ColorEdges"@ {
        Some(seq!["color"@, "exclude"@, "type"@])
    } else if ty == "EdgeAttributes"@ {
        Some(
            seq![
                "color"@,
                "end_arrow"@,
                "font_color"@,
                "font_size"@,
                "line_style"@,
                "start_arrow"@,
                "tags"@,
                "text"@,
                "text_background"@,
                "text_border_color"@,
                "thickness"@,
                "type"@,
            ],
        )
    } else if ty == "ElementVisibility"@ {
        Some(seq!["hide"@, "show"@, "type"@])
    } else if ty == "EmbedImage"@ {
        Some(seq!["file"@, "height"@, "tag"@, "type"@, "width"@])
    } else if ty == "ImportMarkdown"@ {
        Some(seq!["file"@, "tag"@, "type"@])
    } else if ty == "ReplaceText"@ {
        Some(seq!["tag"@, "text"@, "type"@])
    } else if ty == "ShapeAttributes"@ {
        Some(
            seq![
                "fill_color"@,
                "font_size"@,
                "shape"@,
                "stroke_color"@,
                "stroke_style"@,
                "tags"@,
                "text"@,
                "type"@,
            ],
        )
    } else if ty == "TitleSlide"@ {
        Some(seq!["text"@, "type"@])
    } else {
        None
    }
}

/// The message for an unknown top-level field.
pub open spec fn top_level_message(file: Seq<char>, key: Seq<char>) -> Seq<char> {
    "Error in "@ + file + ": unknown top-level field '"@ + key + "'\nKnown fields: "@ + join(config_fields(), ", "@)
}

/// The message for an unknown field of step `n` (counted from 1).
pub open spec fn step_message(file: Seq<char>, n: nat, label: Seq<char>, key: Seq<char>) -> Seq<char> {
    "Error in "@ + file + " step "@ + decimal(n) + " ('"@ + label + "'): unknown field '"@ + key
        + "'\nKnown fields for a derived entry: "@ + join(step_fields(), ", "@)
}

/// The message for an unknown type of transform `m` of step `n`.
pub open spec fn type_message(file: Seq<char>, n: nat, label: Seq<char>, m: nat, ty: Seq<char>) -> Seq<char> {
    "Error in "@ + file + " step "@ + decimal(n) + " ('"@ + label + "'), transform "@ + decimal(m)
        + ": unknown transform type '"@ + ty + "'\nKnown types: "@ + join(transform_types(), ", "@)
}

/// The message for an unknown field of transform `m` of step `n`.
pub open spec fn field_message(
    file: Seq<char>,
    n: nat,
    label: Seq<char>,
    m: nat,
    ty: Seq<char>,
    key: Seq<char>,
    allowed: Seq<Seq<char>>,
) -> Seq<char> {
    "Error in "@ + file + " step "@ + decimal(n) + " ('"@ + label + "'), transform "@ + decimal(m) + " ("@ + ty
        + "): unknown field '"@ + key + "'\nKnown fields for "@ + ty + ": "@ + join(allowed, ", "@)
}

/// The first problem with the transforms from position `t` on of step `n`.
pub open spec fn transforms_problem(
    file: Seq<char>,
    n: nat,
    label: Seq<char>,
    ts: Seq<YamlValue>,
    t: int,
) -> Option<Seq<char>>
    decreases ts.len() - t,
{
    if t < 0 || t >= ts.len() {
        None
    } else {
        let ty = label_of(lookup(ts[t], "type"@));
        match transform_fields(ty) {
            None => Some(type_message(file, n, label, (t + 1) as nat, ty)),
            Some(allowed) => match unknown_key(ts[t], allowed) {
                Some(k) => Some(field_message(file, n, label, (t + 1) as nat, ty, k, allowed)),
                None => transforms_problem(file, n, label, ts, t + 1),
            },
        }
    }
}

/// The first problem with the steps from position `s` on.
pub open spec fn steps_problem(file: Seq<char>, steps: Seq<YamlValue>, s: int) -> Option<Seq<char>>
    decreases steps.len() - s,
{
    if s < 0 || s >= steps.len() {
        None
    } else {
        let label = label_of(lookup(steps[s], "output"@));
        match unknown_key(steps[s], step_fields()) {
            Some(k) => Some(step_message(file, (s + 1) as nat, label, k)),
            None => match items_of(lookup(steps[s], "transforms"@)) {
                Some(ts) => match transforms_problem(file, (s + 1) as nat, label, ts, 0) {
                    Some(m) => Some(m),
                    None => steps_problem(file, steps, s + 1),
                },
                None => steps_problem(file, steps, s + 1),
            },
        }
    }
}

/// The first unknown field of a configuration document, as its message:
/// top-level fields first, then each step's fields, each transform's type
/// and each transform's fields, in document order.
pub open spec fn unknown_field_problem(doc: YamlValue, file: Seq<char>) -> Option<Seq<char>> {
    match unknown_key(doc, config_fields()) {
        Some(k) => Some(top_level_message(file, k)),
        None => match items_of(lookup(doc, "derived"@)) {
            Some(steps) => steps_problem(file, steps, 0),
            None => None,
        },
    }
}

fn list_has(Ghost(list): Ghost<Seq<Seq<char>>>, names: &[&str], k: &Vec<char>) -> (r: bool)
    requires
        names_are(names@, list),
    ensures
        r == list.contains(k@),
{
    let n = names.len();
    for i in 0..n
        invariant
            n == list.len(),
            names_are(names@, list),
            forall|q: int| 0 <= q < i ==> list[q] != k@,
    {
        let c = to_chars(names[i]);
        if chars_eq(&c, k) {
            return true;
        }
    }
    false
}

fn key_text_exec(k: &YamlKey) -> (r: Option<Vec<char>>)
    ensures
        match key_text(*k) {
            Some(t) => r matches Some(v) && v@ == t,
            None => r is None,
        },
{
    match k {
        YamlKey::Str(s) => Some(to_chars(s.as_str())),
        YamlKey::TaggedStr(s) => Some(to_chars(s.as_str())),
        YamlKey::Other => None,
    }
}

fn unknown_key_exec(v: &YamlValue, Ghost(list): Ghost<Seq<Seq<char>>>, names: &[&str]) -> (r: Option<Vec<char>>)
    requires
        names_are(names@, list),
    ensures
        match unknown_key(*v, list) {
            Some(k) => r matches Some(x) && x@ == k,
            None => r is None,
        },
{
    match v {
        YamlValue::Mapping(es) => {
            let ghost ev = es@;
            let n = es.len();
            assert(ev.skip(0) =~= ev);
            for i in 0..n
                invariant
                    n == es@.len(),
                    ev == es@,
                    names_are(names@, list),
                    unknown_key(*v, list) == first_unknown_key(ev, list),
                    first_unknown_key(ev, list) == first_unknown_key(ev.skip(i as int), list),
            {
                assert(ev.skip(i as int)[0] == ev[i as int]);
                assert(ev.skip(i as int).drop_first() =~= ev.skip(i + 1));
                if let Some(k) = key_text_exec(&es[i].0) {
                    if !list_has(Ghost(list), names, &k) {
                        return Some(k);
                    }
                }
            }
            assert(ev.skip(n as int) =~= Seq::<(YamlKey, YamlValue)>::empty());
            None
        },
        _ => None,
    }
}

fn lookup_exec<'a>(v: &'a YamlValue, name: &str) -> (r: Option<&'a YamlValue>)
    ensures
        match lookup(*v, name@) {
            Some(x) => r matches Some(y) && *y == x,
            None => r is None,
        },
{
    match v {
        YamlValue::Mapping(es) => {
            let ghost ev = es@;
            let target = to_chars(name);
            let n = es.len();
            assert(ev.skip(0) =~= ev);
            for i in 0..n
                invariant
                    n == es@.len(),
                    ev == es@,
                    target@ == name@,
                    lookup(*v, name@) == entry_value(ev, name@),
                    entry_value(ev, name@) == entry_value(ev.skip(i as int), name@),
            {
                assert(ev.skip(i as int)[0] == ev[i as int]);
                assert(ev.skip(i as int).drop_first() =~= ev.skip(i + 1));
                if let YamlKey::Str(s) = &es[i].0 {
                    let sc = to_chars(s.as_str());
                    if chars_eq(&sc, &target) {
                        return Some(&es[i].1);
                    }
                }
            }
            assert(ev.skip(n as int) =~= Seq::<(YamlKey, YamlValue)>::empty());
            None
        },
        _ => None,
    }
}

fn label_exec(v: Option<&YamlValue>) -> (r: Vec<char>)
    ensures
        r@ == label_of(match v {
            Some(x) => Some(*x),
            None => None,
        }),
{
    match v {
        Some(YamlValue::Str(s)) => to_chars(s.as_str()),
        _ => to_chars("?"),
    }
}

/// Names as string slices, each equal to the same place of `list`.
pub open spec fn names_are(v: Seq<&str>, list: Seq<Seq<char>>) -> bool {
    v.len() == list.len() && forall|i: int| 0 <= i < list.len() ==> (#[trigger] v[i])@ == list[i]
}

fn config_fields_exec() -> (r: Vec<&'static str>)
    ensures
        names_are(r@, config_fields()),
{
    let mut v: Vec<&'static str> = Vec::new();
    v.push("confluence");
    v.push("delay_between_slides");
    v.push("derived");
    v.push("heading_margin_bottom");
    v.push("list_item_indent");
    v.push("list_item_spacing");
    v.push("transition");
    v.push("transition_duration_ms");
    v
}

fn step_fields_exec() -> (r: Vec<&'static str>)
    ensures
        names_are(r@, step_fields()),
{
    let mut v: Vec<&'static str> = Vec::new();
    v.push("bounding_box_tag");
    v.push("delay");
    v.push("from");
    v.push("output");
    v.push("transforms");
    v
}

fn transform_types_exec() -> (r: Vec<&'static str>)
    ensures
        names_are(r@, transform_types()),
{
    let mut v: Vec<&'static str> = Vec::new();
    v.push("Animation");
    v.push("ArrowVisibility");
    v.push("Color");
    v.push("ColorEdges");
    v.push("EdgeAttributes");
    v.push("ElementVisibility");
    v.push("EmbedImage");
    v.push("ImportMarkdown");
    v.push("ReplaceText");
    v.push("ShapeAttributes");
    v.push("TitleSlide");
    v
}

/// The fields of a transform type, as string slices.
fn transform_fields_exec(ty: &Vec<char>) -> (r: Option<Vec<&'static str>>)
    ensures
        match transform_fields(ty@) {
            Some(l) => r matches Some(v) && names_are(v@, l),
            None => r is None,
        },
{
    let mut v: Vec<&'static str> = Vec::new();
    if chars_eq(ty, &to_chars("Animation")) {
        v.push("type");
    } else if chars_eq(ty, &to_chars("ArrowVisibility")) {
        v.push("begin");
        v.push("end");
        v.push("tags");
        v.push("type");
    } else if chars_eq(ty, &to_chars("Color")) {
        v.push("color");
        v.push("tags");
        v.push("type");
    } else if chars_eq(ty, &to_chars("ColorEdges")) {
        v.push("color");
        v.push("exclude");
        v.push("type");
    } else if chars_eq(ty, &to_chars("EdgeAttributes")) {
        v.push("color");
        v.push("end_arrow");
        v.push("font_color");
        v.push("font_size");
        v.push("line_style");
        v.push("start_arrow");
        v.push("tags");
        v.push("text");
        v.push("text_background");
        v.push("text_border_color");
        v.push("thickness");
        v.push("type");
    } else if chars_eq(ty, &to_chars("ElementVisibility")) {
        v.push("hide");
        v.push("show");
        v.push("type");
    } else if chars_eq(ty, &to_chars("EmbedImage")) {
        v.push("file");
        v.push("height");
        v.push("tag");
        v.push("type");
        v.push("width");
    } else if chars_eq(ty, &to_chars("ImportMarkdown")) {
        v.push("file");
        v.push("tag");
        v.push("type");
    } else if chars_eq(ty, &to_chars("ReplaceText")) {
        v.push("tag");
        v.push("text");
        v.push("type");
    } else if chars_eq(ty, &to_chars("ShapeAttributes")) {
        v.push("fill_color");
        v.push("font_size");
        v.push("shape");
        v.push("stroke_color");
        v.push("stroke_style");
        v.push("tags");
        v.push("text");
        v.push("type");
    } else if chars_eq(ty, &to_chars("TitleSlide")) {
        v.push("text");
        v.push("type");
    } else {
        return None;
    }
    Some(v)
}

fn push_joined(out: &mut Vec<char>, names: &[&str], Ghost(list): Ghost<Seq<Seq<char>>>)
    requires
        names_are(names@, list),
    ensures
        final(out)@ == old(out)@ + join(list, ", "@),
{
    let ghost start = out@;
    let n = names.len();
    for i in 0..n
        invariant
            n == list.len(),
            names_are(names@, list),
            out@ == start + join(list.take(i as int), ", "@),
    {
        assert(list.take(i + 1).drop_last() =~= list.take(i as int));
        if i > 0 {
            push_str(out, ", ");
        } else {
            assert(list.take(1) =~= seq![list[0]]);
        }
        push_str(out, names[i]);
    }
    assert(list.take(n as int) =~= list);
}

/// The first problem with the transforms of one step, from position `t` on.
fn transforms_problem_exec(file: &str, n: u64, label: &Vec<char>, ts: &Vec<YamlValue>) -> (r: Option<String>)
    ensures
        match transforms_problem(file@, n as nat, label@, ts@, 0) {
            Some(m) => r matches Some(x) && x@ == m,
            None => r is None,
        },
{
    let ghost tv = ts@;
    let count = ts.len();
    for t in 0..count
        invariant
            count == ts@.len(),
            tv == ts@,
            transforms_problem(file@, n as nat, label@, tv, 0) == transforms_problem(file@, n as nat, label@, tv, t as int),
    {
        let ty = label_exec(lookup_exec(&ts[t], "type"));
        match transform_fields_exec(&ty) {
            None => {
                let mut out: Vec<char> = Vec::new();
                push_str(&mut out, "Error in ");
                push_str(&mut out, file);
                push_str(&mut out, " step ");
                push_decimal(&mut out, n);
                push_str(&mut out, " ('");
                push_all_chars(&mut out, label);
                push_str(&mut out, "'), transform ");
                push_decimal(&mut out, t as u64 + 1);
                push_str(&mut out, ": unknown transform type '");
                push_all_chars(&mut out, &ty);
                push_str(&mut out, "'\nKnown types: ");
                let types = transform_types_exec();
                push_joined(&mut out, types.as_slice(), Ghost(transform_types()));
                return Some(from_chars(&out));
            },
            Some(allowed) => {
                let ghost al = transform_fields(ty@).unwrap();
                match unknown_key_exec(&ts[t], Ghost(al), allowed.as_slice()) {
                    Some(k) => {
                        let mut out: Vec<char> = Vec::new();
                        push_str(&mut out, "Error in ");
                        push_str(&mut out, file);
                        push_str(&mut out, " step ");
                        push_decimal(&mut out, n);
                        push_str(&mut out, " ('");
                        push_all_chars(&mut out, label);
                        push_str(&mut out, "'), transform ");
                        push_decimal(&mut out, t as u64 + 1);
                        push_str(&mut out, " (");
                        push_all_chars(&mut out, &ty);
                        push_str(&mut out, "): unknown field '");
                        push_all_chars(&mut out, &k);
                        push_str(&mut out, "'\nKnown fields for ");
                        push_all_chars(&mut out, &ty);
                        push_str(&mut out, ": ");
                        push_joined(&mut out, allowed.as_slice(), Ghost(al));
                        return Some(from_chars(&out));
                    },
                    None => {},
                }
            },
        }
    }
    None
}

fn push_all_chars(out: &mut Vec<char>, src: &Vec<char>)
    ensures
        final(out)@ == old(out)@ + src@,
{
    crate::text::push_all(out, src);
}

/// Check that a configuration document uses only known fields: known
/// top-level fields, known fields in each step, known transform types and
/// known fields for each transform. The first violation, in that order and
/// in document order, is reported with its message naming the file
/// `yaml_file`.
pub fn check_document_fields(doc: &YamlValue, yaml_file: &str) -> (r: Result<(), String>)
    ensures
        match unknown_field_problem(*doc, yaml_file@) {
            Some(m) => r matches Err(x) && x@ == m,
            None => r is Ok,
        },
{
    let top = config_fields_exec();
    if let Some(k) = unknown_key_exec(doc, Ghost(config_fields()), top.as_slice()) {
        let mut out: Vec<char> = Vec::new();
        push_str(&mut out, "Error in ");
        push_str(&mut out, yaml_file);
        push_str(&mut out, ": unknown top-level field '");
        push_all_chars(&mut out, &k);
        push_str(&mut out, "'\nKnown fields: ");
        push_joined(&mut out, top.as_slice(), Ghost(config_fields()));
        return Err(from_chars(&out));
    }
    let steps = match lookup_exec(doc, "derived") {
        Some(YamlValue::Sequence(items)) => items,
        _ => {
            return Ok(());
        },
    };
    let ghost sv = steps@;
    let fields = step_fields_exec();
    let count = steps.len();
    for s in 0..count
        invariant
            count == steps@.len(),
            sv == steps@,
            unknown_field_problem(*doc, yaml_file@) == steps_problem(yaml_file@, sv, s as int),
            names_are(fields@, step_fields()),
    {
        let label = label_exec(lookup_exec(&steps[s], "output"));
        if let Some(k) = unknown_key_exec(&steps[s], Ghost(step_fields()), fields.as_slice()) {
            let mut out: Vec<char> = Vec::new();
            push_str(&mut out, "Error in ");
            push_str(&mut out, yaml_file);
            push_str(&mut out, " step ");
            push_decimal(&mut out, s as u64 + 1);
            push_str(&mut out, " ('");
            push_all_chars(&mut out, &label);
            push_str(&mut out, "'): unknown field '");
            push_all_chars(&mut out, &k);
            push_str(&mut out, "'\nKnown fields for a derived entry: ");
            push_joined(&mut out, fields.as_slice(), Ghost(step_fields()));
            return Err(from_chars(&out));
        }
        if let Some(YamlValue::Sequence(ts)) = lookup_exec(&steps[s], "transforms") {
            if let Some(m) = transforms_problem_exec(yaml_file, s as u64 + 1, &label, ts) {
                return Err(m);
            }
        }
    }
    Ok(())
}

// ---------------------------------------------------------------------------
// Reading the text.

#[verifier::external_type_specification]
#[verifier::external_body]
pub struct ExSerdeYamlValue(serde_yaml::Value);

/// What serde_yaml reads of a text as a `serde_yaml::Value`, in the
/// library's form; nothing when the text is not a YAML document.
pub uninterp spec fn yaml_document(content: Seq<char>) -> Option<YamlValue>;

/// `serde_yaml::from_str::<serde_yaml::Value>`, converted to the library's
/// form, or nothing when the parse fails. The value is named
/// `yaml_document` of the text: mappings keep their entries in document
/// order, so it depends on the text alone.
#[verifier::external_body]
fn parse_yaml(content: &str) -> (r: Option<YamlValue>)
    ensures
        r == yaml_document(content@),
{
    serde_yaml::from_str::<serde_yaml::Value>(content).ok().map(|v| yaml_value_of(&v))
}

/// A `serde_yaml::Value` in the library's form, variant by variant: tags on
/// values are dropped.
#[verifier::external_body]
fn yaml_value_of(v: &serde_yaml::Value) -> YamlValue {
    match v {
        serde_yaml::Value::Mapping(m) => YamlValue::Mapping(m.iter().map(|(k, v)| (yaml_key_of(k), yaml_value_of(v))).collect()),
        serde_yaml::Value::Sequence(s) => YamlValue::Sequence(s.iter().map(yaml_value_of).collect()),
        serde_yaml::Value::String(s) => YamlValue::Str(s.clone()),
        serde_yaml::Value::Tagged(t) => yaml_value_of(&t.value),
        _ => YamlValue::Other,
    }
}

/// A mapping key in the library's form: a plain string, a tagged string
/// (`as_str` reads through the tag), or anything else.
#[verifier::external_body]
fn yaml_key_of(k: &serde_yaml::Value) -> YamlKey {
    match k {
        serde_yaml::Value::String(s) => YamlKey::Str(s.clone()),
        other => match other.as_str() {
            Some(s) => YamlKey::TaggedStr(s.to_string()),
            None => YamlKey::Other,
        },
    }
}

/// Check that the configuration text `content` uses only known fields, as
/// `check_document_fields` does on the document it holds. Text that is not
/// a YAML document passes: the typed parse of the configuration reports it.
pub fn validate_unknown_fields(content: &str, yaml_file: &str) -> (r: Result<(), String>)
    ensures
        match yaml_document(content@) {
            None => r is Ok,
            Some(doc) => match unknown_field_problem(doc, yaml_file@) {
                Some(m) => r matches Err(x) && x@ == m,
                None => r is Ok,
            },
        },
{
    match parse_yaml(content) {
        None => Ok(()),
        Some(doc) => check_document_fields(&doc, yaml_file),
    }
}

} // verus!
