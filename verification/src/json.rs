//! JSON values as the Confluence exchange reads and writes them.
use vstd::prelude::*;

use crate::text::{chars_eq, to_chars};

verus! {

/// A JSON value: objects keep their members in order; a number is held by
/// the unsigned 64-bit value it has, when it has one.
pub enum JsonValue {
    Null,
    Bool(bool),
    Number(Option<u64>),
    Str(String),
    Array(Vec<JsonValue>),
    Object(Vec<(String, JsonValue)>),
}

/// The value of the first member named `key`, or null.
pub open spec fn member_of(ms: Seq<(String, JsonValue)>, key: Seq<char>) -> JsonValue
    decreases ms.len(),
{
    if ms.len() == 0 {
        JsonValue::Null
    } else if ms[0].0@ == key {
        ms[0].1
    } else {
        member_of(ms.drop_first(), key)
    }
}

/// `v[key]`: the member of an object, or null.
pub open spec fn member(v: JsonValue, key: Seq<char>) -> JsonValue {
    match v {
        JsonValue::Object(ms) => member_of(ms@, key),
        _ => JsonValue::Null,
    }
}

/// `v[i]`: the element of an array, or null.
pub open spec fn element(v: JsonValue, i: int) -> JsonValue {
    match v {
        JsonValue::Array(items) => if 0 <= i < items@.len() {
            items@[i]
        } else {
            JsonValue::Null
        },
        _ => JsonValue::Null,
    }
}

/// The text of a string value.
pub open spec fn str_of(v: JsonValue) -> Option<Seq<char>> {
    match v {
        JsonValue::Str(s) => Some(s@),
        _ => None,
    }
}

/// The unsigned 64-bit value of a number.
pub open spec fn u64_of(v: JsonValue) -> Option<u64> {
    match v {
        JsonValue::Number(n) => n,
        _ => None,
    }
}

/// A looked-up value; nothing found stands for null.
pub open spec fn found(r: Option<&JsonValue>) -> JsonValue {
    match r {
        Some(x) => *x,
        None => JsonValue::Null,
    }
}

/// `v[key]`, with `None` for null.
pub fn member_exec<'a>(v: &'a JsonValue, key: &str) -> (r: Option<&'a JsonValue>)
    ensures
        found(r) == member(*v, key@),
{
    match v {
        JsonValue::Object(ms) => {
            let ghost mv = ms@;
            let k = to_chars(key);
            let n = ms.len();
            assert(mv.skip(0) =~= mv);
            for i in 0..n
                invariant
                    n == ms@.len(),
                    mv == ms@,
                    k@ == key@,
                    member(*v, key@) == member_of(mv, key@),
                    member_of(mv, key@) == member_of(mv.skip(i as int), key@),
            {
                assert(mv.skip(i as int)[0] == mv[i as int]);
                assert(mv.skip(i as int).drop_first() =~= mv.skip(i + 1));
                let name = to_chars(ms[i].0.as_str());
                if chars_eq(&name, &k) {
                    return Some(&ms[i].1);
                }
            }
            assert(mv.skip(n as int) =~= Seq::<(String, JsonValue)>::empty());
            None
        },
        _ => None,
    }
}

/// `v[i]`, with `None` for null.
pub fn element_exec<'a>(v: &'a JsonValue, i: usize) -> (r: Option<&'a JsonValue>)
    ensures
        found(r) == element(*v, i as int),
{
    match v {
        JsonValue::Array(items) => if i < items.len() {
            Some(&items[i])
        } else {
            None
        },
        _ => None,
    }
}

/// The text of a string value.
pub fn str_exec(v: Option<&JsonValue>) -> (r: Option<String>)
    ensures
        match str_of(found(v)) {
            Some(s) => r matches Some(x) && x@ == s,
            None => r is None,
        },
{
    match v {
        Some(JsonValue::Str(s)) => Some(s.clone()),
        _ => None,
    }
}

/// The unsigned 64-bit value of a number.
pub fn u64_exec(v: Option<&JsonValue>) -> (r: Option<u64>)
    ensures
        r == u64_of(found(v)),
{
    match v {
        Some(JsonValue::Number(n)) => *n,
        _ => None,
    }
}

// ---------------------------------------------------------------------------
// Reading a text.

#[verifier::external_type_specification]
#[verifier::external_body]
pub struct ExSerdeJsonValue(serde_json::Value);

/// What serde_json reads of a text as a `serde_json::Value`, in the
/// library's form; nothing when the text is not JSON.
pub uninterp spec fn json_document(text: Seq<char>) -> Option<JsonValue>;

/// `serde_json::from_str::<serde_json::Value>`, converted to the library's
/// form, or nothing when the parse fails. The value is named
/// `json_document` of the text: it depends on the text alone.
#[verifier::external_body]
pub(crate) fn parse_json(text: &str) -> (r: Option<JsonValue>)
    ensures
        r == json_document(text@),
{
    serde_json::from_str::<serde_json::Value>(text).ok().map(|v| json_value_of(&v))
}

/// A `serde_json::Value` in the library's form, variant by variant: a
/// number keeps its value as an unsigned 64-bit integer when it has one
/// (`as_u64`).
#[verifier::external_body]
fn json_value_of(v: &serde_json::Value) -> JsonValue {
    match v {
        serde_json::Value::Null => JsonValue::Null,
        serde_json::Value::Bool(b) => JsonValue::Bool(*b),
        serde_json::Value::Number(n) => JsonValue::Number(n.as_u64()),
        serde_json::Value::String(s) => JsonValue::Str(s.clone()),
        serde_json::Value::Array(items) => JsonValue::Array(items.iter().map(json_value_of).collect()),
        serde_json::Value::Object(m) => JsonValue::Object(m.iter().map(|(k, v)| (k.clone(), json_value_of(v))).collect()),
    }
}

} // verus!
