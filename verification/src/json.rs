//! A JSON document as plain values, and the lookups the report readers use.
//!
//! The document is parsed elsewhere; this module only walks it. Object
//! members keep the order and uniqueness of the parsed map, so looking up a
//! key finds its one member.

use vstd::prelude::*;
use crate::text::chars_of;

verus! {

/// A JSON number as the parser classifies it: a non-negative integer, a
/// negative integer, or any other number, kept as its IEEE-754 bit pattern.
/// The library never computes with the last kind; it only carries it.
#[derive(Debug, Clone, Copy, PartialEq, Eq)]
pub enum JsonNumber {
    PosInt(u64),
    NegInt(i64),
    Float { bits: u64 },
}

#[derive(Debug)]
pub enum JsonValue {
    Null,
    Bool(bool),
    Number(JsonNumber),
    String(String),
    Array(Vec<JsonValue>),
    Object(Vec<(String, JsonValue)>),
}

/// serde_json's document type; what the library reads of it is converted
/// to `JsonValue` at once.
#[verifier::external_type_specification]
#[verifier::external_body]
pub struct ExSerdeJsonValue(serde_json::Value);

/// serde_json's number type.
#[verifier::external_type_specification]
#[verifier::external_body]
pub struct ExSerdeJsonNumber(serde_json::Number);

/// What `serde_json::from_str::<serde_json::Value>` reads from a text, as a
/// plain tree: the document, or nothing when the text is not one JSON value.
pub uninterp spec fn parsed_json(text: Seq<char>) -> Option<JsonValue>;

/// `serde_json::from_str::<serde_json::Value>`, its document converted to a
/// plain tree.
///
/// Claims only that the result is a function of the text alone (named
/// `parsed_json`); which texts parse, and to what, is not stated.
#[verifier::external_body]
pub fn parse_json(text: &str) -> (r: Option<JsonValue>)
    ensures
        r == parsed_json(text@),
{
    match serde_json::from_str::<serde_json::Value>(text) {
        Ok(v) => Some(from_serde(&v)),
        Err(_) => None,
    }
}

/// A serde_json document as a plain tree, one variant for one variant.
#[verifier::external_body]
fn from_serde(v: &serde_json::Value) -> JsonValue {
    match v {
        serde_json::Value::Null => JsonValue::Null,
        serde_json::Value::Bool(b) => JsonValue::Bool(*b),
        serde_json::Value::Number(n) => JsonValue::Number(from_serde_number(n)),
        serde_json::Value::String(t) => JsonValue::String(t.clone()),
        serde_json::Value::Array(items) => JsonValue::Array(items.iter().map(from_serde).collect()),
        serde_json::Value::Object(m) => JsonValue::Object(
            m.iter().map(|(k, x)| (k.clone(), from_serde(x))).collect(),
        ),
    }
}

/// A serde_json number by its kind: non-negative integer, negative integer,
/// or other (kept as its bit pattern).
#[verifier::external_body]
fn from_serde_number(n: &serde_json::Number) -> JsonNumber {
    match (n.as_u64(), n.as_i64()) {
        (Some(u), _) => JsonNumber::PosInt(u),
        (None, Some(i)) => JsonNumber::NegInt(i),
        (None, None) => JsonNumber::Float { bits: n.as_f64().map_or(0, |x| x.to_bits()) },
    }
}

/// The value of the first member named `key`.
pub open spec fn member(entries: Seq<(String, JsonValue)>, key: Seq<char>) -> Option<JsonValue>
    decreases entries.len(),
{
    if entries.len() == 0 {
        None
    } else if entries[0].0@ == key {
        Some(entries[0].1)
    } else {
        member(entries.drop_first(), key)
    }
}

/// `value.get(key)`: the member `key` of an object; nothing for other values.
pub open spec fn get(v: JsonValue, key: Seq<char>) -> Option<JsonValue> {
    match v {
        JsonValue::Object(entries) => member(entries@, key),
        _ => None,
    }
}

/// `get` applied to a value that may be missing.
pub open spec fn get_opt(v: Option<JsonValue>, key: Seq<char>) -> Option<JsonValue> {
    match v {
        Some(x) => get(x, key),
        None => None,
    }
}

/// `as_u64`: non-negative integers only.
pub open spec fn as_u64(v: Option<JsonValue>) -> Option<u64> {
    match v {
        Some(JsonValue::Number(JsonNumber::PosInt(n))) => Some(n),
        _ => None,
    }
}

/// `as_i64`: integers that fit an `i64`.
pub open spec fn as_i64(v: Option<JsonValue>) -> Option<i64> {
    match v {
        Some(JsonValue::Number(JsonNumber::PosInt(n))) => if n <= i64::MAX {
            Some(n as i64)
        } else {
            None
        },
        Some(JsonValue::Number(JsonNumber::NegInt(n))) => Some(n),
        _ => None,
    }
}

/// Any number (what `as_f64` accepts).
pub open spec fn as_number(v: Option<JsonValue>) -> Option<JsonNumber> {
    match v {
        Some(JsonValue::Number(n)) => Some(n),
        _ => None,
    }
}

/// `as_str`.
pub open spec fn as_text(v: Option<JsonValue>) -> Option<Seq<char>> {
    match v {
        Some(JsonValue::String(s)) => Some(s@),
        _ => None,
    }
}

/// `as_array`.
pub open spec fn as_array(v: Option<JsonValue>) -> Option<Seq<JsonValue>> {
    match v {
        Some(JsonValue::Array(items)) => Some(items@),
        _ => None,
    }
}

/// Whether two strings hold the same characters.
pub fn str_eq(a: &str, b: &str) -> (r: bool)
    ensures
        r == (a@ == b@),
{
    let x = chars_of(a);
    let y = chars_of(b);
    if x.len() != y.len() {
        return false;
    }
    let mut i: usize = 0;
    while i < x.len()
        invariant
            x@ == a@,
            y@ == b@,
            x@.len() == y@.len(),
            i <= x@.len(),
            forall|j: int| 0 <= j < i ==> x@[j] == y@[j],
        decreases x@.len() - i,
    {
        if x[i] != y[i] {
            return false;
        }
        i = i + 1;
    }
    assert(x@ =~= y@);
    true
}

/// `value.get(key)`.
pub fn json_get<'a>(v: &'a JsonValue, key: &str) -> (r: Option<&'a JsonValue>)
    ensures
        match r {
            Some(x) => get(*v, key@) == Some(*x),
            None => get(*v, key@) is None,
        },
{
    match v {
        JsonValue::Object(entries) => {
            let mut i: usize = 0;
            assert(entries@.subrange(0, entries@.len() as int) =~= entries@);
            while i < entries.len()
                invariant
                    i <= entries@.len(),
                    get(*v, key@) == member(entries@, key@),
                    member(entries@, key@) == member(
                        entries@.subrange(i as int, entries@.len() as int),
                        key@,
                    ),
                decreases entries@.len() - i,
            {
                assert(entries@.subrange(i as int, entries@.len() as int).drop_first()
                    =~= entries@.subrange(i + 1, entries@.len() as int));
                if str_eq(entries[i].0.as_str(), key) {
                    return Some(&entries[i].1);
                }
                i = i + 1;
            }
            None
        },
        _ => None,
    }
}

/// `value.get(key)` on a value that may be missing.
pub fn json_get_opt<'a>(v: Option<&'a JsonValue>, key: &str) -> (r: Option<&'a JsonValue>)
    ensures
        match r {
            Some(x) => get_opt(opt_val(v), key@) == Some(*x),
            None => get_opt(opt_val(v), key@) is None,
        },
{
    match v {
        Some(x) => json_get(x, key),
        None => None,
    }
}

/// A borrowed optional value as an optional value.
pub open spec fn opt_val(v: Option<&JsonValue>) -> Option<JsonValue> {
    match v {
        Some(x) => Some(*x),
        None => None,
    }
}

pub fn json_as_u64(v: Option<&JsonValue>) -> (r: Option<u64>)
    ensures
        r == as_u64(opt_val(v)),
{
    match v {
        Some(JsonValue::Number(JsonNumber::PosInt(n))) => Some(*n),
        _ => None,
    }
}

pub fn json_as_i64(v: Option<&JsonValue>) -> (r: Option<i64>)
    ensures
        r == as_i64(opt_val(v)),
{
    match v {
        Some(JsonValue::Number(JsonNumber::PosInt(n))) => if *n <= i64::MAX as u64 {
            Some(*n as i64)
        } else {
            None
        },
        Some(JsonValue::Number(JsonNumber::NegInt(n))) => Some(*n),
        _ => None,
    }
}

pub fn json_as_number(v: Option<&JsonValue>) -> (r: Option<JsonNumber>)
    ensures
        r == as_number(opt_val(v)),
{
    match v {
        Some(JsonValue::Number(n)) => Some(*n),
        _ => None,
    }
}

pub fn json_as_str<'a>(v: Option<&'a JsonValue>) -> (r: Option<&'a str>)
    ensures
        match r {
            Some(s) => as_text(opt_val(v)) == Some(s@),
            None => as_text(opt_val(v)) is None,
        },
{
    match v {
        Some(JsonValue::String(s)) => Some(s.as_str()),
        _ => None,
    }
}

pub fn json_as_array<'a>(v: Option<&'a JsonValue>) -> (r: Option<&'a Vec<JsonValue>>)
    ensures
        match r {
            Some(items) => as_array(opt_val(v)) == Some(items@),
            None => as_array(opt_val(v)) is None,
        },
{
    match v {
        Some(JsonValue::Array(items)) => Some(items),
        _ => None,
    }
}

} // verus!
