//! A generic document value, built bottom-up and rendered to text by the caller.

use vstd::prelude::*;

verus! {

/// A document that was parsed out of embedded text.
#[verifier::external_type_specification]
#[verifier::external_body]
pub struct ExParsedDocument(serde_json::Value);

/// Whether serde_json accepts the text as a document.
pub uninterp spec fn parses_as_document(s: Seq<char>) -> bool;

/// Relies on serde_json::from_str: whether it accepts the text depends on the text alone.
#[verifier::external_body]
fn parse_document(s: &String) -> (r: Option<serde_json::Value>)
    ensures
        r.is_some() == parses_as_document(s@),
{
    serde_json::from_str::<serde_json::Value>(s).ok()
}

/// A generic nested value: the shape in which metadata and sizes are reported.
///
/// A floating-point quantity is carried exactly, by its 32- or 64-bit pattern.
#[derive(Debug, PartialEq)]
pub enum JsonValue {
    Null,
    Bool(bool),
    Int(i64),
    UInt(u64),
    Float32Bits(u32),
    Float64Bits(u64),
    Text(String),
    Array(Vec<JsonValue>),
    Object(Vec<(String, JsonValue)>),
    Parsed(serde_json::Value),
}

/// The number of entries of an object value (zero for any other value).
pub open spec fn obj_len(v: JsonValue) -> int {
    match v {
        JsonValue::Object(es) => es@.len() as int,
        _ => 0,
    }
}

/// The key of the `i`-th entry of an object value.
pub open spec fn obj_key(v: JsonValue, i: int) -> Seq<char> {
    match v {
        JsonValue::Object(es) => es@[i].0@,
        _ => Seq::empty(),
    }
}

/// The value of the `i`-th entry of an object value.
pub open spec fn obj_val(v: JsonValue, i: int) -> JsonValue {
    match v {
        JsonValue::Object(es) => es@[i].1,
        _ => JsonValue::Null,
    }
}

/// `v` is an object whose keys are exactly `keys`, in that order.
pub open spec fn has_keys(v: JsonValue, keys: Seq<Seq<char>>) -> bool {
    &&& v is Object
    &&& obj_len(v) == keys.len()
    &&& forall|i: int| 0 <= i < keys.len() ==> #[trigger] obj_key(v, i) == keys[i]
}

/// `v` is a text value holding `s`.
pub open spec fn is_text(v: JsonValue, s: Seq<char>) -> bool {
    match v {
        JsonValue::Text(t) => t@ == s,
        _ => false,
    }
}

/// The items of an array value (empty for any other value).
pub open spec fn arr_items(v: JsonValue) -> Seq<JsonValue> {
    match v {
        JsonValue::Array(xs) => xs@,
        _ => Seq::empty(),
    }
}

/// `v` is text `s` when `o` holds `s`, and null when `o` is absent.
pub open spec fn is_opt_text(v: JsonValue, o: Option<Seq<char>>) -> bool {
    match o {
        Some(s) => is_text(v, s),
        None => v == JsonValue::Null,
    }
}

/// The value that an embedded metadata string becomes: the parsed document
/// when the text is well formed, and the text itself otherwise.
pub open spec fn embedded_value_ok(v: JsonValue, s: Seq<char>) -> bool {
    if parses_as_document(s) {
        v is Parsed
    } else {
        is_text(v, s)
    }
}

/// Turns an embedded string into a document where it parses as one; never fails.
pub fn embedded_value(s: &String) -> (r: JsonValue)
    ensures
        embedded_value_ok(r, s@),
{
    match parse_document(s) {
        Some(doc) => JsonValue::Parsed(doc),
        None => JsonValue::Text(s.clone()),
    }
}

/// An object entry with the given key.
pub fn entry(key: &str, value: JsonValue) -> (r: (String, JsonValue))
    ensures
        r.0@ == key@,
        r.1 == value,
{
    (key.to_owned(), value)
}

/// A text value for an optional string: null when absent.
pub fn opt_text(o: &Option<String>) -> (r: JsonValue)
    ensures
        is_opt_text(r, match o { Some(s) => Some(s@), None => None }),
{
    match o {
        Some(s) => JsonValue::Text(s.clone()),
        None => JsonValue::Null,
    }
}

/// An integer value for an optional signed count: null when absent.
pub fn opt_int(o: Option<i64>) -> (r: JsonValue)
    ensures
        r == (match o { Some(x) => JsonValue::Int(x), None => JsonValue::Null }),
{
    match o {
        Some(x) => JsonValue::Int(x),
        None => JsonValue::Null,
    }
}

/// An integer value for an optional unsigned count: null when absent, never zero.
pub fn opt_uint(o: Option<u64>) -> (r: JsonValue)
    ensures
        r == (match o { Some(x) => JsonValue::UInt(x), None => JsonValue::Null }),
{
    match o {
        Some(x) => JsonValue::UInt(x),
        None => JsonValue::Null,
    }
}

} // verus!
