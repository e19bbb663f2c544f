//! Navigation of ledger query responses, through `serde_json`. A JSON value
//! is opaque executable data here, but parsing and every accessor are
//! functions of their arguments alone, so their results are named: a value's
//! mathematical image is the [`JsonDoc`] tree `value_doc` assigns to it, and
//! the trusted accessors say how they project that tree. Every decision on
//! the extracted plain values is made by verified code.

use vstd::prelude::*;

verus! {

#[verifier::external_type_specification]
#[verifier::external_body]
pub struct ExValue(serde_json::Value);

/// Mathematical image of a JSON value: the tree of plain values it denotes.
/// A number representable as `u64` is `UInt`; any other number is
/// `OtherNumber`.
pub ghost enum JsonDoc {
    Null,
    Bool(bool),
    UInt(u64),
    OtherNumber,
    Text(Seq<char>),
    Array(Seq<JsonDoc>),
    Object(Map<Seq<char>, JsonDoc>),
}

/// The tree a JSON value denotes: a function of the value alone.
pub uninterp spec fn value_doc(v: serde_json::Value) -> JsonDoc;

/// The tree a text parses to, `None` when the text is not a JSON document:
/// a function of the text alone.
pub uninterp spec fn json_doc_of(s: Seq<char>) -> Option<JsonDoc>;

/// Relies on serde_json::from_str: parses a JSON document, `None` exactly
/// when the text is not valid JSON; the parsed value denotes the text's tree.
#[verifier::external_body]
pub fn json_parse(s: &str) -> (r: Option<serde_json::Value>)
    ensures
        r is Some <==> json_doc_of(s@) is Some,
        r matches Some(v) ==> json_doc_of(s@) == Some(value_doc(v)),
{
    match serde_json::from_str::<serde_json::Value>(s) {
        Ok(v) => Some(v),
        Err(_) => None,
    }
}

/// Relies on serde_json::Value::get: the value under a key of a JSON object,
/// `None` when the key is absent or the value is not an object.
#[verifier::external_body]
pub fn json_get<'a>(v: &'a serde_json::Value, key: &str) -> (r: Option<&'a serde_json::Value>)
    ensures
        r is Some <==> (value_doc(*v) matches JsonDoc::Object(m) && m.contains_key(key@)),
        r matches Some(inner) ==> (value_doc(*v) matches JsonDoc::Object(m) && m.contains_key(
            key@,
        ) && value_doc(*inner) == m[key@]),
{
    v.get(key)
}

/// Relies on serde_json::Value::as_array: the elements of a JSON array in
/// document order, `None` when the value is not an array.
#[verifier::external_body]
pub fn json_as_array<'a>(v: &'a serde_json::Value) -> (r: Option<&'a Vec<serde_json::Value>>)
    ensures
        r is Some <==> value_doc(*v) matches JsonDoc::Array(_),
        r matches Some(arr) ==> (value_doc(*v) matches JsonDoc::Array(elems) && arr@.len()
            == elems.len() && forall|i: int|
            0 <= i < elems.len() ==> value_doc(#[trigger] arr@[i]) == elems[i]),
{
    v.as_array()
}

/// Relies on serde_json::Value::as_str: the content of a JSON string,
/// `None` when the value is not a string.
#[verifier::external_body]
pub fn json_as_str<'a>(v: &'a serde_json::Value) -> (r: Option<&'a str>)
    ensures
        r is Some <==> value_doc(*v) matches JsonDoc::Text(_),
        r matches Some(s) ==> value_doc(*v) == JsonDoc::Text(s@),
{
    v.as_str()
}

/// Relies on serde_json::Value::as_u64: a JSON number as `u64` when it is an
/// unsigned integer in range, `None` otherwise.
#[verifier::external_body]
pub fn json_as_u64(v: &serde_json::Value) -> (r: Option<u64>)
    ensures
        r is Some <==> value_doc(*v) matches JsonDoc::UInt(_),
        r matches Some(x) ==> value_doc(*v) == JsonDoc::UInt(x),
{
    v.as_u64()
}

/// The entry of an object tree under a key, `None` on any other tree.
pub open spec fn doc_field(d: JsonDoc, key: Seq<char>) -> Option<JsonDoc> {
    match d {
        JsonDoc::Object(m) => if m.contains_key(key) {
            Some(m[key])
        } else {
            None
        },
        _ => None,
    }
}

/// The `u64` a tree denotes, `None` on any other tree.
pub open spec fn doc_uint(d: JsonDoc) -> Option<u64> {
    match d {
        JsonDoc::UInt(x) => Some(x),
        _ => None,
    }
}

/// The text a tree denotes, `None` on any other tree.
pub open spec fn doc_text(d: JsonDoc) -> Option<Seq<char>> {
    match d {
        JsonDoc::Text(s) => Some(s),
        _ => None,
    }
}

/// The elements of an array tree, `None` on any other tree.
pub open spec fn doc_elements(d: JsonDoc) -> Option<Seq<JsonDoc>> {
    match d {
        JsonDoc::Array(elems) => Some(elems),
        _ => None,
    }
}

} // verus!
