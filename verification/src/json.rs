//! The boundary with the JSON collaborators. JSON text decoding and
//! encoding are delegated to serde_json, and the recursive document merge
//! to json_value_merge; a parsed document is opaque to the library, which
//! only routes it. Every call into the two crates stands behind a trusted
//! item here.

use vstd::prelude::*;

use serde_json::Value;

verus! {

#[verifier::external_type_specification]
#[verifier::external_body]
pub struct ExValue(Value);

/// Whether `text` parses as one JSON document, as `serde_json::from_str`
/// decides it: a function of the text alone.
pub uninterp spec fn is_valid_json(text: Seq<char>) -> bool;

/// Relies on `serde_json::from_str::<Value>`: parses the text as one JSON
/// document, succeeding exactly on the texts that serde_json accepts.
#[verifier::external_body]
pub(crate) fn parse_json(text: &str) -> (r: Option<Value>)
    ensures
        r is Some <==> is_valid_json(text@),
{
    serde_json::from_str(text).ok()
}

/// Relies on `serde_json::Value::Object` and `serde_json::Map::new`: the
/// empty JSON object, the merge fold's starting accumulator.
#[verifier::external_body]
pub(crate) fn empty_object() -> (r: Value) {
    Value::Object(serde_json::Map::new())
}

/// Relies on `json_value_merge::Merge::merge`: folds `v` into `acc`
/// recursively, by the collaborator's rule: two objects merge key by key,
/// two arrays are concatenated (the other's elements appended), an object
/// merged into an array is pushed onto it, and in every other pairing the
/// other value replaces the accumulator.
#[verifier::external_body]
pub(crate) fn merge_into(acc: &mut Value, v: &Value) {
    json_value_merge::Merge::merge(acc, v);
}

/// Relies on `serde_json::to_string`: renders the document as compact
/// single-line JSON text. Serializing a `Value` cannot fail: errors would
/// need a failing `Serialize` impl or a non-string map key, and a `Value`
/// has neither.
#[verifier::external_body]
pub(crate) fn to_json_compact(v: &Value) -> (r: Option<String>)
    ensures
        r is Some,
{
    serde_json::to_string(v).ok()
}

/// Relies on `serde_json::to_string_pretty`: renders the document as
/// indented multi-line JSON text. Serializing a `Value` cannot fail, as
/// for the compact form.
#[verifier::external_body]
pub(crate) fn to_json_pretty(v: &Value) -> (r: Option<String>)
    ensures
        r is Some,
{
    serde_json::to_string_pretty(v).ok()
}

} // verus!
