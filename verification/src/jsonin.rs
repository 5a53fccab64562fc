//! Trusted boundary to serde_json: parsing a request line and taking
//! the parsed value apart into plain values.
//!
//! What a line parses to depends on the line alone, but the protocol
//! needs nothing of the parse beyond the plain values these wrappers
//! hand out, and the shape rules over those values are verified in
//! the dispatcher.

use vstd::prelude::*;

verus! {

#[verifier::external_type_specification]
#[verifier::external_body]
pub struct ExValue(serde_json::Value);

/// One field of a flat JSON object, as a plain value: the scalars the
/// protocol's parameters use, and `Other` for anything else.
pub enum JsonScalar {
    Null,
    Bool(bool),
    UInt(u64),
    Str(String),
    Other,
}

/// Relies on serde_json::from_str::<Value>: parses one JSON text; the
/// error carries serde_json's parse failure message.
#[verifier::external_body]
pub(crate) fn json_parse(line: &str) -> Result<serde_json::Value, String> {
    serde_json::from_str::<serde_json::Value>(line).map_err(|err| err.to_string())
}

/// Relies on serde_json::Value being a public enum: takes a parsed
/// request apart into its "id", "method" and "params" members. `None`
/// unless the value is an object whose "id" and "method" are strings
/// and which has some "params" member.
#[verifier::external_body]
pub(crate) fn request_parts(v: serde_json::Value) -> Option<(String, String, serde_json::Value)> {
    let mut map = match v {
        serde_json::Value::Object(map) => map,
        _ => return None,
    };
    let id = match map.get("id") {
        Some(serde_json::Value::String(s)) => s.clone(),
        _ => return None,
    };
    let method = match map.get("method") {
        Some(serde_json::Value::String(s)) => s.clone(),
        _ => return None,
    };
    map.remove("params").map(|params| (id, method, params))
}

/// Relies on serde_json::Value being a public enum and on
/// serde_json::Number::as_u64: the members of an object, each scalar
/// moved over one for one, in the map's order; `None` for anything
/// but an object.
#[verifier::external_body]
pub(crate) fn value_object_fields(v: &serde_json::Value) -> Option<Vec<(String, JsonScalar)>> {
    let map = match v {
        serde_json::Value::Object(map) => map,
        _ => return None,
    };
    Some(map.iter().map(|entry| (entry.0.clone(), match entry.1 {
        serde_json::Value::Null => JsonScalar::Null,
        serde_json::Value::Bool(b) => JsonScalar::Bool(*b),
        serde_json::Value::Number(n) => n.as_u64().map(JsonScalar::UInt).unwrap_or(JsonScalar::Other),
        serde_json::Value::String(s) => JsonScalar::Str(s.clone()),
        _ => JsonScalar::Other,
    })).collect())
}

} // verus!
