//! A plain model of the JSON values a request line is made of.
use vstd::prelude::*;

verus! {

/// A JSON value, holding what the request logic reads of it.
///
/// A number is kept as its value when it is a non-negative integer that fits
/// in a `u64`, and as `None` otherwise (negative or fractional).
pub enum Json {
    Null,
    Bool(bool),
    Number(Option<u64>),
    Str(String),
    Array(Vec<Json>),
    Object(Vec<(String, Json)>),
}

/// A value that serde_json has parsed; Verus sees nothing inside it.
#[verifier::external_type_specification]
#[verifier::external_body]
pub struct ExJsonValue(serde_json::Value);

/// The value that serde_json reads from a text, or `None` when the text is not
/// one well-formed JSON value (surrounding whitespace allowed).
pub uninterp spec fn json_of(text: Seq<char>) -> Option<Json>;

/// Relies on `serde_json::from_str::<serde_json::Value>`: the value read
/// depends on the text alone, and a failure carries serde_json's message.
#[verifier::external_body]
pub(crate) fn parse_json(text: &str) -> (r: Result<Json, String>)
    ensures
        r is Ok <==> json_of(text@) is Some,
        r is Ok ==> r->Ok_0 == json_of(text@)->0,
{
    serde_json::from_str::<serde_json::Value>(text).map(json_from_value).map_err(|e| e.to_string())
}

/// Relies on the variants of `serde_json::Value` and on
/// `serde_json::Number::as_u64`, to move a parsed value into `Json`.
#[verifier::external_body]
fn json_from_value(v: serde_json::Value) -> Json {
    match v {
        serde_json::Value::Null => Json::Null,
        serde_json::Value::Bool(b) => Json::Bool(b),
        serde_json::Value::Number(n) => Json::Number(n.as_u64()),
        serde_json::Value::String(s) => Json::Str(s),
        serde_json::Value::Array(a) => Json::Array(a.into_iter().map(json_from_value).collect()),
        serde_json::Value::Object(m) => Json::Object(
            m.into_iter().map(|(k, x)| (k, json_from_value(x))).collect(),
        ),
    }
}

} // verus!
