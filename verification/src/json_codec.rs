//! JSON text as `serde_json` writes and reads it: the text of a value, the
//! value a text decodes to, and the byte length that size caps compare.
use crate::json::{jview, Json, JsonV};
use vstd::prelude::*;
use vstd::string::StrSliceExecFns;

verus! {

/// What `serde_json::to_string` writes for the value `v`.
pub uninterp spec fn json_text(v: JsonV) -> Seq<char>;

/// What `serde_json::from_str` reads from the text `s`: the value, or
/// `None` when `s` is not a JSON text.
pub uninterp spec fn json_decoded(s: Seq<char>) -> Option<JsonV>;

/// The length in bytes (UTF-8) of the text of `v`.
pub open spec fn json_len(v: JsonV) -> nat {
    vstd::utf8::encode_utf8(json_text(v)).len()
}

/// `serde_json::Value`, the value `serde_json` writes and reads.
#[verifier::external_type_specification]
#[verifier::external_body]
pub struct ExValue(serde_json::Value);

/// The `serde_json` form of a value: member for member, item for item; a
/// number from its text.
#[verifier::external_body]
fn to_value(j: &Json) -> serde_json::Value {
    match j {
        Json::Null => serde_json::Value::Null,
        Json::Bool(b) => serde_json::Value::Bool(*b),
        Json::Number(n) => serde_json::from_str(n).unwrap_or(serde_json::Value::Null),
        Json::Str(s) => serde_json::Value::String(s.clone()),
        Json::Array(a) => serde_json::Value::Array(a.iter().map(to_value).collect()),
        Json::Object(m) => serde_json::Value::Object(m.iter().map(|(k, v)| (k.clone(), to_value(v))).collect()),
    }
}

/// The library's form of a `serde_json` value: member for member, item for
/// item; a number as its text.
#[verifier::external_body]
fn from_value(v: &serde_json::Value) -> Json {
    match v {
        serde_json::Value::Null => Json::Null,
        serde_json::Value::Bool(b) => Json::Bool(*b),
        serde_json::Value::Number(n) => Json::Number(n.to_string()),
        serde_json::Value::String(s) => Json::Str(s.clone()),
        serde_json::Value::Array(a) => Json::Array(a.iter().map(from_value).collect()),
        serde_json::Value::Object(m) => Json::Object(m.iter().map(|(k, v)| (k.clone(), from_value(v))).collect()),
    }
}

/// `serde_json::to_string` of the value (writing a `serde_json::Value`
/// cannot fail): the result is `json_text(jview(*j))`.
#[verifier::external_body]
pub(crate) fn json_to_string(j: &Json) -> (r: String)
    ensures
        r@ == json_text(jview(*j)),
{
    serde_json::to_string(&to_value(j)).unwrap_or_default()
}

/// `serde_json::from_str` of `text` into a value, its error turned into
/// `None`: the result is `json_decoded(text@)`.
#[verifier::external_body]
pub(crate) fn decode_json(text: &str) -> (r: Option<Json>)
    ensures
        match r {
            Some(j) => json_decoded(text@) == Some(jview(j)),
            None => json_decoded(text@) is None,
        },
{
    serde_json::from_str::<serde_json::Value>(text).ok().map(|v| from_value(&v))
}

/// The length in bytes of the JSON text of `j`.
pub fn serialized_len(j: &Json) -> (r: usize)
    ensures
        r == json_len(jview(*j)),
{
    let t = json_to_string(j);
    t.as_str().as_bytes().len()
}

} // verus!
