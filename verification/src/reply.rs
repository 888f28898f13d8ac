//! The JSON arrays the model is asked to answer with, read by `serde_json`:
//! keys (strings), indices (unsigned numbers) and items (any JSON values).
//! What `serde_json` makes of a text is named here; the library's readers
//! of model answers take it from there.

use vstd::prelude::*;
use crate::json::{items_view, Json, JsonValue};
use crate::text::strings_view;

verus! {

/// `serde_json::Value`, carried through opaquely.
#[verifier::external_type_specification]
#[verifier::external_body]
pub struct ExSerdeValue(serde_json::Value);

/// What `serde_json::from_str::<Vec<String>>` makes of `text`: the strings,
/// or the text of its error.
pub uninterp spec fn string_array(text: Seq<char>) -> Result<Seq<Seq<char>>, Seq<char>>;

/// What `serde_json::from_str::<Vec<u64>>` makes of `text`: the numbers, or
/// the text of its error.
pub uninterp spec fn index_array(text: Seq<char>) -> Result<Seq<u64>, Seq<char>>;

/// What `serde_json::from_str::<Vec<serde_json::Value>>` makes of `text`:
/// the items, each as the library's JSON value, or the text of its error.
pub uninterp spec fn value_array(text: Seq<char>) -> Result<Seq<Json>, Seq<char>>;

/// `serde_json::from_str::<Vec<String>>`, its error by its `Display`: the
/// result is what [`string_array`] names.
#[verifier::external_body]
pub(crate) fn parse_string_array(text: &str) -> (r: Result<Vec<String>, String>)
    ensures
        match string_array(text@) {
            Ok(v) => r matches Ok(x) && strings_view(x@) == v,
            Err(e) => r matches Err(m) && m@ == e,
        },
{
    serde_json::from_str::<Vec<String>>(text).map_err(|e| e.to_string())
}

/// `serde_json::from_str::<Vec<u64>>`, its error by its `Display`: the
/// result is what [`index_array`] names.
#[verifier::external_body]
pub(crate) fn parse_index_array(text: &str) -> (r: Result<Vec<u64>, String>)
    ensures
        match index_array(text@) {
            Ok(v) => r matches Ok(x) && x@ == v,
            Err(e) => r matches Err(m) && m@ == e,
        },
{
    serde_json::from_str::<Vec<u64>>(text).map_err(|e| e.to_string())
}

/// `serde_json::from_str::<Vec<serde_json::Value>>`, each item converted to
/// the library's JSON value and the error by its `Display`: the result is
/// what [`value_array`] names.
#[verifier::external_body]
pub(crate) fn parse_value_array(text: &str) -> (r: Result<Vec<JsonValue>, String>)
    ensures
        match value_array(text@) {
            Ok(v) => r matches Ok(x) && items_view(x@) == v,
            Err(e) => r matches Err(m) && m@ == e,
        },
{
    serde_json::from_str::<Vec<serde_json::Value>>(text)
        .map(|items| items.iter().map(from_serde).collect())
        .map_err(|e| e.to_string())
}

/// A `serde_json::Value` as the library's JSON value, one for one: a number
/// as the text `serde_json` prints for it, an object's members in the order
/// `serde_json` keeps them.
#[verifier::external_body]
fn from_serde(v: &serde_json::Value) -> (r: JsonValue) {
    match v {
        serde_json::Value::Null => JsonValue::Null,
        serde_json::Value::Bool(b) => JsonValue::Bool(*b),
        serde_json::Value::Number(n) => JsonValue::Number(n.to_string()),
        serde_json::Value::String(s) => JsonValue::Str(s.clone()),
        serde_json::Value::Array(a) => JsonValue::Array(a.iter().map(from_serde).collect()),
        serde_json::Value::Object(m) => JsonValue::Object(m.iter().map(|(k, x)| (k.clone(), from_serde(x))).collect()),
    }
}

} // verus!
