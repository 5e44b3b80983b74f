//! Thin boundary around serde_json.
//!
//! The daemon forwards the external engine's JSON lines as opaque text,
//! injecting at most two known top-level keys (`message_type` and `name`)
//! rather than modelling the engine's full schema. The JSON work itself
//! is serde_json's; the library speaks of its results through the named
//! functions below. serde_json is built with its default map (a B-tree),
//! so re-serializing an object is a function of the input text alone.

use vstd::prelude::*;

verus! {

/// Whether `s` parses as a JSON object, as serde_json decides it.
pub uninterp spec fn is_json_object(s: Seq<char>) -> bool;

/// The text serde_json produces after parsing the object `s`, setting
/// its top-level field `key` to the string `value`, and re-serializing.
pub uninterp spec fn json_with_key(s: Seq<char>, key: Seq<char>, value: Seq<char>) -> Seq<char>;

/// The string held by the top-level field `key` of the JSON text `s`,
/// if `s` parses as an object whose field `key` holds a string.
pub uninterp spec fn json_str_field(s: Seq<char>, key: Seq<char>) -> Option<Seq<char>>;

/// The re-serialized object held by the top-level field `key` of the
/// JSON text `s`, if that field holds an object.
pub uninterp spec fn json_object_field(s: Seq<char>, key: Seq<char>) -> Option<Seq<char>>;

/// The strings held by the top-level field `key` of the JSON text `s`,
/// if that field holds an array of strings.
pub uninterp spec fn json_str_array_field(s: Seq<char>, key: Seq<char>) -> Option<Seq<Seq<char>>>;

/// Relies on serde_json::from_str, Value::as_object_mut, Map::insert and
/// Value's Display: parses `json`, sets its top-level field `key` to the
/// string `value`, and re-serializes. Returns `None` exactly when `json`
/// is not a JSON object. Re-serializing an object yields an object
/// again, so the result is itself JSON-object text.
#[verifier::external_body]
fn add_key_raw(json: &str, key: &str, value: &str) -> (r: Option<String>)
    ensures
        r is Some <==> is_json_object(json@),
        r matches Some(out) ==> out@ == json_with_key(json@, key@, value@),
        r is Some ==> is_json_object(json_with_key(json@, key@, value@)),
{
    let mut parsed: serde_json::Value = serde_json::from_str(json).ok()?;
    let object = parsed.as_object_mut()?;
    object.insert(key.to_string(), serde_json::Value::String(value.to_string()));
    Some(parsed.to_string())
}

/// Relies on serde_json::from_str, Value::get and Value::as_str: the
/// string under the top-level field `key`, or `None` when `json` does
/// not parse, the field is absent, or it holds no string.
#[verifier::external_body]
pub(crate) fn get_str_field(json: &str, key: &str) -> (r: Option<String>)
    ensures
        match r {
            Some(s) => json_str_field(json@, key@) == Some(s@),
            None => json_str_field(json@, key@) is None,
        },
{
    let parsed: serde_json::Value = serde_json::from_str(json).ok()?;
    Some(parsed.get(key)?.as_str()?.to_string())
}

/// Relies on serde_json::from_str, Value::get, Value::is_object and
/// Value's Display: the object under the top-level field `key`,
/// re-serialized, or `None` when there is no such object. What comes
/// back is the serialization of an object, hence JSON-object text.
#[verifier::external_body]
pub(crate) fn get_object_field(json: &str, key: &str) -> (r: Option<String>)
    ensures
        match r {
            Some(s) => json_object_field(json@, key@) == Some(s@) && is_json_object(s@),
            None => json_object_field(json@, key@) is None,
        },
{
    let parsed: serde_json::Value = serde_json::from_str(json).ok()?;
    let field = parsed.get(key)?;
    if field.is_object() {
        Some(field.to_string())
    } else {
        None
    }
}

/// Relies on serde_json::from_str, Value::get, Value::as_array and
/// Value::as_str: the strings under the top-level field `key`, or `None`
/// when there is no such array or an element is not a string.
#[verifier::external_body]
pub(crate) fn get_str_array_field(json: &str, key: &str) -> (r: Option<Vec<String>>)
    ensures
        match r {
            Some(v) => json_str_array_field(json@, key@) == Some(v.deep_view()),
            None => json_str_array_field(json@, key@) is None,
        },
{
    let parsed: serde_json::Value = serde_json::from_str(json).ok()?;
    let arr = parsed.get(key)?.as_array()?;
    arr.iter().map(|v| v.as_str().map(str::to_string)).collect::<Option<Vec<String>>>()
}

/// Insert `value` as a string under `key` in the JSON object
/// `json_string`. A caller must know the text is a JSON object; for
/// text of unknown shape — the engine's opaque output — `try_add_key`
/// checks first.
pub fn add_key(json_string: &str, key: &str, value: String) -> (r: String)
    requires
        is_json_object(json_string@),
    ensures
        r@ == json_with_key(json_string@, key@, value@),
        is_json_object(r@),
{
    add_key_raw(json_string, key, value.as_str()).unwrap()
}

/// Like `add_key`, but checks the text first: `None` exactly when
/// `json_string` is not a JSON object.
pub fn try_add_key(json_string: &str, key: &str, value: String) -> (r: Option<String>)
    ensures
        r is Some <==> is_json_object(json_string@),
        r matches Some(out) ==> out@ == json_with_key(json_string@, key@, value@) && is_json_object(
            out@,
        ),
{
    match add_key_raw(json_string, key, value.as_str()) {
        Some(_) => Some(add_key(json_string, key, value)),
        None => None,
    }
}

/// Tag a JSON object with a `message_type` discriminator, the way the
/// daemon annotates the engine's raw output before forwarding it.
pub fn add_message_type(json_string: &str, type_string: &str) -> (r: String)
    requires
        is_json_object(json_string@),
    ensures
        r@ == json_with_key(json_string@, "message_type"@, type_string@),
        is_json_object(r@),
{
    add_key(json_string, "message_type", type_string.to_owned())
}

} // verus!
