//! JSON text: reading and writing by `serde_json`.

use serde_json::Value;
use vstd::prelude::*;

use crate::json::{all_keys_unique, Json, JsonView};
use crate::text::is_one_line;

verus! {

#[verifier::external_type_specification]
#[verifier::external_body]
pub struct ExValue(Value);

/// What `serde_json::from_str` reads in a text: a value, or the message of the
/// error.
pub uninterp spec fn json_of_text(text: Seq<char>) -> Result<JsonView, Seq<char>>;

/// The text that `serde_json` writes for a value.
pub uninterp spec fn text_of_json(json: JsonView) -> Seq<char>;

/// Converts a `serde_json::Value`, variant by variant. Nothing is claimed of
/// the result on its own; [`parse`] names what it makes of a whole text.
#[verifier::external_body]
fn from_value(value: Value) -> (json: Json) {
    match value {
        Value::Null => Json::Null,
        Value::Bool(b) => Json::Bool(b),
        Value::Number(n) => Json::Number(n.to_string()),
        Value::String(s) => Json::Text(s),
        Value::Array(items) => Json::Array(items.into_iter().map(from_value).collect()),
        Value::Object(map) => Json::Object(map.into_iter().map(|(k, v)| (k, from_value(v))).collect()),
    }
}

/// Converts to a `serde_json::Value`, variant by variant; a number whose text
/// `serde_json` does not read becomes `null`. Nothing is claimed of the result
/// on its own; [`print`] names what is written for it.
#[verifier::external_body]
fn to_value(json: &Json) -> (value: Value) {
    match json {
        Json::Null => Value::Null,
        Json::Bool(b) => Value::Bool(*b),
        Json::Number(n) => n.parse().map(Value::Number).unwrap_or(Value::Null),
        Json::Text(s) => Value::String(s.clone()),
        Json::Array(items) => Value::Array(items.iter().map(to_value).collect()),
        Json::Object(entries) => Value::Object(entries.iter().map(|(k, v)| (k.clone(), to_value(v))).collect()),
    }
}

/// Reads JSON by `serde_json::from_str`. What comes out, value or message,
/// depends on the text alone. An object is read into a `serde_json::Map`, so
/// that no key occurs twice in it: of two entries with one key the later one
/// takes the place of the earlier one.
#[verifier::external_body]
fn read_json(text: &str) -> (r: Result<Json, String>)
    ensures
        match r {
            Ok(json) => json_of_text(text@) == Ok::<JsonView, Seq<char>>(json@) && all_keys_unique(
                json@,
            ),
            Err(e) => json_of_text(text@) == Err::<JsonView, Seq<char>>(e@),
        },
{
    match serde_json::from_str::<Value>(text) {
        Ok(value) => Ok(from_value(value)),
        Err(e) => Err(e.to_string()),
    }
}

/// Writes JSON by the `Display` implementation of `serde_json::Value`. The text
/// depends on the value alone. It is the compact form: no white space stands
/// between the parts, and control characters are escaped, so that the text is
/// not empty, starts with no white space and holds no line end.
#[verifier::external_body]
fn write_json(json: &Json) -> (text: String)
    ensures
        text@ == text_of_json(json@),
        is_one_line(text@),
{
    to_value(json).to_string()
}

/// The value that a JSON text holds, or what is wrong with the text. No key
/// occurs twice in an object of the value.
pub fn parse(text: &str) -> (r: Result<Json, String>)
    ensures
        match r {
            Ok(json) => json_of_text(text@) == Ok::<JsonView, Seq<char>>(json@) && all_keys_unique(
                json@,
            ),
            Err(e) => json_of_text(text@) == Err::<JsonView, Seq<char>>(e@),
        },
{
    read_json(text)
}

/// The text of a JSON value, without white space between its parts and on one
/// line.
pub fn print(json: &Json) -> (text: String)
    ensures
        text@ == text_of_json(json@),
        is_one_line(text@),
{
    write_json(json)
}

} // verus!
