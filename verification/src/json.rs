//! Reading JSON documents through `serde_json`.
//!
//! A document is held as its text. Each function here parses the text and
//! reads one thing from it, so that what crosses into verified code is a
//! plain value. Nothing is proved of what `serde_json` answers: each answer
//! has a name, and the functions that decide on it are verified for every
//! value that the name may have.

use vstd::prelude::*;
use crate::models::opt_view;
use crate::text::views;

verus! {

/// What `serde_json::from_str::<Value>` says of `text`: `None` where the text
/// is one JSON value, else the message of the parse error.
pub uninterp spec fn json_parse_error(text: Seq<char>) -> Option<Seq<char>>;

/// The string under `key` of the JSON object `doc`: `Value::as_str` of
/// `Value::get`. `None` where `doc` is no object, has no such member, or the
/// member is no string.
pub uninterp spec fn json_string_at(doc: Seq<char>, key: Seq<char>) -> Option<Seq<char>>;

/// The number under `key` of the JSON object `doc`, as `serde_json::Number`
/// prints it: `Value::as_number` of `Value::get`.
pub uninterp spec fn json_number_at(doc: Seq<char>, key: Seq<char>) -> Option<Seq<char>>;

/// The elements of the array under `key` of the JSON object `doc`, each as
/// `serde_json::Value` prints it: `Value::as_array` of `Value::get`.
pub uninterp spec fn json_array_at(doc: Seq<char>, key: Seq<char>) -> Option<Seq<Seq<char>>>;

/// The views of an optional vector of strings.
pub open spec fn opt_views(o: Option<Vec<String>>) -> Option<Seq<Seq<char>>> {
    match o {
        Some(v) => Some(views(v@)),
        None => None,
    }
}

/// Calls `serde_json::from_str::<Value>` on `text` and hands back the error's
/// message, or `None` where the text parses. The contract only names the answer.
#[verifier::external_body]
pub(crate) fn parse_error(text: &str) -> (e: Option<String>)
    ensures
        opt_view(e) == json_parse_error(text@),
{
    match serde_json::from_str::<serde_json::Value>(text) {
        Ok(_) => None,
        Err(e) => Some(e.to_string()),
    }
}

/// Parses `doc` and reads the member `key` with `Value::get` and
/// `Value::as_str`. The contract only names the answer.
#[verifier::external_body]
pub(crate) fn string_field(doc: &str, key: &str) -> (s: Option<String>)
    ensures
        opt_view(s) == json_string_at(doc@, key@),
{
    let value = serde_json::from_str::<serde_json::Value>(doc).ok()?;
    value.get(key)?.as_str().map(String::from)
}

/// Parses `doc` and reads the member `key` with `Value::get` and
/// `Value::as_number`, printed as a numeral. The contract only names the answer.
#[verifier::external_body]
pub(crate) fn number_field(doc: &str, key: &str) -> (s: Option<String>)
    ensures
        opt_view(s) == json_number_at(doc@, key@),
{
    let value = serde_json::from_str::<serde_json::Value>(doc).ok()?;
    value.get(key)?.as_number().map(|n| n.to_string())
}

/// Parses `doc` and reads the member `key` with `Value::get` and
/// `Value::as_array`, each element printed as a document of its own. The
/// contract only names the answer.
#[verifier::external_body]
pub(crate) fn array_field(doc: &str, key: &str) -> (items: Option<Vec<String>>)
    ensures
        opt_views(items) == json_array_at(doc@, key@),
{
    let value = serde_json::from_str::<serde_json::Value>(doc).ok()?;
    value.get(key)?.as_array().map(|a| a.iter().map(|v| v.to_string()).collect())
}

} // verus!
