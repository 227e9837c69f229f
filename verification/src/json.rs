//! Reading single members out of JSON documents.
//!
//! The documents are parsed by `serde_json`. What it makes of a text is
//! given a name here, one for each kind of member that the crate reads;
//! the rules of the crate are stated over those names.

use vstd::prelude::*;

verus! {

/// Whether `text` is a JSON document: whether
/// `serde_json::from_str::<Value>` accepts it.
pub uninterp spec fn json_is_document(text: Seq<char>) -> bool;

/// The member `key` of the JSON document `text` where that is a string:
/// what `serde_json::from_str::<Value>`, `Value::get` and `Value::as_str`
/// give in turn, and `None` where `text` is no JSON, no object, or has no
/// such member of that kind.
pub uninterp spec fn json_text_member(text: Seq<char>, key: Seq<char>) -> Option<Seq<char>>;

/// The member `key` of the JSON document `text` where that is a boolean:
/// as [`json_text_member`], with `Value::as_bool`.
pub uninterp spec fn json_flag_member(text: Seq<char>, key: Seq<char>) -> Option<bool>;

/// The member `key` of the JSON document `text` where that is an integer
/// that an `i64` holds: as [`json_text_member`], with `Value::as_i64`.
pub uninterp spec fn json_integer_member(text: Seq<char>, key: Seq<char>) -> Option<i64>;

/// Parses `text` with `serde_json::from_str::<Value>` and says whether
/// that succeeded.
#[verifier::external_body]
pub(crate) fn is_document(text: &str) -> (r: bool)
    ensures
        r == json_is_document(text@),
{
    serde_json::from_str::<serde_json::Value>(text).is_ok()
}

/// Parses `text` with `serde_json::from_str::<Value>`, looks `key` up with
/// `Value::get`, and reads the member with `Value::as_str`.
#[verifier::external_body]
pub(crate) fn text_member(text: &str, key: &str) -> (r: Option<String>)
    ensures
        match r {
            Some(s) => json_text_member(text@, key@) == Some(s@),
            None => json_text_member(text@, key@) is None,
        },
{
    let document: serde_json::Value = serde_json::from_str(text).ok()?;
    document.get(key)?.as_str().map(|s| s.to_string())
}

/// Parses `text` with `serde_json::from_str::<Value>`, looks `key` up with
/// `Value::get`, and reads the member with `Value::as_bool`.
#[verifier::external_body]
pub(crate) fn flag_member(text: &str, key: &str) -> (r: Option<bool>)
    ensures
        r == json_flag_member(text@, key@),
{
    let document: serde_json::Value = serde_json::from_str(text).ok()?;
    document.get(key)?.as_bool()
}

/// Parses `text` with `serde_json::from_str::<Value>`, looks `key` up with
/// `Value::get`, and reads the member with `Value::as_i64`.
#[verifier::external_body]
pub(crate) fn integer_member(text: &str, key: &str) -> (r: Option<i64>)
    ensures
        r == json_integer_member(text@, key@),
{
    let document: serde_json::Value = serde_json::from_str(text).ok()?;
    document.get(key)?.as_i64()
}

} // verus!
