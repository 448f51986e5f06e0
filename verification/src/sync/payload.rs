//! Reading the payload of a change record.
//!
//! A payload is the text of a JSON object in the legacy format. The engine
//! reads single text members out of it and never looks at anything else.

use vstd::prelude::*;

verus! {

/// The text of the member `key` of the JSON object that `text` encodes.
///
/// It is `None` when `text` is no JSON document, when the document is no
/// object, when the object has no member `key`, and when that member is no
/// string.
pub uninterp spec fn json_text_member(text: Seq<char>, key: Seq<char>) -> Option<Seq<char>>;

/// Reads the text member `key` out of the JSON object `text`.
///
/// Trusted: the body parses `text` with `serde_json::from_str` into a
/// `serde_json::Value`, takes the member with `Value::get` and its text with
/// `Value::as_str`. The contract only gives that result its name; it claims
/// that the same text and key always give the same result, and nothing of
/// what the result is.
#[verifier::external_body]
pub(crate) fn read_text_member(text: &str, key: &str) -> (member: Option<String>)
    ensures
        match member {
            Some(s) => json_text_member(text@, key@) == Some(s@),
            None => json_text_member(text@, key@) is None,
        },
{
    let document: serde_json::Value = serde_json::from_str(text).ok()?;
    let member: &str = document.get(key)?.as_str()?;
    Some(member.to_owned())
}

} // verus!
