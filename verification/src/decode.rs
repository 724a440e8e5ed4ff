//! Decoding of inbound text frames from the recognition service.
//!
//! An inbound text frame is a JSON document of the shape
//! `{ channel: { alternatives: [{ transcript: string }] }, is_final: bool }`.
//! Parsing it is delegated to `serde_json`; the result of that decoding is a
//! pure function of the frame text and is given the name `decoded_result`.
//! Whitespace trimming is delegated to the standard library; its result is
//! named `trimmed`.

use vstd::prelude::*;

verus! {

/// What decoding an inbound text frame yields: `None` when the text is not
/// valid JSON or carries no transcript at the fixed logical path, otherwise
/// the transcript text and the value of the `is_final` field, absent or not.
pub uninterp spec fn decoded_result(text: Seq<char>) -> Option<(Seq<char>, Option<bool>)>;

/// A string with leading and trailing whitespace removed.
pub uninterp spec fn trimmed(text: Seq<char>) -> Seq<char>;

/// Relies on `serde_json::from_str` and `serde_json::Value::pointer`,
/// `as_str`, `get` and `as_bool`: together they decode the frame text into
/// the transcript at `/channel/alternatives/0/transcript` and the `is_final`
/// field, and depend on the text alone.
#[verifier::external_body]
pub(crate) fn decode_result_text(text: &str) -> (r: Option<(String, Option<bool>)>)
    ensures
        match r {
            Some(p) => decoded_result(text@) == Some((p.0@, p.1)),
            None => decoded_result(text@) is None,
        },
{
    let value: serde_json::Value = match serde_json::from_str(text) {
        Ok(v) => v,
        Err(_) => return None,
    };
    let transcript = match value.pointer("/channel/alternatives/0/transcript") {
        Some(t) => match t.as_str() {
            Some(s) => s.to_owned(),
            None => return None,
        },
        None => return None,
    };
    Some((transcript, value.get("is_final").and_then(|f| f.as_bool())))
}

/// Relies on `str::trim`: it removes leading and trailing whitespace and
/// depends on the characters alone.
#[verifier::external_body]
pub(crate) fn trim_text(text: &str) -> (r: &str)
    ensures
        r@ == trimmed(text@),
{
    text.trim()
}

} // verus!
