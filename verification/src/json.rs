//! JSON, as far as the RPC layer needs it: parsing a text, reading the
//! members of an object, writing a value back as text.
//!
//! All of it is done by `serde_json`. A parsed value is opaque here; what
//! the crate's functions return of it is named, so that contracts can be
//! exact about which value they mean without restating the JSON grammar.
//! The crate's error is handed on as its words.

use serde_json::Value;
use vstd::prelude::*;

verus! {

/// A parsed JSON value; carried through, and read only by the functions
/// below.
#[verifier::external_type_specification]
#[verifier::external_body]
pub struct ExValue(serde_json::Value);

/// The value that `text` spells, where it is JSON.
pub uninterp spec fn json_document(text: Seq<char>) -> Option<serde_json::Value>;

/// The member `key` of `value`, where `value` is an object that has one.
pub uninterp spec fn json_member(value: serde_json::Value, key: Seq<char>) -> Option<
    serde_json::Value,
>;

/// The text of `value`, where `value` is a string.
pub uninterp spec fn json_str(value: serde_json::Value) -> Option<Seq<char>>;

/// The number `value`, where `value` is an integer from 0 to 2^64 - 1.
pub uninterp spec fn json_u64(value: serde_json::Value) -> Option<u64>;

/// The compact JSON text of `value`, where it can be written.
pub uninterp spec fn json_text(value: serde_json::Value) -> Option<Seq<char>>;

/// The JSON string literal that spells `text`, where it can be written.
pub uninterp spec fn json_quoted(text: Seq<char>) -> Option<Seq<char>>;

/// `serde_json::from_str` at `Value`: parses a JSON text. Where the text
/// is not JSON, the words of the crate's error come back.
#[verifier::external_body]
pub(crate) fn parse(text: &str) -> (res: Result<Value, String>)
    ensures
        match res {
            Ok(v) => json_document(text@) == Some(v),
            Err(_) => json_document(text@) is None,
        },
{
    match serde_json::from_str(text) {
        Ok(value) => Ok(value),
        Err(e) => Err(e.to_string()),
    }
}

/// `serde_json::Value::get` with a string key: the member of an object.
#[verifier::external_body]
pub(crate) fn member<'a>(value: &'a Value, key: &str) -> (res: Option<&'a Value>)
    ensures
        match res {
            Some(v) => json_member(*value, key@) == Some(*v),
            None => json_member(*value, key@) is None,
        },
{
    value.get(key)
}

/// `serde_json::Value::as_str`: the text of a string value.
#[verifier::external_body]
pub(crate) fn as_str<'a>(value: &'a Value) -> (res: Option<&'a str>)
    ensures
        match res {
            Some(s) => json_str(*value) == Some(s@),
            None => json_str(*value) is None,
        },
{
    value.as_str()
}

/// `serde_json::Value::as_u64`: the number of a non-negative integer value.
#[verifier::external_body]
pub(crate) fn as_u64(value: &Value) -> (res: Option<u64>)
    ensures
        res == json_u64(*value),
{
    value.as_u64()
}

/// `serde_json::to_string` at `Value`: writes a value as compact JSON text.
/// Where it cannot be written, the words of the crate's error come back.
#[verifier::external_body]
pub(crate) fn render(value: &Value) -> (res: Result<String, String>)
    ensures
        match res {
            Ok(s) => json_text(*value) == Some(s@),
            Err(_) => json_text(*value) is None,
        },
{
    match serde_json::to_string(value) {
        Ok(text) => Ok(text),
        Err(e) => Err(e.to_string()),
    }
}

/// `serde_json::to_string` at `str`: writes a text as a JSON string
/// literal. Where it cannot be written, the words of the crate's error come
/// back.
#[verifier::external_body]
pub(crate) fn quote(text: &str) -> (res: Result<String, String>)
    ensures
        match res {
            Ok(s) => json_quoted(text@) == Some(s@),
            Err(_) => json_quoted(text@) is None,
        },
{
    match serde_json::to_string(text) {
        Ok(quoted) => Ok(quoted),
        Err(e) => Err(e.to_string()),
    }
}

} // verus!
