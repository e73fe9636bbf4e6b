//! JSON values, which are carried and not looked into.

use vstd::prelude::*;

verus! {

#[verifier::external_type_specification]
#[verifier::external_body]
pub struct ExValue(serde_json::Value);

/// `clone` of a `serde_json::Value` is the same value.
pub assume_specification[ <serde_json::Value as Clone>::clone ](value: &serde_json::Value) -> (res:
    serde_json::Value)
    ensures
        res == *value,
;

/// The JSON value that `text` spells, or the `Display` text of the error with which
/// `serde_json::from_str` refuses it.
pub uninterp spec fn json_value(text: Seq<char>) -> Result<serde_json::Value, Seq<char>>;

/// Whether `text` spells `value`.
pub open spec fn spells(text: Seq<char>, value: serde_json::Value) -> bool {
    json_value(text) matches Ok(read) && read == value
}

/// `serde_json::from_str` reads a text as one JSON value. The error is handed on as its text.
#[verifier::external_body]
pub(crate) fn parse_json(text: &str) -> (res: Result<serde_json::Value, String>)
    ensures
        match res {
            Ok(value) => spells(text@, value),
            Err(fault) => json_value(text@) matches Err(reason) && fault@ == reason,
        },
{
    match serde_json::from_str(text) {
        Ok(value) => Ok(value),
        Err(error) => Err(error.to_string()),
    }
}

/// `serde_json::Value::Null` is the value that the text `null` spells.
#[verifier::external_body]
pub(crate) fn json_null() -> (res: serde_json::Value)
    ensures
        spells("null"@, res),
{
    serde_json::Value::Null
}

} // verus!
