//! What is wrong with the value of a field, in the words of `serde`.
use crate::json::{Json, JsonView};
use crate::text::{joined, quote, quoted, signed, signed_text};
use vstd::prelude::*;

verus! {

/// A value where it was not expected.
pub open spec fn unexpected(value: JsonView) -> Seq<char> {
    match value {
        JsonView::Null => "null"@,
        JsonView::Bool(true) => "boolean `true`"@,
        JsonView::Bool(false) => "boolean `false`"@,
        JsonView::Integer(n) => "integer `"@ + signed(n) + "`"@,
        JsonView::Fraction(s) => "floating point `"@ + s + "`"@,
        JsonView::Text(s) => "string "@ + quoted(s),
        JsonView::Array => "sequence"@,
        JsonView::Object(_) => "map"@,
    }
}

fn unexpected_text(value: &Json) -> (text: String)
    ensures
        text@ == unexpected(value@),
{
    match value {
        Json::Null => "null".to_owned(),
        Json::Bool(true) => "boolean `true`".to_owned(),
        Json::Bool(false) => "boolean `false`".to_owned(),
        Json::Integer(n) => joined(joined("integer `", signed_text(*n).as_str()).as_str(), "`"),
        Json::Fraction(s) => joined(joined("floating point `", s.as_str()).as_str(), "`"),
        Json::Text(s) => joined("string ", quote(s.as_str()).as_str()),
        Json::Array => "sequence".to_owned(),
        Json::Object(_) => "map".to_owned(),
    }
}

/// A value of the wrong kind.
pub open spec fn wrong_type(value: JsonView, expected: Seq<char>) -> Seq<char> {
    "invalid type: "@ + unexpected(value) + ", expected "@ + expected
}

/// Describes a value of the wrong kind.
pub fn wrong_type_text(value: &Json, expected: &str) -> (text: String)
    ensures
        text@ == wrong_type(value@, expected@),
{
    let text = joined("invalid type: ", unexpected_text(value).as_str());
    let text = joined(text.as_str(), ", expected ");
    joined(text.as_str(), expected)
}

/// A value of the right kind that is out of range.
pub open spec fn wrong_value(value: JsonView, expected: Seq<char>) -> Seq<char> {
    "invalid value: "@ + unexpected(value) + ", expected "@ + expected
}

/// Describes a value of the right kind that is out of range.
pub fn wrong_value_text(value: &Json, expected: &str) -> (text: String)
    ensures
        text@ == wrong_value(value@, expected@),
{
    let text = joined("invalid value: ", unexpected_text(value).as_str());
    let text = joined(text.as_str(), ", expected ");
    joined(text.as_str(), expected)
}

/// What is wrong with a number that should be an integer of some type.
pub open spec fn wrong_number(value: JsonView, expected: Seq<char>) -> Seq<char> {
    if value is Integer {
        wrong_value(value, expected)
    } else {
        wrong_type(value, expected)
    }
}

/// Describes what is wrong with a number that should be an integer of some type.
pub fn wrong_number_text(value: &Json, expected: &str) -> (text: String)
    ensures
        text@ == wrong_number(value@, expected@),
{
    match value {
        Json::Integer(_) => wrong_value_text(value, expected),
        _ => wrong_type_text(value, expected),
    }
}

} // verus!
