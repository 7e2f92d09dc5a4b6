//! The JSON codec the operations rest on: `serde_json`, reached through a
//! handful of calls whose contracts are taken on trust.
//!
//! Two things are asked of the codec. A string is written as a JSON string
//! literal; the operations put the documents they send together from such
//! literals. And a body that came back is parsed into a document, in which
//! the operations look up unsigned integers by JSON pointer.

use vstd::pervasive::unreached;
use vstd::prelude::*;

verus! {

#[verifier::external_type_specification]
#[verifier::external_body]
pub struct ExDocument(serde_json::Value);

#[verifier::external_type_specification]
#[verifier::external_body]
pub struct ExCodecFailure(serde_json::Error);

/// The JSON string literal for `text`, as `serde_json::to_string` writes it:
/// the text between double quotes, with the characters that JSON does not
/// allow in a string escaped.
pub uninterp spec fn json_quoted(text: Seq<char>) -> Seq<char>;

/// What `serde_json::from_str` makes of `text`: `None` if it does not parse
/// as one JSON value, else the unsigned integers of the parsed document,
/// each under the JSON pointer that leads to it.
pub uninterp spec fn json_numbers(text: Seq<char>) -> Option<Map<Seq<char>, u64>>;

/// The unsigned integers that a parsed document holds, each under the JSON
/// pointer that leads to it. A pointer is in the map exactly if it leads to
/// a number of the document that is a non-negative integer within `u64`.
pub uninterp spec fn document_numbers(document: serde_json::Value) -> Map<Seq<char>, u64>;

/// The entry of `numbers` under `pointer`, if there is one.
pub open spec fn number_in(numbers: Map<Seq<char>, u64>, pointer: Seq<char>) -> Option<u64> {
    if numbers.contains_key(pointer) {
        Some(numbers[pointer])
    } else {
        None
    }
}

/// Calls `serde_json::to_string` on a string slice.
///
/// Trusted: the call succeeds (writing a string into memory has no way to
/// fail: the value is no map and its `Serialize` impl reports no error),
/// and its result is the literal that `json_quoted` names.
#[verifier::external_body]
fn to_json_string(text: &str) -> (r: Result<String, serde_json::Error>)
    ensures
        r is Ok,
        r matches Ok(literal) ==> literal@ == json_quoted(text@),
{
    serde_json::to_string(text)
}

/// Calls `serde_json::from_str` for a `serde_json::Value`.
///
/// Trusted: whether the call succeeds, and which unsigned integers the
/// document it returns holds, is what `json_numbers` names for the text.
#[verifier::external_body]
fn from_json_string(text: &str) -> (r: Result<serde_json::Value, serde_json::Error>)
    ensures
        match r {
            Ok(document) => json_numbers(text@) == Some(document_numbers(document)),
            Err(_) => json_numbers(text@) is None,
        },
{
    serde_json::from_str::<serde_json::Value>(text)
}

/// Calls `serde_json::Value::pointer`.
///
/// Trusted: the value returned is the one that `pointer` leads to, so it
/// is an unsigned integer exactly if the document holds one under
/// `pointer`, and then the same one; where `pointer` leads nowhere, the
/// document holds no number under it.
#[verifier::external_body]
fn value_at<'a>(document: &'a serde_json::Value, pointer: &str) -> (r: Option<&'a serde_json::Value>)
    ensures
        match r {
            Some(value) => number_in(document_numbers(*value), Seq::empty()) == number_in(
                document_numbers(*document),
                pointer@,
            ),
            None => number_in(document_numbers(*document), pointer@) is None,
        },
{
    document.pointer(pointer)
}

/// Calls `serde_json::Value::as_u64`.
///
/// Trusted: the result is the unsigned integer that the value itself is,
/// which is its entry under the empty pointer.
#[verifier::external_body]
fn value_as_u64(value: &serde_json::Value) -> (r: Option<u64>)
    ensures
        r == number_in(document_numbers(*value), Seq::empty()),
{
    value.as_u64()
}

/// A parsed JSON document.
pub struct Document {
    value: serde_json::Value,
}

impl Document {
    /// The unsigned integers of the document, by JSON pointer.
    pub closed spec fn numbers(&self) -> Map<Seq<char>, u64> {
        document_numbers(self.value)
    }

    /// Parses `text`. Fails with `None` exactly if `text` is not one JSON
    /// value.
    pub fn parse(text: &str) -> (r: Option<Document>)
        ensures
            match r {
                Some(document) => json_numbers(text@) == Some(document.numbers()),
                None => json_numbers(text@) is None,
            },
    {
        match from_json_string(text) {
            Ok(value) => Some(Document { value }),
            Err(_) => None,
        }
    }

    /// The unsigned integer under `pointer`, or `None` if `pointer` leads
    /// nowhere or to anything else.
    pub fn number_at(&self, pointer: &str) -> (r: Option<u64>)
        ensures
            r == number_in(self.numbers(), pointer@),
    {
        match value_at(&self.value, pointer) {
            Some(value) => value_as_u64(value),
            None => None,
        }
    }
}

/// `text` as a JSON string literal.
pub fn quote(text: &str) -> (literal: String)
    ensures
        literal@ == json_quoted(text@),
{
    match to_json_string(text) {
        Ok(literal) => literal,
        Err(_) => unreached(),
    }
}

} // verus!
