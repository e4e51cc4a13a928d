//! JSON documents, as texts.
//!
//! What a document holds is computed by `serde_json`; here it has only names.

use vstd::prelude::*;

use crate::text::{optional, text_result};

verus! {

/// The text of the member `key` of a document, or why the text is not a
/// document.
pub uninterp spec fn member_text(document: Seq<char>, key: Seq<char>) -> Result<
    Option<Seq<char>>,
    Seq<char>,
>;

/// The text that a document stands for, where it is a string.
pub uninterp spec fn string_value(document: Seq<char>) -> Option<Seq<char>>;

/// A document in lines, or why the text is not a document.
pub uninterp spec fn pretty_text(document: Seq<char>) -> Result<Seq<char>, Seq<char>>;

/// A text that may be missing, or the words of a failure, as sequences of
/// characters.
pub open spec fn optional_result(r: Result<Option<String>, String>) -> Result<
    Option<Seq<char>>,
    Seq<char>,
> {
    match r {
        Ok(Some(text)) => Ok(Some(text@)),
        Ok(None) => Ok(None),
        Err(reason) => Err(reason@),
    }
}

/// `serde_json::Value::get`, on a document that `serde_json::from_str` reads:
/// the member as compact JSON, nothing where there is no such member, or the
/// words of the error where the text cannot be read. What is claimed is that
/// the text and the key determine the result.
#[verifier::external_body]
pub(crate) fn json_member(document: &str, key: &str) -> (r: Result<Option<String>, String>)
    ensures
        optional_result(r) == member_text(document@, key@),
{
    match serde_json::from_str::<serde_json::Value>(document) {
        Ok(value) => Ok(value.get(key).map(|member| member.to_string())),
        Err(error) => Err(error.to_string()),
    }
}

/// `serde_json::Value::as_str`, on a document that `serde_json::from_str`
/// reads: the string, or nothing where the document is no string or the text
/// cannot be read. What is claimed is that the text determines the result.
#[verifier::external_body]
pub(crate) fn json_string(document: &str) -> (r: Option<String>)
    ensures
        optional(r) == string_value(document@),
{
    match serde_json::from_str::<serde_json::Value>(document) {
        Ok(value) => value.as_str().map(|text| text.to_string()),
        Err(_) => None,
    }
}

/// `serde_json::to_string_pretty`, on a document that `serde_json::from_str`
/// reads: the document in lines, or the words of the error. What is claimed is
/// that the text determines the result.
#[verifier::external_body]
pub(crate) fn json_pretty(document: &str) -> (r: Result<String, String>)
    ensures
        text_result(r) == pretty_text(document@),
{
    match serde_json::from_str::<serde_json::Value>(document) {
        Ok(value) => serde_json::to_string_pretty(&value).map_err(|error| error.to_string()),
        Err(error) => Err(error.to_string()),
    }
}

} // verus!
