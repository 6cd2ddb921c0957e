//! Decoding of the device's answers: every answer is a JSON array of exactly
//! one object, and the value sits under `Message.Value` of that object.

use crate::json::{json_document, parse_json, Json, JsonTree};
use vstd::prelude::*;
use vstd::string::*;

verus! {

/// Why an answer of the device could not be decoded.
#[derive(Debug, Clone, Copy, PartialEq, Eq, Structural)]
pub enum DecodeError {
    /// The answer is not wrapped in `[` and `]`.
    NotWrapped,
    /// What stands between the brackets is not one JSON document.
    Malformed,
    /// The document lacks `Message.Value`, or holds another kind of value
    /// there than the property has.
    UnexpectedShape,
}

impl DecodeError {
    /// A sentence for logs and for the user.
    pub fn message(&self) -> (text: &'static str)
        ensures
            text@ == match *self {
                DecodeError::NotWrapped => "device response is not a one-element array"@,
                DecodeError::Malformed => "device response is not valid JSON"@,
                DecodeError::UnexpectedShape => "device response has an unexpected shape"@,
            },
    {
        match self {
            DecodeError::NotWrapped => "device response is not a one-element array",
            DecodeError::Malformed => "device response is not valid JSON",
            DecodeError::UnexpectedShape => "device response has an unexpected shape",
        }
    }
}

/// What stands between the brackets of `response`; `None` unless `response`
/// begins with `[` and ends with `]`.
pub open spec fn payload(response: Seq<char>) -> Option<Seq<char>> {
    if response.len() >= 2 && response.first() == '[' && response.last() == ']' {
        Some(response.subrange(1, response.len() - 1))
    } else {
        None
    }
}

/// The document that `response` wraps.
pub open spec fn document_of(response: Seq<char>) -> Result<JsonTree, DecodeError> {
    match payload(response) {
        None => Err(DecodeError::NotWrapped),
        Some(inner) => match json_document(inner) {
            None => Err(DecodeError::Malformed),
            Some(doc) => Ok(doc),
        },
    }
}

/// What `doc` holds under `Message.Value`.
pub open spec fn value_of(doc: JsonTree) -> Option<JsonTree> {
    match doc.member("Message"@) {
        Some(message) => message.member("Value"@),
        None => None,
    }
}

/// The text that `doc` holds under `Message.Value`.
pub open spec fn scalar_of(doc: JsonTree) -> Option<Seq<char>> {
    match value_of(doc) {
        Some(value) => value.text(),
        None => None,
    }
}

/// The scalar property value that `response` carries.
pub open spec fn decoded_scalar(response: Seq<char>) -> Result<Seq<char>, DecodeError> {
    match document_of(response) {
        Err(e) => Err(e),
        Ok(doc) => match scalar_of(doc) {
            None => Err(DecodeError::UnexpectedShape),
            Some(text) => Ok(text),
        },
    }
}

/// Strips the brackets that surround every answer of the device.
pub fn strip_brackets(response: &str) -> (inner: Option<&str>)
    ensures
        inner is Some <==> payload(response@) is Some,
        inner is Some ==> inner->0@ == payload(response@)->0,
{
    let n = response.unicode_len();
    if n < 2 {
        return None;
    }
    if response.get_char(0) != '[' || response.get_char(n - 1) != ']' {
        return None;
    }
    Some(response.substring_char(1, n - 1))
}

/// The document that `response` wraps.
pub fn device_document(response: &str) -> (doc: Result<Json, DecodeError>)
    ensures
        doc is Ok <==> document_of(response@) is Ok,
        doc is Ok ==> doc->Ok_0@ == document_of(response@)->Ok_0,
        doc is Err ==> doc->Err_0 == document_of(response@)->Err_0,
{
    match strip_brackets(response) {
        None => Err(DecodeError::NotWrapped),
        Some(inner) => match parse_json(inner) {
            None => Err(DecodeError::Malformed),
            Some(doc) => Ok(doc),
        },
    }
}

/// What `doc` holds under `Message.Value`.
pub fn message_value(doc: &Json) -> (value: Option<&Json>)
    ensures
        value is Some <==> value_of(doc@) is Some,
        value is Some ==> value->0@ == value_of(doc@)->0,
{
    match doc.member("Message") {
        Some(message) => message.member("Value"),
        None => None,
    }
}

/// The text that `doc` holds under `Message.Value`.
pub fn scalar_value(doc: &Json) -> (text: Option<String>)
    ensures
        text is Some <==> scalar_of(doc@) is Some,
        text is Some ==> text->0@ == scalar_of(doc@)->0,
{
    match message_value(doc) {
        Some(value) => match value.as_text() {
            Some(text) => Some(text.to_owned()),
            None => None,
        },
        None => None,
    }
}

/// Decodes the answer to a request for a scalar property.
pub fn decode_scalar(response: &str) -> (value: Result<String, DecodeError>)
    ensures
        value is Ok <==> decoded_scalar(response@) is Ok,
        value is Ok ==> value->Ok_0@ == decoded_scalar(response@)->Ok_0,
        value is Err ==> value->Err_0 == decoded_scalar(response@)->Err_0,
{
    match device_document(response) {
        Err(e) => Err(e),
        Ok(doc) => match scalar_value(&doc) {
            None => Err(DecodeError::UnexpectedShape),
            Some(text) => Ok(text),
        },
    }
}

} // verus!
