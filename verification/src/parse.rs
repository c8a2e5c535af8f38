//! Reading JSON text into a [`Json`] tree. The parsing itself is serde_json's.

use vstd::prelude::*;
use crate::json::Json;
use crate::json::JsonModel;
use crate::json::JsonNumber;

verus! {

/// `serde_json::Value`, carried through as an opaque value.
#[verifier::external_type_specification]
#[verifier::external_body]
pub struct ExValue(serde_json::Value);

/// `serde_json::Number`, carried through as an opaque value.
#[verifier::external_type_specification]
#[verifier::external_body]
pub struct ExNumber(serde_json::Number);

/// `serde_json::Error`, carried through as an opaque value.
#[verifier::external_type_specification]
#[verifier::external_body]
pub struct ExError(serde_json::Error);

/// The document that serde_json reads from `text`, or nothing where it
/// rejects the text.
pub uninterp spec fn parsed_document(text: Seq<char>) -> Option<JsonModel>;

/// Carries a `serde_json::Number` over: an integer (`as_i128` gives one) by
/// its value, any other number by the literal that serde_json prints for it.
#[verifier::external_body]
fn number_from_serde(n: &serde_json::Number) -> JsonNumber {
    match n.as_i128() {
        Some(v) => JsonNumber::Integer(v),
        None => JsonNumber::Real(n.to_string()),
    }
}

/// Carries a `serde_json::Value` over, variant by variant; the members of an
/// object come in the order in which its map hands them out.
#[verifier::external_body]
fn json_from_serde(v: &serde_json::Value) -> Json {
    match v {
        serde_json::Value::Null => Json::Null,
        serde_json::Value::Bool(b) => Json::Bool(*b),
        serde_json::Value::Number(n) => Json::Number(number_from_serde(n)),
        serde_json::Value::String(s) => Json::String(s.clone()),
        serde_json::Value::Array(a) => Json::Array(a.iter().map(json_from_serde).collect()),
        serde_json::Value::Object(m) => Json::Object(
            m.iter().map(|(k, x)| (k.clone(), json_from_serde(x))).collect(),
        ),
    }
}

/// `serde_json::from_str` at type `serde_json::Value`. The result depends on
/// the text alone, so it is named: `Ok` holds the document that
/// `parsed_document` names, and an error comes exactly where there is none.
/// serde_json keeps the members of an object in a map keyed by name, so no
/// object of the result names a member twice.
#[verifier::external_body]
fn parse_with_serde(text: &str) -> (r: Result<Json, serde_json::Error>)
    ensures
        match r {
            Ok(doc) => parsed_document(text@) == Some(doc@) && doc@.well_formed(),
            Err(_) => parsed_document(text@) is None,
        },
{
    match serde_json::from_str::<serde_json::Value>(text) {
        Ok(v) => Ok(json_from_serde(&v)),
        Err(e) => Err(e),
    }
}

/// Why a text is not a JSON document, in serde_json's words.
#[derive(Debug, PartialEq, Eq)]
pub struct ParseError {
    pub message: String,
}

/// Parses `text` as one JSON document.
pub fn parse_document(text: &str) -> (r: Result<Json, ParseError>)
    ensures
        match r {
            Ok(doc) => parsed_document(text@) == Some(doc@) && doc@.well_formed(),
            Err(_) => parsed_document(text@) is None,
        },
{
    match parse_with_serde(text) {
        Ok(doc) => Ok(doc),
        Err(e) => Err(ParseError { message: e.to_string() }),
    }
}

} // verus!
