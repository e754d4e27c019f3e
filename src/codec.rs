//! Conversion between a JSON document and the text column that stores it.
use vstd::prelude::*;

verus! {

#[verifier::external_type_specification]
#[verifier::external_body]
pub struct ExValue(serde_json::Value);

#[verifier::external_type_specification]
#[verifier::external_body]
pub struct ExJsonError(serde_json::Error);

/// `s` is JSON text that serde_json accepts as a document.
pub uninterp spec fn is_json_text(s: Seq<char>) -> bool;

/// The compact JSON text of `v`.
pub uninterp spec fn json_text_of(v: serde_json::Value) -> Seq<char>;

/// Relies on serde_json::from_str::<Value>: it succeeds exactly on JSON text.
#[verifier::external_body]
fn parse_json(s: &str) -> (r: Result<serde_json::Value, serde_json::Error>)
    ensures
        r is Ok <==> is_json_text(s@),
{
    serde_json::from_str::<serde_json::Value>(s)
}

/// Relies on the `Display` impl of serde_json::Value: compact JSON text.
#[verifier::external_body]
fn render_json(v: &serde_json::Value) -> (r: String)
    ensures
        r@ == json_text_of(*v),
{
    v.to_string()
}

/// Stored text that is not a JSON document.
#[derive(Clone, Copy, Debug, PartialEq, Eq, Structural)]
pub enum CodecError {
    InvalidJson,
}

/// The text column value of a document.
pub fn encode(value: &serde_json::Value) -> (r: String)
    ensures
        r@ == json_text_of(*value),
{
    render_json(value)
}

/// Whether a text column value holds a document.
pub fn is_json(text: &str) -> (r: bool)
    ensures
        r == is_json_text(text@),
{
    decode(text).is_ok()
}

/// The document held in a text column value.
pub fn decode(text: &str) -> (r: Result<serde_json::Value, CodecError>)
    ensures
        r is Ok <==> is_json_text(text@),
{
    match parse_json(text) {
        Ok(v) => Ok(v),
        Err(_) => Err(CodecError::InvalidJson),
    }
}

} // verus!
