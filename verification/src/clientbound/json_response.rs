//! The JSON body of a status answer. The codec reads the length-prefixed
//! text; interpreting it is delegated to the JSON collaborator, whose value
//! is carried opaquely.
use vstd::prelude::*;

verus! {

use crate::errors::McError;
use crate::mcstring::{MCString, str_fits, str_payload};
use crate::varint::{varint_ok, varint_malformed, varint_incomplete};
use vstd::utf8::valid_utf8;

#[verifier::external_type_specification]
#[verifier::external_body]
pub struct ExValue(serde_json::Value);

#[verifier::external_type_specification]
#[verifier::external_body]
pub struct ExJsonError(serde_json::Error);

/// Whether `bytes` form one JSON document that the JSON collaborator
/// accepts.
pub uninterp spec fn is_json(bytes: Seq<u8>) -> bool;

/// Relies on `serde_json::from_slice::<Value>`: parsing into the generic
/// `Value` succeeds exactly when the bytes hold one well-formed JSON
/// document, which is a function of the bytes alone.
#[verifier::external_body]
fn parse_json(bytes: &[u8]) -> (r: Result<serde_json::Value, serde_json::Error>)
    ensures
        r is Ok <==> is_json(bytes@),
{
    serde_json::from_slice(bytes)
}

/// A parsed status body: the structured value the JSON collaborator made of
/// the answer's text.
pub struct JsonResponse {
    data: serde_json::Value,
}

impl JsonResponse {
    /// The structured value held.
    pub closed spec fn spec_data(&self) -> serde_json::Value {
        self.data
    }

    /// Reads a length-prefixed string and hands its text to the JSON
    /// parser. The string codec's failures pass through unchanged; text the
    /// parser rejects is reported as `InvalidJson`.
    pub fn from_bytes(bytes: &[u8]) -> (r: Result<JsonResponse, McError>)
        ensures
            varint_malformed(bytes@) ==> r == Err::<JsonResponse, McError>(
                McError::MalformedVarInt,
            ),
            varint_incomplete(bytes@) ==> r == Err::<JsonResponse, McError>(
                McError::TruncatedFrame,
            ),
            varint_ok(bytes@) && !str_fits(bytes@) ==> r == Err::<JsonResponse, McError>(
                McError::TruncatedString,
            ),
            varint_ok(bytes@) && str_fits(bytes@) && !valid_utf8(str_payload(bytes@)) ==> r
                == Err::<JsonResponse, McError>(McError::InvalidUtf8),
            varint_ok(bytes@) && str_fits(bytes@) && valid_utf8(str_payload(bytes@)) && !is_json(
                str_payload(bytes@),
            ) ==> r == Err::<JsonResponse, McError>(McError::InvalidJson),
            varint_ok(bytes@) && str_fits(bytes@) && valid_utf8(str_payload(bytes@)) && is_json(
                str_payload(bytes@),
            ) ==> r is Ok,
    {
        let text = match MCString::from_bytes(bytes) {
            Ok(m) => m,
            Err(e) => {
                return Err(e);
            },
        };
        match parse_json(text.bytes().as_slice()) {
            Ok(value) => Ok(JsonResponse { data: value }),
            Err(_) => Err(McError::InvalidJson),
        }
    }

    /// The structured JSON value of the answer.
    pub fn data(&self) -> (r: &serde_json::Value)
        ensures
            r == self.spec_data(),
    {
        &self.data
    }
}

} // verus!
