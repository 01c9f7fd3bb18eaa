//! The status answer: its frame payload is one length-prefixed string of
//! JSON text, exposed here unchanged.
use vstd::prelude::*;

verus! {

use crate::errors::McError;
use crate::mcstring::{MCString, str_fits, str_payload};
use crate::packet::{ClientboundRawPacket, InboundPacket};
use crate::packet_ids::STATUS_RESPONSE;
use crate::varint::{varint_ok, varint_malformed, varint_incomplete};
use vstd::utf8::valid_utf8;

/// The answer to a status query. It holds the JSON text exactly as the
/// frame carried it; making sense of the JSON belongs to the collaborator
/// behind [`crate::clientbound::json_response::JsonResponse`].
pub struct StatusResponse {
    pub json_string: MCString,
}

impl InboundPacket for StatusResponse {
    open spec fn id_spec(&self) -> i32 {
        STATUS_RESPONSE
    }

    open spec fn from_data_ens(packet: &ClientboundRawPacket, r: Result<Self, McError>) -> bool {
        let d = packet.data@;
        &&& varint_malformed(d) ==> r == Err::<StatusResponse, McError>(McError::MalformedVarInt)
        &&& varint_incomplete(d) ==> r == Err::<StatusResponse, McError>(McError::TruncatedFrame)
        &&& varint_ok(d) && !str_fits(d) ==> r == Err::<StatusResponse, McError>(
            McError::TruncatedString,
        )
        &&& varint_ok(d) && str_fits(d) && !valid_utf8(str_payload(d)) ==> r == Err::<
            StatusResponse,
            McError,
        >(McError::InvalidUtf8)
        &&& varint_ok(d) && str_fits(d) && valid_utf8(str_payload(d)) ==> (r matches Ok(sr)
            && sr.json_string.wf() && sr.json_string.spec_bytes() == str_payload(d))
    }

    fn from_data(packet: &ClientboundRawPacket) -> (r: Result<Self, McError>) {
        match MCString::from_bytes(packet.data.as_slice()) {
            Ok(m) => Ok(StatusResponse { json_string: m }),
            Err(e) => Err(e),
        }
    }

    fn packet_id(&self) -> (r: i32) {
        STATUS_RESPONSE
    }
}

} // verus!
