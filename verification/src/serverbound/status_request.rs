//! The status request: an empty payload under id zero, sent after a
//! handshake whose next phase is the status query.
use vstd::prelude::*;

verus! {

use crate::packet::OutboundPacket;
use crate::packet_ids::STATUS_REQUEST;

/// The status query packet. It carries nothing: the preceding handshake
/// already told the server what is wanted.
pub struct StatusRequest;

impl OutboundPacket for StatusRequest {
    open spec fn inv(&self) -> bool {
        true
    }

    open spec fn id_spec(&self) -> i32 {
        STATUS_REQUEST
    }

    open spec fn payload_spec(&self) -> Seq<u8> {
        Seq::<u8>::empty()
    }

    fn to_bytes(&self) -> (r: Vec<u8>) {
        Vec::new()
    }

    fn packet_id(&self) -> (r: i32) {
        STATUS_REQUEST
    }
}

} // verus!
