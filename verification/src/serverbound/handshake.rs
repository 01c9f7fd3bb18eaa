//! The handshake: the first packet on any connection, naming the protocol
//! version, the target address and port, and the phase to enter next.
use vstd::prelude::*;

verus! {

use crate::builder::PacketBytesBuilder;
use crate::mcstring::{MCString, string_wire};
use crate::mctypes::spec_u16_be;
use crate::packet::OutboundPacket;
use crate::packet_ids::HANDSHAKE_PACKET_ID;
use crate::varint::{VarInt, varint_bytes, lemma_varint_bytes_len};

/// The phase a handshake asks the server to enter: a status query or a
/// login. Each intent begins with a fresh handshake naming its phase.
#[allow(non_camel_case_types)]
#[derive(Clone, Copy, Debug, PartialEq, Eq, Structural)]
pub enum NextState {
    STATUS,
    LOGIN,
}

impl NextState {
    /// The wire number of this phase: 1 for status, 2 for login.
    pub open spec fn spec_value(self) -> i32 {
        match self {
            NextState::STATUS => 1,
            NextState::LOGIN => 2,
        }
    }

    /// The wire number of this phase.
    pub fn value(self) -> (r: i32)
        ensures
            r == self.spec_value(),
    {
        match self {
            NextState::STATUS => 1,
            NextState::LOGIN => 2,
        }
    }
}

/// The handshake packet. Its payload is the protocol version, the server
/// address as a length-prefixed string, the port big-endian, and the next
/// phase, in that order, under id zero.
pub struct Handshake {
    pub protocol_version: VarInt,
    pub server_addr: MCString,
    pub port: u16,
    pub next_state: NextState,
}

/// The handshake payload layout: version descriptor, address string,
/// big-endian port, phase descriptor.
pub open spec fn handshake_payload(pv: u32, addr: Seq<u8>, port: u16, ns: i32) -> Seq<u8> {
    varint_bytes(pv) + string_wire(addr) + spec_u16_be(port) + varint_bytes(ns as u32)
}

impl Handshake {
    /// The payload spans the address bytes and at most 17 bytes of
    /// descriptors around them.
    pub proof fn lemma_payload_len(&self)
        requires
            self.inv(),
        ensures
            self.payload_spec().len() <= 17 + self.server_addr.spec_bytes().len(),
    {
        lemma_varint_bytes_len(self.protocol_version.spec_value());
        lemma_varint_bytes_len(self.server_addr.spec_bytes().len() as u32);
        lemma_varint_bytes_len(self.next_state.spec_value() as u32);
    }
}

impl OutboundPacket for Handshake {
    open spec fn inv(&self) -> bool {
        self.protocol_version.wf() && self.server_addr.wf()
    }

    open spec fn id_spec(&self) -> i32 {
        HANDSHAKE_PACKET_ID
    }

    open spec fn payload_spec(&self) -> Seq<u8> {
        handshake_payload(
            self.protocol_version.spec_value(),
            self.server_addr.spec_bytes(),
            self.port,
            self.next_state.spec_value(),
        )
    }

    fn to_bytes(&self) -> (r: Vec<u8>) {
        proof {
            self.protocol_version.lemma_wf_len();
        }
        let next_state = VarInt::from_i32(self.next_state.value());
        let mut builder = PacketBytesBuilder::new().append_varint(&self.protocol_version)
            .append_string(&self.server_addr)
            .append_u16(self.port)
            .append_varint(&next_state);
        let out = builder.build();
        proof {
            assert(out@ =~= self.payload_spec());
        }
        out
    }

    fn packet_id(&self) -> (r: i32) {
        HANDSHAKE_PACKET_ID
    }
}

} // verus!
