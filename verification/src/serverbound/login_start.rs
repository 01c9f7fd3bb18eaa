//! The login start request: the player's name and, optionally, their UUID.
use vstd::prelude::*;

verus! {

use crate::builder::PacketBytesBuilder;
use crate::mcstring::{MCString, string_wire};
use crate::mctypes::{McUuid, uuid_wire};
use crate::packet::OutboundPacket;
use crate::packet_ids::LOGIN_START;

/// The login start packet. Its payload is the username as a length-prefixed
/// string, one byte saying whether a UUID follows, and the sixteen UUID
/// bytes when one does.
pub struct LoginStart {
    pub username: MCString,
    pub uuid: Option<McUuid>,
}

/// The login start payload layout: name string, presence byte, optional
/// UUID bytes.
pub open spec fn login_start_payload(name: Seq<u8>, uuid: Option<McUuid>) -> Seq<u8> {
    match uuid {
        Some(u) => string_wire(name).push(1u8) + uuid_wire(u),
        None => string_wire(name).push(0u8),
    }
}

impl OutboundPacket for LoginStart {
    open spec fn inv(&self) -> bool {
        self.username.wf()
    }

    open spec fn id_spec(&self) -> i32 {
        LOGIN_START
    }

    open spec fn payload_spec(&self) -> Seq<u8> {
        login_start_payload(self.username.spec_bytes(), self.uuid)
    }

    fn to_bytes(&self) -> (r: Vec<u8>) {
        let mut builder = PacketBytesBuilder::new().append_string(&self.username).append_bool(
            self.uuid.is_some(),
        );
        match &self.uuid {
            Some(u) => {
                builder = builder.append_uuid(u);
            },
            None => {
            },
        }
        let out = builder.build();
        proof {
            assert(out@ =~= self.payload_spec());
        }
        out
    }

    fn packet_id(&self) -> (r: i32) {
        LOGIN_START
    }
}

} // verus!
