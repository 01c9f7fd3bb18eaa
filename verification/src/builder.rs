//! A fluent byte-buffer assembler for outbound packet payloads. It knows the
//! wire form of each primitive and nothing of packet semantics.
use vstd::prelude::*;

verus! {

use crate::mcstring::{MCString, string_wire};
use crate::mctypes::{MCType, McUuid, push_all, spec_u16_be, spec_u64_be, u64_be_bytes, uuid_wire};
use crate::varint::VarInt;

/// Accumulates the bytes of one packet payload, in caller-chosen order.
/// Purely functional growth: the buffer only ever gains bytes, and is handed
/// to the caller whole by [`PacketBytesBuilder::build`].
pub struct PacketBytesBuilder {
    byte_buffer: Vec<u8>,
}

impl PacketBytesBuilder {
    /// The bytes appended so far.
    pub closed spec fn spec_buffer(&self) -> Seq<u8> {
        self.byte_buffer@
    }

    /// Starts a builder with an empty buffer.
    pub fn new() -> (r: PacketBytesBuilder)
        ensures
            r.spec_buffer() == Seq::<u8>::empty(),
    {
        PacketBytesBuilder { byte_buffer: Vec::new() }
    }

    /// Appends a UUID as two big-endian 64-bit halves, high half first.
    pub fn append_uuid(self, uuid: &McUuid) -> (r: Self)
        ensures
            r.spec_buffer() == self.spec_buffer() + uuid_wire(*uuid),
    {
        let mut buffer = self.byte_buffer;
        let high = u64_be_bytes(uuid.high);
        let low = u64_be_bytes(uuid.low);
        push_all(&mut buffer, high.as_slice());
        push_all(&mut buffer, low.as_slice());
        PacketBytesBuilder { byte_buffer: buffer }
    }

    /// Appends a string in its wire form: VarInt byte count, then content.
    pub fn append_string(self, s: &MCString) -> (r: Self)
        requires
            s.wf(),
        ensures
            r.spec_buffer() == self.spec_buffer() + string_wire(s.spec_bytes()),
    {
        let mut buffer = self.byte_buffer;
        let encoded = s.to_bytes();
        push_all(&mut buffer, encoded.as_slice());
        PacketBytesBuilder { byte_buffer: buffer }
    }

    /// Appends a bool as one byte: 1 for true, 0 for false.
    pub fn append_bool(self, value: bool) -> (r: Self)
        ensures
            r.spec_buffer() == self.spec_buffer().push(
                if value {
                    1u8
                } else {
                    0u8
                },
            ),
    {
        let mut buffer = self.byte_buffer;
        buffer.push(if value { 1 } else { 0 });
        PacketBytesBuilder { byte_buffer: buffer }
    }

    /// Appends the held bytes of a VarInt.
    pub fn append_varint(self, value: &VarInt) -> (r: Self)
        ensures
            r.spec_buffer() == self.spec_buffer() + value.spec_bytes(),
    {
        let mut buffer = self.byte_buffer;
        push_all(&mut buffer, value.bytes());
        PacketBytesBuilder { byte_buffer: buffer }
    }

    /// Appends a `u16` as two big-endian bytes.
    pub fn append_u16(self, value: u16) -> (r: Self)
        ensures
            r.spec_buffer() == self.spec_buffer() + spec_u16_be(value),
    {
        let mut buffer = self.byte_buffer;
        buffer.push(#[verifier::truncate] ((value >> 8) as u8));
        buffer.push(#[verifier::truncate] (value as u8));
        proof {
            assert(buffer@ =~= self.spec_buffer() + spec_u16_be(value));
        }
        PacketBytesBuilder { byte_buffer: buffer }
    }

    /// Appends raw bytes unchanged.
    pub fn append_bytes(self, bytes: &[u8]) -> (r: Self)
        ensures
            r.spec_buffer() == self.spec_buffer() + bytes@,
    {
        let mut buffer = self.byte_buffer;
        push_all(&mut buffer, bytes);
        PacketBytesBuilder { byte_buffer: buffer }
    }

    /// Hands the assembled bytes to the caller, leaving the builder spent:
    /// its buffer is moved out, not copied, and resets to empty.
    pub fn build(&mut self) -> (r: Vec<u8>)
        ensures
            r@ == old(self).spec_buffer(),
            final (self).spec_buffer() == Seq::<u8>::empty(),
    {
        let mut out: Vec<u8> = Vec::new();
        core::mem::swap(&mut out, &mut self.byte_buffer);
        out
    }
}

} // verus!
