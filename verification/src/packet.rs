//! The packet frame: the wire envelope `Length(VarInt) | PacketID(VarInt) |
//! Payload`, where the length field counts the id bytes and the payload but
//! not itself; and the two views of it, serialized for sending and parsed
//! from received bytes.
use vstd::prelude::*;

verus! {

use crate::builder::PacketBytesBuilder;
use crate::errors::McError;
use crate::varint::{
    VarInt, from_varint_bytes, varint_bytes, varint_ok, varint_malformed, varint_incomplete,
    varint_consumed, varint_value_u32, varint_value_i32, lemma_scan_props,
};
use vstd::slice::{slice_to_vec, slice_subrange};

/// A payload this long always leaves room for a 5-byte packet id beside it
/// in the frame's `i32` length field.
pub const MAX_PAYLOAD_BYTES: usize = 0x7FFF_FFF0;

/// The full wire frame for a packet: the length field (id bytes plus payload
/// bytes, not itself), then the id, then the payload.
pub open spec fn frame_bytes(id: u32, payload: Seq<u8>) -> Seq<u8>
    recommends
        varint_bytes(id).len() + payload.len() <= 0x7FFF_FFFF,
{
    varint_bytes((varint_bytes(id).len() + payload.len()) as u32) + varint_bytes(id) + payload
}

/// The declared frame length at the front of `buf`, read unsigned.
pub open spec fn frame_declared(buf: Seq<u8>) -> u32
    recommends
        varint_ok(buf),
{
    varint_value_u32(buf)
}

/// The length descriptor parses and declares a non-negative `i32` count.
pub open spec fn frame_len_valid(buf: Seq<u8>) -> bool {
    varint_ok(buf) && frame_declared(buf) <= 0x7FFF_FFFF
}

/// How many leading bytes of `buf` one whole frame occupies: the length
/// descriptor's own bytes plus the count it declares.
pub open spec fn frame_total(buf: Seq<u8>) -> int
    recommends
        varint_ok(buf),
{
    varint_consumed(buf) + frame_declared(buf)
}

/// A whole frame stands at the front of `buf`.
pub open spec fn frame_ready(buf: Seq<u8>) -> bool {
    frame_len_valid(buf) && buf.len() >= frame_total(buf)
}

/// The declared span after the length descriptor: packet id, then payload.
pub open spec fn frame_body(buf: Seq<u8>) -> Seq<u8>
    recommends
        frame_ready(buf),
{
    buf.subrange(varint_consumed(buf), frame_total(buf))
}

/// The packet id declared by the frame at the front of `buf`.
pub open spec fn frame_id(buf: Seq<u8>) -> i32
    recommends
        frame_ready(buf),
        varint_ok(frame_body(buf)),
{
    varint_value_i32(frame_body(buf))
}

/// The payload of the frame at the front of `buf`: its body with the id
/// bytes gone.
pub open spec fn frame_payload(buf: Seq<u8>) -> Seq<u8>
    recommends
        frame_ready(buf),
        varint_ok(frame_body(buf)),
{
    frame_body(buf).skip(varint_consumed(frame_body(buf)))
}

/// What remains of `buf` past the first frame: the next frame's bytes, to be
/// retained, never discarded.
pub open spec fn frame_rest(buf: Seq<u8>) -> Seq<u8>
    recommends
        frame_ready(buf),
{
    buf.skip(frame_total(buf))
}

/// A serialized frame parses back to itself: its length field spans the id
/// and payload exactly, the id and payload come out unchanged, and every
/// byte after the frame is left as remainder.
pub proof fn lemma_frame_round_trip(id: u32, payload: Seq<u8>, rest: Seq<u8>)
    requires
        varint_bytes(id).len() + payload.len() <= 0x7FFF_FFFF,
    ensures
        ({
            let buf = frame_bytes(id, payload) + rest;
            &&& frame_ready(buf)
            &&& varint_ok(frame_body(buf))
            &&& varint_value_i32(buf) == varint_bytes(id).len() + payload.len()
            &&& frame_id(buf) == id as i32
            &&& frame_payload(buf) == payload
            &&& frame_rest(buf) == rest
        }),
{
    let idbytes = varint_bytes(id);
    let l: u32 = (idbytes.len() + payload.len()) as u32;
    let lenbytes = varint_bytes(l);
    let buf = frame_bytes(id, payload) + rest;
    crate::varint::lemma_varint_round_trip(l);
    crate::varint::lemma_varint_round_trip(id);
    assert(buf =~= lenbytes + (idbytes + payload + rest));
    crate::varint::lemma_varint_prefix_stable(lenbytes, idbytes + payload + rest);
    assert(varint_consumed(buf) == lenbytes.len());
    assert(frame_declared(buf) == l);
    assert(frame_total(buf) == lenbytes.len() + l);
    assert(buf.len() == lenbytes.len() + l + rest.len());
    assert(frame_body(buf) =~= idbytes + payload);
    crate::varint::lemma_varint_prefix_stable(idbytes, payload);
    assert(varint_consumed(idbytes + payload) == idbytes.len());
    assert(varint_value_u32(frame_body(buf)) == id);
    assert(frame_payload(buf) =~= payload);
    assert(frame_rest(buf) =~= rest);
    let u = varint_value_u32(buf);
    assert((u as i32) == u) by (bit_vector)
        requires
            u <= 0x7FFF_FFFFu32,
    ;
    let iu = varint_value_u32(frame_body(buf));
    assert((iu as i32) == (id as i32)) by (bit_vector)
        requires
            iu == id,
    ;
}

/// Pipelining: two frames concatenated and delivered as one read parse as
/// the first frame followed exactly by the second, with no byte lost or
/// duplicated.
pub proof fn lemma_pipelining(id1: u32, p1: Seq<u8>, id2: u32, p2: Seq<u8>)
    requires
        varint_bytes(id1).len() + p1.len() <= 0x7FFF_FFFF,
        varint_bytes(id2).len() + p2.len() <= 0x7FFF_FFFF,
    ensures
        ({
            let second = frame_bytes(id2, p2);
            let both = frame_bytes(id1, p1) + second;
            &&& frame_ready(both)
            &&& varint_ok(frame_body(both))
            &&& frame_id(both) == id1 as i32
            &&& frame_payload(both) == p1
            &&& frame_rest(both) == second
            &&& frame_ready(second)
            &&& varint_ok(frame_body(second))
            &&& frame_id(second) == id2 as i32
            &&& frame_payload(second) == p2
            &&& frame_rest(second) == Seq::<u8>::empty()
        }),
{
    let second = frame_bytes(id2, p2);
    lemma_frame_round_trip(id1, p1, second);
    lemma_frame_round_trip(id2, p2, Seq::<u8>::empty());
    assert(second + Seq::<u8>::empty() =~= second);
}

/// A serverbound packet: a value that can serialize its payload and names
/// its protocol id. Implementations must produce wire-compliant payloads;
/// the contract ties each to its declared `payload_spec`.
pub trait OutboundPacket: Sized {
    /// The packet's internal invariant.
    spec fn inv(&self) -> bool;

    /// The id this packet goes out under.
    spec fn id_spec(&self) -> i32;

    /// The payload bytes this packet serializes to.
    spec fn payload_spec(&self) -> Seq<u8>;

    /// Serializes the packet's fields into its payload bytes.
    fn to_bytes(&self) -> (r: Vec<u8>)
        requires
            self.inv(),
        ensures
            r@ == self.payload_spec(),
    ;

    /// The id of this packet; a compile-time constant per variant.
    fn packet_id(&self) -> (r: i32)
        ensures
            r == self.id_spec(),
    ;
}

/// A clientbound packet: a value parsed out of a raw frame whose id matches.
/// Each implementation pins `from_data` down through `from_data_ens`.
pub trait InboundPacket: Sized {
    /// The id this packet type answers to.
    spec fn id_spec(&self) -> i32;

    /// Exactly what deserializing `packet` into this type returns.
    spec fn from_data_ens(packet: &ClientboundRawPacket, r: Result<Self, McError>) -> bool;

    /// Attempts to deserialize the given raw frame into this packet type.
    fn from_data(packet: &ClientboundRawPacket) -> (r: Result<Self, McError>)
        ensures
            Self::from_data_ens(packet, r),
    ;

    /// The id of this inbound packet.
    fn packet_id(&self) -> (r: i32)
        ensures
            r == self.id_spec(),
    ;
}

/// Serializes a serverbound packet into its full wire frame: length field,
/// id, payload, per the packet format.
pub fn serialize_packet<P: OutboundPacket>(data: &P) -> (r: Vec<u8>)
    requires
        data.inv(),
        data.payload_spec().len() <= MAX_PAYLOAD_BYTES,
    ensures
        r@ == frame_bytes(data.id_spec() as u32, data.payload_spec()),
{
    let packet_id_serialized = VarInt::from_i32(data.packet_id());
    let packet_data_bytes = data.to_bytes();
    proof {
        packet_id_serialized.lemma_wf_len();
    }
    let packet_size = packet_id_serialized.len() + packet_data_bytes.len() as i32;
    let mut builder = PacketBytesBuilder::new().append_varint(&VarInt::from_i32(packet_size))
        .append_varint(&packet_id_serialized)
        .append_bytes(packet_data_bytes.as_slice());
    let out = builder.build();
    proof {
        let id_u32 = data.id_spec() as u32;
        let payload = data.payload_spec();
        assert((packet_size as u32) == ((varint_bytes(id_u32).len() + payload.len()) as u32));
        assert(out@ =~= frame_bytes(id_u32, payload));
    }
    out
}

/// One serialized outbound frame, ready for the transport.
pub struct OutboundPacketBuffer {
    packet_data: Vec<u8>,
}

impl OutboundPacketBuffer {
    /// The frame bytes held.
    pub closed spec fn spec_data(&self) -> Seq<u8> {
        self.packet_data@
    }

    /// Serializes `packet` into a buffer holding its full wire frame.
    pub fn from_packet<P: OutboundPacket>(packet: &P) -> (r: OutboundPacketBuffer)
        requires
            packet.inv(),
            packet.payload_spec().len() <= MAX_PAYLOAD_BYTES,
        ensures
            r.spec_data() == frame_bytes(packet.id_spec() as u32, packet.payload_spec()),
    {
        OutboundPacketBuffer { packet_data: serialize_packet(packet) }
    }

    /// The serialized frame bytes.
    pub fn data(&self) -> (r: &Vec<u8>)
        ensures
            r@ == self.spec_data(),
    {
        &self.packet_data
    }
}

/// A parsed frame header: the declared length (id bytes plus payload bytes)
/// and the packet id.
#[derive(Clone, Copy, Debug, PartialEq, Eq, Structural)]
pub struct MCPacketHeader {
    pub size: i32,
    pub id: i32,
}

/// Parses a frame header from the front of `bytes`, consuming the bytes of
/// the two VarInts read: the declared length, then the packet id. Consumption
/// is progressive: a length descriptor already read stays consumed when the
/// id descriptor fails.
fn read_packet_header(bytes: &mut Vec<u8>) -> (r: Result<MCPacketHeader, McError>)
    ensures
        header_parse_ens(old(bytes)@, final (bytes)@, r),
{
    let packet_size = match VarInt::from_vec_front(bytes) {
        Ok(v) => v,
        Err(e) => {
            return Err(e);
        },
    };
    let packet_id = match VarInt::from_vec_front(bytes) {
        Ok(v) => v,
        Err(e) => {
            return Err(e);
        },
    };
    let header = MCPacketHeader { size: packet_size.value(), id: packet_id.value() };
    proof {
        let s = old(bytes)@;
        let rest1 = s.skip(varint_consumed(s));
        let sv = varint_value_u32(s);
        let iv = varint_value_u32(rest1);
        assert((sv as i32) as u32 == sv) by (bit_vector);
        assert((iv as i32) as u32 == iv) by (bit_vector);
    }
    Ok(header)
}

/// What header parsing returns and leaves behind, for every input: the two
/// leading VarInts become length and id, their bytes leave the buffer, and
/// each failure names the descriptor that caused it.
pub open spec fn header_parse_ens(
    s: Seq<u8>,
    after: Seq<u8>,
    r: Result<MCPacketHeader, McError>,
) -> bool {
    &&& varint_malformed(s) ==> r == Err::<MCPacketHeader, McError>(McError::MalformedVarInt)
        && after == s
    &&& varint_incomplete(s) ==> r == Err::<MCPacketHeader, McError>(McError::TruncatedFrame)
        && after == s
    &&& varint_ok(s) ==> {
        let rest1 = s.skip(varint_consumed(s));
        &&& varint_malformed(rest1) ==> r == Err::<MCPacketHeader, McError>(
            McError::MalformedVarInt,
        ) && after == rest1
        &&& varint_incomplete(rest1) ==> r == Err::<MCPacketHeader, McError>(
            McError::TruncatedFrame,
        ) && after == rest1
        &&& varint_ok(rest1) ==> (r matches Ok(h) && h.size == varint_value_i32(s) && h.id
            == varint_value_i32(rest1) && after == rest1.skip(varint_consumed(rest1)))
    }
}

impl MCPacketHeader {
    /// Reads a frame header from the front of `bytes`, consuming the bytes
    /// of the two descriptors it parses.
    pub fn from_bytes(bytes: &mut Vec<u8>) -> (r: Result<MCPacketHeader, McError>)
        ensures
            header_parse_ens(old(bytes)@, final (bytes)@, r),
    {
        read_packet_header(bytes)
    }
}

/// One received frame: its parsed header beside its unparsed payload bytes,
/// waiting for a variant-specific parser to consume it.
pub struct ClientboundRawPacket {
    pub header: MCPacketHeader,
    pub data: Vec<u8>,
}

impl ClientboundRawPacket {
    /// Carves one whole frame off the front of `bytes`: parses the length
    /// and id descriptors, copies out exactly the declared payload, and
    /// leaves every byte past the frame boundary in place for the next
    /// frame. Fails without consuming anything when the descriptors are
    /// corrupt or the buffer holds less than the declared length.
    pub fn from_bytes(bytes: &mut Vec<u8>) -> (r: Result<ClientboundRawPacket, McError>)
        ensures
            varint_malformed(old(bytes)@) ==> r == Err::<ClientboundRawPacket, McError>(
                McError::MalformedVarInt,
            ) && final (bytes)@ == old(bytes)@,
            varint_incomplete(old(bytes)@) ==> r == Err::<ClientboundRawPacket, McError>(
                McError::TruncatedFrame,
            ) && final (bytes)@ == old(bytes)@,
            varint_ok(old(bytes)@) && !frame_len_valid(old(bytes)@) ==> r == Err::<
                ClientboundRawPacket,
                McError,
            >(McError::MalformedVarInt) && final (bytes)@ == old(bytes)@,
            frame_len_valid(old(bytes)@) && !frame_ready(old(bytes)@) ==> r == Err::<
                ClientboundRawPacket,
                McError,
            >(McError::TruncatedFrame) && final (bytes)@ == old(bytes)@,
            frame_ready(old(bytes)@) && varint_malformed(frame_body(old(bytes)@)) ==> r == Err::<
                ClientboundRawPacket,
                McError,
            >(McError::MalformedVarInt) && final (bytes)@ == old(bytes)@,
            frame_ready(old(bytes)@) && varint_incomplete(frame_body(old(bytes)@)) ==> r == Err::<
                ClientboundRawPacket,
                McError,
            >(McError::TruncatedFrame) && final (bytes)@ == old(bytes)@,
            frame_ready(old(bytes)@) && varint_ok(frame_body(old(bytes)@)) ==> (r matches Ok(p)
                && p.header.size == varint_value_i32(old(bytes)@) && p.header.id == frame_id(
                old(bytes)@,
            ) && p.data@ == frame_payload(old(bytes)@) && final (bytes)@ == frame_rest(
                old(bytes)@,
            )),
    {
        let ghost s = bytes@;
        let (l, c1) = match from_varint_bytes(bytes.as_slice()) {
            Ok(x) => x,
            Err(e) => {
                return Err(e);
            },
        };
        proof {
            lemma_scan_props(s, 0);
            let u = varint_value_u32(s);
            assert((l < 0) == (u > 0x7FFF_FFFFu32)) by (bit_vector)
                requires
                    l == (u as i32),
            ;
            assert(l >= 0 ==> (l as u32) == u) by (bit_vector)
                requires
                    l == (u as i32),
            ;
        }
        if l < 0 {
            return Err(McError::MalformedVarInt);
        }
        let lu = l as usize;
        if bytes.len() - c1 < lu {
            return Err(McError::TruncatedFrame);
        }
        let body = slice_subrange(bytes.as_slice(), c1, c1 + lu);
        proof {
            assert(body@ == frame_body(s));
        }
        let (id, c2) = match from_varint_bytes(body) {
            Ok(x) => x,
            Err(e) => {
                return Err(e);
            },
        };
        proof {
            lemma_scan_props(body@, 0);
        }
        let payload_slice = slice_subrange(body, c2, lu);
        let data = slice_to_vec(payload_slice);
        proof {
            assert(data@ =~= frame_payload(s));
        }
        let tail = bytes.split_off(c1 + lu);
        *bytes = tail;
        proof {
            assert(bytes@ =~= frame_rest(s));
        }
        Ok(ClientboundRawPacket { header: MCPacketHeader { size: l, id }, data })
    }
}

} // verus!
