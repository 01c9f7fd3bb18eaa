//! The receive side of the framed stream: a buffer that accumulates partial
//! reads until one whole frame is available, then hands the frame out and
//! retains every byte past its boundary for the next one. The transport
//! itself stays outside; this type sees only the bytes it is given.
use vstd::prelude::*;

verus! {

use crate::errors::McError;
use crate::mctypes::push_all;
use crate::packet::{
    ClientboundRawPacket, frame_body, frame_id, frame_len_valid, frame_payload, frame_ready,
    frame_rest, frame_total,
};
use crate::varint::{
    from_varint_bytes, varint_ok, varint_malformed, varint_incomplete, varint_value_i32,
    varint_value_u32, lemma_varint_prefix_stable, lemma_scan_props,
};

/// The accumulation state of one framed stream: the bytes read from the
/// transport that no delivered frame has claimed yet.
pub struct FrameAccumulator {
    buffer: Vec<u8>,
}

impl FrameAccumulator {
    /// The bytes accumulated and not yet claimed by a frame.
    pub closed spec fn spec_buffer(&self) -> Seq<u8> {
        self.buffer@
    }

    /// An accumulator holding nothing.
    pub fn new() -> (r: FrameAccumulator)
        ensures
            r.spec_buffer() == Seq::<u8>::empty(),
    {
        FrameAccumulator { buffer: Vec::new() }
    }

    /// Takes in one chunk read from the transport. Chunk boundaries carry
    /// no meaning: only the accumulated sequence does.
    pub fn push_chunk(&mut self, chunk: &[u8])
        ensures
            final (self).spec_buffer() == old(self).spec_buffer() + chunk@,
    {
        push_all(&mut self.buffer, chunk);
    }

    /// How many bytes are waiting.
    pub fn len(&self) -> (r: usize)
        ensures
            r == self.spec_buffer().len(),
    {
        self.buffer.len()
    }

    /// Takes one whole frame off the front of the buffer, if one is ready.
    /// `Ok(None)` means more bytes are needed; a corrupt length or id
    /// descriptor fails; and on success every byte past the frame boundary
    /// stays buffered for the next call.
    pub fn try_take_frame(&mut self) -> (r: Result<Option<ClientboundRawPacket>, McError>)
        ensures
            varint_incomplete(old(self).spec_buffer()) ==> r == Ok::<
                Option<ClientboundRawPacket>,
                McError,
            >(None) && final (self).spec_buffer() == old(self).spec_buffer(),
            varint_malformed(old(self).spec_buffer()) ==> r == Err::<
                Option<ClientboundRawPacket>,
                McError,
            >(McError::MalformedVarInt) && final (self).spec_buffer() == old(self).spec_buffer(),
            varint_ok(old(self).spec_buffer()) && !frame_len_valid(old(self).spec_buffer()) ==> r
                == Err::<Option<ClientboundRawPacket>, McError>(McError::MalformedVarInt) && final (
            self).spec_buffer() == old(self).spec_buffer(),
            frame_len_valid(old(self).spec_buffer()) && !frame_ready(old(self).spec_buffer())
                ==> r == Ok::<Option<ClientboundRawPacket>, McError>(None) && final (
            self).spec_buffer() == old(self).spec_buffer(),
            frame_ready(old(self).spec_buffer()) && varint_malformed(
                frame_body(old(self).spec_buffer()),
            ) ==> r == Err::<Option<ClientboundRawPacket>, McError>(McError::MalformedVarInt)
                && final (self).spec_buffer() == old(self).spec_buffer(),
            frame_ready(old(self).spec_buffer()) && varint_incomplete(
                frame_body(old(self).spec_buffer()),
            ) ==> r == Err::<Option<ClientboundRawPacket>, McError>(McError::TruncatedFrame)
                && final (self).spec_buffer() == old(self).spec_buffer(),
            frame_ready(old(self).spec_buffer()) && varint_ok(frame_body(old(self).spec_buffer()))
                ==> (r matches Ok(o) && o matches Some(p) && p.header.size == varint_value_i32(
                old(self).spec_buffer(),
            ) && p.header.id == frame_id(old(self).spec_buffer()) && p.data@ == frame_payload(
                old(self).spec_buffer(),
            ) && final (self).spec_buffer() == frame_rest(old(self).spec_buffer())),
    {
        let ghost s = self.buffer@;
        match from_varint_bytes(self.buffer.as_slice()) {
            Err(McError::MalformedVarInt) => {
                return Err(McError::MalformedVarInt);
            },
            Err(_) => {
                return Ok(None);
            },
            Ok((l, c)) => {
                proof {
                    lemma_scan_props(s, 0);
                    let u = varint_value_u32(s);
                    assert((l < 0) == (u > 0x7FFF_FFFFu32)) by (bit_vector)
                        requires
                            l == (u as i32),
                    ;
                    assert(l >= 0 ==> (l as u32) == u) by (bit_vector)
                        requires
                            l == (u as i32),
                    ;
                }
                if l < 0 {
                    return Err(McError::MalformedVarInt);
                }
                if self.buffer.len() - c < l as usize {
                    return Ok(None);
                }
            },
        }
        match ClientboundRawPacket::from_bytes(&mut self.buffer) {
            Ok(p) => Ok(Some(p)),
            Err(e) => Err(e),
        }
    }
}

/// Once a whole frame stands at the front of a buffer, bytes that arrive
/// later neither change the frame nor move its boundary: only the retained
/// remainder grows.
pub proof fn lemma_frame_parse_extends(buf: Seq<u8>, ext: Seq<u8>)
    requires
        frame_ready(buf),
    ensures
        frame_ready(buf + ext),
        frame_total(buf + ext) == frame_total(buf),
        frame_body(buf + ext) == frame_body(buf),
        frame_rest(buf + ext) == frame_rest(buf) + ext,
{
    lemma_varint_prefix_stable(buf, ext);
    lemma_scan_props(buf, 0);
    let c = crate::varint::varint_consumed(buf);
    let t = frame_total(buf);
    assert(crate::varint::varint_consumed(buf + ext) == c);
    assert(frame_total(buf + ext) == t);
    assert(0 <= c <= t <= buf.len());
    assert forall|j: int| 0 <= j < t - c implies (buf + ext).subrange(c, t)[j] == buf.subrange(
        c,
        t,
    )[j] by {
        assert((buf + ext)[c + j] == buf[c + j]);
    }
    assert(frame_body(buf + ext) =~= frame_body(buf));
    assert forall|j: int| 0 <= j < (buf + ext).len() - t implies (buf + ext).skip(t)[j] == (
    frame_rest(buf) + ext)[j] by {
        if j < buf.len() - t {
            assert((buf + ext)[t + j] == buf[t + j]);
        } else {
            assert((buf + ext)[t + j] == ext[t + j - buf.len()]);
        }
    }
    assert(frame_rest(buf + ext) =~= frame_rest(buf) + ext);
}

/// Partial-read resilience: a byte stream split at any boundary and
/// accumulated chunk by chunk rebuilds the very sequence one full read
/// delivers, and a frame already complete in the first chunk is the frame
/// of the whole stream, with the later bytes joining its remainder.
pub proof fn lemma_partial_read_resilience(bytes: Seq<u8>, cut: int)
    requires
        0 <= cut <= bytes.len(),
    ensures
        bytes.take(cut) + bytes.skip(cut) == bytes,
        frame_ready(bytes.take(cut)) ==> frame_ready(bytes) && frame_body(bytes) == frame_body(
            bytes.take(cut),
        ) && frame_rest(bytes) == frame_rest(bytes.take(cut)) + bytes.skip(cut),
{
    assert(bytes.take(cut) + bytes.skip(cut) =~= bytes);
    if frame_ready(bytes.take(cut)) {
        lemma_frame_parse_extends(bytes.take(cut), bytes.skip(cut));
    }
}

} // verus!
