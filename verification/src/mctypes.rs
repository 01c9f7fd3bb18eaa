//! Shared shape of the protocol's primitive data types, and the plain-value
//! model of the 128-bit UUID that the login packet may carry.
use vstd::prelude::*;

verus! {

use crate::errors::McError;

/// A protocol primitive: a value that knows its serialized wire form, can
/// emit it, and can be read back from the front of a byte buffer.
pub trait MCType: Sized {
    /// The value's internal invariant.
    spec fn inv(&self) -> bool;

    /// The value's serialized wire form.
    spec fn wire(&self) -> Seq<u8>;

    /// Serializes the value to its wire form.
    fn to_bytes(&self) -> (r: Vec<u8>)
        requires
            self.inv(),
        ensures
            r@ == self.wire(),
    ;

    /// Attempts to read one value of this type from the front of `bytes`.
    fn from_bytes(bytes: &[u8]) -> (r: Result<Self, McError>)
        ensures
            r matches Ok(v) ==> v.inv(),
    ;

    /// The byte size of the serialized form.
    fn size(&self) -> (r: i32)
        requires
            self.inv(),
        ensures
            r == self.wire().len(),
    ;
}

/// A 128-bit UUID, held as its two 64-bit halves, most significant first.
/// On the wire it travels as sixteen big-endian bytes, high half first.
#[derive(Clone, Copy, Debug, PartialEq, Eq, Structural)]
pub struct McUuid {
    pub high: u64,
    pub low: u64,
}

/// The eight big-endian bytes of `v`.
pub open spec fn spec_u64_be(v: u64) -> Seq<u8> {
    seq![
        (v >> 56) as u8,
        (v >> 48) as u8,
        (v >> 40) as u8,
        (v >> 32) as u8,
        (v >> 24) as u8,
        (v >> 16) as u8,
        (v >> 8) as u8,
        v as u8,
    ]
}

/// The two big-endian bytes of `v`.
pub open spec fn spec_u16_be(v: u16) -> Seq<u8> {
    seq![(v >> 8) as u8, v as u8]
}

/// The sixteen wire bytes of a UUID: the high half, then the low.
pub open spec fn uuid_wire(u: McUuid) -> Seq<u8> {
    spec_u64_be(u.high) + spec_u64_be(u.low)
}

/// Appends every byte of `src` to `dst`.
pub(crate) fn push_all(dst: &mut Vec<u8>, src: &[u8])
    ensures
        final (dst)@ == old(dst)@ + src@,
{
    let mut i: usize = 0;
    while i < src.len()
        invariant
            0 <= i <= src@.len(),
            dst@ == old(dst)@ + src@.take(i as int),
        decreases src@.len() - i,
    {
        let ghost pre = dst@;
        let b = *vstd::slice::slice_index_get(src, i);
        dst.push(b);
        i = i + 1;
        proof {
            assert(dst@ =~= old(dst)@ + src@.take(i as int));
        }
    }
    proof {
        assert(src@.take(src@.len() as int) =~= src@);
    }
}

/// Emits the eight big-endian bytes of `v`, most significant first.
pub(crate) fn u64_be_bytes(v: u64) -> (r: Vec<u8>)
    ensures
        r@ == spec_u64_be(v),
{
    let mut out: Vec<u8> = Vec::new();
    out.push(#[verifier::truncate] ((v >> 56) as u8));
    out.push(#[verifier::truncate] ((v >> 48) as u8));
    out.push(#[verifier::truncate] ((v >> 40) as u8));
    out.push(#[verifier::truncate] ((v >> 32) as u8));
    out.push(#[verifier::truncate] ((v >> 24) as u8));
    out.push(#[verifier::truncate] ((v >> 16) as u8));
    out.push(#[verifier::truncate] ((v >> 8) as u8));
    out.push(#[verifier::truncate] (v as u8));
    proof {
        assert(out@ =~= spec_u64_be(v));
    }
    out
}

} // verus!
