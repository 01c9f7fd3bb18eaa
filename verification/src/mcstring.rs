//! The length-prefixed string: a VarInt byte count followed by exactly that
//! many UTF-8 bytes. The count measures encoded bytes, not characters.
use vstd::prelude::*;

verus! {

use crate::errors::McError;
use crate::mctypes::{MCType, push_all};
use crate::varint::{
    VarInt, from_varint_bytes, varint_bytes, varint_ok, varint_malformed, varint_incomplete,
    varint_consumed, varint_value_u32, varint_value_i32, lemma_scan_props,
};
use vstd::slice::{slice_to_vec, slice_subrange};
use vstd::string::StringSliceAdditionalSpecFns;
use vstd::utf8::valid_utf8;

/// Longest byte length this codec accepts for one string: the wire carries
/// the count as a non-negative `i32`, beside which the five bytes of a
/// maximal descriptor must still fit in an `i32` total.
pub const MAX_STRING_BYTES: usize = 0x7FFF_FFFA;

/// The wire form of string content: its byte count as a VarInt, then the
/// bytes themselves.
pub open spec fn string_wire(content: Seq<u8>) -> Seq<u8> {
    varint_bytes(content.len() as u32) + content
}

/// The payload that the wire bytes declare: the bytes after the length
/// descriptor, as many as it counts.
pub open spec fn str_payload(bytes: Seq<u8>) -> Seq<u8>
    recommends
        varint_ok(bytes),
        str_fits(bytes),
{
    bytes.subrange(varint_consumed(bytes), varint_consumed(bytes) + varint_value_u32(bytes))
}

/// The declared byte count is representable and the buffer supplies it in
/// full after the descriptor.
pub open spec fn str_fits(bytes: Seq<u8>) -> bool
    recommends
        varint_ok(bytes),
{
    varint_value_u32(bytes) <= MAX_STRING_BYTES && bytes.len() >= varint_consumed(bytes)
        + varint_value_u32(bytes)
}

/// A length-prefixed UTF-8 string. Immutable once built; it exists for
/// serialization and deserialization only.
pub struct MCString {
    size: VarInt,
    bytes: Vec<u8>,
}

impl MCString {
    /// The UTF-8 content bytes, the size descriptor excluded.
    pub closed spec fn spec_bytes(&self) -> Seq<u8> {
        self.bytes@
    }

    /// The held descriptor counts exactly the held bytes, which are valid
    /// UTF-8 and short enough for descriptor plus content to measure in
    /// an `i32`.
    pub closed spec fn wf(&self) -> bool {
        &&& self.size.wf()
        &&& self.size.spec_value() == self.bytes@.len()
        &&& self.bytes@.len() <= MAX_STRING_BYTES
        &&& valid_utf8(self.bytes@)
    }

    /// What well-formedness gives every caller: bounded, valid content.
    pub proof fn lemma_wf(&self)
        requires
            self.wf(),
        ensures
            self.spec_bytes().len() <= MAX_STRING_BYTES,
            valid_utf8(self.spec_bytes()),
    {
    }

    /// Builds an `MCString` from text. Returns `None` when the UTF-8 form of
    /// `s` is longer than [`MAX_STRING_BYTES`]: the wire could not carry it.
    pub fn from_text(s: &str) -> (r: Option<MCString>)
        ensures
            s.spec_bytes().len() <= MAX_STRING_BYTES ==> (r matches Some(m) && m.wf()
                && m.spec_bytes() == s.spec_bytes()),
            s.spec_bytes().len() > MAX_STRING_BYTES ==> r is None,
    {
        let b = s.as_bytes();
        if b.len() > MAX_STRING_BYTES {
            return None;
        }
        let size = VarInt::from_i32(b.len() as i32);
        let bytes = slice_to_vec(b);
        proof {
            vstd::utf8::encode_utf8_valid_utf8(s@);
        }
        Some(MCString { size, bytes })
    }

    /// Reads a length-prefixed string from the front of `bytes`: a VarInt
    /// count, then exactly that many UTF-8 bytes. Bytes beyond the declared
    /// count are left alone. A count that is negative, that overruns
    /// [`MAX_STRING_BYTES`], or that the buffer cannot supply is reported as
    /// `TruncatedString`; content that is not UTF-8 as `InvalidUtf8`.
    pub fn from_bytes(bytes: &[u8]) -> (r: Result<MCString, McError>)
        ensures
            varint_malformed(bytes@) ==> r == Err::<MCString, McError>(McError::MalformedVarInt),
            varint_incomplete(bytes@) ==> r == Err::<MCString, McError>(McError::TruncatedFrame),
            varint_ok(bytes@) && !str_fits(bytes@) ==> r == Err::<MCString, McError>(
                McError::TruncatedString,
            ),
            varint_ok(bytes@) && str_fits(bytes@) && !valid_utf8(str_payload(bytes@)) ==> r
                == Err::<MCString, McError>(McError::InvalidUtf8),
            varint_ok(bytes@) && str_fits(bytes@) && valid_utf8(str_payload(bytes@)) ==> (r
                matches Ok(m) && m.wf() && m.spec_bytes() == str_payload(bytes@)),
    {
        match from_varint_bytes(bytes) {
            Err(e) => Err(e),
            Ok((l, c)) => {
                proof {
                    lemma_scan_props(bytes@, 0);
                    let u = varint_value_u32(bytes@);
                    assert((l < 0 || (l as u32) > 0x7FFF_FFFAu32) == (u > 0x7FFF_FFFAu32))
                        by (bit_vector)
                        requires
                            l == (u as i32),
                    ;
                    assert(l >= 0 ==> (l as u32) == u) by (bit_vector)
                        requires
                            l == (u as i32),
                    ;
                }
                if l < 0 {
                    return Err(McError::TruncatedString);
                }
                let lu = l as usize;
                if lu > MAX_STRING_BYTES {
                    return Err(McError::TruncatedString);
                }
                if bytes.len() - c < lu {
                    return Err(McError::TruncatedString);
                }
                let payload = slice_subrange(bytes, c, c + lu);
                if !utf8_valid(payload) {
                    return Err(McError::InvalidUtf8);
                }
                let size = VarInt::from_i32(l);
                let content = slice_to_vec(payload);
                Ok(MCString { size, bytes: content })
            },
        }
    }

    /// The VarInt size descriptor of this string.
    pub fn size(&self) -> (r: &VarInt)
        requires
            self.wf(),
        ensures
            r.wf(),
            r.spec_value() == self.spec_bytes().len(),
    {
        &self.size
    }

    /// The content bytes of this string, the size descriptor excluded.
    pub fn bytes(&self) -> (r: &Vec<u8>)
        ensures
            r@ == self.spec_bytes(),
    {
        &self.bytes
    }
}

impl MCType for MCString {
    open spec fn inv(&self) -> bool {
        self.wf()
    }

    open spec fn wire(&self) -> Seq<u8> {
        string_wire(self.spec_bytes())
    }

    fn to_bytes(&self) -> (r: Vec<u8>) {
        proof {
            self.size.lemma_wf_len();
        }
        let mut out = slice_to_vec(self.size.bytes());
        push_all(&mut out, self.bytes.as_slice());
        out
    }

    fn from_bytes(bytes: &[u8]) -> (r: Result<MCString, McError>) {
        MCString::from_bytes(bytes)
    }

    fn size(&self) -> (r: i32) {
        proof {
            self.size.lemma_wf_len();
        }
        let descriptor = self.size.len();
        descriptor + self.bytes.len() as i32
    }
}

/// Relies on `core::str::from_utf8`: it returns `Ok` exactly when the bytes
/// are a valid UTF-8 encoding.
#[verifier::external_body]
fn utf8_valid(bytes: &[u8]) -> (r: bool)
    ensures
        r == valid_utf8(bytes@),
{
    core::str::from_utf8(bytes).is_ok()
}

} // verus!
