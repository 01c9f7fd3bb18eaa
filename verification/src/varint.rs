//! The VarInt primitive: a signed 32-bit integer carried in 1 to 5 bytes,
//! each byte holding 7 value bits (low groups first) and a continuation bit.
use vstd::prelude::*;

verus! {

use crate::errors::McError;

/// Number of distinct values a run of `n` 7-bit groups can carry.
pub open spec fn pow128(n: nat) -> nat
    decreases n,
{
    if n == 0 {
        1
    } else {
        128 * pow128((n - 1) as nat)
    }
}

/// The wire encoding of `v`: its base-128 digits, low group first, with the
/// continuation bit (0x80) set on every byte but the last.
pub open spec fn varint_bytes(v: u32) -> Seq<u8>
    decreases v,
{
    if v < 128 {
        seq![v as u8]
    } else {
        seq![((v % 128) + 128) as u8] + varint_bytes(v / 128)
    }
}

/// Index of the first byte of `bytes` at or after `i` without the
/// continuation bit; `bytes.len()` when every such byte has it set.
pub open spec fn varint_scan(bytes: Seq<u8>, i: int) -> int
    decreases bytes.len() - i when 0 <= i <= bytes.len()
{
    if i >= bytes.len() {
        i
    } else if bytes[i] < 128 {
        i
    } else {
        varint_scan(bytes, i + 1)
    }
}

/// The number held by `bytes` read as base-128 digits, low digit first,
/// counting only the 7 value bits of each byte.
pub open spec fn base128_value(bytes: Seq<u8>) -> nat
    decreases bytes.len(),
{
    if bytes.len() == 0 {
        0
    } else {
        (bytes[0] % 128) as nat + 128 * base128_value(bytes.drop_first())
    }
}

/// A VarInt parses from the front of `bytes`: one of the first five bytes
/// lacks the continuation bit.
pub open spec fn varint_ok(bytes: Seq<u8>) -> bool {
    varint_scan(bytes, 0) < 5 && varint_scan(bytes, 0) < bytes.len()
}

/// The first five bytes all carry the continuation bit: the descriptor is
/// corrupt, whatever follows it.
pub open spec fn varint_malformed(bytes: Seq<u8>) -> bool {
    !varint_ok(bytes) && bytes.len() >= 5
}

/// Every byte seen so far carries the continuation bit and fewer than five
/// have arrived: the descriptor may still complete.
pub open spec fn varint_incomplete(bytes: Seq<u8>) -> bool {
    !varint_ok(bytes) && bytes.len() < 5
}

/// How many leading bytes the VarInt at the front of `bytes` occupies.
pub open spec fn varint_consumed(bytes: Seq<u8>) -> int
    recommends
        varint_ok(bytes),
{
    varint_scan(bytes, 0) + 1
}

/// The unsigned 32-bit reading of the VarInt at the front of `bytes`:
/// its base-128 value, truncated to 32 bits.
pub open spec fn varint_value_u32(bytes: Seq<u8>) -> u32
    recommends
        varint_ok(bytes),
{
    (base128_value(bytes.take(varint_consumed(bytes))) % 0x1_0000_0000) as u32
}

/// The two's-complement reading of the same 32 bits.
pub open spec fn varint_value_i32(bytes: Seq<u8>) -> i32
    recommends
        varint_ok(bytes),
{
    varint_value_u32(bytes) as i32
}

pub proof fn lemma_pow128_monotonic(a: nat, b: nat)
    requires
        a <= b,
    ensures
        pow128(a) <= pow128(b),
    decreases b,
{
    if a < b {
        lemma_pow128_monotonic(a, (b - 1) as nat);
        assert(pow128(b) == 128 * pow128((b - 1) as nat));
        assert(pow128((b - 1) as nat) <= 128 * pow128((b - 1) as nat)) by (nonlinear_arith)
            requires
                pow128((b - 1) as nat) >= 0,
        ;
    }
}

/// The shape of a canonical encoding: its base-128 value is `v`, its last
/// byte lacks the continuation bit, every earlier byte carries it, and its
/// length is the least that can hold `v`.
pub proof fn lemma_varint_bytes_shape(v: u32)
    ensures
        1 <= varint_bytes(v).len(),
        base128_value(varint_bytes(v)) == v,
        varint_bytes(v)[varint_bytes(v).len() - 1] < 128,
        forall|j: int| 0 <= j < varint_bytes(v).len() - 1 ==> varint_bytes(v)[j] >= 128,
        v < pow128(varint_bytes(v).len() as nat),
        varint_bytes(v).len() >= 2 ==> pow128((varint_bytes(v).len() - 1) as nat) <= v,
    decreases v,
{
    if v < 128 {
        let e = varint_bytes(v);
        assert(e == seq![v as u8]);
        assert(e[0] == v as u8);
        assert(base128_value(e) == (e[0] % 128) as nat + 128 * base128_value(e.drop_first()));
        assert(e.drop_first().len() == 0);
        assert(base128_value(e) == v);
        assert(pow128(1) == 128 * pow128(0));
    } else {
        lemma_varint_bytes_shape(v / 128);
        let tail = varint_bytes(v / 128);
        let e = varint_bytes(v);
        let b0: u8 = ((v % 128) + 128) as u8;
        assert(e == seq![b0] + tail);
        assert(e.len() == 1 + tail.len());
        assert(e.drop_first() =~= tail);
        assert(e[0] == b0);
        assert(b0 >= 128 && (b0 % 128) as nat == (v % 128) as nat);
        assert(base128_value(e) == (v % 128) as nat + 128 * base128_value(tail));
        assert(base128_value(e) == (v % 128) as nat + 128 * ((v / 128) as nat));
        assert((v % 128) as nat + 128 * ((v / 128) as nat) == v as nat) by (nonlinear_arith)
            requires
                v >= 0,
        ;
        // last byte and continuation bits carry over from the tail
        assert(e[e.len() - 1] == tail[tail.len() - 1]);
        assert forall|j: int| 0 <= j < e.len() - 1 implies e[j] >= 128 by {
            if j > 0 {
                assert(e[j] == tail[j - 1]);
            }
        }
        // length bounds
        assert(pow128(e.len() as nat) == 128 * pow128(tail.len() as nat));
        assert(v / 128 < pow128(tail.len() as nat));
        assert(v < 128 * pow128(tail.len() as nat)) by (nonlinear_arith)
            requires
                ((v / 128) as nat) < pow128(tail.len() as nat),
                v >= 128,
        ;
        if tail.len() >= 2 {
            assert(pow128((tail.len() - 1) as nat) <= v / 128);
            assert(pow128((e.len() - 1) as nat) == 128 * pow128((tail.len() - 1) as nat));
            assert(128 * pow128((tail.len() - 1) as nat) <= v) by (nonlinear_arith)
                requires
                    pow128((tail.len() - 1) as nat) <= (v / 128) as nat,
                    v >= 128,
            ;
        } else {
            assert(pow128((e.len() - 1) as nat) == pow128(1));
            assert(pow128(1) == 128 * pow128(0));
            assert(pow128(1) <= v);
        }
    }
}

/// No 32-bit value needs more than five groups.
pub proof fn lemma_varint_bytes_len(v: u32)
    ensures
        1 <= varint_bytes(v).len() <= 5,
{
    lemma_varint_bytes_shape(v);
    assert(pow128(1) == 128 * pow128(0));
    assert(pow128(2) == 128 * pow128(1));
    assert(pow128(3) == 128 * pow128(2));
    assert(pow128(4) == 128 * pow128(3));
    assert(pow128(5) == 128 * pow128(4));
    if varint_bytes(v).len() >= 6 {
        lemma_pow128_monotonic(5, (varint_bytes(v).len() - 1) as nat);
        assert(pow128(5) <= v);
        assert(false);
    }
}

/// Appending one digit raises the base-128 value by that digit at the next
/// position's weight.
pub proof fn lemma_base128_push(s: Seq<u8>, b: u8)
    ensures
        base128_value(s.push(b)) == base128_value(s) + (b % 128) as nat * pow128(s.len()),
    decreases s.len(),
{
    if s.len() == 0 {
        assert(s.push(b) =~= seq![b]);
        assert(base128_value(seq![b]) == (b % 128) as nat + 128 * base128_value(
            seq![b].drop_first(),
        ));
        assert(seq![b].drop_first().len() == 0);
        assert(pow128(0) == 1);
    } else {
        lemma_base128_push(s.drop_first(), b);
        assert(s.push(b).drop_first() =~= s.drop_first().push(b));
        assert(base128_value(s.push(b)) == (s[0] % 128) as nat + 128 * base128_value(
            s.drop_first().push(b),
        ));
        let d = (b % 128) as nat;
        let p = pow128(s.drop_first().len());
        assert(base128_value(s.drop_first().push(b)) == base128_value(s.drop_first()) + d * p);
        assert(128 * (base128_value(s.drop_first()) + d * p) == 128 * base128_value(s.drop_first())
            + d * (128 * p)) by (nonlinear_arith);
        assert(pow128(s.len()) == 128 * p);
    }
}

/// A run of `n` digits stays below `pow128(n)`.
pub proof fn lemma_base128_bound(s: Seq<u8>)
    ensures
        base128_value(s) < pow128(s.len()),
    decreases s.len(),
{
    if s.len() == 0 {
    } else {
        lemma_base128_bound(s.drop_first());
        let t = base128_value(s.drop_first());
        let p = pow128(s.drop_first().len());
        assert(((s[0] % 128) as nat) < 128);
        assert(((s[0] % 128) as nat) + 128 * t < 128 * p) by (nonlinear_arith)
            requires
                t < p,
                ((s[0] % 128) as nat) < 128,
        ;
        assert(pow128(s.len()) == 128 * p);
    }
}

/// Scanning for the terminator skips any run of continuation bytes.
pub proof fn lemma_scan_past(s: Seq<u8>, i: int, k: int)
    requires
        0 <= i <= k <= s.len(),
        forall|j: int| i <= j < k ==> s[j] >= 128,
    ensures
        varint_scan(s, i) == varint_scan(s, k),
    decreases k - i,
{
    if i < k {
        assert(s[i] >= 128);
        lemma_scan_past(s, i + 1, k);
    }
}

/// What the scan index means: every byte before it carries the continuation
/// bit, and the byte at it (if any) does not.
pub proof fn lemma_scan_props(s: Seq<u8>, i: int)
    requires
        0 <= i <= s.len(),
    ensures
        i <= varint_scan(s, i) <= s.len(),
        varint_scan(s, i) < s.len() ==> s[varint_scan(s, i)] < 128,
        forall|j: int| i <= j < varint_scan(s, i) ==> s[j] >= 128,
    decreases s.len() - i,
{
    if i < s.len() && s[i] >= 128 {
        lemma_scan_props(s, i + 1);
    }
}

/// Decoding undoes encoding: the canonical bytes of `v` parse back to `v`,
/// consuming exactly themselves.
pub proof fn lemma_varint_round_trip(v: u32)
    ensures
        varint_ok(varint_bytes(v)),
        varint_consumed(varint_bytes(v)) == varint_bytes(v).len(),
        varint_value_u32(varint_bytes(v)) == v,
        1 <= varint_bytes(v).len() <= 5,
{
    let e = varint_bytes(v);
    lemma_varint_bytes_shape(v);
    lemma_varint_bytes_len(v);
    lemma_scan_past(e, 0, e.len() - 1);
    assert(varint_scan(e, e.len() - 1) == e.len() - 1);
    assert(e.take(e.len() as int) =~= e);
    assert(base128_value(e) == v);
    assert(v as nat % 0x1_0000_0000 == v as nat);
}

/// Round-trip at the signed interface: every 32-bit value decodes back from
/// its own encoding, whose bytes are consumed in full.
pub proof fn lemma_varint_round_trip_i32(v: i32)
    ensures
        varint_ok(varint_bytes(v as u32)),
        varint_value_i32(varint_bytes(v as u32)) == v,
        varint_consumed(varint_bytes(v as u32)) == varint_bytes(v as u32).len(),
{
    lemma_varint_round_trip(v as u32);
    let u = v as u32;
    assert((u as i32) == v) by (bit_vector)
        requires
            u == (v as u32),
    ;
}

/// A parsed VarInt is unaffected by whatever bytes follow it.
pub proof fn lemma_varint_prefix_stable(s: Seq<u8>, ext: Seq<u8>)
    requires
        varint_ok(s),
    ensures
        varint_ok(s + ext),
        varint_consumed(s + ext) == varint_consumed(s),
        varint_value_u32(s + ext) == varint_value_u32(s),
        varint_value_i32(s + ext) == varint_value_i32(s),
    decreases s.len(),
{
    let k = varint_scan(s, 0);
    lemma_scan_props(s, 0);
    let w = s + ext;
    assert(forall|j: int| 0 <= j < k ==> w[j] == s[j]);
    lemma_scan_past(w, 0, k);
    assert(w[k] == s[k]);
    assert(varint_scan(w, k) == k);
    assert(w.take(k + 1) =~= s.take(k + 1));
}

/// Serializes `value` as a VarInt: the low 7 bits of its unsigned reading go
/// out first, the continuation bit marks every byte but the last. Total, and
/// never longer than 5 bytes.
pub fn to_varint(value: i32) -> (r: Vec<u8>)
    ensures
        r@ == varint_bytes(value as u32),
        1 <= r@.len() <= 5,
{
    let mut v: u32 = #[verifier::truncate] (value as u32);
    let ghost v0: u32 = value as u32;
    let mut out: Vec<u8> = Vec::new();
    proof {
        assert(out@ + varint_bytes(v) =~= varint_bytes(v0));
    }
    while v >= 128
        invariant
            varint_bytes(v0) == out@ + varint_bytes(v),
        decreases v,
    {
        let ghost pre = out@;
        let ghost vpre = v;
        out.push((v % 128 + 128) as u8);
        v = v / 128;
        proof {
            assert(varint_bytes(vpre) == seq![((vpre % 128) + 128) as u8] + varint_bytes(v));
            assert(out@ == pre.push(((vpre % 128) + 128) as u8));
            assert(out@ + varint_bytes(v) =~= pre + varint_bytes(vpre));
        }
    }
    let ghost pre = out@;
    out.push(v as u8);
    proof {
        assert(varint_bytes(v) == seq![v as u8]);
        assert(out@ =~= pre + varint_bytes(v));
        lemma_varint_bytes_len(v0);
    }
    out
}

/// Decodes a VarInt from the front of `bytes`, returning its value and how
/// many bytes it occupied. A buffer longer than the encoding is accepted: only
/// the descriptor's own bytes are consumed. Five continuation bits in a row
/// are a protocol violation; a buffer that ends while the continuation bit is
/// still set is truncated.
pub fn from_varint_bytes(bytes: &[u8]) -> (r: Result<(i32, usize), McError>)
    ensures
        varint_ok(bytes@) ==> r == Ok::<(i32, usize), McError>(
            (varint_value_i32(bytes@), varint_consumed(bytes@) as usize),
        ),
        varint_malformed(bytes@) ==> r == Err::<(i32, usize), McError>(McError::MalformedVarInt),
        varint_incomplete(bytes@) ==> r == Err::<(i32, usize), McError>(McError::TruncatedFrame),
{
    let len = bytes.len();
    let mut acc: u64 = 0;
    let mut pow: u64 = 1;
    let mut i: usize = 0;
    while i < len
        invariant
            0 <= i <= len,
            i <= 4,
            len == bytes@.len(),
            pow == pow128(i as nat),
            pow <= 0x1000_0000,
            acc == base128_value(bytes@.take(i as int)),
            acc < pow,
            forall|j: int| 0 <= j < i ==> bytes@[j] >= 128,
        decreases len - i,
    {
        let b = bytes[i];
        proof {
            assert(bytes@.take(i + 1) =~= bytes@.take(i as int).push(b));
            lemma_base128_push(bytes@.take(i as int), b);
            assert(bytes@.take(i as int).len() == i);
            assert(((b % 128) as nat) * pow128(i as nat) <= 127 * pow128(i as nat))
                by (nonlinear_arith)
                requires
                    ((b % 128) as nat) <= 127,
                    pow128(i as nat) >= 0,
            ;
        }
        let acc2: u64 = acc + ((b as u64) % 128) * pow;
        if b < 128 {
            proof {
                lemma_scan_past(bytes@, 0, i as int);
                assert(varint_scan(bytes@, i as int) == i);
                assert(varint_consumed(bytes@) == i + 1);
            }
            let value: u32 = (acc2 % 0x1_0000_0000) as u32;
            let signed: i32 = #[verifier::truncate] (value as i32);
            proof {
                assert(value == varint_value_u32(bytes@));
            }
            return Ok((signed, i + 1));
        }
        i = i + 1;
        acc = acc2;
        pow = pow * 128;
        proof {
            assert(acc < pow128(i as nat)) by {
                lemma_base128_bound(bytes@.take(i as int));
            }
        }
        if i == 5 {
            proof {
                lemma_scan_past(bytes@, 0, 5);
                lemma_scan_props(bytes@, 5);
            }
            return Err(McError::MalformedVarInt);
        }
        proof {
            assert(pow128(1) == 128 * pow128(0));
            assert(pow128(2) == 128 * pow128(1));
            assert(pow128(3) == 128 * pow128(2));
            assert(pow128(4) == 128 * pow128(3));
            lemma_pow128_monotonic(i as nat, 4);
        }
    }
    proof {
        lemma_scan_past(bytes@, 0, len as int);
    }
    Err(McError::TruncatedFrame)
}

/// A `VarInt` holds the canonical 1-5 byte wire encoding of one signed 32-bit
/// integer. It exists for data interchange only: it is built either from a
/// value or from received bytes, and is immutable but for wholesale
/// replacement through [`VarInt::set`].
#[derive(Clone)]
pub struct VarInt {
    bytes: Vec<u8>,
}

impl VarInt {
    /// The unsigned 32-bit reading of the held bytes.
    pub closed spec fn spec_value(&self) -> u32 {
        varint_value_u32(self.bytes@)
    }

    /// The held bytes.
    pub closed spec fn spec_bytes(&self) -> Seq<u8> {
        self.bytes@
    }

    /// The held bytes are exactly the canonical encoding of the held value.
    pub closed spec fn wf(&self) -> bool {
        self.bytes@ == varint_bytes(self.spec_value())
    }

    /// A canonical `VarInt` spans 1 to 5 bytes.
    pub proof fn lemma_wf_len(&self)
        requires
            self.wf(),
        ensures
            1 <= self.spec_bytes().len() <= 5,
            self.spec_bytes() == varint_bytes(self.spec_value()),
    {
        lemma_varint_bytes_len(self.spec_value());
    }

    /// Encodes `value`.
    pub fn from_i32(value: i32) -> (r: VarInt)
        ensures
            r.wf(),
            r.spec_value() == value as u32,
            r.spec_bytes() == varint_bytes(value as u32),
    {
        let bytes = to_varint(value);
        proof {
            lemma_varint_round_trip(value as u32);
        }
        VarInt { bytes }
    }

    /// Reads a `VarInt` from the leading bytes of `bytes` and stores it in
    /// canonical form; a buffer longer than the descriptor is accepted.
    pub fn from_bytes(bytes: &[u8]) -> (r: Result<VarInt, McError>)
        ensures
            varint_ok(bytes@) ==> (r matches Ok(v) && v.wf() && v.spec_value()
                == varint_value_u32(bytes@)),
            varint_malformed(bytes@) ==> r == Err::<VarInt, McError>(McError::MalformedVarInt),
            varint_incomplete(bytes@) ==> r == Err::<VarInt, McError>(McError::TruncatedFrame),
    {
        match from_varint_bytes(bytes) {
            Ok((value, _)) => {
                let v = VarInt::from_i32(value);
                proof {
                    let sv = v.spec_value();
                    let u = varint_value_u32(bytes@);
                    assert(sv == u) by (bit_vector)
                        requires
                            sv == (value as u32),
                            value == (u as i32),
                    ;
                }
                Ok(v)
            },
            Err(e) => Err(e),
        }
    }

    /// Reads a `VarInt` from the front of `vec` and drains the bytes it
    /// consumed, leaving the remainder in place.
    pub fn from_vec_front(vec: &mut Vec<u8>) -> (r: Result<VarInt, McError>)
        ensures
            varint_ok(old(vec)@) ==> (r matches Ok(v) && v.wf() && v.spec_value()
                == varint_value_u32(old(vec)@) && final (vec)@ == old(vec)@.skip(
                varint_consumed(old(vec)@),
            )),
            varint_malformed(old(vec)@) ==> r == Err::<VarInt, McError>(McError::MalformedVarInt)
                && final (vec)@ == old(vec)@,
            varint_incomplete(old(vec)@) ==> r == Err::<VarInt, McError>(McError::TruncatedFrame)
                && final (vec)@ == old(vec)@,
    {
        match from_varint_bytes(vec.as_slice()) {
            Ok((value, consumed)) => {
                let v = VarInt::from_i32(value);
                proof {
                    let sv = v.spec_value();
                    let u = varint_value_u32(vec@);
                    assert(sv == u) by (bit_vector)
                        requires
                            sv == (value as u32),
                            value == (u as i32),
                    ;
                    lemma_scan_props(vec@, 0);
                }
                let rest = vec.split_off(consumed);
                *vec = rest;
                proof {
                    assert(vec@ =~= old(vec)@.skip(varint_consumed(old(vec)@)));
                }
                Ok(v)
            },
            Err(e) => Err(e),
        }
    }

    /// The byte size of the held encoding.
    pub fn len(&self) -> (r: i32)
        requires
            self.wf(),
        ensures
            r == self.spec_bytes().len(),
            1 <= r <= 5,
    {
        proof {
            self.lemma_wf_len();
        }
        self.bytes.len() as i32
    }

    /// The held encoding, as a byte slice.
    pub fn bytes(&self) -> (r: &[u8])
        ensures
            r@ == self.spec_bytes(),
    {
        self.bytes.as_slice()
    }

    /// Re-points this `VarInt` at a new value, in place.
    pub fn set(&mut self, value: i32)
        ensures
            final (self).wf(),
            final (self).spec_value() == value as u32,
            final (self).spec_bytes() == varint_bytes(value as u32),
    {
        self.bytes = to_varint(value);
        proof {
            lemma_varint_round_trip(value as u32);
        }
    }

    /// Serializes the held encoding into a fresh byte vector.
    pub fn to_bytes(&self) -> (r: Vec<u8>)
        ensures
            r@ == self.spec_bytes(),
    {
        vstd::slice::slice_to_vec(self.bytes.as_slice())
    }

    /// The signed 32-bit value the held bytes encode.
    pub fn value(&self) -> (r: i32)
        requires
            self.wf(),
        ensures
            r == self.spec_value() as i32,
            r as u32 == self.spec_value(),
    {
        proof {
            self.lemma_wf_len();
            lemma_varint_round_trip(self.spec_value());
        }
        match from_varint_bytes(self.bytes.as_slice()) {
            Ok((value, _)) => {
                proof {
                    let sv = self.spec_value();
                    assert((value as u32) == sv) by (bit_vector)
                        requires
                            value == (sv as i32),
                    ;
                }
                value
            },
            Err(_) => {
                proof {
                    assert(false);
                }
                0
            },
        }
    }
}

impl crate::mctypes::MCType for VarInt {
    open spec fn inv(&self) -> bool {
        self.wf()
    }

    open spec fn wire(&self) -> Seq<u8> {
        self.spec_bytes()
    }

    fn to_bytes(&self) -> (r: Vec<u8>) {
        VarInt::to_bytes(self)
    }

    fn from_bytes(bytes: &[u8]) -> (r: Result<VarInt, McError>) {
        VarInt::from_bytes(bytes)
    }

    fn size(&self) -> (r: i32) {
        self.len()
    }
}

} // verus!
