//! Client-side codec and framing layer for a length-prefixed, variable-width
//! binary wire protocol: the VarInt primitive, length-prefixed strings, the
//! packet frame envelope, a streaming frame accumulator, and the typed packet
//! variants built on top of them.
use vstd::prelude::*;

pub mod builder;
pub mod clientbound;
pub mod errors;
pub mod mcstring;
pub mod mctypes;
pub mod packet;
pub mod packet_ids;
pub mod serverbound;
pub mod stream;
pub mod varint;

verus! {

/// Protocol number of the game version this client speaks (1.19.3).
pub const PROTOCOL_VERSION: i32 = 761;

} // verus!
