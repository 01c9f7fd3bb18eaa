use vstd::prelude::*;

verus! {

/// Failure modes of the codec and framing layer. Every decode path reports
/// one of these as a typed result; no input may cause a panic.
#[derive(Clone, Copy, Debug, PartialEq, Eq, Structural)]
pub enum McError {
    /// Five bytes were consumed and the continuation bit was still set:
    /// the descriptor cannot belong to a 32-bit value.
    MalformedVarInt,
    /// The input ended before a complete descriptor or frame was available.
    TruncatedFrame,
    /// A length-prefixed string declared more bytes than the input can supply.
    TruncatedString,
    /// A string payload was not valid UTF-8.
    InvalidUtf8,
    /// A status payload did not hold a JSON document.
    InvalidJson,
    /// A received frame's id does not match the awaited response type.
    UnexpectedPacketId,
    /// The transport closed before a complete frame was assembled.
    ConnectionClosed,
    /// The underlying connect, read or write operation failed.
    TransportError,
}

} // verus!
