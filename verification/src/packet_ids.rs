//! Protocol ids of the packet variants this client exchanges. Every request
//! and the status answer travel under id zero; the packet's meaning comes
//! from the connection phase, not the number.
use vstd::prelude::*;

verus! {

/// Serverbound: the handshake that opens every connection.
pub const HANDSHAKE_PACKET_ID: i32 = 0x00;

/// Serverbound: the empty status query.
pub const STATUS_REQUEST: i32 = 0x00;

/// Serverbound: the login start request.
pub const LOGIN_START: i32 = 0x00;

/// Clientbound: the status answer.
pub const STATUS_RESPONSE: i32 = 0x00;

} // verus!
