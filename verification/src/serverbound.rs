//! The serverbound packet variants: handshake, status request, login start.
pub mod handshake;
pub mod login_start;
pub mod status_request;
