//! The acknowledgement of a ping.
use vstd::prelude::*;

verus! {

/// A ping acknowledgement. A placeholder: its full field set is not
/// exercised by this client.
#[derive(Clone, Copy, Debug, PartialEq, Eq, Structural)]
pub struct PingResponse {}

} // verus!
