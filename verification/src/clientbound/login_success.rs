//! The acknowledgement that ends a successful login exchange.
use vstd::prelude::*;

verus! {

/// A successful login acknowledgement. A placeholder: its full field set is
/// not exercised by this client, which only notes that the answer arrived.
#[derive(Clone, Copy, Debug, PartialEq, Eq, Structural)]
pub struct LoginSuccess {}

} // verus!
