//! Responses of the server.

use vstd::prelude::*;

verus! {

/// The server is idle, outside a transaction: the character `I`.
pub const READY_STATUS_IDLE: u8 = 0x49;

/// The server is ready for the next query.
#[derive(Debug, PartialEq, Eq)]
pub struct ReadyForQuery {
    /// The transaction status.
    pub status: u8,
}

impl ReadyForQuery {
    /// A message with the given status.
    pub fn new(status: u8) -> (r: Self)
        ensures
            r.status == status,
    {
        ReadyForQuery { status }
    }
}

} // verus!
