//! What a non-blocking read of one frame can come to, and the pace of polling.

use vstd::prelude::*;

verus! {

/// Milliseconds that a polling loop rests before it looks again.
pub const POLL_INTERVAL_MS: u64 = 10;

/// The result of one attempt to read a whole frame without blocking.
#[derive(Debug, PartialEq, Eq)]
pub enum ReadOutcome {
    /// A whole frame arrived.
    Frame(Vec<u8>),
    /// Nothing is ready yet. This is no error.
    WouldBlock,
    /// The read failed in any other way: the peer is gone.
    Failed,
}

} // verus!
