//! What the sniffer does when its handoff channel is full, and how it sends
//! batches.

use vstd::prelude::*;

verus! {

/// Drop policy for when the channel is full.
#[derive(Debug, Clone, Copy, PartialEq, Eq, Structural)]
pub enum DropPolicy {
    /// Drop oldest items when channel is full
    DropOldest,
    /// Drop newest items when channel is full (default)
    DropNewest,
    /// Block until space is available (use with caution)
    Block,
}

/// Batch send mode.
#[derive(Debug, Clone, Copy, PartialEq, Eq, Structural)]
pub enum BatchSendMode {
    /// Synchronous mode - simple await
    Sync,
    /// Asynchronous mode - spawn workers with try_send
    Async,
}

} // verus!
