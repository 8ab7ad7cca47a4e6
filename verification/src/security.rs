//! Security checks on candidates, signatures and addresses, and taint
//! tracking.

use vstd::prelude::*;

pub mod validator;

verus! {

/// Taint tracking for security (it records nothing yet).
pub struct TaintTracker {}

impl TaintTracker {
    /// A tracker.
    pub fn new() -> (t: Self) {
        TaintTracker {}
    }

    /// Records that `data` came from `source` (nothing is kept).
    pub fn track(&self, _source: &str, _data: &[u8]) {
    }
}

} // verus!
