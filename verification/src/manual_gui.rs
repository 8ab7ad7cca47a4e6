//! Modes of the manual trading GUI.

use vstd::prelude::*;

verus! {

/// How buys and sells are driven.
#[derive(Debug, Clone, Copy, PartialEq, Eq, Structural)]
pub enum UiMode {
    /// Auto buy and auto sell
    Auto,
    /// Auto buy and manual sell
    Hybrid,
}

} // verus!
