//! What the bot tells the GUI: its operational state and its answers to
//! commands.

use vstd::prelude::*;

verus! {

/// Bot operational state.
#[derive(Clone, Copy, Debug, PartialEq, Eq, Structural)]
pub enum BotState {
    /// Bot is actively trading
    Running,
    /// Bot is stopped and not processing candidates
    Stopped,
    /// Bot is paused temporarily
    Paused,
}

impl Default for BotState {
    /// A bot starts stopped.
    fn default() -> (s: Self)
        ensures
            s == BotState::Stopped,
    {
        BotState::Stopped
    }
}

/// Response from bot to GUI commands.
#[derive(Clone, Debug)]
pub enum GuiCommandResponse {
    /// Command executed successfully
    Success,
    /// Command failed with error message
    Error(String),
    /// Command acknowledged but pending
    Pending,
}

} // verus!
