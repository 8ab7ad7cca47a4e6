//! Lifecycle of the sniffer's workers.
//!
//! The lifecycle is a small state machine: start only from `Stopped`, pause
//! and resume at any time, stop through `Stopping` back to `Stopped`, and a
//! failing critical worker puts the sniffer in `Error`. Each transition
//! returns the command to broadcast to the workers; running the workers and
//! the broadcast channel is the caller's part.

use vstd::prelude::*;

verus! {

/// Sniffer state.
#[derive(Debug, Clone, Copy, PartialEq, Eq, Structural)]
pub enum SnifferState {
    /// Sniffer is stopped (initial state)
    Stopped,
    /// Sniffer is starting up
    Starting,
    /// Sniffer is running normally
    Running,
    /// Sniffer is paused (connections alive but not processing)
    Paused,
    /// Sniffer is stopping gracefully
    Stopping,
    /// Sniffer encountered an error
    Error,
}

/// The state a stored byte stands for: codes 0 to 5 in declaration order,
/// any other code is `Error`.
pub open spec fn state_of_code(value: u8) -> SnifferState {
    if value == 0 {
        SnifferState::Stopped
    } else if value == 1 {
        SnifferState::Starting
    } else if value == 2 {
        SnifferState::Running
    } else if value == 3 {
        SnifferState::Paused
    } else if value == 4 {
        SnifferState::Stopping
    } else {
        SnifferState::Error
    }
}

/// The byte that stores a state.
pub open spec fn code_of_state(s: SnifferState) -> u8 {
    match s {
        SnifferState::Stopped => 0,
        SnifferState::Starting => 1,
        SnifferState::Running => 2,
        SnifferState::Paused => 3,
        SnifferState::Stopping => 4,
        SnifferState::Error => 5,
    }
}

impl From<u8> for SnifferState {
    fn from(value: u8) -> (s: SnifferState) {
        match value {
            0 => SnifferState::Stopped,
            1 => SnifferState::Starting,
            2 => SnifferState::Running,
            3 => SnifferState::Paused,
            4 => SnifferState::Stopping,
            _ => SnifferState::Error,
        }
    }
}

impl vstd::std_specs::convert::FromSpecImpl<u8> for SnifferState {
    open spec fn obeys_from_spec() -> bool {
        true
    }

    open spec fn from_spec(v: u8) -> SnifferState {
        state_of_code(v)
    }
}

impl SnifferState {
    /// The byte that stores this state.
    pub fn code(&self) -> (r: u8)
        ensures
            r == code_of_state(*self),
    {
        match self {
            SnifferState::Stopped => 0,
            SnifferState::Starting => 1,
            SnifferState::Running => 2,
            SnifferState::Paused => 3,
            SnifferState::Stopping => 4,
            SnifferState::Error => 5,
        }
    }
}

/// Storing a state and reading it back gives the same state.
pub proof fn lemma_state_code_roundtrip(s: SnifferState)
    ensures
        state_of_code(code_of_state(s)) == s,
{
}

/// Supervisor command.
#[derive(Debug, Clone, Copy, PartialEq, Eq, Structural)]
pub enum SupervisorCommand {
    /// Start the sniffer
    Start,
    /// Pause the sniffer
    Pause,
    /// Resume the sniffer
    Resume,
    /// Stop the sniffer
    Stop,
    /// Restart a failed worker
    RestartWorker,
}

/// How a worker ended when the sniffer was stopped.
#[derive(Debug, Clone, Copy, PartialEq, Eq, Structural)]
pub enum WorkerExit {
    /// The worker returned normally
    Finished,
    /// The worker panicked
    Panicked,
    /// The worker did not stop within the timeout
    TimedOut,
}

/// Critical worker failures tolerated before monitoring gives up.
pub const MAX_TOLERATED_ERRORS: u32 = 5;

/// The supervisor's state: the sniffer state and the number of critical
/// worker failures seen.
pub struct Lifecycle {
    state: SnifferState,
    error_count: u32,
}

impl Lifecycle {
    pub closed spec fn state_spec(&self) -> SnifferState {
        self.state
    }

    pub closed spec fn errors_spec(&self) -> u32 {
        self.error_count
    }

    /// A stopped lifecycle with no failures.
    pub fn new() -> (l: Lifecycle)
        ensures
            l.state_spec() == SnifferState::Stopped,
            l.errors_spec() == 0,
    {
        Lifecycle { state: SnifferState::Stopped, error_count: 0 }
    }

    /// The current state.
    pub fn state(&self) -> (s: SnifferState)
        ensures
            s == self.state_spec(),
    {
        self.state
    }

    /// The number of critical worker failures seen.
    pub fn error_count(&self) -> (n: u32)
        ensures
            n == self.errors_spec(),
    {
        self.error_count
    }

    /// Starts the sniffer: allowed only from `Stopped`; passes through
    /// `Starting` to `Running` and yields the `Start` command. From any
    /// other state the start is refused with the current state and nothing
    /// changes.
    pub fn start(&mut self) -> (r: Result<SupervisorCommand, SnifferState>)
        ensures
            old(self).state_spec() == SnifferState::Stopped ==> {
                &&& r == Ok::<SupervisorCommand, SnifferState>(SupervisorCommand::Start)
                &&& final(self).state_spec() == SnifferState::Running
            },
            old(self).state_spec() != SnifferState::Stopped ==> {
                &&& r == Err::<SupervisorCommand, SnifferState>(old(self).state_spec())
                &&& final(self).state_spec() == old(self).state_spec()
            },
            final(self).errors_spec() == old(self).errors_spec(),
    {
        if self.state != SnifferState::Stopped {
            return Err(self.state);
        }
        self.state = SnifferState::Starting;
        self.state = SnifferState::Running;
        Ok(SupervisorCommand::Start)
    }

    /// Pauses the sniffer and yields the `Pause` command.
    pub fn pause(&mut self) -> (c: SupervisorCommand)
        ensures
            c == SupervisorCommand::Pause,
            final(self).state_spec() == SnifferState::Paused,
            final(self).errors_spec() == old(self).errors_spec(),
    {
        self.state = SnifferState::Paused;
        SupervisorCommand::Pause
    }

    /// Resumes the sniffer and yields the `Resume` command.
    pub fn resume(&mut self) -> (c: SupervisorCommand)
        ensures
            c == SupervisorCommand::Resume,
            final(self).state_spec() == SnifferState::Running,
            final(self).errors_spec() == old(self).errors_spec(),
    {
        self.state = SnifferState::Running;
        SupervisorCommand::Resume
    }

    /// Begins a graceful stop: nothing to do when already stopped;
    /// otherwise moves to `Stopping` and yields the `Stop` command.
    pub fn begin_stop(&mut self) -> (c: Option<SupervisorCommand>)
        ensures
            old(self).state_spec() == SnifferState::Stopped ==> {
                &&& c == None::<SupervisorCommand>
                &&& final(self).state_spec() == SnifferState::Stopped
            },
            old(self).state_spec() != SnifferState::Stopped ==> {
                &&& c == Some(SupervisorCommand::Stop)
                &&& final(self).state_spec() == SnifferState::Stopping
            },
            final(self).errors_spec() == old(self).errors_spec(),
    {
        if self.state == SnifferState::Stopped {
            return None;
        }
        self.state = SnifferState::Stopping;
        Some(SupervisorCommand::Stop)
    }

    /// Records how a worker ended during a stop: a panicking critical worker
    /// puts the sniffer in `Error`; anything else leaves the state alone.
    pub fn worker_exited(&mut self, exit: WorkerExit, critical: bool)
        ensures
            (exit == WorkerExit::Panicked && critical) ==> final(self).state_spec() == SnifferState::Error,
            !(exit == WorkerExit::Panicked && critical) ==> final(self).state_spec() == old(self).state_spec(),
            final(self).errors_spec() == old(self).errors_spec(),
    {
        if exit == WorkerExit::Panicked && critical {
            self.state = SnifferState::Error;
        }
    }

    /// Ends a graceful stop in `Stopped`.
    pub fn finish_stop(&mut self)
        ensures
            final(self).state_spec() == SnifferState::Stopped,
            final(self).errors_spec() == old(self).errors_spec(),
    {
        self.state = SnifferState::Stopped;
    }

    /// Records a worker found finished while monitoring: a critical worker
    /// puts the sniffer in `Error` and counts as one more failure (the count
    /// wraps around, like an atomic counter); a non-critical one changes nothing.
    pub fn worker_failed(&mut self, critical: bool)
        ensures
            critical ==> final(self).state_spec() == SnifferState::Error,
            critical ==> final(self).errors_spec() == (if old(self).errors_spec() == u32::MAX { 0 } else { (old(self).errors_spec() + 1) as u32 }),
            !critical ==> final(self).state_spec() == old(self).state_spec(),
            !critical ==> final(self).errors_spec() == old(self).errors_spec(),
    {
        if critical {
            self.state = SnifferState::Error;
            self.error_count = if self.error_count == u32::MAX { 0 } else { self.error_count + 1 };
        }
    }

    /// Whether monitoring is over: the sniffer is stopped, or it is in
    /// `Error` after more than five critical failures.
    pub fn monitoring_done(&self) -> (r: bool)
        ensures
            r == (self.state_spec() == SnifferState::Stopped
                || (self.state_spec() == SnifferState::Error && self.errors_spec() > 5)),
    {
        self.state == SnifferState::Stopped
            || (self.state == SnifferState::Error && self.error_count > MAX_TOLERATED_ERRORS)
    }

    /// Whether the sniffer is healthy: running or paused.
    pub fn is_healthy(&self) -> (r: bool)
        ensures
            r == (self.state_spec() == SnifferState::Running || self.state_spec() == SnifferState::Paused),
    {
        self.state == SnifferState::Running || self.state == SnifferState::Paused
    }
}

} // verus!
