//! The stream the sniffer reads: a development stand-in for the Geyser
//! client, and the retry schedule of a subscription.

use vstd::prelude::*;

use crate::sniffer::errors::{base_backoff, jittered_ms, millis_duration, ExponentialBackoff, SnifferError};
use core::time::Duration;
use std::sync::atomic::AtomicBool;
use std::sync::Arc;

verus! {

/// Size of the transactions that the stand-in stream yields.
pub const MOCK_TX_SIZE: usize = 256;

/// Stand-in stream receiver for development and testing: it yields the same
/// transaction while its flag is up.
pub struct MockStreamReceiver {
    running: Arc<AtomicBool>,
}

/// `AtomicBool::load` on the shared running flag.
#[verifier::external_body]
fn flag_is_up(flag: &Arc<AtomicBool>) -> bool {
    flag.load(std::sync::atomic::Ordering::Relaxed)
}

/// The transaction that the stand-in stream yields: 256 bytes of `0x01`.
pub fn mock_transaction() -> (v: Vec<u8>)
    ensures
        v@ == Seq::new(256, |_i: int| 1u8),
{
    let v = vec![1u8; MOCK_TX_SIZE];
    assert(v@ =~= Seq::new(256, |_i: int| 1u8));
    v
}

impl MockStreamReceiver {
    /// The flag that keeps the receiver yielding.
    pub closed spec fn flag(&self) -> Arc<AtomicBool> {
        self.running
    }

    /// A receiver that yields while `running` is up.
    pub fn new(running: Arc<AtomicBool>) -> (r: Self)
        ensures
            r.flag() == running,
    {
        Self { running }
    }

    /// The next transaction: none once the flag is down. (The pause between
    /// transactions that a real stream has is the caller's to make.)
    pub fn recv(&mut self) -> (r: Option<Vec<u8>>)
        ensures
            final(self).flag() == old(self).flag(),
            r matches Some(v) ==> v@ == Seq::new(256, |_i: int| 1u8),
    {
        if !flag_is_up(&self.running) {
            return None;
        }
        Some(mock_transaction())
    }
}

/// Connection settings of a Geyser stream.
#[derive(Debug, Clone)]
pub struct GeyserConfig {
    pub endpoint: String,
    pub filters: Vec<String>,
    pub use_compression: bool,
    pub use_tls: bool,
}

/// What the subscription loop does next.
#[derive(Debug)]
pub enum RetryStep {
    /// Try to subscribe now
    Attempt,
    /// Stop: the sniffer is shutting down, or the retries are used up
    GiveUp(SnifferError),
}

/// The retry schedule of a stream subscription: up to `max_attempts`
/// attempts, with a jittered exponential backoff between them.
pub struct SubscribeRetry {
    attempt: u32,
    max_attempts: u32,
    backoff: ExponentialBackoff,
}

impl SubscribeRetry {
    pub closed spec fn attempt_spec(&self) -> u32 {
        self.attempt
    }

    pub closed spec fn max_spec(&self) -> u32 {
        self.max_attempts
    }

    pub closed spec fn backoff_spec(&self) -> ExponentialBackoff {
        self.backoff
    }

    /// A schedule of `max_attempts` attempts with the given backoff bounds.
    pub fn new(max_attempts: u32, initial_backoff_ms: u64, max_backoff_ms: u64) -> (s: Self)
        ensures
            s.attempt_spec() == 0,
            s.max_spec() == max_attempts,
            s.backoff_spec().attempt_spec() == 0,
            s.backoff_spec().initial_spec() == initial_backoff_ms,
            s.backoff_spec().max_spec() == max_backoff_ms,
    {
        SubscribeRetry {
            attempt: 0,
            max_attempts,
            backoff: ExponentialBackoff::new(initial_backoff_ms, max_backoff_ms),
        }
    }

    /// The next step: give up when the sniffer stopped running or every
    /// attempt was made; otherwise attempt.
    pub fn next_step(&self, running: bool) -> (s: RetryStep)
        ensures
            self.attempt_spec() >= self.max_spec() ==> s == RetryStep::GiveUp(SnifferError::RetryLimitExceeded(self.max_spec())),
            self.attempt_spec() < self.max_spec() && !running ==> s == RetryStep::GiveUp(SnifferError::ShutdownRequested),
            self.attempt_spec() < self.max_spec() && running ==> s == RetryStep::Attempt,
    {
        if self.attempt >= self.max_attempts {
            RetryStep::GiveUp(SnifferError::RetryLimitExceeded(self.max_attempts))
        } else if !running {
            RetryStep::GiveUp(SnifferError::ShutdownRequested)
        } else {
            RetryStep::Attempt
        }
    }

    /// Whether `on_failure` may be called: an attempt is under way, and the
    /// backoff after it (if another attempt follows) can be computed.
    pub fn can_fail(&self) -> (r: bool)
        ensures
            r == (self.attempt_spec() < self.max_spec()
                && (self.attempt_spec() + 1 < self.max_spec() ==> self.backoff_spec().can_advance())),
    {
        if self.attempt >= self.max_attempts {
            return false;
        }
        if self.attempt + 1 < self.max_attempts {
            self.backoff.next_is_computable()
        } else {
            true
        }
    }

    /// After a failed attempt: the delay before the next one, none when it
    /// was the last. The attempt is counted either way.
    pub fn on_failure(&mut self) -> (d: Option<Duration>)
        requires
            old(self).attempt_spec() < old(self).max_spec(),
            old(self).attempt_spec() + 1 < old(self).max_spec() ==> old(self).backoff_spec().can_advance(),
        ensures
            final(self).attempt_spec() == old(self).attempt_spec() + 1,
            final(self).max_spec() == old(self).max_spec(),
            final(self).attempt_spec() >= final(self).max_spec() <==> d is None,
            d is Some ==> final(self).backoff_spec().attempt_spec() == old(self).backoff_spec().attempt_spec() + 1,
            d is None ==> final(self).backoff_spec() == old(self).backoff_spec(),
            final(self).backoff_spec().initial_spec() == old(self).backoff_spec().initial_spec(),
            final(self).backoff_spec().max_spec() == old(self).backoff_spec().max_spec(),
            d matches Some(delay) ==> exists|rnd: i64| delay == millis_duration(jittered_ms(
                base_backoff(
                    old(self).backoff_spec().initial_spec(),
                    old(self).backoff_spec().max_spec(),
                    old(self).backoff_spec().attempt_spec(),
                ),
                rnd,
            ) as u64),
    {
        let last = self.attempt + 1 >= self.max_attempts;
        self.attempt = self.attempt + 1;
        if last {
            None
        } else {
            Some(self.backoff.next_backoff())
        }
    }

    /// After a successful attempt: the backoff starts over.
    pub fn on_success(&mut self)
        ensures
            final(self).attempt_spec() == old(self).attempt_spec(),
            final(self).max_spec() == old(self).max_spec(),
            final(self).backoff_spec().attempt_spec() == 0,
    {
        self.backoff.reset();
    }
}

} // verus!
