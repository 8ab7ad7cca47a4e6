//! The engine's circuit breaker: it opens after a run of failures, closes on
//! success or once the recovery timeout has passed, and keeps per-mint and
//! per-program operation counts over fixed windows.

use vstd::prelude::*;

use crate::clock::instant_now;
use core::time::Duration;
use dashmap::DashMap;
use crate::clock::{duration_nanos, elapsed_nanos, nanos_to_secs};
use std::time::Instant;

verus! {

#[verifier::external_type_specification]
#[verifier::external_body]
#[verifier::reject_recursive_types(K)]
#[verifier::reject_recursive_types(V)]
#[verifier::reject_recursive_types(S)]
pub struct ExDashMap<K, V, S>(DashMap<K, V, S>);

/// The operation count of one key in its current window.
#[derive(Debug, Clone, Copy)]
pub struct RateWindow {
    pub count: u64,
    pub started: Instant,
}

/// A rate-limit map from key text to its current window.
pub type RateMap = DashMap<String, RateWindow>;

/// The windows held by a rate-limit map, by key text.
pub uninterp spec fn rate_windows(m: RateMap) -> Map<Seq<char>, RateWindow>;

/// `DashMap::new`: an empty map.
#[verifier::external_body]
fn rate_map_new() -> (m: RateMap)
    ensures
        rate_windows(m).is_empty(),
{
    DashMap::new()
}

/// `DashMap::get`: the window stored under `key`, if any.
#[verifier::external_body]
fn rate_map_get(m: &RateMap, key: &str) -> (r: Option<RateWindow>)
    ensures
        r == (if rate_windows(*m).contains_key(key@) { Some(rate_windows(*m)[key@]) } else { None }),
{
    m.get(key).map(|e| *e.value())
}

/// `DashMap::insert`: stores `w` under `key`, replacing any previous window.
#[verifier::external_body]
fn rate_map_insert(m: &mut RateMap, key: String, w: RateWindow)
    ensures
        rate_windows(*final(m)) == rate_windows(*old(m)).insert(key@, w),
{
    m.insert(key, w);
}

/// `DashMap::len`: the number of keys held.
#[verifier::external_body]
fn rate_map_len(m: &RateMap) -> (n: usize)
    ensures
        n as nat == rate_windows(*m).len(),
{
    m.len()
}

/// Whole seconds elapsed since `start`.
fn elapsed_secs(start: &Instant) -> u128 {
    nanos_to_secs(elapsed_nanos(start))
}

/// Whether at least `d` has elapsed since `start`.
fn elapsed_at_least(start: &Instant, d: &Duration) -> bool {
    elapsed_nanos(start) >= duration_nanos(d)
}

/// One more operation counted in a window, as a wrapping 64-bit counter.
pub open spec fn bump(count: u64) -> u64 {
    if count == u64::MAX { 0 } else { (count + 1) as u64 }
}

/// One recorded failure, on a breaker's failure count and open flag: the
/// count grows by one, and the breaker opens once the count reaches the
/// threshold.
pub open spec fn failure_step(threshold: u32, before: (u32, bool), after: (u32, bool)) -> bool {
    &&& after.0 == before.0 + 1
    &&& after.1 == (before.1 || before.0 + 1 >= threshold)
}

/// A run of consecutive failures, from its first breaker state to its last,
/// opens the breaker exactly when it was open already or the failure count
/// has reached the threshold; the count grows by the number of failures.
pub proof fn lemma_consecutive_failures_open_at_threshold(threshold: u32, states: Seq<(u32, bool)>)
    requires
        states.len() >= 1,
        forall|i: int| 0 <= i < states.len() - 1 ==> #[trigger] failure_step(threshold, states[i], states[i + 1]),
    ensures
        states.last().0 == states[0].0 + (states.len() - 1),
        states.last().1 == (states[0].1 || (states.len() > 1 && states.last().0 >= threshold)),
    decreases states.len(),
{
    if states.len() > 1 {
        let init = states.drop_last();
        assert forall|i: int| 0 <= i < init.len() - 1 implies #[trigger] failure_step(threshold, init[i], init[i + 1]) by {
            assert(failure_step(threshold, states[i], states[i + 1]));
        }
        lemma_consecutive_failures_open_at_threshold(threshold, init);
        let j = states.len() - 2;
        assert(failure_step(threshold, states[j], states[j + 1]));
        assert(init.last() == states[j]);
        assert(states.last() == states[j + 1]);
    }
}

/// One operation counted against a key's window: with no window, or one
/// that has run for more than `window_secs` seconds (`elapsed_secs`), a new
/// window starting `now` with a count of one, allowed; otherwise the count
/// grows by one (wrapping) and the operation is allowed while the count is
/// at most `max_ops`.
pub open spec fn rate_step(
    old: Option<RateWindow>,
    elapsed_secs: u128,
    now: Instant,
    window_secs: u64,
    max_ops: u64,
) -> (RateWindow, bool) {
    match old {
        None => (RateWindow { count: 1, started: now }, true),
        Some(w) => if elapsed_secs > window_secs {
            (RateWindow { count: 1, started: now }, true)
        } else {
            (RateWindow { count: bump(w.count), started: w.started }, bump(w.count) <= max_ops)
        },
    }
}

/// The window of a key after one more operation and whether the operation
/// is allowed, given the seconds the stored window has run.
pub fn rate_window_step(
    old: Option<RateWindow>,
    elapsed_secs: u128,
    now: Instant,
    window_secs: u64,
    max_ops: u64,
) -> (r: (RateWindow, bool))
    ensures
        r == rate_step(old, elapsed_secs, now, window_secs, max_ops),
{
    match old {
        None => (RateWindow { count: 1, started: now }, true),
        Some(w) => {
            if elapsed_secs > window_secs as u128 {
                (RateWindow { count: 1, started: now }, true)
            } else {
                let count = if w.count == u64::MAX { 0 } else { w.count + 1 };
                (RateWindow { count, started: w.started }, count <= max_ops)
            }
        },
    }
}

/// The stored window of `key`, if any.
pub open spec fn window_of(m: Map<Seq<char>, RateWindow>, key: Seq<char>) -> Option<RateWindow> {
    if m.contains_key(key) { Some(m[key]) } else { None }
}

/// Circuit breaker with per-mint and per-program rate limits.
#[derive(Debug)]
pub struct UniverseCircuitBreaker {
    failure_count: u32,
    threshold: u32,
    is_open: bool,
    last_check: Instant,
    recovery_timeout: Duration,
    mint_rate_limits: RateMap,
    program_rate_limits: RateMap,
}

impl UniverseCircuitBreaker {
    pub closed spec fn failures_spec(&self) -> u32 {
        self.failure_count
    }

    pub closed spec fn threshold_spec(&self) -> u32 {
        self.threshold
    }

    pub closed spec fn open_spec(&self) -> bool {
        self.is_open
    }

    pub closed spec fn timeout_spec(&self) -> Duration {
        self.recovery_timeout
    }

    pub closed spec fn mint_windows(&self) -> Map<Seq<char>, RateWindow> {
        rate_windows(self.mint_rate_limits)
    }

    pub closed spec fn program_windows(&self) -> Map<Seq<char>, RateWindow> {
        rate_windows(self.program_rate_limits)
    }

    /// A closed breaker that opens after `threshold` consecutive failures.
    pub fn new(threshold: u32, recovery_timeout: Duration) -> (b: Self)
        ensures
            b.failures_spec() == 0,
            b.threshold_spec() == threshold,
            b.timeout_spec() == recovery_timeout,
            !b.open_spec(),
            b.mint_windows() == Map::<Seq<char>, RateWindow>::empty(),
            b.program_windows() == Map::<Seq<char>, RateWindow>::empty(),
    {
        UniverseCircuitBreaker {
            failure_count: 0,
            threshold,
            is_open: false,
            last_check: instant_now(),
            recovery_timeout,
            mint_rate_limits: rate_map_new(),
            program_rate_limits: rate_map_new(),
        }
    }

    /// Whether the breaker is closed (operations allowed).
    pub fn is_closed(&self) -> (r: bool)
        ensures
            r == !self.open_spec(),
    {
        !self.is_open
    }

    /// Counts a failure; the breaker opens once the count reaches the
    /// threshold.
    pub fn record_failure(&mut self)
        requires
            old(self).failures_spec() < u32::MAX,
        ensures
            failure_step(
                old(self).threshold_spec(),
                (old(self).failures_spec(), old(self).open_spec()),
                (final(self).failures_spec(), final(self).open_spec()),
            ),
            final(self).threshold_spec() == old(self).threshold_spec(),
            final(self).mint_windows() == old(self).mint_windows(),
            final(self).program_windows() == old(self).program_windows(),
    {
        let failures = self.failure_count + 1;
        self.failure_count = failures;
        if failures >= self.threshold {
            self.is_open = true;
        }
    }

    /// A success resets the failure count and closes the breaker.
    pub fn record_success(&mut self)
        ensures
            final(self).failures_spec() == 0,
            !final(self).open_spec(),
            final(self).threshold_spec() == old(self).threshold_spec(),
            final(self).mint_windows() == old(self).mint_windows(),
            final(self).program_windows() == old(self).program_windows(),
    {
        self.failure_count = 0;
        self.is_open = false;
    }

    /// The recovery decision once `elapsed_ns` nanoseconds have passed since
    /// the last check, with a recovery timeout of `timeout_ns`: a closed
    /// breaker allows and is unchanged; an open one allows exactly when the
    /// timeout has passed, and then closes with the failure count reset;
    /// otherwise it stays as it is.
    pub fn recovery_step(&mut self, elapsed_ns: u128, timeout_ns: u128) -> (r: bool)
        ensures
            !old(self).open_spec() ==> r,
            old(self).open_spec() ==> r == (elapsed_ns >= timeout_ns),
            !r || !old(self).open_spec() ==> final(self).open_spec() == old(self).open_spec()
                && final(self).failures_spec() == old(self).failures_spec(),
            r && old(self).open_spec() ==> !final(self).open_spec() && final(self).failures_spec() == 0,
            final(self).threshold_spec() == old(self).threshold_spec(),
            final(self).timeout_spec() == old(self).timeout_spec(),
            final(self).mint_windows() == old(self).mint_windows(),
            final(self).program_windows() == old(self).program_windows(),
    {
        if !self.is_open {
            return true;
        }
        if elapsed_ns >= timeout_ns {
            self.is_open = false;
            self.failure_count = 0;
            true
        } else {
            false
        }
    }

    /// Whether an operation may go ahead: the recovery step on the time
    /// since the last check and the recovery timeout, both read when the
    /// breaker is open; after a recovery the last check is now.
    pub fn should_allow(&mut self) -> (r: bool)
        ensures
            !old(self).open_spec() ==> r && final(self).open_spec() == old(self).open_spec()
                && final(self).failures_spec() == old(self).failures_spec(),
            old(self).open_spec() && r ==> !final(self).open_spec() && final(self).failures_spec() == 0,
            old(self).open_spec() && !r ==> final(self).open_spec() && final(self).failures_spec() == old(self).failures_spec(),
            final(self).threshold_spec() == old(self).threshold_spec(),
            final(self).timeout_spec() == old(self).timeout_spec(),
            final(self).mint_windows() == old(self).mint_windows(),
            final(self).program_windows() == old(self).program_windows(),
    {
        if !self.is_open {
            return true;
        }
        let elapsed = elapsed_nanos(&self.last_check);
        let timeout = duration_nanos(&self.recovery_timeout);
        let r = self.recovery_step(elapsed, timeout);
        if r {
            self.last_check = instant_now();
        }
        r
    }

    /// Counts one operation for `key` in `map`: the rate step on the stored
    /// window, the seconds it has run, and the present instant.
    fn check_rate(map: &mut RateMap, key: &str, window_secs: u64, max_ops: u64) -> (r: bool)
        ensures
            exists|e: u128, now: Instant| {
                let step = #[trigger] rate_step(window_of(rate_windows(*old(map)), key@), e, now, window_secs, max_ops);
                &&& rate_windows(*final(map)) == rate_windows(*old(map)).insert(key@, step.0)
                &&& r == step.1
            },
    {
        let old_w = rate_map_get(map, key);
        let elapsed: u128 = match &old_w {
            Some(w) => elapsed_secs(&w.started),
            None => 0,
        };
        let now = instant_now();
        let (w, r) = rate_window_step(old_w, elapsed, now, window_secs, max_ops);
        rate_map_insert(map, key.to_owned(), w);
        assert(rate_step(window_of(rate_windows(*old(map)), key@), elapsed, now, window_secs, max_ops) == (w, r));
        r
    }

    /// Per-mint rate limit over windows of `window_secs` seconds.
    pub fn check_mint_rate_limit(&mut self, mint: &str, window_secs: u64, max_ops: u64) -> (r: bool)
        ensures
            exists|e: u128, now: Instant| {
                let step = #[trigger] rate_step(window_of(old(self).mint_windows(), mint@), e, now, window_secs, max_ops);
                &&& final(self).mint_windows() == old(self).mint_windows().insert(mint@, step.0)
                &&& r == step.1
            },
            final(self).program_windows() == old(self).program_windows(),
            final(self).failures_spec() == old(self).failures_spec(),
            final(self).open_spec() == old(self).open_spec(),
            final(self).threshold_spec() == old(self).threshold_spec(),
    {
        Self::check_rate(&mut self.mint_rate_limits, mint, window_secs, max_ops)
    }

    /// Per-program rate limit over windows of `window_secs` seconds.
    pub fn check_program_rate_limit(&mut self, program: &str, window_secs: u64, max_ops: u64) -> (r: bool)
        ensures
            exists|e: u128, now: Instant| {
                let step = #[trigger] rate_step(window_of(old(self).program_windows(), program@), e, now, window_secs, max_ops);
                &&& final(self).program_windows() == old(self).program_windows().insert(program@, step.0)
                &&& r == step.1
            },
            final(self).mint_windows() == old(self).mint_windows(),
            final(self).failures_spec() == old(self).failures_spec(),
            final(self).open_spec() == old(self).open_spec(),
            final(self).threshold_spec() == old(self).threshold_spec(),
    {
        Self::check_rate(&mut self.program_rate_limits, program, window_secs, max_ops)
    }

    /// The number of mints being rate limited.
    pub fn tracked_mints(&self) -> (n: usize)
        ensures
            n as nat == self.mint_windows().len(),
    {
        rate_map_len(&self.mint_rate_limits)
    }
}

} // verus!
