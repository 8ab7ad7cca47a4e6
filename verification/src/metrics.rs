//! Which metric a name refers to, and timers that measure an operation for
//! a latency histogram. The registry itself is kept by the program.

use vstd::prelude::*;

use crate::clock::{elapsed_micros, instant_now};
use crate::strings::str_eq;
use std::time::Instant;

verus! {

/// The named counters of the bot.
#[derive(Debug, Clone, Copy, PartialEq, Eq, Structural)]
pub enum CounterKind {
    TradesTotal,
    TradesSuccess,
    TradesFailed,
    CandidatesReceived,
    CandidatesFiltered,
    NonceLeasesDroppedAuto,
    NonceLeasesDroppedExplicit,
    NonceSequenceErrors,
    NonceEnforcePaths,
}

/// The counter that a dynamic counter name refers to, with the aliases that
/// the buy engine uses; unknown names refer to none.
pub open spec fn counter_for(name: Seq<char>) -> Option<CounterKind> {
    if name == "trades_total"@ || name == "buy_attempts_total"@ {
        Some(CounterKind::TradesTotal)
    } else if name == "trades_success"@ || name == "buy_success_total"@ {
        Some(CounterKind::TradesSuccess)
    } else if name == "trades_failed"@ || name == "buy_failure_total"@ {
        Some(CounterKind::TradesFailed)
    } else if name == "candidates_received"@ {
        Some(CounterKind::CandidatesReceived)
    } else if name == "candidates_filtered"@ || name == "buy_attempts_filtered"@ {
        Some(CounterKind::CandidatesFiltered)
    } else if name == "nonce_leases_dropped_auto"@ {
        Some(CounterKind::NonceLeasesDroppedAuto)
    } else if name == "nonce_leases_dropped_explicit"@ {
        Some(CounterKind::NonceLeasesDroppedExplicit)
    } else if name == "nonce_sequence_errors"@ {
        Some(CounterKind::NonceSequenceErrors)
    } else if name == "nonce_enforce_paths"@ {
        Some(CounterKind::NonceEnforcePaths)
    } else {
        None
    }
}

/// The counter that `increment_counter(name)` increments, if any.
pub fn counter_for_name(name: &str) -> (r: Option<CounterKind>)
    ensures
        r == counter_for(name@),
{
    if str_eq(name, "trades_total") || str_eq(name, "buy_attempts_total") {
        Some(CounterKind::TradesTotal)
    } else if str_eq(name, "trades_success") || str_eq(name, "buy_success_total") {
        Some(CounterKind::TradesSuccess)
    } else if str_eq(name, "trades_failed") || str_eq(name, "buy_failure_total") {
        Some(CounterKind::TradesFailed)
    } else if str_eq(name, "candidates_received") {
        Some(CounterKind::CandidatesReceived)
    } else if str_eq(name, "candidates_filtered") || str_eq(name, "buy_attempts_filtered") {
        Some(CounterKind::CandidatesFiltered)
    } else if str_eq(name, "nonce_leases_dropped_auto") {
        Some(CounterKind::NonceLeasesDroppedAuto)
    } else if str_eq(name, "nonce_leases_dropped_explicit") {
        Some(CounterKind::NonceLeasesDroppedExplicit)
    } else if str_eq(name, "nonce_sequence_errors") {
        Some(CounterKind::NonceSequenceErrors)
    } else if str_eq(name, "nonce_enforce_paths") {
        Some(CounterKind::NonceEnforcePaths)
    } else {
        None
    }
}

/// The latency histograms that a timer can record into.
#[derive(Debug, Clone, Copy, PartialEq, Eq, Structural)]
pub enum LatencyHistogram {
    TradeLatency,
    RpcLatency,
    BuildLatency,
}

/// The histogram that a timer name refers to; unknown names refer to none.
pub open spec fn histogram_for(name: Seq<char>) -> Option<LatencyHistogram> {
    if name == "buy_latency_seconds"@ || name == "trade_latency_seconds"@ {
        Some(LatencyHistogram::TradeLatency)
    } else if name == "rpc_latency_seconds"@ {
        Some(LatencyHistogram::RpcLatency)
    } else if name == "build_latency_seconds"@ {
        Some(LatencyHistogram::BuildLatency)
    } else {
        None
    }
}

/// The histogram that a timer named `name` records into, if any.
pub fn histogram_for_name(name: &str) -> (r: Option<LatencyHistogram>)
    ensures
        r == histogram_for(name@),
{
    if str_eq(name, "buy_latency_seconds") || str_eq(name, "trade_latency_seconds") {
        Some(LatencyHistogram::TradeLatency)
    } else if str_eq(name, "rpc_latency_seconds") {
        Some(LatencyHistogram::RpcLatency)
    } else if str_eq(name, "build_latency_seconds") {
        Some(LatencyHistogram::BuildLatency)
    } else {
        None
    }
}

/// Timer helper for measuring operation duration.
pub struct Timer {
    start: Instant,
    histogram_name: Option<String>,
}

impl Timer {
    /// The name of the histogram this timer records into, if it has one.
    pub closed spec fn name_spec(&self) -> Option<Seq<char>> {
        match self.histogram_name {
            Some(n) => Some(n@),
            None => None,
        }
    }

    /// A timer started now, with no histogram.
    pub fn new() -> (t: Self)
        ensures
            t.name_spec() is None,
    {
        Self { start: instant_now(), histogram_name: None }
    }

    /// A timer started now that records into the histogram `histogram_name`.
    pub fn with_name(histogram_name: &str) -> (t: Self)
        ensures
            t.name_spec() == Some(histogram_name@),
    {
        Self { start: instant_now(), histogram_name: Some(histogram_name.to_string()) }
    }

    /// Microseconds since the timer started.
    pub fn elapsed_micros(&self) -> u128 {
        elapsed_micros(&self.start)
    }

    /// Stops the timer: the histogram to record into and the elapsed
    /// microseconds, when the timer has a name that refers to a histogram;
    /// nothing otherwise (no name, or an unknown one).
    pub fn finish(self) -> (r: Option<(LatencyHistogram, u128)>)
        ensures
            match self.name_spec() {
                Some(n) => match histogram_for(n) {
                    Some(h) => r matches Some((h2, _)) && h2 == h,
                    None => r is None,
                },
                None => r is None,
            },
    {
        match self.histogram_name {
            Some(name) => {
                match histogram_for_name(name.as_str()) {
                    Some(h) => Some((h, elapsed_micros(&self.start))),
                    None => None,
                }
            },
            None => None,
        }
    }
}

} // verus!
