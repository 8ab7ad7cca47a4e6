//! Sniffer telemetry: event counters, latency samples, their JSON snapshot,
//! and the handoff's backpressure diagnostics.

use vstd::prelude::*;

use crate::sniffer::extractor::ExtractError;
use crate::sniffer::pipeline::TxOutcome;
use crate::engine::bounded_push;
use crate::text::{decimal, push_decimal, push_str};

verus! {

/// How many latency samples are kept.
pub const LATENCY_SAMPLE_CAP: usize = 1000;

/// How many queue-wait samples are kept.
pub const QUEUE_WAIT_SAMPLE_CAP: usize = 1000;

/// A counter after one more event; it wraps around as an atomic counter does.
pub open spec fn bump(c: u64) -> u64 {
    if c == u64::MAX { 0 } else { (c + 1) as u64 }
}

fn bumped(c: u64) -> (r: u64)
    ensures
        r == bump(c),
{
    if c == u64::MAX { 0 } else { c + 1 }
}

/// The latency samples after recording `x`: appended while fewer than the
/// cap are held, else written over the slot `x % cap`.
pub open spec fn record_sample(h: Seq<u64>, x: u64) -> Seq<u64> {
    if h.len() < 1000 { h.push(x) } else { h.update((x % 1000) as int, x) }
}

/// Counters of what the sniffer saw and did.
pub struct SnifferMetrics {
    /// Total transactions seen
    pub tx_seen: u64,
    /// Transactions filtered out
    pub tx_filtered: u64,
    /// Candidates sent to buy_engine
    pub candidates_sent: u64,
    /// Candidates dropped due to full buffer
    pub dropped_full_buffer: u64,
    /// Security drops (malformed/invalid)
    pub security_drop_count: u64,
    /// Backpressure events
    pub backpressure_events: u64,
    /// Stream reconnects
    pub reconnect_count: u64,
    /// HIGH priority candidates sent
    pub high_priority_sent: u64,
    /// LOW priority candidates sent
    pub low_priority_sent: u64,
    /// HIGH priority candidates dropped
    pub high_priority_dropped: u64,
    /// Mint extraction errors
    pub mint_extract_errors: u64,
    /// Account extraction errors
    pub account_extract_errors: u64,
    /// Current stream buffer depth (approximate)
    pub stream_buffer_depth: u64,
    /// Latency samples, in microseconds
    pub latency_samples: Vec<u64>,
}

/// The JSON snapshot of the counters, in their declared order.
pub open spec fn snapshot_text(m: SnifferMetrics) -> Seq<char> {
    "{\"tx_seen\":"@ + decimal(m.tx_seen as nat)
        + ",\"tx_filtered\":"@ + decimal(m.tx_filtered as nat)
        + ",\"candidates_sent\":"@ + decimal(m.candidates_sent as nat)
        + ",\"dropped_full_buffer\":"@ + decimal(m.dropped_full_buffer as nat)
        + ",\"security_drop_count\":"@ + decimal(m.security_drop_count as nat)
        + ",\"backpressure_events\":"@ + decimal(m.backpressure_events as nat)
        + ",\"reconnect_count\":"@ + decimal(m.reconnect_count as nat)
        + ",\"high_priority_sent\":"@ + decimal(m.high_priority_sent as nat)
        + ",\"low_priority_sent\":"@ + decimal(m.low_priority_sent as nat)
        + ",\"high_priority_dropped\":"@ + decimal(m.high_priority_dropped as nat)
        + ",\"mint_extract_errors\":"@ + decimal(m.mint_extract_errors as nat)
        + ",\"account_extract_errors\":"@ + decimal(m.account_extract_errors as nat)
        + ",\"stream_buffer_depth\":"@ + decimal(m.stream_buffer_depth as nat)
        + "}"@
}

/// Recording a latency never takes the samples past 1000, and the recorded
/// latency is among them afterwards.
pub proof fn lemma_record_sample_bounded(h: Seq<u64>, x: u64)
    requires
        h.len() <= 1000,
    ensures
        record_sample(h, x).len() <= 1000,
        record_sample(h, x).contains(x),
{
    let r = record_sample(h, x);
    if h.len() < 1000 {
        assert(r[h.len() as int] == x);
    } else {
        assert(r[(x % 1000) as int] == x);
    }
}

impl SnifferMetrics {
    /// All counters at zero.
    pub open spec fn counters_zero(&self) -> bool {
        &&& self.tx_seen == 0
        &&& self.tx_filtered == 0
        &&& self.candidates_sent == 0
        &&& self.dropped_full_buffer == 0
        &&& self.security_drop_count == 0
        &&& self.backpressure_events == 0
        &&& self.reconnect_count == 0
        &&& self.high_priority_sent == 0
        &&& self.low_priority_sent == 0
        &&& self.high_priority_dropped == 0
        &&& self.mint_extract_errors == 0
        &&& self.account_extract_errors == 0
        &&& self.stream_buffer_depth == 0
    }

    /// Fresh metrics: every counter zero, no samples.
    pub fn new() -> (m: Self)
        ensures
            m.counters_zero(),
            m.latency_samples@ == Seq::<u64>::empty(),
    {
        SnifferMetrics {
            tx_seen: 0,
            tx_filtered: 0,
            candidates_sent: 0,
            dropped_full_buffer: 0,
            security_drop_count: 0,
            backpressure_events: 0,
            reconnect_count: 0,
            high_priority_sent: 0,
            low_priority_sent: 0,
            high_priority_dropped: 0,
            mint_extract_errors: 0,
            account_extract_errors: 0,
            stream_buffer_depth: 0,
            latency_samples: Vec::new(),
        }
    }

    /// The counters as a JSON object, for Prometheus/Grafana export.
    pub fn snapshot(&self) -> (r: String)
        ensures
            r@ == snapshot_text(*self),
    {
        let mut s = String::new();
        push_str(&mut s, "{\"tx_seen\":");
        push_decimal(&mut s, self.tx_seen as u128);
        push_str(&mut s, ",\"tx_filtered\":");
        push_decimal(&mut s, self.tx_filtered as u128);
        push_str(&mut s, ",\"candidates_sent\":");
        push_decimal(&mut s, self.candidates_sent as u128);
        push_str(&mut s, ",\"dropped_full_buffer\":");
        push_decimal(&mut s, self.dropped_full_buffer as u128);
        push_str(&mut s, ",\"security_drop_count\":");
        push_decimal(&mut s, self.security_drop_count as u128);
        push_str(&mut s, ",\"backpressure_events\":");
        push_decimal(&mut s, self.backpressure_events as u128);
        push_str(&mut s, ",\"reconnect_count\":");
        push_decimal(&mut s, self.reconnect_count as u128);
        push_str(&mut s, ",\"high_priority_sent\":");
        push_decimal(&mut s, self.high_priority_sent as u128);
        push_str(&mut s, ",\"low_priority_sent\":");
        push_decimal(&mut s, self.low_priority_sent as u128);
        push_str(&mut s, ",\"high_priority_dropped\":");
        push_decimal(&mut s, self.high_priority_dropped as u128);
        push_str(&mut s, ",\"mint_extract_errors\":");
        push_decimal(&mut s, self.mint_extract_errors as u128);
        push_str(&mut s, ",\"account_extract_errors\":");
        push_decimal(&mut s, self.account_extract_errors as u128);
        push_str(&mut s, ",\"stream_buffer_depth\":");
        push_decimal(&mut s, self.stream_buffer_depth as u128);
        push_str(&mut s, "}");
        s
    }

    /// Records one latency sample: appended while fewer than 1000 are held,
    /// else written over the slot `latency_us % 1000`.
    pub fn record_latency(&mut self, latency_us: u64)
        ensures
            final(self).latency_samples@ == record_sample(old(self).latency_samples@, latency_us),
    {
        if self.latency_samples.len() < LATENCY_SAMPLE_CAP {
            self.latency_samples.push(latency_us);
        } else {
            let idx = (latency_us % 1000) as usize;
            self.latency_samples.set(idx, latency_us);
        }
    }

    /// The latency samples held, in slot order.
    pub fn latency_samples(&self) -> (v: Vec<u64>)
        ensures
            v@ == self.latency_samples@,
    {
        self.latency_samples.clone()
    }

    /// Sets every counter to zero and forgets the samples.
    pub fn reset(&mut self)
        ensures
            final(self).counters_zero(),
            final(self).latency_samples@ == Seq::<u64>::empty(),
    {
        *self = SnifferMetrics::new();
    }

    /// Counts a transaction taken from the stream.
    pub fn record_seen(&mut self)
        ensures
            *final(self) == (SnifferMetrics { tx_seen: bump(old(self).tx_seen), ..*old(self) }),
    {
        self.tx_seen = bumped(self.tx_seen);
    }

    /// The sniffer's health: it runs, its health flag is up, and it has
    /// reconnected fewer than ten times.
    pub fn healthy(&self, running: bool, health_ok: bool) -> (r: bool)
        ensures
            r == (running && health_ok && self.reconnect_count < 10),
    {
        running && health_ok && self.reconnect_count < 10
    }

    /// Counts what the hot path made of a transaction: a rejection by the
    /// sanity check or the inline validation is a security drop, a prefilter
    /// rejection a filtered transaction, a failed extraction a mint or an
    /// account error; an accepted candidate is counted when it is sent.
    pub fn record_outcome(&mut self, outcome: &TxOutcome)
        ensures
            *final(self) == match *outcome {
                TxOutcome::SanityRejected | TxOutcome::ValidationRejected =>
                    SnifferMetrics { security_drop_count: bump(old(self).security_drop_count), ..*old(self) },
                TxOutcome::Filtered =>
                    SnifferMetrics { tx_filtered: bump(old(self).tx_filtered), ..*old(self) },
                TxOutcome::ExtractionFailed(ExtractError::MintExtract(_)) =>
                    SnifferMetrics { mint_extract_errors: bump(old(self).mint_extract_errors), ..*old(self) },
                TxOutcome::ExtractionFailed(ExtractError::AccountExtract(_)) =>
                    SnifferMetrics { account_extract_errors: bump(old(self).account_extract_errors), ..*old(self) },
                TxOutcome::Accepted(_) => *old(self),
            },
    {
        match outcome {
            TxOutcome::SanityRejected | TxOutcome::ValidationRejected => {
                self.security_drop_count = bumped(self.security_drop_count);
            },
            TxOutcome::Filtered => {
                self.tx_filtered = bumped(self.tx_filtered);
            },
            TxOutcome::ExtractionFailed(ExtractError::MintExtract(_)) => {
                self.mint_extract_errors = bumped(self.mint_extract_errors);
            },
            TxOutcome::ExtractionFailed(ExtractError::AccountExtract(_)) => {
                self.account_extract_errors = bumped(self.account_extract_errors);
            },
            TxOutcome::Accepted(_) => {},
        }
    }
}

/// The histogram bucket of a queue wait: under 10 us, under 100 us, under
/// 1000 us, or longer.
pub open spec fn queue_wait_bucket(wait_us: u64) -> int {
    if wait_us < 10 {
        0
    } else if wait_us < 100 {
        1
    } else if wait_us < 1000 {
        2
    } else {
        3
    }
}

/// Handoff diagnostics for backpressure analysis.
pub struct HandoffDiagnostics {
    /// Dropped high-priority candidates
    pub dropped_high_priority: u64,
    /// Dropped low-priority candidates
    pub dropped_low_priority: u64,
    /// Queue wait time samples (microseconds), oldest first
    pub queue_wait_samples: Vec<u64>,
    /// Queue wait histogram buckets (0-10us, 10-100us, 100-1000us, 1000+us)
    pub queue_wait_histogram: [u64; 4],
}

impl HandoffDiagnostics {
    /// No drops, no samples, empty histogram.
    pub fn new() -> (d: Self)
        ensures
            d.dropped_high_priority == 0,
            d.dropped_low_priority == 0,
            d.queue_wait_samples@ == Seq::<u64>::empty(),
            d.queue_wait_histogram@ == seq![0u64, 0u64, 0u64, 0u64],
    {
        HandoffDiagnostics {
            dropped_high_priority: 0,
            dropped_low_priority: 0,
            queue_wait_samples: Vec::new(),
            queue_wait_histogram: [0u64; 4],
        }
    }

    /// Counts a dropped candidate under its priority.
    pub fn record_drop(&mut self, is_high_priority: bool)
        ensures
            *final(self) == if is_high_priority {
                HandoffDiagnostics { dropped_high_priority: bump(old(self).dropped_high_priority), ..*old(self) }
            } else {
                HandoffDiagnostics { dropped_low_priority: bump(old(self).dropped_low_priority), ..*old(self) }
            },
    {
        if is_high_priority {
            self.dropped_high_priority = bumped(self.dropped_high_priority);
        } else {
            self.dropped_low_priority = bumped(self.dropped_low_priority);
        }
    }

    /// Records a queue wait: kept among the newest 1000 samples, and counted
    /// in its histogram bucket.
    pub fn record_queue_wait(&mut self, wait_us: u64)
        ensures
            final(self).dropped_high_priority == old(self).dropped_high_priority,
            final(self).dropped_low_priority == old(self).dropped_low_priority,
            final(self).queue_wait_samples@ == bounded_push(old(self).queue_wait_samples@, wait_us, 1000),
            final(self).queue_wait_histogram@ == old(self).queue_wait_histogram@.update(
                queue_wait_bucket(wait_us),
                bump(old(self).queue_wait_histogram@[queue_wait_bucket(wait_us)]),
            ),
    {
        if self.queue_wait_samples.len() >= QUEUE_WAIT_SAMPLE_CAP {
            let _ = self.queue_wait_samples.remove(0);
        }
        self.queue_wait_samples.push(wait_us);
        proof {
            let h = old(self).queue_wait_samples@;
            assert(h.len() >= 1000 ==> h.remove(0) =~= h.drop_first());
        }
        let bucket: usize = if wait_us < 10 {
            0
        } else if wait_us < 100 {
            1
        } else if wait_us < 1000 {
            2
        } else {
            3
        };
        let v = bumped(self.queue_wait_histogram[bucket]);
        self.queue_wait_histogram[bucket] = v;
    }

    /// The queue wait histogram.
    pub fn get_histogram(&self) -> (h: [u64; 4])
        ensures
            h@ == self.queue_wait_histogram@,
    {
        self.queue_wait_histogram
    }

    /// Forgets all drops and samples.
    pub fn reset(&mut self)
        ensures
            final(self).dropped_high_priority == 0,
            final(self).dropped_low_priority == 0,
            final(self).queue_wait_samples@ == Seq::<u64>::empty(),
            final(self).queue_wait_histogram@ == seq![0u64, 0u64, 0u64, 0u64],
    {
        *self = HandoffDiagnostics::new();
    }
}

} // verus!
