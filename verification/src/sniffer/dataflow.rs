//! The dataflow between sniffer layers and the events it emits:
//! stream bytes → prefilter → extractor → security → handoff → buy engine.

use vstd::prelude::*;

use crate::account_list::account_items;
use crate::sniffer::extractor::{PremintCandidate, PriorityLevel};
use std::time::Instant;

verus! {

/// Unique identifier for tracing candidates through the pipeline.
pub type CandidateId = u64;

/// Event types for telemetry tracking.
#[derive(Debug)]
pub enum SnifferEvent {
    /// Raw bytes received from the stream
    BytesReceived { trace_id: CandidateId, timestamp: Instant, size: usize },
    /// Transaction passed prefilter
    PrefilterPassed { trace_id: CandidateId, timestamp: Instant, latency_us: u64 },
    /// Transaction rejected by prefilter
    PrefilterRejected { trace_id: CandidateId, timestamp: Instant, reason: &'static str },
    /// Candidate extracted successfully
    CandidateExtracted { trace_id: CandidateId, timestamp: Instant, latency_us: u64, priority: PriorityLevel },
    /// Extraction failed
    ExtractionFailed { trace_id: CandidateId, timestamp: Instant, error: String },
    /// Security validation passed
    SecurityPassed { trace_id: CandidateId, timestamp: Instant, latency_us: u64 },
    /// Security validation failed
    SecurityRejected { trace_id: CandidateId, timestamp: Instant, reason: &'static str },
    /// Candidate sent to handoff
    HandoffSent { trace_id: CandidateId, timestamp: Instant, latency_us: u64, queue_depth: usize },
    /// Candidate dropped due to backpressure
    HandoffDropped { trace_id: CandidateId, timestamp: Instant, reason: &'static str },
}

/// The trace id carried by an event.
pub open spec fn event_trace_id(e: SnifferEvent) -> u64 {
    match e {
        SnifferEvent::BytesReceived { trace_id, .. } => trace_id,
        SnifferEvent::PrefilterPassed { trace_id, .. } => trace_id,
        SnifferEvent::PrefilterRejected { trace_id, .. } => trace_id,
        SnifferEvent::CandidateExtracted { trace_id, .. } => trace_id,
        SnifferEvent::ExtractionFailed { trace_id, .. } => trace_id,
        SnifferEvent::SecurityPassed { trace_id, .. } => trace_id,
        SnifferEvent::SecurityRejected { trace_id, .. } => trace_id,
        SnifferEvent::HandoffSent { trace_id, .. } => trace_id,
        SnifferEvent::HandoffDropped { trace_id, .. } => trace_id,
    }
}

/// The timestamp carried by an event.
pub open spec fn event_timestamp(e: SnifferEvent) -> Instant {
    match e {
        SnifferEvent::BytesReceived { timestamp, .. } => timestamp,
        SnifferEvent::PrefilterPassed { timestamp, .. } => timestamp,
        SnifferEvent::PrefilterRejected { timestamp, .. } => timestamp,
        SnifferEvent::CandidateExtracted { timestamp, .. } => timestamp,
        SnifferEvent::ExtractionFailed { timestamp, .. } => timestamp,
        SnifferEvent::SecurityPassed { timestamp, .. } => timestamp,
        SnifferEvent::SecurityRejected { timestamp, .. } => timestamp,
        SnifferEvent::HandoffSent { timestamp, .. } => timestamp,
        SnifferEvent::HandoffDropped { timestamp, .. } => timestamp,
    }
}

/// The name of an event's kind.
pub open spec fn event_type_name(e: SnifferEvent) -> Seq<char> {
    match e {
        SnifferEvent::BytesReceived { .. } => "bytes_received"@,
        SnifferEvent::PrefilterPassed { .. } => "prefilter_passed"@,
        SnifferEvent::PrefilterRejected { .. } => "prefilter_rejected"@,
        SnifferEvent::CandidateExtracted { .. } => "candidate_extracted"@,
        SnifferEvent::ExtractionFailed { .. } => "extraction_failed"@,
        SnifferEvent::SecurityPassed { .. } => "security_passed"@,
        SnifferEvent::SecurityRejected { .. } => "security_rejected"@,
        SnifferEvent::HandoffSent { .. } => "handoff_sent"@,
        SnifferEvent::HandoffDropped { .. } => "handoff_dropped"@,
    }
}

impl Clone for SnifferEvent {
    fn clone(&self) -> (c: Self)
        ensures
            c == *self,
    {
        match self {
            SnifferEvent::BytesReceived { trace_id, timestamp, size } =>
                SnifferEvent::BytesReceived { trace_id: *trace_id, timestamp: *timestamp, size: *size },
            SnifferEvent::PrefilterPassed { trace_id, timestamp, latency_us } =>
                SnifferEvent::PrefilterPassed { trace_id: *trace_id, timestamp: *timestamp, latency_us: *latency_us },
            SnifferEvent::PrefilterRejected { trace_id, timestamp, reason } =>
                SnifferEvent::PrefilterRejected { trace_id: *trace_id, timestamp: *timestamp, reason: *reason },
            SnifferEvent::CandidateExtracted { trace_id, timestamp, latency_us, priority } =>
                SnifferEvent::CandidateExtracted {
                    trace_id: *trace_id,
                    timestamp: *timestamp,
                    latency_us: *latency_us,
                    priority: *priority,
                },
            SnifferEvent::ExtractionFailed { trace_id, timestamp, error } =>
                SnifferEvent::ExtractionFailed { trace_id: *trace_id, timestamp: *timestamp, error: error.clone() },
            SnifferEvent::SecurityPassed { trace_id, timestamp, latency_us } =>
                SnifferEvent::SecurityPassed { trace_id: *trace_id, timestamp: *timestamp, latency_us: *latency_us },
            SnifferEvent::SecurityRejected { trace_id, timestamp, reason } =>
                SnifferEvent::SecurityRejected { trace_id: *trace_id, timestamp: *timestamp, reason: *reason },
            SnifferEvent::HandoffSent { trace_id, timestamp, latency_us, queue_depth } =>
                SnifferEvent::HandoffSent {
                    trace_id: *trace_id,
                    timestamp: *timestamp,
                    latency_us: *latency_us,
                    queue_depth: *queue_depth,
                },
            SnifferEvent::HandoffDropped { trace_id, timestamp, reason } =>
                SnifferEvent::HandoffDropped { trace_id: *trace_id, timestamp: *timestamp, reason: *reason },
        }
    }
}

impl SnifferEvent {
    /// The trace id of this event.
    pub fn trace_id(&self) -> (r: CandidateId)
        ensures
            r == event_trace_id(*self),
    {
        match self {
            SnifferEvent::BytesReceived { trace_id, .. } => *trace_id,
            SnifferEvent::PrefilterPassed { trace_id, .. } => *trace_id,
            SnifferEvent::PrefilterRejected { trace_id, .. } => *trace_id,
            SnifferEvent::CandidateExtracted { trace_id, .. } => *trace_id,
            SnifferEvent::ExtractionFailed { trace_id, .. } => *trace_id,
            SnifferEvent::SecurityPassed { trace_id, .. } => *trace_id,
            SnifferEvent::SecurityRejected { trace_id, .. } => *trace_id,
            SnifferEvent::HandoffSent { trace_id, .. } => *trace_id,
            SnifferEvent::HandoffDropped { trace_id, .. } => *trace_id,
        }
    }

    /// The timestamp of this event.
    pub fn timestamp(&self) -> (r: Instant)
        ensures
            r == event_timestamp(*self),
    {
        match self {
            SnifferEvent::BytesReceived { timestamp, .. } => *timestamp,
            SnifferEvent::PrefilterPassed { timestamp, .. } => *timestamp,
            SnifferEvent::PrefilterRejected { timestamp, .. } => *timestamp,
            SnifferEvent::CandidateExtracted { timestamp, .. } => *timestamp,
            SnifferEvent::ExtractionFailed { timestamp, .. } => *timestamp,
            SnifferEvent::SecurityPassed { timestamp, .. } => *timestamp,
            SnifferEvent::SecurityRejected { timestamp, .. } => *timestamp,
            SnifferEvent::HandoffSent { timestamp, .. } => *timestamp,
            SnifferEvent::HandoffDropped { timestamp, .. } => *timestamp,
        }
    }

    /// The name of this event's kind.
    pub fn event_type(&self) -> (r: &'static str)
        ensures
            r@ == event_type_name(*self),
    {
        match self {
            SnifferEvent::BytesReceived { .. } => "bytes_received",
            SnifferEvent::PrefilterPassed { .. } => "prefilter_passed",
            SnifferEvent::PrefilterRejected { .. } => "prefilter_rejected",
            SnifferEvent::CandidateExtracted { .. } => "candidate_extracted",
            SnifferEvent::ExtractionFailed { .. } => "extraction_failed",
            SnifferEvent::SecurityPassed { .. } => "security_passed",
            SnifferEvent::SecurityRejected { .. } => "security_rejected",
            SnifferEvent::HandoffSent { .. } => "handoff_sent",
            SnifferEvent::HandoffDropped { .. } => "handoff_dropped",
        }
    }
}

/// A candidate that passed security validation, with the time the
/// validation took.
#[derive(Clone)]
pub struct ValidatedCandidate {
    pub candidate: PremintCandidate,
    pub validation_latency_us: u64,
}

impl ValidatedCandidate {
    /// Wraps a validated candidate.
    pub fn new(candidate: PremintCandidate, validation_latency_us: u64) -> (v: Self)
        ensures
            v.candidate == candidate,
            v.validation_latency_us == validation_latency_us,
    {
        Self { candidate, validation_latency_us }
    }

    /// The underlying candidate.
    pub fn into_inner(self) -> (c: PremintCandidate)
        ensures
            c == self.candidate,
    {
        self.candidate
    }
}

/// A processing stage that sees only its own input: each module of the
/// pipeline implements it for what it needs and nothing more.
pub trait DomainBoundary {
    type Input;
    type Output;
    type Error;

    /// Process input within domain boundaries.
    fn process(&self, input: Self::Input) -> Result<Self::Output, Self::Error>;
}

} // verus!
