//! The transaction sniffer: byte filters, candidate extraction, inline
//! security checks, the hot path, the stream, error types, lifecycle
//! supervision and telemetry.

pub mod config;
pub mod dataflow;
pub mod errors;
pub mod extractor;
pub mod pipeline;
pub mod prefilter;
pub mod security;
pub mod stream;
pub mod supervisor;
pub mod telemetry;
