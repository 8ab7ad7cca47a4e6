//! Structured log records for pipeline events, and the pipeline context that
//! carries a request's ids and logger from stage to stage.
//!
//! A logger builds records; whoever holds a subscriber emits them.

use vstd::prelude::*;

use crate::clock::unix_time_secs;
use crate::observability::{is_uuid_v4_text, new_uuid_v4_string};
use crate::text::{decimal, push_decimal, push_str};

verus! {

/// The severity of a record.
#[derive(Debug, Clone, Copy, PartialEq, Eq, Structural)]
pub enum LogLevel {
    Debug,
    Info,
    Warn,
    Error,
}

/// One named value of a record.
#[derive(Debug)]
pub struct LogField {
    pub key: &'static str,
    pub value: String,
}

/// A structured record: its level, message, the logger's context id and
/// the named values, in order.
#[derive(Debug)]
pub struct LogRecord {
    pub level: LogLevel,
    pub message: &'static str,
    pub context_id: String,
    pub fields: Vec<LogField>,
}

/// The key and value texts of the fields, in order.
pub open spec fn field_texts(fs: Seq<LogField>) -> Seq<(Seq<char>, Seq<char>)> {
    fs.map_values(|f: LogField| (f.key@, f.value@))
}

/// How a boolean is rendered.
pub open spec fn bool_text(b: bool) -> Seq<char> {
    if b { "true"@ } else { "false"@ }
}

/// How an optional index is rendered (as its debug form).
pub open spec fn opt_index_text(i: Option<usize>) -> Seq<char> {
    match i {
        Some(n) => "Some("@ + decimal(n as nat) + ")"@,
        None => "None"@,
    }
}

fn field(key: &'static str, value: String) -> (f: LogField)
    ensures
        f.key == key,
        f.value == value,
{
    LogField { key, value }
}

fn bool_string(b: bool) -> (s: String)
    ensures
        s@ == bool_text(b),
{
    if b { String::from_str("true") } else { String::from_str("false") }
}

fn decimal_string(n: u128) -> (s: String)
    ensures
        s@ == decimal(n as nat),
{
    let mut s = String::new();
    push_decimal(&mut s, n);
    s
}

fn opt_index_string(i: Option<usize>) -> (s: String)
    ensures
        s@ == opt_index_text(i),
{
    match i {
        Some(n) => {
            let mut s = String::from_str("Some(");
            push_decimal(&mut s, n as u128);
            push_str(&mut s, ")");
            s
        },
        None => String::from_str("None"),
    }
}

/// Structured logger for pipeline events.
#[derive(Debug)]
pub struct StructuredLogger {
    context_id: String,
}

impl Clone for StructuredLogger {
    fn clone(&self) -> (c: Self)
        ensures
            c.context() == self.context(),
    {
        StructuredLogger { context_id: self.context_id.clone() }
    }
}

impl StructuredLogger {
    /// The context id that every record of this logger carries.
    pub closed spec fn context(&self) -> Seq<char> {
        self.context_id@
    }

    /// A logger for the context `context_id`.
    pub fn new(context_id: String) -> (l: Self)
        ensures
            l.context() == context_id@,
    {
        Self { context_id }
    }

    fn record(&self, level: LogLevel, message: &'static str, fields: Vec<LogField>) -> (r: LogRecord)
        ensures
            r.level == level,
            r.message == message,
            r.context_id@ == self.context(),
            r.fields == fields,
    {
        LogRecord { level, message, context_id: self.context_id.clone(), fields }
    }

    /// A candidate went through the pipeline.
    pub fn log_candidate_processed(&self, mint: &str, program: &str, success: bool) -> (r: LogRecord)
        ensures
            r.level == LogLevel::Debug,
            r.message@ == "Candidate processed"@,
            r.context_id@ == self.context(),
            field_texts(r.fields@) == seq![
                ("mint"@, mint@),
                ("program"@, program@),
                ("success"@, bool_text(success)),
            ],
    {
        let fields = vec![
            field("mint", mint.to_string()),
            field("program", program.to_string()),
            field("success", bool_string(success)),
        ];
        let r = self.record(LogLevel::Debug, "Candidate processed", fields);
        assert(field_texts(r.fields@) =~= seq![
            ("mint"@, mint@),
            ("program"@, program@),
            ("success"@, bool_text(success)),
        ]);
        r
    }

    /// A buy is being attempted with `tx_count` transactions.
    pub fn log_buy_attempt(&self, mint: &str, tx_count: usize) -> (r: LogRecord)
        ensures
            r.level == LogLevel::Info,
            r.message@ == "Attempting buy transaction"@,
            r.context_id@ == self.context(),
            field_texts(r.fields@) == seq![("mint"@, mint@), ("tx_count"@, decimal(tx_count as nat))],
    {
        let fields = vec![field("mint", mint.to_string()), field("tx_count", decimal_string(tx_count as u128))];
        let r = self.record(LogLevel::Info, "Attempting buy transaction", fields);
        assert(field_texts(r.fields@) =~= seq![("mint"@, mint@), ("tx_count"@, decimal(tx_count as nat))]);
        r
    }

    /// A buy landed with signature `sig` after `latency_ms`.
    pub fn log_buy_success(&self, mint: &str, sig: &str, latency_ms: u64) -> (r: LogRecord)
        ensures
            r.level == LogLevel::Info,
            r.message@ == "Buy transaction successful"@,
            r.context_id@ == self.context(),
            field_texts(r.fields@) == seq![
                ("mint"@, mint@),
                ("signature"@, sig@),
                ("latency_ms"@, decimal(latency_ms as nat)),
            ],
    {
        let fields = vec![
            field("mint", mint.to_string()),
            field("signature", sig.to_string()),
            field("latency_ms", decimal_string(latency_ms as u128)),
        ];
        let r = self.record(LogLevel::Info, "Buy transaction successful", fields);
        assert(field_texts(r.fields@) =~= seq![
            ("mint"@, mint@),
            ("signature"@, sig@),
            ("latency_ms"@, decimal(latency_ms as nat)),
        ]);
        r
    }

    /// A buy failed with `error` after `latency_ms`.
    pub fn log_buy_failure(&self, mint: &str, error: &str, latency_ms: u64) -> (r: LogRecord)
        ensures
            r.level == LogLevel::Warn,
            r.message@ == "Buy transaction failed"@,
            r.context_id@ == self.context(),
            field_texts(r.fields@) == seq![
                ("mint"@, mint@),
                ("error"@, error@),
                ("latency_ms"@, decimal(latency_ms as nat)),
            ],
    {
        let fields = vec![
            field("mint", mint.to_string()),
            field("error", error.to_string()),
            field("latency_ms", decimal_string(latency_ms as u128)),
        ];
        let r = self.record(LogLevel::Warn, "Buy transaction failed", fields);
        assert(field_texts(r.fields@) =~= seq![
            ("mint"@, mint@),
            ("error"@, error@),
            ("latency_ms"@, decimal(latency_ms as nat)),
        ]);
        r
    }

    /// A sell of `sell_percent` leaving `new_holdings_percent` of the
    /// position; both shares come rendered as text (they are fractions, and
    /// the caller formats them).
    pub fn log_sell_operation(&self, mint: &str, sell_percent: &str, new_holdings_percent: &str) -> (r: LogRecord)
        ensures
            r.level == LogLevel::Info,
            r.message@ == "Sell operation"@,
            r.context_id@ == self.context(),
            field_texts(r.fields@) == seq![
                ("mint"@, mint@),
                ("sell_percent"@, sell_percent@),
                ("new_holdings_percent"@, new_holdings_percent@),
            ],
    {
        let fields = vec![
            field("mint", mint.to_string()),
            field("sell_percent", sell_percent.to_string()),
            field("new_holdings_percent", new_holdings_percent.to_string()),
        ];
        let r = self.record(LogLevel::Info, "Sell operation", fields);
        assert(field_texts(r.fields@) =~= seq![
            ("mint"@, mint@),
            ("sell_percent"@, sell_percent@),
            ("new_holdings_percent"@, new_holdings_percent@),
        ]);
        r
    }

    /// A nonce operation, on the nonce at `index` if there is one.
    pub fn log_nonce_operation(&self, operation: &str, index: Option<usize>, success: bool) -> (r: LogRecord)
        ensures
            r.level == LogLevel::Debug,
            r.message@ == "Nonce operation"@,
            r.context_id@ == self.context(),
            field_texts(r.fields@) == seq![
                ("operation"@, operation@),
                ("index"@, opt_index_text(index)),
                ("success"@, bool_text(success)),
            ],
    {
        let fields = vec![
            field("operation", operation.to_string()),
            field("index", opt_index_string(index)),
            field("success", bool_string(success)),
        ];
        let r = self.record(LogLevel::Debug, "Nonce operation", fields);
        assert(field_texts(r.fields@) =~= seq![
            ("operation"@, operation@),
            ("index"@, opt_index_text(index)),
            ("success"@, bool_text(success)),
        ]);
        r
    }

    /// A warning with `message`.
    pub fn warn(&self, message: &str) -> (r: LogRecord)
        ensures
            r.level == LogLevel::Warn,
            r.message@ == "Warning"@,
            r.context_id@ == self.context(),
            field_texts(r.fields@) == seq![("message"@, message@)],
    {
        let fields = vec![field("message", message.to_string())];
        let r = self.record(LogLevel::Warn, "Warning", fields);
        assert(field_texts(r.fields@) =~= seq![("message"@, message@)]);
        r
    }

    /// An error with `message`.
    pub fn error(&self, message: &str) -> (r: LogRecord)
        ensures
            r.level == LogLevel::Error,
            r.message@ == "Error"@,
            r.context_id@ == self.context(),
            field_texts(r.fields@) == seq![("message"@, message@)],
    {
        let fields = vec![field("message", message.to_string())];
        let r = self.record(LogLevel::Error, "Error", fields);
        assert(field_texts(r.fields@) =~= seq![("message"@, message@)]);
        r
    }
}

/// Pipeline execution context for distributed tracing.
#[derive(Debug)]
pub struct PipelineContext {
    /// Unique request ID
    pub request_id: String,
    /// Trace ID for distributed tracing
    pub trace_id: String,
    /// Span ID
    pub span_id: String,
    /// Parent span ID (if any)
    pub parent_span_id: Option<String>,
    /// Operation name
    pub operation: String,
    /// Timestamp (Unix epoch seconds)
    pub timestamp: u64,
    /// Correlation ID (same as request_id for compatibility)
    pub correlation_id: String,
    /// Structured logger instance
    pub logger: StructuredLogger,
}

impl PipelineContext {
    /// A new root context for `operation`: fresh request, trace and span
    /// ids; the correlation id and the logger's context are the request id.
    pub fn new(operation: &str) -> (c: Self)
        ensures
            is_uuid_v4_text(c.request_id@),
            is_uuid_v4_text(c.trace_id@),
            is_uuid_v4_text(c.span_id@),
            c.parent_span_id is None,
            c.operation@ == operation@,
            c.correlation_id@ == c.request_id@,
            c.logger.context() == c.request_id@,
    {
        let now = unix_time_secs();
        let request_id = new_uuid_v4_string();
        let correlation_id = request_id.clone();
        PipelineContext {
            request_id: request_id.clone(),
            trace_id: new_uuid_v4_string(),
            span_id: new_uuid_v4_string(),
            parent_span_id: None,
            operation: operation.to_string(),
            timestamp: now,
            correlation_id,
            logger: StructuredLogger::new(request_id),
        }
    }

    /// A child context for `operation`: the same request, trace, correlation
    /// and logger, a fresh span id, this span as its parent.
    pub fn child(&self, operation: &str) -> (c: Self)
        ensures
            c.request_id@ == self.request_id@,
            c.trace_id@ == self.trace_id@,
            is_uuid_v4_text(c.span_id@),
            c.parent_span_id matches Some(p) && p@ == self.span_id@,
            c.operation@ == operation@,
            c.correlation_id@ == self.correlation_id@,
            c.logger.context() == self.logger.context(),
    {
        let now = unix_time_secs();
        PipelineContext {
            request_id: self.request_id.clone(),
            trace_id: self.trace_id.clone(),
            span_id: new_uuid_v4_string(),
            parent_span_id: Some(self.span_id.clone()),
            operation: operation.to_string(),
            timestamp: now,
            correlation_id: self.correlation_id.clone(),
            logger: self.logger.clone(),
        }
    }
}

impl Default for PipelineContext {
    fn default() -> (c: Self)
        ensures
            c.operation@ == "default"@,
            c.parent_span_id is None,
    {
        Self::new("default")
    }
}

} // verus!
