//! Correlation ids and trace contexts that tie the work of one request
//! together across components.

use vstd::prelude::*;

use crate::clock::unix_time_secs;

verus! {

/// A lowercase hexadecimal digit.
pub open spec fn is_lower_hex(c: char) -> bool {
    ('0' <= c && c <= '9') || ('a' <= c && c <= 'f')
}

/// The hyphenated text of a random (version 4, RFC 4122 variant) UUID:
/// 36 characters, hyphens at 8, 13, 18 and 23, lowercase hex digits
/// elsewhere, the version digit `4` at 14 and a variant digit among
/// `8`, `9`, `a`, `b` at 19.
pub open spec fn is_uuid_v4_text(s: Seq<char>) -> bool {
    &&& s.len() == 36
    &&& forall|i: int| 0 <= i < 36 ==>
        if i == 8 || i == 13 || i == 18 || i == 23 { #[trigger] s[i] == '-' } else { is_lower_hex(s[i]) }
    &&& s[14] == '4'
    &&& (s[19] == '8' || s[19] == '9' || s[19] == 'a' || s[19] == 'b')
}

/// `uuid::Uuid::new_v4` rendered by its `Display`: a fresh random UUID in
/// hyphenated lowercase form. The value is random; its form is what the
/// crate fixes (the version and variant bits are set, the rest is hex).
#[verifier::external_body]
pub(crate) fn new_uuid_v4_string() -> (s: String)
    ensures
        is_uuid_v4_text(s@),
{
    uuid::Uuid::new_v4().to_string()
}

/// Correlation ID for tracking requests across components.
#[derive(Debug, PartialEq, Eq, Hash)]
pub struct CorrelationId(pub String);

impl View for CorrelationId {
    type V = Seq<char>;

    open spec fn view(&self) -> Seq<char> {
        self.0@
    }
}

impl Clone for CorrelationId {
    fn clone(&self) -> (c: Self)
        ensures
            c@ == self@,
    {
        CorrelationId(self.0.clone())
    }
}

impl CorrelationId {
    /// A fresh random correlation id (a version 4 UUID).
    pub fn new() -> (c: Self)
        ensures
            is_uuid_v4_text(c@),
    {
        CorrelationId(new_uuid_v4_string())
    }

    /// A correlation id with the given text.
    pub fn from_string(s: String) -> (c: Self)
        ensures
            c@ == s@,
    {
        CorrelationId(s)
    }

    /// The id as displayed: its text.
    pub fn to_string(&self) -> (r: String)
        ensures
            r@ == self@,
    {
        self.0.clone()
    }

    /// The id's text.
    pub fn as_str(&self) -> (r: &str)
        ensures
            r@ == self@,
    {
        self.0.as_str()
    }
}

impl Default for CorrelationId {
    fn default() -> (c: Self)
        ensures
            is_uuid_v4_text(c@),
    {
        Self::new()
    }
}

impl From<String> for CorrelationId {
    fn from(s: String) -> (c: Self) {
        CorrelationId(s)
    }
}

impl vstd::std_specs::convert::FromSpecImpl<String> for CorrelationId {
    open spec fn obeys_from_spec() -> bool {
        true
    }

    open spec fn from_spec(v: String) -> CorrelationId {
        CorrelationId(v)
    }
}

/// Trace context for distributed tracing: trace, span and correlation ids
/// for one operation, with its parent span, name and creation time.
#[derive(Debug)]
pub struct TraceContext {
    /// Unique trace identifier for the entire operation
    pub trace_id: String,
    /// Unique span identifier for this specific operation
    pub span_id: String,
    /// Correlation ID for request tracking
    pub correlation_id: CorrelationId,
    /// Optional parent span ID
    pub parent_span_id: Option<String>,
    /// Operation name
    pub operation: String,
    /// Creation timestamp (Unix epoch seconds)
    pub timestamp: u64,
}

impl TraceContext {
    /// A new root context for `operation`: fresh trace, span and correlation
    /// ids, no parent, stamped with the current Unix time.
    pub fn new(operation: &str) -> (t: Self)
        ensures
            is_uuid_v4_text(t.trace_id@),
            is_uuid_v4_text(t.span_id@),
            is_uuid_v4_text(t.correlation_id@),
            t.parent_span_id is None,
            t.operation@ == operation@,
    {
        let now = unix_time_secs();
        TraceContext {
            trace_id: new_uuid_v4_string(),
            span_id: new_uuid_v4_string(),
            correlation_id: CorrelationId::new(),
            parent_span_id: None,
            operation: operation.to_string(),
            timestamp: now,
        }
    }

    /// A child span of this context for `operation`: the same trace and
    /// correlation, a fresh span id, this span as its parent.
    pub fn child_span(&self, operation: &str) -> (t: Self)
        ensures
            t.trace_id@ == self.trace_id@,
            is_uuid_v4_text(t.span_id@),
            t.correlation_id@ == self.correlation_id@,
            t.parent_span_id matches Some(p) && p@ == self.span_id@,
            t.operation@ == operation@,
    {
        let now = unix_time_secs();
        TraceContext {
            trace_id: self.trace_id.clone(),
            span_id: new_uuid_v4_string(),
            correlation_id: self.correlation_id.clone(),
            parent_span_id: Some(self.span_id.clone()),
            operation: operation.to_string(),
            timestamp: now,
        }
    }

    /// The trace id.
    pub fn trace_id(&self) -> (r: &str)
        ensures
            r@ == self.trace_id@,
    {
        self.trace_id.as_str()
    }

    /// The span id.
    pub fn span_id(&self) -> (r: &str)
        ensures
            r@ == self.span_id@,
    {
        self.span_id.as_str()
    }

    /// The correlation id.
    pub fn correlation_id(&self) -> (r: &CorrelationId)
        ensures
            *r == self.correlation_id,
    {
        &self.correlation_id
    }
}

impl Default for TraceContext {
    fn default() -> (t: Self)
        ensures
            is_uuid_v4_text(t.trace_id@),
            is_uuid_v4_text(t.span_id@),
            is_uuid_v4_text(t.correlation_id@),
            t.parent_span_id is None,
            t.operation@ == "default"@,
    {
        Self::new("default")
    }
}

} // verus!
