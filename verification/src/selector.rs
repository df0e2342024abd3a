//! Selectors: how a policy names a field of a record.

use vstd::prelude::*;

verus! {

/// The plain fields of a log record.
#[derive(Clone, Copy, Debug, PartialEq, Eq, Structural)]
pub enum LogField {
    Unspecified,
    Body,
    SeverityText,
    TraceId,
    SpanId,
    EventName,
    ResourceSchemaUrl,
    ScopeSchemaUrl,
}

/// The plain fields of a metric.
#[derive(Clone, Copy, Debug, PartialEq, Eq, Structural)]
pub enum MetricField {
    Unspecified,
    Name,
    Description,
    Unit,
    ResourceSchemaUrl,
    ScopeSchemaUrl,
    ScopeName,
    ScopeVersion,
}

/// The plain fields of a span.
#[derive(Clone, Copy, Debug, PartialEq, Eq, Structural)]
pub enum TraceField {
    Unspecified,
    Name,
    TraceId,
    SpanId,
    ParentSpanId,
    TraceState,
    ResourceSchemaUrl,
    ScopeSchemaUrl,
    ScopeName,
    ScopeVersion,
}

/// A field of a log record. Attribute selectors carry the key path into the
/// attribute list of their namespace.
#[derive(Clone, Debug, PartialEq, Eq)]
pub enum LogFieldSelector {
    Simple(LogField),
    LogAttribute(Vec<String>),
    ResourceAttribute(Vec<String>),
    ScopeAttribute(Vec<String>),
}

/// A field of a metric.
#[derive(Clone, Debug, PartialEq, Eq)]
pub enum MetricFieldSelector {
    Simple(MetricField),
    DatapointAttribute(Vec<String>),
    ResourceAttribute(Vec<String>),
    ScopeAttribute(Vec<String>),
    /// The kind of the metric's payload.
    Type,
    /// The aggregation temporality of the metric's payload.
    Temporality,
}

/// A field of a span.
#[derive(Clone, Debug, PartialEq, Eq)]
pub enum TraceFieldSelector {
    Simple(TraceField),
    SpanAttribute(Vec<String>),
    ResourceAttribute(Vec<String>),
    ScopeAttribute(Vec<String>),
    SpanKind,
    SpanStatus,
    EventName,
    EventAttribute(Vec<String>),
    LinkTraceId,
    /// Write-only: the sampling threshold recorded in the span's tracestate.
    SamplingThreshold,
}

/// How an identifier that travels as base64 is presented to the policy.
#[derive(Clone, Copy, Debug, PartialEq, Eq, Structural)]
pub enum IdForm {
    /// The stored text, untouched.
    Verbatim,
    /// The decoded bytes as text when they are UTF-8, as hex otherwise.
    Utf8Preferred,
    /// The decoded bytes as lowercase hex.
    Hex,
}

} // verus!
