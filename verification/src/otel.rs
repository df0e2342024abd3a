//! OpenTelemetry-shaped records.
//!
//! The types follow the JSON form of the OTLP messages: identifiers are base64
//! strings, span kind and status code are symbolic names, and 64-bit numbers
//! travel as free-form JSON. A double is held as its IEEE 754 bit pattern.

use vstd::prelude::*;
use crate::json::{json_i64, json_str};
use crate::text::str_view;

verus! {

// ─── Common ──────────────────────────────────────────────────────────

#[derive(Debug, Default, PartialEq)]
pub struct Resource {
    pub attributes: Vec<KeyValue>,
    pub dropped_attributes_count: u32,
    pub entity_refs: Vec<serde_json::Value>,
}

#[derive(Debug, Default, PartialEq)]
pub struct InstrumentationScope {
    pub name: String,
    pub version: String,
    pub attributes: Vec<KeyValue>,
    pub dropped_attributes_count: u32,
}

/// One attribute. Keys need not be unique within a list; the first entry
/// with a key is the one that is read.
#[derive(Debug, Default, PartialEq)]
pub struct KeyValue {
    pub key: String,
    pub value: Option<AnyValue>,
}

/// An attribute value. At most one of the fields is expected to be set; only
/// `string_value` and `kvlist_value` are ever read.
#[derive(Debug, Default, PartialEq)]
pub struct AnyValue {
    pub string_value: Option<String>,
    pub bool_value: Option<bool>,
    pub int_value: Option<serde_json::Value>,
    /// Bit pattern of the double.
    pub double_value: Option<u64>,
    pub array_value: Option<serde_json::Value>,
    pub kvlist_value: Option<Kvlist>,
    pub bytes_value: Option<String>,
}

/// The payload of `AnyValue::kvlist_value`.
///
/// Lookups descend into `values`. `payload` is the value as it came; it is
/// carried along and never read.
#[derive(Debug, Default, PartialEq)]
pub struct Kvlist {
    /// The nested attribute list, when the payload is one.
    pub values: Option<Vec<KeyValue>>,
    pub payload: serde_json::Value,
}

// ─── Logs ────────────────────────────────────────────────────────────

#[derive(Debug, Default, PartialEq)]
pub struct LogsData {
    pub resource_logs: Vec<ResourceLogs>,
}

#[derive(Debug, Default, PartialEq)]
pub struct ResourceLogs {
    pub resource: Option<Resource>,
    pub scope_logs: Vec<ScopeLogs>,
    pub schema_url: String,
}

#[derive(Debug, Default, PartialEq)]
pub struct ScopeLogs {
    pub scope: Option<InstrumentationScope>,
    pub log_records: Vec<LogRecord>,
    pub schema_url: String,
}

#[derive(Debug, Default, PartialEq)]
pub struct LogRecord {
    pub time_unix_nano: serde_json::Value,
    pub observed_time_unix_nano: serde_json::Value,
    pub severity_number: String,
    pub severity_text: String,
    pub body: Option<AnyValue>,
    pub attributes: Vec<KeyValue>,
    pub dropped_attributes_count: u32,
    pub flags: u32,
    pub trace_id: String,
    pub span_id: String,
    pub event_name: String,
}

// ─── Metrics ─────────────────────────────────────────────────────────

#[derive(Debug, Default, PartialEq)]
pub struct MetricsData {
    pub resource_metrics: Vec<ResourceMetrics>,
}

#[derive(Debug, Default, PartialEq)]
pub struct ResourceMetrics {
    pub resource: Option<Resource>,
    pub scope_metrics: Vec<ScopeMetrics>,
    pub schema_url: String,
}

#[derive(Debug, Default, PartialEq)]
pub struct ScopeMetrics {
    pub scope: Option<InstrumentationScope>,
    pub metrics: Vec<Metric>,
    pub schema_url: String,
}

#[derive(Debug, Default, PartialEq)]
pub struct Metric {
    pub name: String,
    pub description: String,
    pub unit: String,
    pub metadata: Vec<KeyValue>,
    pub data: Option<MetricData>,
}

#[derive(Debug, PartialEq)]
pub enum MetricData {
    Gauge(Gauge),
    Sum(Sum),
    Histogram(Histogram),
    ExponentialHistogram(ExponentialHistogram),
    Summary(Summary),
}

/// The tag of a payload's kind.
pub open spec fn type_tag(data: MetricData) -> Seq<char> {
    match data {
        MetricData::Gauge(_) => "METRIC_TYPE_GAUGE"@,
        MetricData::Sum(_) => "METRIC_TYPE_SUM"@,
        MetricData::Histogram(_) => "METRIC_TYPE_HISTOGRAM"@,
        MetricData::ExponentialHistogram(_) => "METRIC_TYPE_EXPONENTIAL_HISTOGRAM"@,
        MetricData::Summary(_) => "METRIC_TYPE_SUMMARY"@,
    }
}

/// The temporality tag for a numeric code: 1 is delta, 2 is cumulative.
pub open spec fn temporality_of_code(code: i64) -> Option<Seq<char>> {
    if code == 1 {
        Some("AGGREGATION_TEMPORALITY_DELTA"@)
    } else if code == 2 {
        Some("AGGREGATION_TEMPORALITY_CUMULATIVE"@)
    } else {
        None
    }
}

/// The temporality tag for a symbolic name: the two tags stand for
/// themselves.
pub open spec fn temporality_of_name(name: Seq<char>) -> Option<Seq<char>> {
    if name == "AGGREGATION_TEMPORALITY_DELTA"@ || name == "AGGREGATION_TEMPORALITY_CUMULATIVE"@ {
        Some(name)
    } else {
        None
    }
}

/// The temporality tag for a value that was read as a number `code` or as a
/// string `name`.
pub open spec fn temporality_tag(code: Option<i64>, name: Option<Seq<char>>) -> Option<Seq<char>> {
    match code {
        Some(n) => temporality_of_code(n),
        None => match name {
            Some(s) => temporality_of_name(s),
            None => None,
        },
    }
}

/// The temporality tag of a payload. Gauges and summaries have none.
pub open spec fn temporality(data: MetricData) -> Option<Seq<char>> {
    match data {
        MetricData::Sum(s) => temporality_tag(
            json_i64(s.aggregation_temporality),
            json_str(s.aggregation_temporality),
        ),
        MetricData::Histogram(h) => temporality_tag(
            json_i64(h.aggregation_temporality),
            json_str(h.aggregation_temporality),
        ),
        MetricData::ExponentialHistogram(eh) => temporality_tag(
            json_i64(eh.aggregation_temporality),
            json_str(eh.aggregation_temporality),
        ),
        _ => None,
    }
}

/// The attributes of a payload's first data point. A payload without data
/// points has none, and the data points of an exponential histogram are not
/// addressed.
pub open spec fn first_attributes(data: MetricData) -> Seq<KeyValue> {
    match data {
        MetricData::Gauge(g) => if g.data_points@.len() > 0 {
            g.data_points@[0].attributes@
        } else {
            Seq::empty()
        },
        MetricData::Sum(s) => if s.data_points@.len() > 0 {
            s.data_points@[0].attributes@
        } else {
            Seq::empty()
        },
        MetricData::Histogram(h) => if h.data_points@.len() > 0 {
            h.data_points@[0].attributes@
        } else {
            Seq::empty()
        },
        MetricData::ExponentialHistogram(_) => Seq::empty(),
        MetricData::Summary(s) => if s.data_points@.len() > 0 {
            s.data_points@[0].attributes@
        } else {
            Seq::empty()
        },
    }
}

/// The temporality tag for the numeric code `code`.
pub fn temporality_from_code(code: i64) -> (r: Option<&'static str>)
    ensures
        str_view(r) == temporality_of_code(code),
{
    if code == 1 {
        Some("AGGREGATION_TEMPORALITY_DELTA")
    } else if code == 2 {
        Some("AGGREGATION_TEMPORALITY_CUMULATIVE")
    } else {
        None
    }
}

/// The temporality tag for the symbolic name `name`.
pub fn temporality_from_name(name: &str) -> (r: Option<&'static str>)
    ensures
        str_view(r) == temporality_of_name(name@),
{
    if *name == *"AGGREGATION_TEMPORALITY_DELTA" {
        Some("AGGREGATION_TEMPORALITY_DELTA")
    } else if *name == *"AGGREGATION_TEMPORALITY_CUMULATIVE" {
        Some("AGGREGATION_TEMPORALITY_CUMULATIVE")
    } else {
        None
    }
}

/// The temporality tag of a JSON value: a number is read as a code, a string
/// as a name, and anything else has no tag.
pub fn temporality_of(value: &serde_json::Value) -> (r: Option<&'static str>)
    ensures
        str_view(r) == temporality_tag(json_i64(*value), json_str(*value)),
{
    match value.as_i64() {
        Some(n) => temporality_from_code(n),
        None => match value.as_str() {
            Some(s) => temporality_from_name(s),
            None => None,
        },
    }
}

impl MetricData {
    /// The tag of the payload's kind.
    pub fn metric_type(&self) -> (r: &'static str)
        ensures
            r@ == type_tag(*self),
    {
        match self {
            MetricData::Gauge(_) => "METRIC_TYPE_GAUGE",
            MetricData::Sum(_) => "METRIC_TYPE_SUM",
            MetricData::Histogram(_) => "METRIC_TYPE_HISTOGRAM",
            MetricData::ExponentialHistogram(_) => "METRIC_TYPE_EXPONENTIAL_HISTOGRAM",
            MetricData::Summary(_) => "METRIC_TYPE_SUMMARY",
        }
    }

    /// The temporality tag of the payload, if it has one.
    pub fn aggregation_temporality(&self) -> (r: Option<&'static str>)
        ensures
            str_view(r) == temporality(*self),
    {
        let at = match self {
            MetricData::Sum(s) => &s.aggregation_temporality,
            MetricData::Histogram(h) => &h.aggregation_temporality,
            MetricData::ExponentialHistogram(eh) => &eh.aggregation_temporality,
            _ => return None,
        };
        temporality_of(at)
    }

    /// The attributes of the first data point.
    pub fn first_datapoint_attributes(&self) -> (r: &[KeyValue])
        ensures
            r@ == first_attributes(*self),
    {
        match self {
            MetricData::Gauge(g) => match g.data_points.as_slice().first() {
                Some(dp) => dp.attributes.as_slice(),
                None => &[],
            },
            MetricData::Sum(s) => match s.data_points.as_slice().first() {
                Some(dp) => dp.attributes.as_slice(),
                None => &[],
            },
            MetricData::Histogram(h) => match h.data_points.as_slice().first() {
                Some(dp) => dp.attributes.as_slice(),
                None => &[],
            },
            MetricData::ExponentialHistogram(_) => &[],
            MetricData::Summary(s) => match s.data_points.as_slice().first() {
                Some(dp) => dp.attributes.as_slice(),
                None => &[],
            },
        }
    }
}

#[derive(Debug, Default, PartialEq)]
pub struct Gauge {
    pub data_points: Vec<NumberDataPoint>,
}

#[derive(Debug, Default, PartialEq)]
pub struct Sum {
    pub data_points: Vec<NumberDataPoint>,
    pub aggregation_temporality: serde_json::Value,
    pub is_monotonic: bool,
}

#[derive(Debug, Default, PartialEq)]
pub struct Histogram {
    pub data_points: Vec<HistogramDataPoint>,
    pub aggregation_temporality: serde_json::Value,
}

#[derive(Debug, Default, PartialEq)]
pub struct ExponentialHistogram {
    pub data_points: Vec<serde_json::Value>,
    pub aggregation_temporality: serde_json::Value,
}

#[derive(Debug, Default, PartialEq)]
pub struct Summary {
    pub data_points: Vec<SummaryDataPoint>,
}

#[derive(Debug, Default, PartialEq)]
pub struct NumberDataPoint {
    pub attributes: Vec<KeyValue>,
    pub start_time_unix_nano: serde_json::Value,
    pub time_unix_nano: serde_json::Value,
    pub exemplars: Vec<serde_json::Value>,
    pub flags: u32,
    /// Bit pattern of the double.
    pub as_double: Option<u64>,
    pub as_int: Option<serde_json::Value>,
}

#[derive(Debug, Default, PartialEq)]
pub struct HistogramDataPoint {
    pub attributes: Vec<KeyValue>,
    pub start_time_unix_nano: serde_json::Value,
    pub time_unix_nano: serde_json::Value,
    pub count: serde_json::Value,
    /// Bit pattern of the double.
    pub sum: Option<u64>,
    pub bucket_counts: Vec<serde_json::Value>,
    /// Bit patterns of the doubles.
    pub explicit_bounds: Vec<u64>,
    pub exemplars: Vec<serde_json::Value>,
    pub flags: u32,
    /// Bit pattern of the double.
    pub min: Option<u64>,
    /// Bit pattern of the double.
    pub max: Option<u64>,
}

#[derive(Debug, Default, PartialEq)]
pub struct SummaryDataPoint {
    pub attributes: Vec<KeyValue>,
    pub start_time_unix_nano: serde_json::Value,
    pub time_unix_nano: serde_json::Value,
    pub count: serde_json::Value,
    /// Bit pattern of the double.
    pub sum: Option<u64>,
}

// ─── Traces ──────────────────────────────────────────────────────────

#[derive(Debug, Default, PartialEq)]
pub struct TracesData {
    pub resource_spans: Vec<ResourceSpans>,
}

#[derive(Debug, Default, PartialEq)]
pub struct ResourceSpans {
    pub resource: Option<Resource>,
    pub scope_spans: Vec<ScopeSpans>,
    pub schema_url: String,
}

#[derive(Debug, Default, PartialEq)]
pub struct ScopeSpans {
    pub scope: Option<InstrumentationScope>,
    pub spans: Vec<Span>,
    pub schema_url: String,
}

#[derive(Debug, Default, PartialEq)]
pub struct Span {
    pub trace_id: String,
    pub span_id: String,
    pub trace_state: String,
    pub parent_span_id: String,
    pub flags: u32,
    pub name: String,
    pub kind: String,
    pub start_time_unix_nano: serde_json::Value,
    pub end_time_unix_nano: serde_json::Value,
    pub attributes: Vec<KeyValue>,
    pub dropped_attributes_count: u32,
    pub events: Vec<serde_json::Value>,
    pub dropped_events_count: u32,
    pub links: Vec<serde_json::Value>,
    pub dropped_links_count: u32,
    pub status: Option<Status>,
}

#[derive(Clone, Debug, Default, PartialEq)]
pub struct Status {
    pub message: String,
    pub code: String,
}

} // verus!
