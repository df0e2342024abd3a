use otel_fields::flat::{flat_get, Attributes, LogRecord, MetricRecord, TraceRecord};
use otel_fields::selector::{
    LogField, LogFieldSelector, MetricField, MetricFieldSelector, TraceField, TraceFieldSelector,
};

fn attrs(pairs: &[(&str, &str)]) -> Attributes {
    let mut a = Attributes::new();
    for (k, v) in pairs {
        a.insert(k, v);
    }
    a
}

fn path(keys: &[&str]) -> Vec<String> {
    keys.iter().map(|k| k.to_string()).collect()
}

#[test]
fn attributes_behave_as_a_map() {
    let mut a = Attributes::new();
    assert_eq!(a.get("k"), None);
    a.insert("k", "1");
    a.insert("other", "2");
    assert_eq!(a.get("k"), Some("1"));
    assert_eq!(a.get("other"), Some("2"));
    a.insert("k", "3");
    assert_eq!(a.get("k"), Some("3"));
    assert_eq!(a.get("other"), Some("2"));
    assert_eq!(a.get("K"), None);
    assert_eq!(a.get(""), None);
    a.insert("", "empty key");
    assert_eq!(a.get(""), Some("empty key"));
}

#[test]
fn flat_get_reads_paths_of_one_key() {
    let a = attrs(&[("a", "1"), ("b", "")]);
    assert_eq!(flat_get(&a, &path(&["a"])).as_deref(), Some("1"));
    // An empty value reads as absent.
    assert_eq!(flat_get(&a, &path(&["b"])), None);
    assert_eq!(flat_get(&a, &path(&["c"])), None);
    // A string is no nested list: there is nothing to descend into.
    assert_eq!(flat_get(&a, &path(&["a", "deeper"])), None);
    assert_eq!(flat_get(&a, &path(&[])), None);
}

#[test]
fn flat_log_record_reads_its_fields() {
    let r = LogRecord {
        id: "r1".to_string(),
        body: "hello".to_string(),
        severity_text: "ERROR".to_string(),
        trace_id: String::new(),
        span_id: "s".to_string(),
        attributes: attrs(&[("k", "v")]),
        resource_attributes: attrs(&[("service.name", "checkout")]),
        scope_attributes: attrs(&[("scope", "x")]),
    };
    let read = |f: &LogFieldSelector| r.get_field(f).map(|c| c.into_owned());
    assert_eq!(read(&LogFieldSelector::Simple(LogField::Body)).as_deref(), Some("hello"));
    assert_eq!(read(&LogFieldSelector::Simple(LogField::SeverityText)).as_deref(), Some("ERROR"));
    assert_eq!(read(&LogFieldSelector::Simple(LogField::TraceId)), None);
    assert_eq!(read(&LogFieldSelector::Simple(LogField::SpanId)).as_deref(), Some("s"));
    assert_eq!(read(&LogFieldSelector::Simple(LogField::EventName)), None);
    assert_eq!(read(&LogFieldSelector::Simple(LogField::ResourceSchemaUrl)), None);
    assert_eq!(read(&LogFieldSelector::LogAttribute(path(&["k"]))).as_deref(), Some("v"));
    assert_eq!(
        read(&LogFieldSelector::ResourceAttribute(path(&["service.name"]))).as_deref(),
        Some("checkout")
    );
    assert_eq!(read(&LogFieldSelector::ScopeAttribute(path(&["scope"]))).as_deref(), Some("x"));
    assert_eq!(read(&LogFieldSelector::ScopeAttribute(path(&["k"]))), None);
}

#[test]
fn flat_metric_record_reads_its_fields() {
    let r = MetricRecord {
        id: "m1".to_string(),
        name: "requests".to_string(),
        description: String::new(),
        unit: "1".to_string(),
        metric_type: "METRIC_TYPE_SUM".to_string(),
        aggregation_temporality: String::new(),
        datapoint_attributes: attrs(&[("dp", "1")]),
        resource_attributes: attrs(&[("res", "2")]),
        scope_attributes: attrs(&[("sc", "3")]),
    };
    let read = |f: &MetricFieldSelector| r.get_field(f).map(|c| c.into_owned());
    assert_eq!(read(&MetricFieldSelector::Simple(MetricField::Name)).as_deref(), Some("requests"));
    assert_eq!(read(&MetricFieldSelector::Simple(MetricField::Description)), None);
    assert_eq!(read(&MetricFieldSelector::Simple(MetricField::Unit)).as_deref(), Some("1"));
    assert_eq!(read(&MetricFieldSelector::Simple(MetricField::ScopeName)), None);
    assert_eq!(read(&MetricFieldSelector::Type).as_deref(), Some("METRIC_TYPE_SUM"));
    assert_eq!(read(&MetricFieldSelector::Temporality), None);
    assert_eq!(read(&MetricFieldSelector::DatapointAttribute(path(&["dp"]))).as_deref(), Some("1"));
    assert_eq!(read(&MetricFieldSelector::ResourceAttribute(path(&["res"]))).as_deref(), Some("2"));
    assert_eq!(read(&MetricFieldSelector::ScopeAttribute(path(&["sc"]))).as_deref(), Some("3"));
}

fn flat_span() -> TraceRecord {
    TraceRecord {
        id: "t1".to_string(),
        name: "GET /".to_string(),
        trace_id: "abc".to_string(),
        span_id: "def".to_string(),
        parent_span_id: String::new(),
        trace_state: String::new(),
        span_kind: "SPAN_KIND_SERVER".to_string(),
        span_status: "SPAN_STATUS_CODE_OK".to_string(),
        attributes: attrs(&[("a", "1")]),
        resource_attributes: attrs(&[("r", "2")]),
        scope_attributes: attrs(&[("s", "3")]),
    }
}

#[test]
fn flat_trace_record_reads_its_fields() {
    let r = flat_span();
    let read = |f: &TraceFieldSelector| r.get_field(f).map(|c| c.into_owned());
    assert_eq!(read(&TraceFieldSelector::Simple(TraceField::Name)).as_deref(), Some("GET /"));
    assert_eq!(read(&TraceFieldSelector::Simple(TraceField::TraceId)).as_deref(), Some("abc"));
    assert_eq!(read(&TraceFieldSelector::Simple(TraceField::SpanId)).as_deref(), Some("def"));
    assert_eq!(read(&TraceFieldSelector::Simple(TraceField::ParentSpanId)), None);
    assert_eq!(read(&TraceFieldSelector::Simple(TraceField::TraceState)), None);
    assert_eq!(read(&TraceFieldSelector::Simple(TraceField::ScopeName)), None);
    assert_eq!(read(&TraceFieldSelector::SpanKind).as_deref(), Some("SPAN_KIND_SERVER"));
    assert_eq!(read(&TraceFieldSelector::SpanStatus).as_deref(), Some("SPAN_STATUS_CODE_OK"));
    assert_eq!(read(&TraceFieldSelector::SpanAttribute(path(&["a"]))).as_deref(), Some("1"));
    assert_eq!(read(&TraceFieldSelector::ResourceAttribute(path(&["r"]))).as_deref(), Some("2"));
    assert_eq!(read(&TraceFieldSelector::ScopeAttribute(path(&["s"]))).as_deref(), Some("3"));
    assert_eq!(read(&TraceFieldSelector::EventName), None);
    assert_eq!(read(&TraceFieldSelector::EventAttribute(path(&["a"]))), None);
    assert_eq!(read(&TraceFieldSelector::LinkTraceId), None);
    assert_eq!(read(&TraceFieldSelector::SamplingThreshold), None);
}

#[test]
fn flat_trace_record_merges_the_threshold() {
    let mut r = flat_span();
    assert!(r.add_field(&TraceFieldSelector::SamplingThreshold, "8000", false));
    assert_eq!(r.trace_state, "ot=th:8000");
    assert!(r.add_field(&TraceFieldSelector::SamplingThreshold, "c", true));
    assert_eq!(r.trace_state, "ot=th:c");

    let mut with_vendor = TraceRecord { trace_state: "foo=bar".to_string(), ..flat_span() };
    assert!(with_vendor.add_field(&TraceFieldSelector::SamplingThreshold, "5", false));
    assert_eq!(with_vendor.trace_state, "ot=th:5,foo=bar");

    let mut with_ot = TraceRecord { trace_state: "a=1,ot=rv:ab;th:1".to_string(), ..flat_span() };
    assert!(with_ot.add_field(&TraceFieldSelector::SamplingThreshold, "2", false));
    assert_eq!(with_ot.trace_state, "ot=rv:ab;th:2,a=1");
    assert_eq!(with_ot.name, "GET /");
}

#[test]
fn flat_trace_record_refuses_other_edits() {
    let mut r = flat_span();
    let name = TraceFieldSelector::Simple(TraceField::Name);
    assert!(!r.add_field(&name, "x", true));
    assert!(!r.add_field(&TraceFieldSelector::SpanAttribute(path(&["a"])), "x", true));
    assert!(!r.remove_field(&name));
    assert!(!r.redact_field(&name, "x"));
    assert!(!r.rename_field(&TraceFieldSelector::SpanAttribute(path(&["a"])), "b", true));
    assert!(!r.remove_field(&TraceFieldSelector::SamplingThreshold));
    assert_eq!(r.name, "GET /");
    assert_eq!(r.trace_state, "");
    assert_eq!(r.attributes.get("a"), Some("1"));
}
