use otel_fields::attrs::string_value;
use otel_fields::otel::{InstrumentationScope, KeyValue, Resource, Span, Status};
use otel_fields::selector::{IdForm, TraceField, TraceFieldSelector};
use otel_fields::trace::{find_event_name, resolve_trace_field, status_name, MutTraceContext};

fn text(key: &str, value: &str) -> KeyValue {
    KeyValue { key: key.to_string(), value: Some(string_value(value)) }
}

fn path(keys: &[&str]) -> Vec<String> {
    keys.iter().map(|k| k.to_string()).collect()
}

fn json(text: &str) -> serde_json::Value {
    serde_json::from_str(text).unwrap()
}

fn span() -> Span {
    Span {
        // Sixteen bytes that are not UTF-8.
        trace_id: "/+7dzLuqmYh3ZlVEMyIRAA==".to_string(),
        span_id: "AQIDBAUGBwg=".to_string(),
        parent_span_id: "c3Bhbg==".to_string(),
        trace_state: "vendor=1".to_string(),
        name: "GET /".to_string(),
        kind: "SPAN_KIND_SERVER".to_string(),
        attributes: vec![text("http.method", "GET")],
        events: vec![
            json(r#"{"timeUnixNano": 1}"#),
            json(r#"{"name": 7}"#),
            json(r#"{"name": ""}"#),
            json(r#"{"name": "exception", "attributes": []}"#),
            json(r#"{"name": "later"}"#),
        ],
        status: Some(Status { message: String::new(), code: "STATUS_CODE_ERROR".to_string() }),
        ..Span::default()
    }
}

fn resource() -> Resource {
    Resource { attributes: vec![text("service.name", "checkout")], ..Resource::default() }
}

fn scope() -> InstrumentationScope {
    InstrumentationScope {
        name: "lib".to_string(),
        version: "1.2".to_string(),
        attributes: vec![text("scope.key", "scope-value")],
        ..InstrumentationScope::default()
    }
}

fn read(span: &Span, id_form: IdForm, field: &TraceFieldSelector) -> Option<String> {
    let res = resource();
    let sc = scope();
    resolve_trace_field(span, Some(&res), Some(&sc), "", "https://example.com/scope", id_form, field)
        .map(|c| c.into_owned())
}

fn simple(f: TraceField) -> TraceFieldSelector {
    TraceFieldSelector::Simple(f)
}

#[test]
fn trace_id_resolves_to_hex_end_to_end() {
    let s = span();
    let id = read(&s, IdForm::Hex, &simple(TraceField::TraceId)).unwrap();
    assert_eq!(id.len(), 32);
    assert!(id.chars().all(|c| c.is_ascii_digit() || ('a'..='f').contains(&c)));
    assert_eq!(id, "ffeeddccbbaa99887766554433221100");
}

#[test]
fn trace_reads_identifiers_in_the_chosen_form() {
    let s = span();
    assert_eq!(
        read(&s, IdForm::Verbatim, &simple(TraceField::TraceId)).as_deref(),
        Some("/+7dzLuqmYh3ZlVEMyIRAA==")
    );
    assert_eq!(read(&s, IdForm::Hex, &simple(TraceField::SpanId)).as_deref(), Some("0102030405060708"));
    assert_eq!(read(&s, IdForm::Hex, &simple(TraceField::ParentSpanId)).as_deref(), Some("7370616e"));
    assert_eq!(
        read(&s, IdForm::Utf8Preferred, &simple(TraceField::ParentSpanId)).as_deref(),
        Some("span")
    );
    assert_eq!(
        read(&s, IdForm::Utf8Preferred, &simple(TraceField::TraceId)).as_deref(),
        Some("ffeeddccbbaa99887766554433221100")
    );
    let empty = Span::default();
    for form in [IdForm::Verbatim, IdForm::Utf8Preferred, IdForm::Hex] {
        assert_eq!(read(&empty, form, &simple(TraceField::TraceId)), None);
    }
}

#[test]
fn trace_reads_simple_fields() {
    let s = span();
    assert_eq!(read(&s, IdForm::Hex, &simple(TraceField::Name)).as_deref(), Some("GET /"));
    assert_eq!(read(&s, IdForm::Hex, &simple(TraceField::TraceState)).as_deref(), Some("vendor=1"));
    assert_eq!(read(&s, IdForm::Hex, &simple(TraceField::ScopeName)).as_deref(), Some("lib"));
    assert_eq!(read(&s, IdForm::Hex, &simple(TraceField::ScopeVersion)).as_deref(), Some("1.2"));
    assert_eq!(read(&s, IdForm::Hex, &simple(TraceField::ResourceSchemaUrl)), None);
    assert_eq!(
        read(&s, IdForm::Hex, &simple(TraceField::ScopeSchemaUrl)).as_deref(),
        Some("https://example.com/scope")
    );
    assert_eq!(read(&s, IdForm::Hex, &simple(TraceField::Unspecified)), None);
    assert_eq!(read(&s, IdForm::Hex, &TraceFieldSelector::SpanKind).as_deref(), Some("SPAN_KIND_SERVER"));
}

#[test]
fn trace_reads_scope_fields_only_with_a_scope() {
    let s = span();
    for f in [TraceField::ScopeName, TraceField::ScopeVersion] {
        assert_eq!(resolve_trace_field(&s, None, None, "", "", IdForm::Hex, &simple(f)), None);
    }
}

#[test]
fn trace_reads_attributes_of_each_namespace() {
    let s = span();
    assert_eq!(
        read(&s, IdForm::Hex, &TraceFieldSelector::SpanAttribute(path(&["http.method"]))).as_deref(),
        Some("GET")
    );
    assert_eq!(
        read(&s, IdForm::Hex, &TraceFieldSelector::ResourceAttribute(path(&["service.name"])))
            .as_deref(),
        Some("checkout")
    );
    assert_eq!(
        read(&s, IdForm::Hex, &TraceFieldSelector::ScopeAttribute(path(&["scope.key"]))).as_deref(),
        Some("scope-value")
    );
    assert_eq!(
        resolve_trace_field(
            &s,
            None,
            None,
            "",
            "",
            IdForm::Hex,
            &TraceFieldSelector::ResourceAttribute(path(&["service.name"]))
        ),
        None
    );
}

#[test]
fn status_codes_follow_the_table() {
    assert_eq!(status_name("STATUS_CODE_OK"), Some("SPAN_STATUS_CODE_OK"));
    assert_eq!(status_name("STATUS_CODE_ERROR"), Some("SPAN_STATUS_CODE_ERROR"));
    assert_eq!(status_name("STATUS_CODE_UNSET"), Some("SPAN_STATUS_CODE_UNSET"));
    assert_eq!(status_name(""), None);
    assert_eq!(status_name("OK"), None);
    assert_eq!(status_name("status_code_ok"), None);
}

#[test]
fn trace_reads_status_through_the_table() {
    let s = span();
    assert_eq!(
        read(&s, IdForm::Hex, &TraceFieldSelector::SpanStatus).as_deref(),
        Some("SPAN_STATUS_CODE_ERROR")
    );
    let without = Span::default();
    assert_eq!(read(&without, IdForm::Hex, &TraceFieldSelector::SpanStatus), None);
    let unknown = Span {
        status: Some(Status { message: String::new(), code: "2".to_string() }),
        ..Span::default()
    };
    assert_eq!(read(&unknown, IdForm::Hex, &TraceFieldSelector::SpanStatus), None);
}

#[test]
fn event_name_is_the_first_non_empty_string_name() {
    let s = span();
    assert_eq!(read(&s, IdForm::Hex, &TraceFieldSelector::EventName).as_deref(), Some("exception"));
    assert_eq!(find_event_name(&s.events).as_deref(), Some("exception"));
    assert_eq!(find_event_name(&[]), None);
    assert_eq!(find_event_name(&[json("[]"), json("\"name\""), json("null"), json("3")]), None);
    assert_eq!(find_event_name(&[json(r#"{"Name": "x"}"#)]), None);
    assert_eq!(find_event_name(&[json(r#"{"name": "only"}"#)]).as_deref(), Some("only"));
}

#[test]
fn trace_never_resolves_unsupported_selectors() {
    let s = span();
    for field in [
        TraceFieldSelector::EventAttribute(path(&["name"])),
        TraceFieldSelector::LinkTraceId,
        TraceFieldSelector::SamplingThreshold,
    ] {
        assert_eq!(read(&s, IdForm::Hex, &field), None);
    }
}

#[test]
fn trace_context_reads_like_the_shared_resolver() {
    let mut s = span();
    let res = resource();
    let sc = scope();
    let expected = span();
    let ctx = MutTraceContext {
        span: &mut s,
        resource: Some(&res),
        scope: Some(&sc),
        resource_schema_url: "",
        scope_schema_url: "https://example.com/scope",
        id_form: IdForm::Hex,
    };
    for field in [
        simple(TraceField::Name),
        simple(TraceField::TraceId),
        simple(TraceField::ScopeSchemaUrl),
        TraceFieldSelector::SpanAttribute(path(&["http.method"])),
        TraceFieldSelector::SpanStatus,
        TraceFieldSelector::EventName,
        TraceFieldSelector::LinkTraceId,
    ] {
        assert_eq!(
            ctx.get_field(&field).map(|c| c.into_owned()),
            read(&expected, IdForm::Hex, &field)
        );
    }
}

#[test]
fn trace_context_refuses_general_edits() {
    let mut s = span();
    let mut ctx = MutTraceContext {
        span: &mut s,
        resource: None,
        scope: None,
        resource_schema_url: "",
        scope_schema_url: "",
        id_form: IdForm::Hex,
    };
    for field in [
        simple(TraceField::Name),
        TraceFieldSelector::SpanAttribute(path(&["http.method"])),
        TraceFieldSelector::SamplingThreshold,
    ] {
        assert!(!ctx.remove_field(&field));
        assert!(!ctx.redact_field(&field, "x"));
        assert!(!ctx.rename_field(&field, "x", true));
    }
    assert!(!ctx.add_field(&simple(TraceField::Name), "x", true));
    assert!(!ctx.add_field(&TraceFieldSelector::SpanAttribute(path(&["k"])), "x", true));
    assert_eq!(s, span());
}

#[test]
fn trace_context_records_the_sampling_threshold() {
    let mut s = span();
    let mut ctx = MutTraceContext {
        span: &mut s,
        resource: None,
        scope: None,
        resource_schema_url: "",
        scope_schema_url: "",
        id_form: IdForm::Hex,
    };
    assert!(ctx.add_field(&TraceFieldSelector::SamplingThreshold, "8000", false));
    assert_eq!(
        ctx.get_field(&simple(TraceField::TraceState)).as_deref(),
        Some("ot=th:8000,vendor=1")
    );
    assert!(ctx.add_field(&TraceFieldSelector::SamplingThreshold, "c", true));
    assert_eq!(s, Span { trace_state: "ot=th:c,vendor=1".to_string(), ..span() });
}
