use otel_fields::attrs::string_value;
use otel_fields::metric::MetricContext;
use otel_fields::otel::{
    temporality_from_code, temporality_from_name, temporality_of, ExponentialHistogram, Gauge,
    Histogram, HistogramDataPoint, InstrumentationScope, KeyValue, Metric, MetricData,
    NumberDataPoint, Resource, Sum, Summary, SummaryDataPoint,
};
use otel_fields::selector::{MetricField, MetricFieldSelector};

const DELTA: &str = "AGGREGATION_TEMPORALITY_DELTA";
const CUMULATIVE: &str = "AGGREGATION_TEMPORALITY_CUMULATIVE";

fn text(key: &str, value: &str) -> KeyValue {
    KeyValue { key: key.to_string(), value: Some(string_value(value)) }
}

fn path(keys: &[&str]) -> Vec<String> {
    keys.iter().map(|k| k.to_string()).collect()
}

fn number_point(key: &str) -> NumberDataPoint {
    NumberDataPoint { attributes: vec![text(key, "v")], ..NumberDataPoint::default() }
}

fn keys_of(attrs: &[KeyValue]) -> Vec<&str> {
    attrs.iter().map(|kv| kv.key.as_str()).collect()
}

fn sum(temporality: serde_json::Value) -> MetricData {
    MetricData::Sum(Sum {
        data_points: vec![number_point("first"), number_point("second")],
        aggregation_temporality: temporality,
        is_monotonic: true,
    })
}

fn shapes() -> Vec<MetricData> {
    vec![
        MetricData::Gauge(Gauge { data_points: vec![number_point("g")] }),
        sum(serde_json::Value::from(2)),
        MetricData::Histogram(Histogram {
            data_points: vec![HistogramDataPoint {
                attributes: vec![text("h", "v")],
                ..HistogramDataPoint::default()
            }],
            aggregation_temporality: serde_json::Value::from(DELTA),
        }),
        MetricData::ExponentialHistogram(ExponentialHistogram {
            data_points: vec![serde_json::from_str(r#"{"attributes": [{"key": "e"}]}"#).unwrap()],
            aggregation_temporality: serde_json::Value::from(1),
        }),
        MetricData::Summary(Summary {
            data_points: vec![SummaryDataPoint {
                attributes: vec![text("s", "v")],
                ..SummaryDataPoint::default()
            }],
        }),
    ]
}

#[test]
fn metric_type_names_the_five_shapes() {
    let names: Vec<&str> = shapes().iter().map(|d| d.metric_type()).collect();
    assert_eq!(
        names,
        vec![
            "METRIC_TYPE_GAUGE",
            "METRIC_TYPE_SUM",
            "METRIC_TYPE_HISTOGRAM",
            "METRIC_TYPE_EXPONENTIAL_HISTOGRAM",
            "METRIC_TYPE_SUMMARY",
        ]
    );
}

#[test]
fn temporality_exists_for_three_shapes_only() {
    let tags: Vec<Option<&str>> = shapes().iter().map(|d| d.aggregation_temporality()).collect();
    assert_eq!(tags, vec![None, Some(CUMULATIVE), Some(DELTA), Some(DELTA), None]);
}

#[test]
fn temporality_codes() {
    assert_eq!(temporality_from_code(1), Some(DELTA));
    assert_eq!(temporality_from_code(2), Some(CUMULATIVE));
    for code in [0, 3, -1, i64::MAX, i64::MIN] {
        assert_eq!(temporality_from_code(code), None);
    }
}

#[test]
fn temporality_names() {
    assert_eq!(temporality_from_name(DELTA), Some(DELTA));
    assert_eq!(temporality_from_name(CUMULATIVE), Some(CUMULATIVE));
    for name in ["", "DELTA", "1", "aggregation_temporality_delta", "AGGREGATION_TEMPORALITY_UNSPECIFIED"] {
        assert_eq!(temporality_from_name(name), None);
    }
}

#[test]
fn temporality_normalises_numbers_and_strings_alike() {
    assert_eq!(temporality_of(&serde_json::Value::from(1)), Some(DELTA));
    assert_eq!(temporality_of(&serde_json::Value::from(DELTA)), Some(DELTA));
    assert_eq!(temporality_of(&serde_json::Value::from(2u64)), Some(CUMULATIVE));
    assert_eq!(temporality_of(&serde_json::Value::from(CUMULATIVE)), Some(CUMULATIVE));
    assert_eq!(sum(serde_json::Value::from(1)).aggregation_temporality(), Some(DELTA));
    assert_eq!(sum(serde_json::Value::from(DELTA)).aggregation_temporality(), Some(DELTA));
}

#[test]
fn temporality_of_other_values_is_absent() {
    for text in ["null", "true", "1.0", "2.5", "3", "\"1\"", "[1]", "{\"code\": 1}", "18446744073709551615"] {
        let value: serde_json::Value = serde_json::from_str(text).unwrap();
        assert_eq!(temporality_of(&value), None, "{}", text);
        assert_eq!(sum(value).aggregation_temporality(), None);
    }
}

#[test]
fn first_datapoint_attributes_of_each_shape() {
    let all = shapes();
    let firsts: Vec<Vec<&str>> = all.iter().map(|d| keys_of(d.first_datapoint_attributes())).collect();
    assert_eq!(firsts, vec![vec!["g"], vec!["first"], vec!["h"], vec![], vec!["s"]]);
}

#[test]
fn first_datapoint_attributes_without_datapoints() {
    let empties = vec![
        MetricData::Gauge(Gauge::default()),
        MetricData::Sum(Sum::default()),
        MetricData::Histogram(Histogram::default()),
        MetricData::ExponentialHistogram(ExponentialHistogram::default()),
        MetricData::Summary(Summary::default()),
    ];
    for data in empties {
        assert!(data.first_datapoint_attributes().is_empty());
    }
}

fn metric() -> Metric {
    Metric {
        name: "http.requests".to_string(),
        description: "count of requests".to_string(),
        unit: "1".to_string(),
        metadata: vec![],
        data: Some(sum(serde_json::Value::from(2))),
    }
}

fn read(metric: &Metric, scope: Option<&InstrumentationScope>, field: &MetricFieldSelector) -> Option<String> {
    let resource = Resource { attributes: vec![text("service.name", "checkout")], ..Resource::default() };
    let datapoint = match &metric.data {
        Some(data) => data.first_datapoint_attributes(),
        None => &[],
    };
    let ctx = MetricContext {
        metric,
        datapoint_attributes: datapoint,
        resource: Some(&resource),
        scope,
        resource_schema_url: "",
        scope_schema_url: "https://example.com/scope",
    };
    ctx.get_field(field).map(|c| c.into_owned())
}

#[test]
fn metric_reads_simple_fields() {
    let m = metric();
    let scope = InstrumentationScope {
        name: "lib".to_string(),
        version: String::new(),
        attributes: vec![text("scope.key", "scope-value")],
        ..InstrumentationScope::default()
    };
    let simple = |f| MetricFieldSelector::Simple(f);
    assert_eq!(read(&m, Some(&scope), &simple(MetricField::Name)).as_deref(), Some("http.requests"));
    assert_eq!(
        read(&m, Some(&scope), &simple(MetricField::Description)).as_deref(),
        Some("count of requests")
    );
    assert_eq!(read(&m, Some(&scope), &simple(MetricField::Unit)).as_deref(), Some("1"));
    assert_eq!(read(&m, Some(&scope), &simple(MetricField::ScopeName)).as_deref(), Some("lib"));
    assert_eq!(read(&m, Some(&scope), &simple(MetricField::ScopeVersion)), None);
    assert_eq!(read(&m, None, &simple(MetricField::ScopeName)), None);
    assert_eq!(read(&m, Some(&scope), &simple(MetricField::ResourceSchemaUrl)), None);
    assert_eq!(
        read(&m, Some(&scope), &simple(MetricField::ScopeSchemaUrl)).as_deref(),
        Some("https://example.com/scope")
    );
    assert_eq!(read(&m, Some(&scope), &simple(MetricField::Unspecified)), None);
    assert_eq!(
        read(&m, Some(&scope), &MetricFieldSelector::ScopeAttribute(path(&["scope.key"]))).as_deref(),
        Some("scope-value")
    );
    assert_eq!(read(&m, None, &MetricFieldSelector::ScopeAttribute(path(&["scope.key"]))), None);
}

#[test]
fn metric_reads_first_datapoint_only() {
    let m = metric();
    assert_eq!(
        read(&m, None, &MetricFieldSelector::DatapointAttribute(path(&["first"]))).as_deref(),
        Some("v")
    );
    assert_eq!(read(&m, None, &MetricFieldSelector::DatapointAttribute(path(&["second"]))), None);
    assert_eq!(
        read(&m, None, &MetricFieldSelector::ResourceAttribute(path(&["service.name"]))).as_deref(),
        Some("checkout")
    );
}

#[test]
fn metric_reads_type_and_temporality() {
    let m = metric();
    assert_eq!(read(&m, None, &MetricFieldSelector::Type).as_deref(), Some("METRIC_TYPE_SUM"));
    assert_eq!(read(&m, None, &MetricFieldSelector::Temporality).as_deref(), Some(CUMULATIVE));

    let gauge = Metric { data: Some(MetricData::Gauge(Gauge::default())), ..metric() };
    assert_eq!(read(&gauge, None, &MetricFieldSelector::Type).as_deref(), Some("METRIC_TYPE_GAUGE"));
    assert_eq!(read(&gauge, None, &MetricFieldSelector::Temporality), None);

    let bare = Metric { data: None, ..metric() };
    assert_eq!(read(&bare, None, &MetricFieldSelector::Type), None);
    assert_eq!(read(&bare, None, &MetricFieldSelector::Temporality), None);
}
