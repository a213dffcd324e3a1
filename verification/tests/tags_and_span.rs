use dd_traces::span::{convert_span, MetricValue};
use dd_traces::tags::TagMap;
use dd_traces::wire::Span;

fn tag_map(entries: &[(&str, &str)]) -> TagMap {
    TagMap {
        entries: entries
            .iter()
            .map(|(k, v)| (k.to_string(), v.to_string()))
            .collect(),
    }
}

fn base_span() -> Span {
    Span {
        service: "svc".to_string(),
        name: "op".to_string(),
        resource: "res".to_string(),
        trace_id: 10,
        span_id: 20,
        parent_id: 30,
        start: 1_000_000_000,
        duration: 500,
        error: 1,
        meta: tag_map(&[("k", "v")]),
        metrics: Vec::new(),
        meta_struct: Vec::new(),
        span_type: "web".to_string(),
    }
}

#[test]
fn tag_merge_precedence() {
    // Trace-level tags are lower precedence than payload-level tags.
    let trace_level = tag_map(&[("env", "dev"), ("region", "us")]);
    let payload_level = tag_map(&[("env", "prod")]);
    let merged = trace_level.merge(payload_level);
    assert_eq!(merged.get(&"env".to_string()), Some(&"prod".to_string()));
    assert_eq!(merged.get(&"region".to_string()), Some(&"us".to_string()));
    assert_eq!(merged.get(&"absent".to_string()), None);
}

#[test]
fn tag_merge_empty_sides() {
    let lo = tag_map(&[("a", "1")]);
    let merged = lo.merge(TagMap::new());
    assert_eq!(merged.get(&"a".to_string()), Some(&"1".to_string()));
    let merged2 = TagMap::new().merge(tag_map(&[("b", "2")]));
    assert_eq!(merged2.get(&"b".to_string()), Some(&"2".to_string()));
}

#[test]
fn tag_last_insert_wins() {
    let mut tm = TagMap::new();
    tm.insert("k".to_string(), "first".to_string());
    tm.insert("k".to_string(), "second".to_string());
    assert_eq!(tm.get(&"k".to_string()), Some(&"second".to_string()));
}

#[test]
fn convert_span_field_mapping() {
    let s = base_span();
    let c = convert_span(&s);
    assert_eq!(c.service, "svc");
    assert_eq!(c.name, "op");
    assert_eq!(c.resource, "res");
    assert_eq!(c.span_type, "web");
    assert_eq!(c.trace_id, 10u64);
    assert_eq!(c.span_id, 20u64);
    assert_eq!(c.parent_id, 30u64);
    assert_eq!(c.start, 1_000_000_000i64);
    assert_eq!(c.duration, 500i64);
    assert_eq!(c.error, 1i64);
    assert_eq!(c.meta.get(&"k".to_string()), Some(&"v".to_string()));
}

#[test]
fn convert_span_nan_metric_null() {
    let mut s = base_span();
    s.metrics = vec![
        ("bad".to_string(), f64::NAN.to_bits()),
        ("good".to_string(), 3.5f64.to_bits()),
    ];
    let c = convert_span(&s);
    // The NaN value becomes an explicit null; the key is kept, in order.
    assert_eq!(c.metrics.len(), 2);
    assert_eq!(c.metrics[0].0, "bad");
    assert_eq!(c.metrics[0].1, MetricValue::Null);
    assert_eq!(c.metrics[1].0, "good");
    assert_eq!(c.metrics[1].1, MetricValue::Num(3.5f64.to_bits()));
}

#[test]
fn convert_span_meta_struct_passthrough() {
    let mut s = base_span();
    s.meta_struct = vec![("blob".to_string(), vec![1u8, 2, 3])];
    let c = convert_span(&s);
    assert_eq!(c.meta_struct.len(), 1);
    assert_eq!(c.meta_struct[0].0, "blob");
    assert_eq!(c.meta_struct[0].1, vec![1u8, 2, 3]);
}
