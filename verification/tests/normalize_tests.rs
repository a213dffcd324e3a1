use dd_traces::normalize::{normalize_payload, normalize_v0, normalize_v1, payload_rates_valid};
use dd_traces::span::MetricValue;
use dd_traces::tags::TagMap;
use dd_traces::wire::{DecodedPayload, Span, Trace, TraceChunk, TracerPayload};

fn tag_map(entries: &[(&str, &str)]) -> TagMap {
    TagMap {
        entries: entries
            .iter()
            .map(|(k, v)| (k.to_string(), v.to_string()))
            .collect(),
    }
}

fn span(name: &str) -> Span {
    Span {
        service: "svc".to_string(),
        name: name.to_string(),
        resource: "res".to_string(),
        trace_id: 1,
        span_id: 2,
        parent_id: 0,
        start: 100,
        duration: 10,
        error: 0,
        meta: TagMap::new(),
        metrics: Vec::new(),
        meta_struct: Vec::new(),
        span_type: "".to_string(),
    }
}

fn chunk(spans: Vec<Span>) -> TraceChunk {
    TraceChunk {
        priority: 2,
        origin: "lambda".to_string(),
        dropped_trace: false,
        tags: TagMap::new(),
        spans,
    }
}

fn tracer_payload(chunks: Vec<TraceChunk>) -> TracerPayload {
    TracerPayload {
        container_id: "cid".to_string(),
        language_name: "rust".to_string(),
        language_version: "1.0".to_string(),
        tracer_version: "0.9".to_string(),
        runtime_id: "rt".to_string(),
        app_version: "2.3".to_string(),
        tags: TagMap::new(),
        chunks,
    }
}

fn empty_payload() -> DecodedPayload {
    DecodedPayload {
        env: "prod".to_string(),
        host_name: "host-1".to_string(),
        agent_version: "7.0".to_string(),
        target_tps: 10.0f64.to_bits(),
        error_tps: 1.5f64.to_bits(),
        tags: TagMap::new(),
        tracer_payloads: Vec::new(),
        traces: Vec::new(),
        transactions: Vec::new(),
    }
}

#[test]
fn v1_event_count() {
    // 2 tracer payloads with 2 and 1 chunks yield exactly 3 events, and each
    // event carries exactly its chunk's spans.
    let mut p = empty_payload();
    p.tracer_payloads = vec![
        tracer_payload(vec![
            chunk(vec![span("a"), span("b")]),
            chunk(vec![]),
        ]),
        tracer_payload(vec![chunk(vec![span("c")])]),
    ];
    let events = normalize_v1(&p, None);
    assert_eq!(events.len(), 3);
    assert_eq!(events[0].spans.len(), 2);
    assert_eq!(events[1].spans.len(), 0);
    assert_eq!(events[2].spans.len(), 1);
    assert_eq!(events[0].spans[0].name, "a");
    assert_eq!(events[0].spans[1].name, "b");
    assert_eq!(events[2].spans[0].name, "c");
}

#[test]
fn payload_version_v1_path() {
    let mut p = empty_payload();
    p.tracer_payloads = vec![tracer_payload(vec![chunk(vec![])])];
    // The v0 lists are ignored on the v1 path.
    p.traces = vec![Trace { trace_id: 7, start_time: 0, end_time: 0, spans: vec![] }];
    let events = normalize_payload(&p, None, None);
    assert_eq!(events.len(), 1);
    assert_eq!(events[0].payload_version, "v2");
}

#[test]
fn payload_version_v0_path() {
    let mut p = empty_payload();
    p.traces = vec![Trace { trace_id: 7, start_time: 0, end_time: 0, spans: vec![] }];
    p.transactions = vec![span("t")];
    let events = normalize_payload(&p, None, None);
    assert_eq!(events.len(), 2);
    assert_eq!(events[0].payload_version, "v1");
    assert_eq!(events[1].payload_version, "v1");
}

#[test]
fn v0_transaction_dropped() {
    let mut p = empty_payload();
    p.transactions = vec![span("x"), span("y")];
    let events = normalize_v0(&p, None, None);
    assert_eq!(events.len(), 2);
    for ev in &events {
        assert_eq!(ev.dropped, Some(true));
        assert_eq!(ev.spans.len(), 1);
        assert_eq!(ev.trace_id, None);
    }
}

#[test]
fn routing_empty_tracer_payloads() {
    // A payload with an empty nested list routes to v0 whatever else it holds.
    let mut p = empty_payload();
    p.traces = vec![Trace { trace_id: 1, start_time: 2, end_time: 3, spans: vec![] }];
    p.tags = tag_map(&[("env", "prod")]);
    p.target_tps = 99.0f64.to_bits();
    let events = normalize_payload(&p, None, None);
    assert_eq!(events.len(), 1);
    assert_eq!(events[0].payload_version, "v1");
    assert_eq!(events[0].target_tps, None);
    assert_eq!(events[0].agent_version, None);
    assert!(events[0].tags.is_none());
}

#[test]
fn end_to_end_v0_example() {
    let mut p = empty_payload();
    p.traces = vec![Trace {
        trace_id: 123,
        start_time: 1_600_000_000_000_000_000,
        end_time: 1_600_000_000_000_000_500,
        spans: vec![span("span_a")],
    }];
    let events = normalize_payload(&p, None, None);
    assert_eq!(events.len(), 1);
    let ev = &events[0];
    assert_eq!(ev.trace_id, Some(123));
    assert_eq!(ev.payload_version, "v1");
    assert_eq!(ev.start_time, Some(1_600_000_000_000_000_000));
    assert_eq!(ev.end_time, Some(1_600_000_000_000_000_500));
    assert_eq!(ev.spans.len(), 1);
    assert_eq!(ev.spans[0].name, "span_a");
    assert_eq!(ev.host, Some("host-1".to_string()));
    assert_eq!(ev.env, Some("prod".to_string()));
}

#[test]
fn end_to_end_v1_example() {
    let mut p = empty_payload();
    p.tracer_payloads = vec![tracer_payload(vec![chunk(vec![span("span_b")])])];
    let events = normalize_payload(&p, None, None);
    assert_eq!(events.len(), 1);
    let ev = &events[0];
    assert_eq!(ev.payload_version, "v2");
    assert_eq!(ev.spans.len(), 1);
    assert_eq!(ev.spans[0].name, "span_b");
    assert_eq!(ev.env, Some("prod".to_string()));
    assert_eq!(ev.host, Some("host-1".to_string()));
    assert_eq!(ev.agent_version, Some("7.0".to_string()));
    assert_eq!(ev.target_tps, Some(10.0f64.to_bits()));
    assert_eq!(ev.error_tps, Some(1.5f64.to_bits()));
    assert_eq!(ev.container_id, Some("cid".to_string()));
    assert_eq!(ev.language_name, Some("rust".to_string()));
    assert_eq!(ev.language_version, Some("1.0".to_string()));
    assert_eq!(ev.tracer_version, Some("0.9".to_string()));
    assert_eq!(ev.runtime_id, Some("rt".to_string()));
    assert_eq!(ev.app_version, Some("2.3".to_string()));
    assert_eq!(ev.priority, Some(2));
    assert_eq!(ev.origin, Some("lambda".to_string()));
    assert_eq!(ev.dropped, Some(false));
}

#[test]
fn v1_tag_merge_precedence() {
    // Chunk tags < tracer tags < payload tags.
    let mut p = empty_payload();
    p.tags = tag_map(&[("env", "prod")]);
    let mut tp = tracer_payload(vec![TraceChunk {
        priority: 0,
        origin: String::new(),
        dropped_trace: false,
        tags: tag_map(&[("env", "dev"), ("chunk_only", "c")]),
        spans: vec![],
    }]);
    tp.tags = tag_map(&[("env", "stage"), ("region", "us")]);
    p.tracer_payloads = vec![tp];
    let events = normalize_v1(&p, None);
    let tags = events[0].tags.as_ref().unwrap();
    assert_eq!(tags.get(&"env".to_string()), Some(&"prod".to_string()));
    assert_eq!(tags.get(&"region".to_string()), Some(&"us".to_string()));
    assert_eq!(tags.get(&"chunk_only".to_string()), Some(&"c".to_string()));
}

#[test]
fn api_key_and_language_enrichment() {
    let mut p = empty_payload();
    p.transactions = vec![span("t")];
    let key = "SECRET-REDACTED".to_string();
    let lang = "go".to_string();
    let events = normalize_v0(&p, Some(&lang), Some(&key));
    assert_eq!(events[0].language_name, Some("go".to_string()));
    assert_eq!(events[0].api_key, Some(key.clone()));
    assert_eq!(events[0].source_type, "datadog_agent");
    let events2 = normalize_v0(&p, None, None);
    assert_eq!(events2[0].language_name, None);
    assert_eq!(events2[0].api_key, None);
}

#[test]
fn trace_id_truncation() {
    // The unsigned wire trace id is truncated into the signed canonical
    // field: a preserved lossy conversion.
    let mut p = empty_payload();
    p.traces = vec![Trace { trace_id: u64::MAX, start_time: 0, end_time: 0, spans: vec![] }];
    let events = normalize_v0(&p, None, None);
    assert_eq!(events[0].trace_id, Some(-1i64));
}

#[test]
fn nan_metric_survives_normalization() {
    let mut sp = span("m");
    sp.metrics = vec![("rate".to_string(), f64::NAN.to_bits())];
    let mut p = empty_payload();
    p.tracer_payloads = vec![tracer_payload(vec![chunk(vec![sp])])];
    let events = normalize_v1(&p, None);
    assert_eq!(events[0].spans[0].metrics[0].0, "rate");
    assert_eq!(events[0].spans[0].metrics[0].1, MetricValue::Null);
}

#[test]
fn payload_rates_nan_detected() {
    let mut p = empty_payload();
    assert!(payload_rates_valid(&p));
    p.target_tps = f64::NAN.to_bits();
    assert!(!payload_rates_valid(&p));
    p.target_tps = 1.0f64.to_bits();
    p.error_tps = f64::NAN.to_bits();
    assert!(!payload_rates_valid(&p));
}
