use dd_traces::decode::decode_payload;
use dd_traces::normalize::normalize_payload;
use dd_traces::span::MetricValue;

fn varint(mut v: u64) -> Vec<u8> {
    let mut out = Vec::new();
    loop {
        let b = (v & 0x7f) as u8;
        v >>= 7;
        if v == 0 {
            out.push(b);
            break;
        } else {
            out.push(b | 0x80);
        }
    }
    out
}

fn field_varint(no: u64, v: u64) -> Vec<u8> {
    let mut out = varint(no << 3);
    out.extend(varint(v));
    out
}

fn field_f64(no: u64, x: f64) -> Vec<u8> {
    let mut out = varint((no << 3) | 1);
    out.extend(x.to_bits().to_le_bytes());
    out
}

fn field_bytes(no: u64, body: &[u8]) -> Vec<u8> {
    let mut out = varint((no << 3) | 2);
    out.extend(varint(body.len() as u64));
    out.extend(body);
    out
}

fn field_str(no: u64, s: &str) -> Vec<u8> {
    field_bytes(no, s.as_bytes())
}

fn str_entry(k: &str, v: &str) -> Vec<u8> {
    let mut out = field_str(1, k);
    out.extend(field_str(2, v));
    out
}

#[test]
fn decode_empty_yields_default() {
    let p = decode_payload(&[]).unwrap();
    assert_eq!(p.env, "");
    assert_eq!(p.host_name, "");
    assert_eq!(p.tracer_payloads.len(), 0);
    assert_eq!(p.traces.len(), 0);
    assert_eq!(p.transactions.len(), 0);
    let events = normalize_payload(&p, None, None);
    assert_eq!(events.len(), 0);
}

#[test]
fn decode_garbage_error() {
    // Garbage bytes yield a decode error, zero events, and the surfaced
    // message names the failure.
    let r = decode_payload(&[0xff, 0xff, 0xff]);
    match r {
        Ok(_) => panic!("garbage bytes must not decode"),
        Err(e) => {
            let msg = e.message();
            assert!(msg.contains("Error decoding Datadog traces"));
        }
    }
}

#[test]
fn decode_truncated_error() {
    // A length-delimited field announcing more bytes than remain.
    let r = decode_payload(&[0x0a, 0x05, 0x01]);
    assert!(r.is_err());
}

#[test]
fn decode_unknown_field_error() {
    // The payload message has no varint-typed field at all.
    let r = decode_payload(&field_varint(15, 1));
    assert!(r.is_err());
}

#[test]
fn decode_minimal_v0_payload() {
    let mut span_b = field_str(1, "svc");
    span_b.extend(field_str(2, "op"));
    span_b.extend(field_varint(4, 123));
    span_b.extend(field_varint(7, 100));
    span_b.extend(field_varint(8, 50));

    let mut trace_b = field_varint(1, 123);
    trace_b.extend(field_bytes(2, &span_b));
    trace_b.extend(field_varint(3, 1000));
    trace_b.extend(field_varint(4, 2000));

    let mut payload = field_str(1, "host-1");
    payload.extend(field_str(2, "prod"));
    payload.extend(field_bytes(3, &trace_b));
    payload.extend(field_bytes(4, &span_b));

    let p = decode_payload(&payload).unwrap();
    assert_eq!(p.host_name, "host-1");
    assert_eq!(p.env, "prod");
    assert_eq!(p.traces.len(), 1);
    assert_eq!(p.traces[0].trace_id, 123);
    assert_eq!(p.traces[0].start_time, 1000);
    assert_eq!(p.traces[0].end_time, 2000);
    assert_eq!(p.traces[0].spans.len(), 1);
    assert_eq!(p.traces[0].spans[0].service, "svc");
    assert_eq!(p.traces[0].spans[0].name, "op");
    assert_eq!(p.transactions.len(), 1);

    let events = normalize_payload(&p, None, None);
    assert_eq!(events.len(), 2);
    assert_eq!(events[0].payload_version, "v1");
    assert_eq!(events[0].trace_id, Some(123));
    assert_eq!(events[1].dropped, Some(true));
    assert_eq!(events[1].spans.len(), 1);
}

#[test]
fn decode_v1_payload() {
    let mut span_b = field_str(1, "svc");
    span_b.extend(field_bytes(10, &str_entry("mk", "mv")));
    let mut metric_entry = field_str(1, "rate");
    metric_entry.extend(field_f64(2, f64::NAN));
    span_b.extend(field_bytes(11, &metric_entry));

    let mut chunk_b = field_varint(1, u64::MAX); // priority -1
    chunk_b.extend(field_str(2, "lambda"));
    chunk_b.extend(field_varint(3, 1));
    chunk_b.extend(field_bytes(4, &str_entry("env", "dev")));
    chunk_b.extend(field_bytes(5, &span_b));

    let mut tracer_b = field_str(2, "rust");
    tracer_b.extend(field_bytes(7, &str_entry("env", "stage")));
    tracer_b.extend(field_bytes(8, &chunk_b));

    let mut payload = field_str(1, "host-9");
    payload.extend(field_str(2, "prod"));
    payload.extend(field_str(6, "7.1"));
    payload.extend(field_f64(7, 12.5));
    payload.extend(field_f64(8, 0.25));
    payload.extend(field_bytes(5, &tracer_b));
    payload.extend(field_bytes(9, &str_entry("env", "prod")));

    let p = decode_payload(&payload).unwrap();
    assert_eq!(p.tracer_payloads.len(), 1);
    assert_eq!(p.tracer_payloads[0].language_name, "rust");
    assert_eq!(p.tracer_payloads[0].chunks.len(), 1);
    let c = &p.tracer_payloads[0].chunks[0];
    assert_eq!(c.priority, -1);
    assert_eq!(c.origin, "lambda");
    assert!(c.dropped_trace);
    assert_eq!(p.target_tps, 12.5f64.to_bits());
    assert_eq!(p.error_tps, 0.25f64.to_bits());

    let events = normalize_payload(&p, None, None);
    assert_eq!(events.len(), 1);
    let ev = &events[0];
    assert_eq!(ev.payload_version, "v2");
    assert_eq!(ev.priority, Some(-1));
    assert_eq!(ev.origin, Some("lambda".to_string()));
    assert_eq!(ev.dropped, Some(true));
    assert_eq!(ev.host, Some("host-9".to_string()));
    assert_eq!(ev.agent_version, Some("7.1".to_string()));
    assert_eq!(ev.target_tps, Some(12.5f64.to_bits()));
    // Chunk tag loses to tracer tag, which loses to the payload tag.
    let tags = ev.tags.as_ref().unwrap();
    assert_eq!(tags.get(&"env".to_string()), Some(&"prod".to_string()));
    // The NaN metric decoded from the wire ends up as an explicit null.
    assert_eq!(ev.spans[0].metrics[0].0, "rate");
    assert_eq!(ev.spans[0].metrics[0].1, MetricValue::Null);
    assert_eq!(ev.spans[0].meta.get(&"mk".to_string()), Some(&"mv".to_string()));
}

#[test]
fn decode_meta_struct_blob() {
    let mut entry = field_str(1, "blob");
    entry.extend(field_bytes(2, &[9u8, 8, 7]));
    let mut span_b = field_str(1, "svc");
    span_b.extend(field_bytes(13, &entry));
    let payload = field_bytes(4, &span_b);

    let p = decode_payload(&payload).unwrap();
    assert_eq!(p.transactions[0].meta_struct.len(), 1);
    assert_eq!(p.transactions[0].meta_struct[0].0, "blob");
    assert_eq!(p.transactions[0].meta_struct[0].1, vec![9u8, 8, 7]);
}

#[test]
fn decode_negative_timestamps() {
    // int64 wire values are 64-bit two's-complement varints.
    let minus_five = (-5i64) as u64;
    let mut trace_b = field_varint(1, 1);
    trace_b.extend(field_varint(3, minus_five));
    let payload = field_bytes(3, &trace_b);
    let p = decode_payload(&payload).unwrap();
    assert_eq!(p.traces[0].start_time, -5);
}
