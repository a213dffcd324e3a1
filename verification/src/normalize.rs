//! The two schema normalizers, the schema router, and the embedded enricher.
//!
//! The v1 normalizer flattens tracer payloads and their chunks into one event
//! per chunk; the v0 normalizer emits one event per flat trace, then one per
//! standalone transaction. Both attach the request- and payload-scoped
//! enrichment fields to every event they produce. The router dispatches on a
//! single rule: a non-empty `tracer_payloads` list means v1.

use vstd::prelude::*;
use crate::event::{CanonicalEvent, EventView, events_view, opt_ref_view, view_opt_string};
use crate::span::{canon_span, convert_span, CanonicalSpan};
use crate::wire::{
    is_nan_bits, f64_bits_is_nan, DecodedPayload, DecodedPayloadView, SpanView, TraceChunkView,
    TracerPayloadView, TraceView,
};

verus! {

/// The event one v1 chunk yields: chunk fields, converted spans, merged tags
/// (chunk < tracer < payload precedence), tracer-payload fields, and the v1
/// enrichment (`payload_version = "v2"`, host, env, agent version, rates).
pub open spec fn v1_event(
    tp: TracerPayloadView,
    c: TraceChunkView,
    p: DecodedPayloadView,
    api_key: Option<Seq<char>>,
) -> EventView {
    EventView {
        payload_version: "v2"@,
        source_type: "datadog_agent"@,
        spans: c.spans.map_values(|s: SpanView| canon_span(s)),
        tags: Some(c.tags.union_prefer_right(tp.tags).union_prefer_right(p.tags)),
        priority: Some(c.priority as i64),
        origin: Some(c.origin),
        dropped: Some(c.dropped_trace),
        container_id: Some(tp.container_id),
        language_name: Some(tp.language_name),
        language_version: Some(tp.language_version),
        tracer_version: Some(tp.tracer_version),
        runtime_id: Some(tp.runtime_id),
        app_version: Some(tp.app_version),
        trace_id: None,
        start_time: None,
        end_time: None,
        host: Some(p.host_name),
        env: Some(p.env),
        agent_version: Some(p.agent_version),
        target_tps: Some(p.target_tps),
        error_tps: Some(p.error_tps),
        api_key: api_key,
    }
}

/// The events of one tracer payload: one per chunk, chunk order preserved.
pub open spec fn chunk_events(
    tp: TracerPayloadView,
    p: DecodedPayloadView,
    api_key: Option<Seq<char>>,
) -> Seq<EventView> {
    tp.chunks.map_values(|c: TraceChunkView| v1_event(tp, c, p, api_key))
}

/// The events of a list of tracer payloads, payload order preserved.
pub open spec fn v1_events_of(
    tps: Seq<TracerPayloadView>,
    p: DecodedPayloadView,
    api_key: Option<Seq<char>>,
) -> Seq<EventView>
    decreases tps.len(),
{
    if tps.len() == 0 {
        Seq::empty()
    } else {
        v1_events_of(tps.drop_last(), p, api_key) + chunk_events(tps.last(), p, api_key)
    }
}

/// Everything the v1 normalizer yields for a payload.
pub open spec fn spec_normalize_v1(p: DecodedPayloadView, api_key: Option<Seq<char>>) -> Seq<
    EventView,
> {
    v1_events_of(p.tracer_payloads, p, api_key)
}

/// The event one v0 flat trace yields. The trace id is truncated into a
/// signed 64-bit field: a known lossy conversion, preserved on purpose.
pub open spec fn v0_trace_event(
    t: TraceView,
    p: DecodedPayloadView,
    lang: Option<Seq<char>>,
    api_key: Option<Seq<char>>,
) -> EventView {
    EventView {
        payload_version: "v1"@,
        source_type: "datadog_agent"@,
        spans: t.spans.map_values(|s: SpanView| canon_span(s)),
        tags: None,
        priority: None,
        origin: None,
        dropped: None,
        container_id: None,
        language_name: lang,
        language_version: None,
        tracer_version: None,
        runtime_id: None,
        app_version: None,
        trace_id: Some(t.trace_id as i64),
        start_time: Some(t.start_time),
        end_time: Some(t.end_time),
        host: Some(p.host_name),
        env: Some(p.env),
        agent_version: None,
        target_tps: None,
        error_tps: None,
        api_key: api_key,
    }
}

/// The event one v0 standalone transaction yields: a single converted span
/// and `dropped = true`.
pub open spec fn v0_txn_event(
    s: SpanView,
    p: DecodedPayloadView,
    lang: Option<Seq<char>>,
    api_key: Option<Seq<char>>,
) -> EventView {
    EventView {
        payload_version: "v1"@,
        source_type: "datadog_agent"@,
        spans: seq![canon_span(s)],
        tags: None,
        priority: None,
        origin: None,
        dropped: Some(true),
        container_id: None,
        language_name: lang,
        language_version: None,
        tracer_version: None,
        runtime_id: None,
        app_version: None,
        trace_id: None,
        start_time: None,
        end_time: None,
        host: Some(p.host_name),
        env: Some(p.env),
        agent_version: None,
        target_tps: None,
        error_tps: None,
        api_key: api_key,
    }
}

/// Everything the v0 normalizer yields: first every flat trace, then every
/// standalone transaction, each list in input order.
pub open spec fn spec_normalize_v0(
    p: DecodedPayloadView,
    lang: Option<Seq<char>>,
    api_key: Option<Seq<char>>,
) -> Seq<EventView> {
    p.traces.map_values(|t: TraceView| v0_trace_event(t, p, lang, api_key))
        + p.transactions.map_values(|s: SpanView| v0_txn_event(s, p, lang, api_key))
}

/// The routing rule: the v1 path is taken exactly when the nested
/// `tracer_payloads` list is populated. This is the sole discriminator.
pub open spec fn routes_to_v1(p: DecodedPayloadView) -> bool {
    p.tracer_payloads.len() > 0
}

/// What normalizing a decoded payload yields, whichever path it routes to.
pub open spec fn spec_normalize(
    p: DecodedPayloadView,
    api_key: Option<Seq<char>>,
    lang: Option<Seq<char>>,
) -> Seq<EventView> {
    if routes_to_v1(p) {
        spec_normalize_v1(p, api_key)
    } else {
        spec_normalize_v0(p, lang, api_key)
    }
}

/// Copy an optional borrowed string into an owned one.
fn clone_opt_string(o: Option<&String>) -> (r: Option<String>)
    ensures
        view_opt_string(r) == opt_ref_view(o),
{
    match o {
        Some(s) => Some(s.clone()),
        None => None,
    }
}

/// Convert every span of a slice, order preserved.
fn convert_spans(spans: &Vec<crate::wire::Span>) -> (r: Vec<CanonicalSpan>)
    ensures
        r@.map_values(|cs: CanonicalSpan| cs@) == spans@.map_values(|s: crate::wire::Span| s@)
            .map_values(|s: SpanView| canon_span(s)),
{
    let mut out: Vec<CanonicalSpan> = Vec::new();
    let n: usize = spans.len();
    let mut i: usize = 0;
    while i < n
        invariant
            i <= n,
            n == spans@.len(),
            out@.len() == i,
            forall|m: int|
                0 <= m < i ==> (#[trigger] out@[m])@ == canon_span(spans@[m]@),
        decreases n - i,
    {
        let cs = convert_span(&spans[i]);
        out.push(cs);
        i = i + 1;
    }
    proof {
        assert(out@.map_values(|cs: CanonicalSpan| cs@) =~= spans@.map_values(
            |s: crate::wire::Span| s@,
        ).map_values(|s: SpanView| canon_span(s)));
    }
    out
}

/// True when the payload-level rate fields are not NaN: the v1 normalizer's
/// invariant. A caller that cannot rule NaN out tests this first.
pub fn payload_rates_valid(p: &DecodedPayload) -> (r: bool)
    ensures
        r == (!is_nan_bits(p.target_tps) && !is_nan_bits(p.error_tps)),
{
    !f64_bits_is_nan(p.target_tps) && !f64_bits_is_nan(p.error_tps)
}

/// The v1 normalizer: one event per chunk of each tracer payload, in payload
/// then chunk order, each enriched with the payload-scoped fields. A NaN
/// payload-level rate is a contract violation of the wire producer, not a
/// recoverable error, so it is excluded here; callers gate on
/// [`payload_rates_valid`].
pub fn normalize_v1(p: &DecodedPayload, api_key: Option<&String>) -> (r: Vec<CanonicalEvent>)
    requires
        !is_nan_bits(p.target_tps),
        !is_nan_bits(p.error_tps),
    ensures
        events_view(r@) == spec_normalize_v1(p@, opt_ref_view(api_key)),
{
    let ghost key = opt_ref_view(api_key);
    let mut events: Vec<CanonicalEvent> = Vec::new();
    let np: usize = p.tracer_payloads.len();
    let mut i: usize = 0;
    proof {
        assert(p@.tracer_payloads.take(0) =~= Seq::<TracerPayloadView>::empty());
    }
    while i < np
        invariant
            i <= np,
            np == p.tracer_payloads@.len(),
            key == opt_ref_view(api_key),
            events_view(events@) == v1_events_of(p@.tracer_payloads.take(i as int), p@, key),
        decreases np - i,
    {
        let tp = &p.tracer_payloads[i];
        proof {
            assert(tp@ == p@.tracer_payloads[i as int]);
        }
        let nc: usize = tp.chunks.len();
        let mut j: usize = 0;
        while j < nc
            invariant
                j <= nc,
                i < np,
                np == p.tracer_payloads@.len(),
                nc == tp.chunks@.len(),
                key == opt_ref_view(api_key),
                tp == &p.tracer_payloads[i as int],
                tp@ == p@.tracer_payloads[i as int],
                events_view(events@) == v1_events_of(p@.tracer_payloads.take(i as int), p@, key)
                    + tp@.chunks.take(j as int).map_values(
                    |c: TraceChunkView| v1_event(tp@, c, p@, key),
                ),
            decreases nc - j,
        {
            let chunk = &tp.chunks[j];
            proof {
                assert(chunk@ == tp@.chunks[j as int]);
            }
            let cspans = convert_spans(&chunk.spans);
            let tags = chunk.tags.duplicate().merge(tp.tags.duplicate()).merge(
                p.tags.duplicate(),
            );
            let ev = CanonicalEvent {
                payload_version: "v2".to_owned(),
                source_type: "datadog_agent".to_owned(),
                spans: cspans,
                tags: Some(tags),
                priority: Some(chunk.priority as i64),
                origin: Some(chunk.origin.clone()),
                dropped: Some(chunk.dropped_trace),
                container_id: Some(tp.container_id.clone()),
                language_name: Some(tp.language_name.clone()),
                language_version: Some(tp.language_version.clone()),
                tracer_version: Some(tp.tracer_version.clone()),
                runtime_id: Some(tp.runtime_id.clone()),
                app_version: Some(tp.app_version.clone()),
                trace_id: None,
                start_time: None,
                end_time: None,
                host: Some(p.host_name.clone()),
                env: Some(p.env.clone()),
                agent_version: Some(p.agent_version.clone()),
                target_tps: Some(p.target_tps),
                error_tps: Some(p.error_tps),
                api_key: clone_opt_string(api_key),
            };
            proof {
                assert(ev@ =~~= v1_event(tp@, chunk@, p@, key));
            }
            let ghost evs_before = events@;
            events.push(ev);
            proof {
                assert(events_view(events@) =~= events_view(evs_before).push(
                    v1_event(tp@, tp@.chunks[j as int], p@, key),
                ));
                assert(tp@.chunks.take(j as int + 1).map_values(
                    |c: TraceChunkView| v1_event(tp@, c, p@, key),
                ) =~= tp@.chunks.take(j as int).map_values(
                    |c: TraceChunkView| v1_event(tp@, c, p@, key),
                ).push(v1_event(tp@, tp@.chunks[j as int], p@, key)));
                assert(events_view(events@) =~= v1_events_of(
                    p@.tracer_payloads.take(i as int),
                    p@,
                    key,
                ) + tp@.chunks.take(j as int + 1).map_values(
                    |c: TraceChunkView| v1_event(tp@, c, p@, key),
                ));
            }
            j = j + 1;
        }
        proof {
            assert(tp@.chunks.take(nc as int) =~= tp@.chunks);
            assert(tp@.chunks.map_values(|c: TraceChunkView| v1_event(tp@, c, p@, key))
                =~= chunk_events(tp@, p@, key));
            let tps1 = p@.tracer_payloads.take(i as int + 1);
            assert(tps1.drop_last() =~= p@.tracer_payloads.take(i as int));
            assert(tps1.last() == p@.tracer_payloads[i as int]);
            assert(events_view(events@) =~= v1_events_of(tps1, p@, key));
        }
        i = i + 1;
    }
    proof {
        assert(p@.tracer_payloads.take(np as int) =~= p@.tracer_payloads);
    }
    events
}

/// The v0 normalizer: one event per flat trace, then one per standalone
/// transaction, each enriched with the v0 fields, including the caller's
/// reported-language header value when one was supplied.
pub fn normalize_v0(p: &DecodedPayload, lang: Option<&String>, api_key: Option<&String>) -> (r:
    Vec<CanonicalEvent>)
    ensures
        events_view(r@) == spec_normalize_v0(p@, opt_ref_view(lang), opt_ref_view(api_key)),
{
    let ghost lv = opt_ref_view(lang);
    let ghost key = opt_ref_view(api_key);
    let mut events: Vec<CanonicalEvent> = Vec::new();
    let nt: usize = p.traces.len();
    let mut i: usize = 0;
    proof {
        assert(p@.traces.take(0) =~= Seq::<TraceView>::empty());
        assert(events_view(events@) =~= p@.traces.take(0).map_values(
            |t: TraceView| v0_trace_event(t, p@, lv, key),
        ));
    }
    while i < nt
        invariant
            i <= nt,
            nt == p.traces@.len(),
            lv == opt_ref_view(lang),
            key == opt_ref_view(api_key),
            events_view(events@) == p@.traces.take(i as int).map_values(
                |t: TraceView| v0_trace_event(t, p@, lv, key),
            ),
        decreases nt - i,
    {
        let t = &p.traces[i];
        proof {
            assert(t@ == p@.traces[i as int]);
        }
        let cspans = convert_spans(&t.spans);
        let ev = CanonicalEvent {
            payload_version: "v1".to_owned(),
            source_type: "datadog_agent".to_owned(),
            spans: cspans,
            tags: None,
            priority: None,
            origin: None,
            dropped: None,
            container_id: None,
            language_name: clone_opt_string(lang),
            language_version: None,
            tracer_version: None,
            runtime_id: None,
            app_version: None,
            trace_id: Some(#[verifier::truncate] (t.trace_id as i64)),
            start_time: Some(t.start_time),
            end_time: Some(t.end_time),
            host: Some(p.host_name.clone()),
            env: Some(p.env.clone()),
            agent_version: None,
            target_tps: None,
            error_tps: None,
            api_key: clone_opt_string(api_key),
        };
        proof {
            assert(ev@ =~~= v0_trace_event(t@, p@, lv, key));
        }
        let ghost evs_before = events@;
        events.push(ev);
        proof {
            assert(events_view(events@) =~= events_view(evs_before).push(
                v0_trace_event(p@.traces[i as int], p@, lv, key),
            ));
            assert(p@.traces.take(i as int + 1).map_values(
                |t: TraceView| v0_trace_event(t, p@, lv, key),
            ) =~= p@.traces.take(i as int).map_values(
                |t: TraceView| v0_trace_event(t, p@, lv, key),
            ).push(v0_trace_event(p@.traces[i as int], p@, lv, key)));
        }
        i = i + 1;
    }
    proof {
        assert(p@.traces.take(nt as int) =~= p@.traces);
    }
    let nx: usize = p.transactions.len();
    let mut j: usize = 0;
    proof {
        assert(p@.transactions.take(0) =~= Seq::<SpanView>::empty());
        assert(events_view(events@) =~= p@.traces.map_values(
            |t: TraceView| v0_trace_event(t, p@, lv, key),
        ) + p@.transactions.take(0).map_values(|s: SpanView| v0_txn_event(s, p@, lv, key)));
    }
    while j < nx
        invariant
            j <= nx,
            nx == p.transactions@.len(),
            lv == opt_ref_view(lang),
            key == opt_ref_view(api_key),
            events_view(events@) == p@.traces.map_values(
                |t: TraceView| v0_trace_event(t, p@, lv, key),
            ) + p@.transactions.take(j as int).map_values(
                |s: SpanView| v0_txn_event(s, p@, lv, key),
            ),
        decreases nx - j,
    {
        let s = &p.transactions[j];
        proof {
            assert(s@ == p@.transactions[j as int]);
        }
        let cs = convert_span(s);
        let mut one: Vec<CanonicalSpan> = Vec::new();
        one.push(cs);
        let ev = CanonicalEvent {
            payload_version: "v1".to_owned(),
            source_type: "datadog_agent".to_owned(),
            spans: one,
            tags: None,
            priority: None,
            origin: None,
            dropped: Some(true),
            container_id: None,
            language_name: clone_opt_string(lang),
            language_version: None,
            tracer_version: None,
            runtime_id: None,
            app_version: None,
            trace_id: None,
            start_time: None,
            end_time: None,
            host: Some(p.host_name.clone()),
            env: Some(p.env.clone()),
            agent_version: None,
            target_tps: None,
            error_tps: None,
            api_key: clone_opt_string(api_key),
        };
        proof {
            assert(ev@.spans =~= seq![canon_span(s@)]);
            assert(ev@ =~~= v0_txn_event(s@, p@, lv, key));
        }
        let ghost evs_before = events@;
        events.push(ev);
        proof {
            assert(events_view(events@) =~= events_view(evs_before).push(
                v0_txn_event(p@.transactions[j as int], p@, lv, key),
            ));
            assert(p@.transactions.take(j as int + 1).map_values(
                |s: SpanView| v0_txn_event(s, p@, lv, key),
            ) =~= p@.transactions.take(j as int).map_values(
                |s: SpanView| v0_txn_event(s, p@, lv, key),
            ).push(v0_txn_event(p@.transactions[j as int], p@, lv, key)));
            assert(events_view(events@) =~= p@.traces.map_values(
                |t: TraceView| v0_trace_event(t, p@, lv, key),
            ) + p@.transactions.take(j as int + 1).map_values(
                |s: SpanView| v0_txn_event(s, p@, lv, key),
            ));
        }
        j = j + 1;
    }
    proof {
        assert(p@.transactions.take(nx as int) =~= p@.transactions);
    }
    events
}

/// The schema router: dispatches a decoded payload to the v1 normalizer when
/// its nested `tracer_payloads` list is populated, else to the v0 normalizer.
pub fn normalize_payload(
    p: &DecodedPayload,
    api_key: Option<&String>,
    lang: Option<&String>,
) -> (r: Vec<CanonicalEvent>)
    requires
        routes_to_v1(p@) ==> !is_nan_bits(p.target_tps) && !is_nan_bits(p.error_tps),
    ensures
        events_view(r@) == spec_normalize(p@, opt_ref_view(api_key), opt_ref_view(lang)),
        routes_to_v1(p@) ==> events_view(r@) == spec_normalize_v1(p@, opt_ref_view(api_key)),
        !routes_to_v1(p@) ==> events_view(r@) == spec_normalize_v0(
            p@,
            opt_ref_view(lang),
            opt_ref_view(api_key),
        ),
{
    if p.tracer_payloads.len() > 0 {
        normalize_v1(p, api_key)
    } else {
        normalize_v0(p, lang, api_key)
    }
}

} // verus!

