//! The library's stated laws: properties of the normalizers that hold for
//! every payload, proved once here over the specification-level model that
//! the executable functions are verified against.

use vstd::prelude::*;
use crate::span::{canon_span, MetricValue};
use crate::wire::{is_nan_bits, DecodedPayloadView, SpanView, TracerPayloadView};
use crate::normalize::{
    chunk_events, routes_to_v1, spec_normalize, spec_normalize_v0, spec_normalize_v1, v1_event,
    v1_events_of,
};

verus! {

/// The total chunk count over a list of tracer payloads.
pub open spec fn total_chunks(tps: Seq<TracerPayloadView>) -> nat
    decreases tps.len(),
{
    if tps.len() == 0 {
        0
    } else {
        total_chunks(tps.drop_last()) + tps.last().chunks.len()
    }
}

proof fn lemma_total_chunks_step(tps: Seq<TracerPayloadView>, i: int)
    requires
        0 <= i < tps.len(),
    ensures
        total_chunks(tps.take(i + 1)) == total_chunks(tps.take(i)) + tps[i].chunks.len(),
{
    assert(tps.take(i + 1).drop_last() =~= tps.take(i));
    assert(tps.take(i + 1).last() == tps[i]);
}

proof fn lemma_total_chunks_prefix_le(tps: Seq<TracerPayloadView>, k: int)
    requires
        0 <= k <= tps.len(),
    ensures
        total_chunks(tps.take(k)) <= total_chunks(tps),
    decreases tps.len() - k,
{
    if k == tps.len() {
        assert(tps.take(k) =~= tps);
    } else {
        lemma_total_chunks_step(tps, k);
        lemma_total_chunks_prefix_le(tps, k + 1);
    }
}

proof fn lemma_v1_events_len(
    tps: Seq<TracerPayloadView>,
    p: DecodedPayloadView,
    key: Option<Seq<char>>,
)
    ensures
        v1_events_of(tps, p, key).len() == total_chunks(tps),
    decreases tps.len(),
{
    if tps.len() > 0 {
        lemma_v1_events_len(tps.drop_last(), p, key);
    }
}

proof fn lemma_v1_events_index(
    tps: Seq<TracerPayloadView>,
    p: DecodedPayloadView,
    key: Option<Seq<char>>,
    i: int,
    j: int,
)
    requires
        0 <= i < tps.len(),
        0 <= j < tps[i].chunks.len(),
    ensures
        v1_events_of(tps, p, key)[total_chunks(tps.take(i)) as int + j] == v1_event(
            tps[i],
            tps[i].chunks[j],
            p,
            key,
        ),
    decreases tps.len(),
{
    lemma_v1_events_len(tps.drop_last(), p, key);
    if i == tps.len() - 1 {
        assert(tps.take(i) =~= tps.drop_last());
        assert(tps.last() == tps[i]);
        assert(chunk_events(tps[i], p, key)[j] == v1_event(tps[i], tps[i].chunks[j], p, key));
    } else {
        lemma_v1_events_index(tps.drop_last(), p, key, i, j);
        assert(tps.drop_last().take(i) =~= tps.take(i));
        assert(tps.drop_last()[i] == tps[i]);
        lemma_total_chunks_step(tps.drop_last(), i);
        lemma_total_chunks_prefix_le(tps.drop_last(), i + 1);
    }
}

/// Law: a v1 payload with P tracer payloads each holding some chunks yields
/// exactly the total chunk count in events, and the event standing at chunk
/// j of payload i carries exactly as many spans as that chunk.
pub proof fn lemma_v1_event_count(p: DecodedPayloadView, api_key: Option<Seq<char>>)
    ensures
        spec_normalize_v1(p, api_key).len() == total_chunks(p.tracer_payloads),
        forall|i: int, j: int|
            0 <= i < p.tracer_payloads.len() && 0 <= j < p.tracer_payloads[i].chunks.len()
                ==> spec_normalize_v1(p, api_key)[total_chunks(p.tracer_payloads.take(i)) as int
                + j].spans.len() == (#[trigger] p.tracer_payloads[i].chunks[j]).spans.len(),
{
    lemma_v1_events_len(p.tracer_payloads, p, api_key);
    assert forall|i: int, j: int|
        0 <= i < p.tracer_payloads.len() && 0 <= j < p.tracer_payloads[i].chunks.len()
        implies spec_normalize_v1(p, api_key)[total_chunks(p.tracer_payloads.take(i)) as int
            + j].spans.len() == (#[trigger] p.tracer_payloads[i].chunks[j]).spans.len() by {
        lemma_v1_events_index(p.tracer_payloads, p, api_key, i, j);
    }
}

proof fn lemma_v1_events_version(
    tps: Seq<TracerPayloadView>,
    p: DecodedPayloadView,
    key: Option<Seq<char>>,
)
    ensures
        forall|k: int|
            0 <= k < v1_events_of(tps, p, key).len() ==> (#[trigger] v1_events_of(
                tps,
                p,
                key,
            )[k]).payload_version == "v2"@,
    decreases tps.len(),
{
    if tps.len() > 0 {
        lemma_v1_events_version(tps.drop_last(), p, key);
    }
}

/// Law: every event from the v1 path carries `payload_version == "v2"`, every
/// event from the v0 path carries `payload_version == "v1"`, and never the
/// reverse: an event carries `"v2"` exactly when the payload routed to v1.
pub proof fn lemma_payload_version(
    p: DecodedPayloadView,
    api_key: Option<Seq<char>>,
    lang: Option<Seq<char>>,
)
    ensures
        forall|k: int|
            0 <= k < spec_normalize(p, api_key, lang).len() ==> (#[trigger] spec_normalize(
                p,
                api_key,
                lang,
            )[k]).payload_version == (if routes_to_v1(p) {
                "v2"@
            } else {
                "v1"@
            }),
        forall|k: int|
            0 <= k < spec_normalize(p, api_key, lang).len() ==> ((#[trigger] spec_normalize(
                p,
                api_key,
                lang,
            )[k]).payload_version == "v2"@ <==> routes_to_v1(p)),
{
    assert("v1"@ != "v2"@) by {
        reveal_strlit("v1");
        reveal_strlit("v2");
        assert("v1"@[1] == '1');
        assert("v2"@[1] == '2');
    }
    if routes_to_v1(p) {
        lemma_v1_events_version(p.tracer_payloads, p, api_key);
    }
}

/// Law: every v0 standalone transaction yields an event with `dropped ==
/// true` whose span list has length exactly 1, standing after all flat-trace
/// events.
pub proof fn lemma_v0_transactions(
    p: DecodedPayloadView,
    lang: Option<Seq<char>>,
    api_key: Option<Seq<char>>,
)
    ensures
        spec_normalize_v0(p, lang, api_key).len() == p.traces.len() + p.transactions.len(),
        forall|j: int|
            0 <= j < p.transactions.len() ==> (#[trigger] spec_normalize_v0(
                p,
                lang,
                api_key,
            )[p.traces.len() as int + j]).dropped == Some(true),
        forall|j: int|
            0 <= j < p.transactions.len() ==> (#[trigger] spec_normalize_v0(
                p,
                lang,
                api_key,
            )[p.traces.len() as int + j]).spans.len() == 1,
{
}

/// Law: a NaN span metric value appears in the canonical metrics as an
/// explicit null under its key, not as an error and not as a dropped key; a
/// non-NaN value is carried through unchanged.
pub proof fn lemma_nan_metric_null(s: SpanView)
    ensures
        canon_span(s).metrics.len() == s.metrics.len(),
        forall|i: int|
            0 <= i < s.metrics.len() && is_nan_bits((#[trigger] s.metrics[i]).1) ==> canon_span(
                s,
            ).metrics[i] == (s.metrics[i].0, MetricValue::Null),
        forall|i: int|
            0 <= i < s.metrics.len() && !is_nan_bits((#[trigger] s.metrics[i]).1) ==> canon_span(
                s,
            ).metrics[i] == (s.metrics[i].0, MetricValue::Num(s.metrics[i].1)),
{
}

/// Law: a payload whose nested `tracer_payloads` list is empty is routed to
/// the v0 normalizer, and one with a populated list to the v1 normalizer,
/// whatever every other field holds.
pub proof fn lemma_routing(
    p: DecodedPayloadView,
    api_key: Option<Seq<char>>,
    lang: Option<Seq<char>>,
)
    ensures
        p.tracer_payloads.len() == 0 ==> spec_normalize(p, api_key, lang) == spec_normalize_v0(
            p,
            lang,
            api_key,
        ),
        p.tracer_payloads.len() > 0 ==> spec_normalize(p, api_key, lang) == spec_normalize_v1(
            p,
            api_key,
        ),
{
}

} // verus!
