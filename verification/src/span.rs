//! The span converter: maps one wire-level span record into its canonical
//! form. A pure, total field mapping; the only data-dependent rule is that a
//! NaN metric value becomes an explicit null, never an error and never a
//! dropped key.

use vstd::prelude::*;
use crate::tags::TagMap;
use crate::wire::{is_nan_bits, f64_bits_is_nan, Span, SpanView};

verus! {

/// A canonical metric value: a finite 64-bit float (as its IEEE-754 bit
/// pattern) or an explicit null standing in for a NaN wire value.
#[derive(Clone, Copy, Debug, PartialEq, Eq, Structural)]
pub enum MetricValue {
    Num(u64),
    Null,
}

/// The canonical form of one wire metric value: NaN is sanitized to null.
pub open spec fn metric_of(bits: u64) -> MetricValue {
    if is_nan_bits(bits) {
        MetricValue::Null
    } else {
        MetricValue::Num(bits)
    }
}

/// One canonical span map: the fixed field set every produced span carries.
pub struct CanonicalSpan {
    pub service: String,
    pub name: String,
    pub resource: String,
    pub trace_id: u64,
    pub span_id: u64,
    pub parent_id: u64,
    /// Start timestamp, nanoseconds.
    pub start: i64,
    pub duration: i64,
    pub error: i64,
    pub meta: TagMap,
    pub metrics: Vec<(String, MetricValue)>,
    pub meta_struct: Vec<(String, Vec<u8>)>,
    pub span_type: String,
}

#[verifier::ext_equal]
pub ghost struct CanonicalSpanView {
    pub service: Seq<char>,
    pub name: Seq<char>,
    pub resource: Seq<char>,
    pub trace_id: u64,
    pub span_id: u64,
    pub parent_id: u64,
    pub start: i64,
    pub duration: i64,
    pub error: i64,
    pub meta: Map<Seq<char>, Seq<char>>,
    pub metrics: Seq<(Seq<char>, MetricValue)>,
    pub meta_struct: Seq<(Seq<char>, Seq<u8>)>,
    pub span_type: Seq<char>,
}

impl View for CanonicalSpan {
    type V = CanonicalSpanView;

    open spec fn view(&self) -> CanonicalSpanView {
        CanonicalSpanView {
            service: self.service@,
            name: self.name@,
            resource: self.resource@,
            trace_id: self.trace_id,
            span_id: self.span_id,
            parent_id: self.parent_id,
            start: self.start,
            duration: self.duration,
            error: self.error,
            meta: self.meta@,
            metrics: self.metrics@.map_values(|p: (String, MetricValue)| (p.0@, p.1)),
            meta_struct: self.meta_struct@.map_values(|p: (String, Vec<u8>)| (p.0@, p.1@)),
            span_type: self.span_type@,
        }
    }
}

/// The canonical span a wire span maps to: names, ids and timings carried
/// over, the error flag widened, metrics sanitized per [`metric_of`], meta and
/// meta_struct carried through unchanged.
pub open spec fn canon_span(s: SpanView) -> CanonicalSpanView {
    CanonicalSpanView {
        service: s.service,
        name: s.name,
        resource: s.resource,
        trace_id: s.trace_id,
        span_id: s.span_id,
        parent_id: s.parent_id,
        start: s.start,
        duration: s.duration,
        error: s.error as i64,
        meta: s.meta,
        metrics: s.metrics.map_values(|p: (Seq<char>, u64)| (p.0, metric_of(p.1))),
        meta_struct: s.meta_struct,
        span_type: s.span_type,
    }
}

/// Byte-for-byte copy of a byte buffer.
fn clone_bytes(v: &Vec<u8>) -> (r: Vec<u8>)
    ensures
        r@ == v@,
{
    let mut out: Vec<u8> = Vec::new();
    let n: usize = v.len();
    let mut i: usize = 0;
    while i < n
        invariant
            i <= n,
            n == v@.len(),
            out@ == v@.take(i as int),
        decreases n - i,
    {
        out.push(v[i]);
        proof {
            assert(v@.take(i as int + 1) =~= v@.take(i as int).push(v@[i as int]));
        }
        i = i + 1;
    }
    proof {
        assert(v@.take(n as int) =~= v@);
    }
    out
}

/// Convert one wire span into its canonical form. Never fails: an irregular
/// metric value is sanitized to null, not rejected.
pub fn convert_span(s: &Span) -> (r: CanonicalSpan)
    ensures
        r@ == canon_span(s@),
{
    let mut metrics: Vec<(String, MetricValue)> = Vec::new();
    let nm: usize = s.metrics.len();
    let mut i: usize = 0;
    while i < nm
        invariant
            i <= nm,
            nm == s.metrics@.len(),
            metrics@.len() == i,
            forall|j: int|
                0 <= j < i ==> (#[trigger] metrics@[j]).0@ == s.metrics@[j].0@ && metrics@[j].1
                    == metric_of(s.metrics@[j].1),
        decreases nm - i,
    {
        let k = s.metrics[i].0.clone();
        let bits: u64 = s.metrics[i].1;
        let v = if f64_bits_is_nan(bits) {
            MetricValue::Null
        } else {
            MetricValue::Num(bits)
        };
        metrics.push((k, v));
        i = i + 1;
    }

    let mut meta_struct: Vec<(String, Vec<u8>)> = Vec::new();
    let nb: usize = s.meta_struct.len();
    let mut j: usize = 0;
    while j < nb
        invariant
            j <= nb,
            nb == s.meta_struct@.len(),
            meta_struct@.len() == j,
            forall|k: int|
                0 <= k < j ==> (#[trigger] meta_struct@[k]).0@ == s.meta_struct@[k].0@
                    && meta_struct@[k].1@ == s.meta_struct@[k].1@,
        decreases nb - j,
    {
        let k = s.meta_struct[j].0.clone();
        let b = clone_bytes(&s.meta_struct[j].1);
        meta_struct.push((k, b));
        j = j + 1;
    }

    let r = CanonicalSpan {
        service: s.service.clone(),
        name: s.name.clone(),
        resource: s.resource.clone(),
        trace_id: s.trace_id,
        span_id: s.span_id,
        parent_id: s.parent_id,
        start: s.start,
        duration: s.duration,
        error: s.error as i64,
        meta: s.meta.duplicate(),
        metrics,
        meta_struct,
        span_type: s.span_type.clone(),
    };
    proof {
        assert(r@.metrics =~= canon_span(s@).metrics);
        assert(r@.meta_struct =~~= canon_span(s@).meta_struct);
        assert(r@ =~~= canon_span(s@));
    }
    r
}

} // verus!
