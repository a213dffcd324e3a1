//! The decoded wire data model.
//!
//! These are plain records for the two protobuf wire generations the agent
//! sends: the flat v0 lists (`traces`, `transactions`) and the nested v1 list
//! (`tracer_payloads`). Floating-point wire values (`double` fields) are held
//! as their IEEE-754 bit patterns in `u64` fields, so that NaN handling is
//! plain integer logic.

use vstd::prelude::*;
use crate::tags::TagMap;

verus! {

/// True when `bits` is the IEEE-754 bit pattern of a 64-bit NaN: exponent all
/// ones and a non-zero mantissa.
pub open spec fn is_nan_bits(bits: u64) -> bool {
    (bits >> 52) & 0x7ff == 0x7ff && bits & 0x000f_ffff_ffff_ffff != 0
}

/// Executable NaN test on an IEEE-754 bit pattern.
pub fn f64_bits_is_nan(bits: u64) -> (r: bool)
    ensures
        r == is_nan_bits(bits),
{
    (bits >> 52u64) & 0x7ffu64 == 0x7ffu64 && bits & 0x000f_ffff_ffff_ffffu64 != 0
}

/// One wire-level span record.
pub struct Span {
    pub service: String,
    pub name: String,
    pub resource: String,
    pub trace_id: u64,
    pub span_id: u64,
    pub parent_id: u64,
    /// Start timestamp, nanoseconds.
    pub start: i64,
    /// Duration, nanoseconds.
    pub duration: i64,
    /// Error flag.
    pub error: i32,
    pub meta: TagMap,
    /// Metric values as IEEE-754 bit patterns.
    pub metrics: Vec<(String, u64)>,
    /// Opaque byte blobs, carried through unconverted.
    pub meta_struct: Vec<(String, Vec<u8>)>,
    pub span_type: String,
}

#[verifier::ext_equal]
pub ghost struct SpanView {
    pub service: Seq<char>,
    pub name: Seq<char>,
    pub resource: Seq<char>,
    pub trace_id: u64,
    pub span_id: u64,
    pub parent_id: u64,
    pub start: i64,
    pub duration: i64,
    pub error: i32,
    pub meta: Map<Seq<char>, Seq<char>>,
    pub metrics: Seq<(Seq<char>, u64)>,
    pub meta_struct: Seq<(Seq<char>, Seq<u8>)>,
    pub span_type: Seq<char>,
}

impl View for Span {
    type V = SpanView;

    open spec fn view(&self) -> SpanView {
        SpanView {
            service: self.service@,
            name: self.name@,
            resource: self.resource@,
            trace_id: self.trace_id,
            span_id: self.span_id,
            parent_id: self.parent_id,
            start: self.start,
            duration: self.duration,
            error: self.error,
            meta: self.meta@,
            metrics: self.metrics@.map_values(|p: (String, u64)| (p.0@, p.1)),
            meta_struct: self.meta_struct@.map_values(|p: (String, Vec<u8>)| (p.0@, p.1@)),
            span_type: self.span_type@,
        }
    }
}

/// One v1 trace chunk: one trace plus trace-level metadata.
pub struct TraceChunk {
    pub priority: i32,
    pub origin: String,
    pub dropped_trace: bool,
    pub tags: TagMap,
    pub spans: Vec<Span>,
}

#[verifier::ext_equal]
pub ghost struct TraceChunkView {
    pub priority: i32,
    pub origin: Seq<char>,
    pub dropped_trace: bool,
    pub tags: Map<Seq<char>, Seq<char>>,
    pub spans: Seq<SpanView>,
}

impl View for TraceChunk {
    type V = TraceChunkView;

    open spec fn view(&self) -> TraceChunkView {
        TraceChunkView {
            priority: self.priority,
            origin: self.origin@,
            dropped_trace: self.dropped_trace,
            tags: self.tags@,
            spans: self.spans@.map_values(|s: Span| s@),
        }
    }
}

/// The v1 grouping of chunks emitted by one tracer/process instance.
pub struct TracerPayload {
    pub container_id: String,
    pub language_name: String,
    pub language_version: String,
    pub tracer_version: String,
    pub runtime_id: String,
    pub app_version: String,
    pub tags: TagMap,
    pub chunks: Vec<TraceChunk>,
}

#[verifier::ext_equal]
pub ghost struct TracerPayloadView {
    pub container_id: Seq<char>,
    pub language_name: Seq<char>,
    pub language_version: Seq<char>,
    pub tracer_version: Seq<char>,
    pub runtime_id: Seq<char>,
    pub app_version: Seq<char>,
    pub tags: Map<Seq<char>, Seq<char>>,
    pub chunks: Seq<TraceChunkView>,
}

impl View for TracerPayload {
    type V = TracerPayloadView;

    open spec fn view(&self) -> TracerPayloadView {
        TracerPayloadView {
            container_id: self.container_id@,
            language_name: self.language_name@,
            language_version: self.language_version@,
            tracer_version: self.tracer_version@,
            runtime_id: self.runtime_id@,
            app_version: self.app_version@,
            tags: self.tags@,
            chunks: self.chunks@.map_values(|c: TraceChunk| c@),
        }
    }
}

/// One v0 top-level trace record.
pub struct Trace {
    pub trace_id: u64,
    /// Start timestamp, nanoseconds.
    pub start_time: i64,
    /// End timestamp, nanoseconds.
    pub end_time: i64,
    pub spans: Vec<Span>,
}

#[verifier::ext_equal]
pub ghost struct TraceView {
    pub trace_id: u64,
    pub start_time: i64,
    pub end_time: i64,
    pub spans: Seq<SpanView>,
}

impl View for Trace {
    type V = TraceView;

    open spec fn view(&self) -> TraceView {
        TraceView {
            trace_id: self.trace_id,
            start_time: self.start_time,
            end_time: self.end_time,
            spans: self.spans@.map_values(|s: Span| s@),
        }
    }
}

/// The top-level deserialized wire message.
pub struct DecodedPayload {
    pub env: String,
    pub host_name: String,
    pub agent_version: String,
    /// Target traces-per-second rate, IEEE-754 bit pattern.
    pub target_tps: u64,
    /// Error traces-per-second rate, IEEE-754 bit pattern.
    pub error_tps: u64,
    pub tags: TagMap,
    /// Non-empty exactly on the v1 path.
    pub tracer_payloads: Vec<TracerPayload>,
    /// v0 flat trace list.
    pub traces: Vec<Trace>,
    /// v0 standalone transactions, each a single span record.
    pub transactions: Vec<Span>,
}

#[verifier::ext_equal]
pub ghost struct DecodedPayloadView {
    pub env: Seq<char>,
    pub host_name: Seq<char>,
    pub agent_version: Seq<char>,
    pub target_tps: u64,
    pub error_tps: u64,
    pub tags: Map<Seq<char>, Seq<char>>,
    pub tracer_payloads: Seq<TracerPayloadView>,
    pub traces: Seq<TraceView>,
    pub transactions: Seq<SpanView>,
}

impl View for DecodedPayload {
    type V = DecodedPayloadView;

    open spec fn view(&self) -> DecodedPayloadView {
        DecodedPayloadView {
            env: self.env@,
            host_name: self.host_name@,
            agent_version: self.agent_version@,
            target_tps: self.target_tps,
            error_tps: self.error_tps,
            tags: self.tags@,
            tracer_payloads: self.tracer_payloads@.map_values(|t: TracerPayload| t@),
            traces: self.traces@.map_values(|t: Trace| t@),
            transactions: self.transactions@.map_values(|s: Span| s@),
        }
    }
}

} // verus!
