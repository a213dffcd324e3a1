//! The canonical trace event: the unified output record produced for one
//! trace or one standalone transaction, regardless of which wire generation
//! carried it. Fields that only one path sets are optional; absent means the
//! event does not carry that attribute.

use vstd::prelude::*;
use crate::tags::TagMap;
use crate::span::{CanonicalSpan, CanonicalSpanView};

verus! {

/// The view of an optional owned string.
pub open spec fn view_opt_string(o: Option<String>) -> Option<Seq<char>> {
    match o {
        Some(s) => Some(s@),
        None => None,
    }
}

/// The view of an optional borrowed string.
pub open spec fn opt_ref_view(o: Option<&String>) -> Option<Seq<char>> {
    match o {
        Some(s) => Some(s@),
        None => None,
    }
}

/// The view of an optional tag map.
pub open spec fn view_opt_tags(o: Option<TagMap>) -> Option<Map<Seq<char>, Seq<char>>> {
    match o {
        Some(t) => Some(t@),
        None => None,
    }
}

/// One canonical trace event.
pub struct CanonicalEvent {
    /// Wire-generation marker: `"v2"` for events from the v1 (nested) path,
    /// `"v1"` for events from the v0 (flat) path. The swap relative to the
    /// generation number is deliberate and preserved.
    pub payload_version: String,
    /// Source-type tag, always `"datadog_agent"`.
    pub source_type: String,
    /// Converted spans, input order preserved.
    pub spans: Vec<CanonicalSpan>,
    /// Merged tags (v1 path only).
    pub tags: Option<TagMap>,
    /// Chunk priority (v1 path only).
    pub priority: Option<i64>,
    /// Chunk origin (v1 path only).
    pub origin: Option<String>,
    /// Drop marker: the chunk's flag on the v1 path, always true for a v0
    /// standalone transaction.
    pub dropped: Option<bool>,
    pub container_id: Option<String>,
    pub language_name: Option<String>,
    pub language_version: Option<String>,
    pub tracer_version: Option<String>,
    pub runtime_id: Option<String>,
    pub app_version: Option<String>,
    /// v0 trace id, truncated from the unsigned wire value (preserved lossy
    /// conversion).
    pub trace_id: Option<i64>,
    /// v0 trace start, nanoseconds.
    pub start_time: Option<i64>,
    /// v0 trace end, nanoseconds.
    pub end_time: Option<i64>,
    pub host: Option<String>,
    pub env: Option<String>,
    pub agent_version: Option<String>,
    /// v1 target traces-per-second rate, IEEE-754 bit pattern, never NaN.
    pub target_tps: Option<u64>,
    /// v1 error traces-per-second rate, IEEE-754 bit pattern, never NaN.
    pub error_tps: Option<u64>,
    /// Request api key, when the caller extracted one.
    pub api_key: Option<String>,
}

#[verifier::ext_equal]
pub ghost struct EventView {
    pub payload_version: Seq<char>,
    pub source_type: Seq<char>,
    pub spans: Seq<CanonicalSpanView>,
    pub tags: Option<Map<Seq<char>, Seq<char>>>,
    pub priority: Option<i64>,
    pub origin: Option<Seq<char>>,
    pub dropped: Option<bool>,
    pub container_id: Option<Seq<char>>,
    pub language_name: Option<Seq<char>>,
    pub language_version: Option<Seq<char>>,
    pub tracer_version: Option<Seq<char>>,
    pub runtime_id: Option<Seq<char>>,
    pub app_version: Option<Seq<char>>,
    pub trace_id: Option<i64>,
    pub start_time: Option<i64>,
    pub end_time: Option<i64>,
    pub host: Option<Seq<char>>,
    pub env: Option<Seq<char>>,
    pub agent_version: Option<Seq<char>>,
    pub target_tps: Option<u64>,
    pub error_tps: Option<u64>,
    pub api_key: Option<Seq<char>>,
}

impl View for CanonicalEvent {
    type V = EventView;

    open spec fn view(&self) -> EventView {
        EventView {
            payload_version: self.payload_version@,
            source_type: self.source_type@,
            spans: self.spans@.map_values(|s: CanonicalSpan| s@),
            tags: view_opt_tags(self.tags),
            priority: self.priority,
            origin: view_opt_string(self.origin),
            dropped: self.dropped,
            container_id: view_opt_string(self.container_id),
            language_name: view_opt_string(self.language_name),
            language_version: view_opt_string(self.language_version),
            tracer_version: view_opt_string(self.tracer_version),
            runtime_id: view_opt_string(self.runtime_id),
            app_version: view_opt_string(self.app_version),
            trace_id: self.trace_id,
            start_time: self.start_time,
            end_time: self.end_time,
            host: view_opt_string(self.host),
            env: view_opt_string(self.env),
            agent_version: view_opt_string(self.agent_version),
            target_tps: self.target_tps,
            error_tps: self.error_tps,
            api_key: view_opt_string(self.api_key),
        }
    }
}

/// The views of a produced event list, in order.
pub open spec fn events_view(s: Seq<CanonicalEvent>) -> Seq<EventView> {
    s.map_values(|e: CanonicalEvent| e@)
}

} // verus!
