//! Ingestion core for Datadog agent APM trace payloads.
//!
//! Raw request bytes are decoded from the agent's protobuf wire format into a
//! [`wire::DecodedPayload`], routed to the v0 (flat) or v1 (nested) schema
//! normalizer, and turned into an ordered list of canonical trace events with
//! defined enrichment and tag-merge semantics.

pub mod tags;
pub mod wire;
pub mod span;
pub mod event;
pub mod normalize;
pub mod laws;
pub mod decode;
