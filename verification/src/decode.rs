//! The wire decoder: parses raw request bytes into a [`DecodedPayload`].
//!
//! The agent serializes its payloads as protocol-buffer messages. The decoder
//! reads that wire format directly: base-128 varints, 64-bit little-endian
//! scalars, and length-delimited sub-messages, with the field numbers listed
//! at each builder below. Decoding is deterministic and pure; malformed input
//! (a truncated buffer, a bad tag, an unknown field, an over-long length)
//! yields a [`DecodeError`] and no partial result. Every parsing function is
//! verified equal to the specification-level parser it mirrors, so the
//! contract of [`decode_payload`] pins the accepted byte strings and their
//! decoding down completely.
//!
//! Field numbers, wire types 0 (varint), 1 (fixed 64-bit) and 2
//! (length-delimited):
//! - payload: 1 host name, 2 env, 3 trace, 4 transaction, 5 tracer payload,
//!   6 agent version, 7 target TPS (double), 8 error TPS (double), 9 tag
//!   entry.
//! - tracer payload: 1 container id, 2 language name, 3 language version,
//!   4 tracer version, 5 runtime id, 6 app version, 7 tag entry, 8 chunk.
//! - chunk: 1 priority, 2 origin, 3 dropped flag, 4 tag entry, 5 span.
//! - trace: 1 trace id, 2 span, 3 start time, 4 end time.
//! - span: 1 service, 2 name, 3 resource, 4 trace id, 5 span id, 6 parent
//!   id, 7 start, 8 duration, 9 error flag, 10 meta entry, 11 metric entry,
//!   12 type, 13 meta-struct entry.
//! - map entries: 1 key, 2 value.

use vstd::prelude::*;
use crate::tags::TagMap;
use crate::wire::{
    DecodedPayload, DecodedPayloadView, Span, SpanView, Trace, TraceChunk, TraceChunkView,
    TracerPayload, TracerPayloadView, TraceView,
};

verus! {

/// The characters a byte string decodes to.
pub uninterp spec fn utf8_chars(b: Seq<u8>) -> Seq<char>;

/// Relies on `String::from_utf8_lossy`: the resulting characters are a
/// function of the input bytes alone.
#[verifier::external_body]
fn string_from_bytes(b: &[u8]) -> (r: String)
    ensures
        r@ == utf8_chars(b@),
{
    String::from_utf8_lossy(b).into_owned()
}

/// A decode failure: the bytes are not a well-formed serialized payload.
/// Carries no partial result.
#[derive(Debug)]
pub struct DecodeError {}

impl DecodeError {
    /// The client-facing description of a rejected payload.
    pub fn message(&self) -> (r: String)
        ensures
            r@ == "Error decoding Datadog traces: malformed protobuf payload"@,
    {
        "Error decoding Datadog traces: malformed protobuf payload".to_owned()
    }
}

/// Base-128 varint read at `i`, strict: at most ten bytes, no over-long
/// shifts, no trailing zero continuation byte.
pub open spec fn sp_varint(s: Seq<u8>, i: int, end: int, shift: u64, acc: u64) -> Option<
    (u64, int),
>
    decreases end - i,
{
    if i < 0 || i >= end || end > s.len() || shift >= 64 {
        None
    } else {
        let b: u8 = s[i];
        let val: u64 = acc | (((b & 0x7f) as u64) << shift);
        if b & 0x80 == 0 {
            if shift > 0 && b == 0 {
                None
            } else {
                Some((val, i + 1))
            }
        } else {
            sp_varint(s, i + 1, end, (shift + 7) as u64, val)
        }
    }
}

/// A varint read from scratch.
pub open spec fn sp_vint(s: Seq<u8>, i: int, end: int) -> Option<(u64, int)> {
    sp_varint(s, i, end, 0, 0)
}

/// A successful varint read lands strictly past its start and within bounds.
pub proof fn lemma_sp_varint_bounds(s: Seq<u8>, i: int, end: int, shift: u64, acc: u64)
    ensures
        sp_varint(s, i, end, shift, acc) matches Some(t) ==> i < t.1 <= end && end <= s.len(),
    decreases end - i,
{
    if !(i < 0 || i >= end || end > s.len() || shift >= 64) {
        if s[i] & 0x80 != 0 {
            lemma_sp_varint_bounds(
                s,
                i + 1,
                end,
                (shift + 7) as u64,
                acc | (((s[i] & 0x7f) as u64) << shift),
            );
        }
    }
}

fn read_varint(s: &[u8], i: usize, end: usize, shift: u64, acc: u64) -> (r: Option<(u64, usize)>)
    requires
        end <= s@.len(),
    ensures
        match r {
            Some(t) => sp_varint(s@, i as int, end as int, shift, acc) == Some((t.0, t.1 as int))
                && i < t.1 <= end,
            None => sp_varint(s@, i as int, end as int, shift, acc) is None,
        },
    decreases end - i,
{
    if i >= end || shift >= 64 {
        return None;
    }
    let b: u8 = s[i];
    let val: u64 = acc | (((b & 0x7f) as u64) << shift);
    if b & 0x80 == 0 {
        if shift > 0 && b == 0 {
            None
        } else {
            Some((val, i + 1))
        }
    } else {
        read_varint(s, i + 1, end, shift + 7, val)
    }
}

/// The 64-bit little-endian scalar standing at `i`.
pub open spec fn le64_at(s: Seq<u8>, i: int) -> u64 {
    (s[i] as u64) | ((s[i + 1] as u64) << 8) | ((s[i + 2] as u64) << 16) | ((s[i + 3] as u64)
        << 24) | ((s[i + 4] as u64) << 32) | ((s[i + 5] as u64) << 40) | ((s[i + 6] as u64) << 48)
        | ((s[i + 7] as u64) << 56)
}

fn read_le64(s: &[u8], i: usize) -> (r: u64)
    requires
        i + 8 <= s@.len(),
    ensures
        r == le64_at(s@, i as int),
{
    (s[i] as u64) | ((s[i + 1] as u64) << 8u64) | ((s[i + 2] as u64) << 16u64) | ((s[i + 3] as u64)
        << 24u64) | ((s[i + 4] as u64) << 32u64) | ((s[i + 5] as u64) << 40u64) | ((s[i + 6] as u64)
        << 48u64) | ((s[i + 7] as u64) << 56u64)
}

/// One decoded wire field value: a varint, a 64-bit scalar, or the byte range
/// of a length-delimited value.
#[derive(Clone, Copy, PartialEq, Eq, Structural, Debug)]
pub enum FieldVal {
    VInt(u64),
    F64(u64),
    Chunk(usize, usize),
}

/// True when a field value's byte range lies within `end`.
pub open spec fn fv_in_range(f: FieldVal, end: int) -> bool {
    match f {
        FieldVal::Chunk(a, b) => a <= b && b <= end,
        _ => true,
    }
}

/// Split the byte range `[i, end)` into its wire fields: for each field its
/// number and its value, length-delimited values as ranges into `s`. `None`
/// when the range is not a well-formed field sequence (bad varint, field
/// number zero, unsupported wire type, or an over-running length).
pub open spec fn sp_fields(s: Seq<u8>, i: int, end: int) -> Option<Seq<(u64, FieldVal)>>
    decreases end - i,
{
    if i == end {
        Some(Seq::empty())
    } else if i < 0 || i > end || end > s.len() {
        None
    } else {
        match sp_vint(s, i, end) {
            None => None,
            Some(tp) => {
                let fno: u64 = tp.0 >> 3;
                let wt: u64 = tp.0 & 7;
                if fno == 0 {
                    None
                } else if wt == 0 {
                    match sp_vint(s, tp.1, end) {
                        None => None,
                        Some(vq) => {
                            proof {
                                lemma_sp_varint_bounds(s, i, end, 0, 0);
                                lemma_sp_varint_bounds(s, tp.1, end, 0, 0);
                            }
                            match sp_fields(s, vq.1, end) {
                                None => None,
                                Some(rest) => Some(seq![(fno, FieldVal::VInt(vq.0))] + rest),
                            }
                        },
                    }
                } else if wt == 1 {
                    if tp.1 + 8 > end {
                        None
                    } else {
                        proof {
                            lemma_sp_varint_bounds(s, i, end, 0, 0);
                        }
                        match sp_fields(s, tp.1 + 8, end) {
                            None => None,
                            Some(rest) => Some(
                                seq![(fno, FieldVal::F64(le64_at(s, tp.1)))] + rest,
                            ),
                        }
                    }
                } else if wt == 2 {
                    match sp_vint(s, tp.1, end) {
                        None => None,
                        Some(lq) => {
                            if lq.0 > (end - lq.1) as u64 {
                                None
                            } else {
                                proof {
                                    lemma_sp_varint_bounds(s, i, end, 0, 0);
                                    lemma_sp_varint_bounds(s, tp.1, end, 0, 0);
                                }
                                match sp_fields(s, lq.1 + lq.0 as int, end) {
                                    None => None,
                                    Some(rest) => Some(
                                        seq![
                                            (
                                                fno,
                                                FieldVal::Chunk(
                                                    lq.1 as usize,
                                                    (lq.1 + lq.0 as int) as usize,
                                                ),
                                            ),
                                        ] + rest,
                                    ),
                                }
                            }
                        },
                    }
                } else {
                    None
                }
            },
        }
    }
}

fn split_fields(s: &[u8], i: usize, end: usize) -> (r: Option<Vec<(u64, FieldVal)>>)
    requires
        i <= end,
        end <= s@.len(),
    ensures
        match r {
            Some(v) => sp_fields(s@, i as int, end as int) == Some(v@) && (forall|k: int|
                0 <= k < v@.len() ==> fv_in_range((#[trigger] v@[k]).1, end as int)),
            None => sp_fields(s@, i as int, end as int) is None,
        },
    decreases end - i,
{
    if i == end {
        let v: Vec<(u64, FieldVal)> = Vec::new();
        proof {
            assert(v@ =~= Seq::<(u64, FieldVal)>::empty());
        }
        return Some(v);
    }
    match read_varint(s, i, end, 0, 0) {
        None => None,
        Some((tag, p)) => {
            let fno: u64 = tag >> 3;
            let wt: u64 = tag & 7;
            if fno == 0 {
                None
            } else if wt == 0 {
                match read_varint(s, p, end, 0, 0) {
                    None => None,
                    Some((v, q)) => match split_fields(s, q, end) {
                        None => None,
                        Some(mut rest) => {
                            let ghost rest0 = rest@;
                            rest.insert(0, (fno, FieldVal::VInt(v)));
                            proof {
                                assert(rest@ =~= seq![(fno, FieldVal::VInt(v))] + rest0);
                            }
                            Some(rest)
                        },
                    },
                }
            } else if wt == 1 {
                if end - p < 8 {
                    proof {
                        assert(p as int + 8 > end as int);
                    }
                    None
                } else {
                    let x: u64 = read_le64(s, p);
                    match split_fields(s, p + 8, end) {
                        None => None,
                        Some(mut rest) => {
                            let ghost rest0 = rest@;
                            rest.insert(0, (fno, FieldVal::F64(x)));
                            proof {
                                assert(rest@ =~= seq![(fno, FieldVal::F64(x))] + rest0);
                            }
                            Some(rest)
                        },
                    }
                }
            } else if wt == 2 {
                match read_varint(s, p, end, 0, 0) {
                    None => None,
                    Some((len, q)) => {
                        if len > (end - q) as u64 {
                            None
                        } else {
                            let r2: usize = q + (len as usize);
                            match split_fields(s, r2, end) {
                                None => None,
                                Some(mut rest) => {
                                    let ghost rest0 = rest@;
                                    rest.insert(0, (fno, FieldVal::Chunk(q, r2)));
                                    proof {
                                        assert(rest@ =~= seq![(fno, FieldVal::Chunk(q, r2))]
                                            + rest0);
                                    }
                                    Some(rest)
                                },
                            }
                        }
                    },
                }
            } else {
                None
            }
        },
    }
}

/// The key/value of a string-map entry sub-message (fields 1 and 2).
pub open spec fn sp_str_entry_from(
    s: Seq<u8>,
    flds: Seq<(u64, FieldVal)>,
    acc: (Seq<char>, Seq<char>),
) -> Option<(Seq<char>, Seq<char>)>
    decreases flds.len(),
{
    if flds.len() == 0 {
        Some(acc)
    } else {
        let f = flds[0];
        match f.1 {
            FieldVal::Chunk(a, b) => {
                let v: Seq<char> = utf8_chars(s.subrange(a as int, b as int));
                if f.0 == 1 {
                    sp_str_entry_from(s, flds.drop_first(), (v, acc.1))
                } else if f.0 == 2 {
                    sp_str_entry_from(s, flds.drop_first(), (acc.0, v))
                } else {
                    None
                }
            },
            _ => None,
        }
    }
}

pub open spec fn sp_str_entry(s: Seq<u8>, a: int, b: int) -> Option<(Seq<char>, Seq<char>)> {
    match sp_fields(s, a, b) {
        None => None,
        Some(f) => sp_str_entry_from(s, f, (Seq::empty(), Seq::empty())),
    }
}

/// The key/value of a metric-map entry: a string key and a double value.
pub open spec fn sp_metric_entry_from(
    s: Seq<u8>,
    flds: Seq<(u64, FieldVal)>,
    acc: (Seq<char>, u64),
) -> Option<(Seq<char>, u64)>
    decreases flds.len(),
{
    if flds.len() == 0 {
        Some(acc)
    } else {
        let f = flds[0];
        match f.1 {
            FieldVal::Chunk(a, b) => {
                if f.0 == 1 {
                    sp_metric_entry_from(
                        s,
                        flds.drop_first(),
                        (utf8_chars(s.subrange(a as int, b as int)), acc.1),
                    )
                } else {
                    None
                }
            },
            FieldVal::F64(x) => {
                if f.0 == 2 {
                    sp_metric_entry_from(s, flds.drop_first(), (acc.0, x))
                } else {
                    None
                }
            },
            _ => None,
        }
    }
}

pub open spec fn sp_metric_entry(s: Seq<u8>, a: int, b: int) -> Option<(Seq<char>, u64)> {
    match sp_fields(s, a, b) {
        None => None,
        Some(f) => sp_metric_entry_from(s, f, (Seq::empty(), 0)),
    }
}

/// The key/value of a byte-blob map entry: a string key and opaque bytes.
pub open spec fn sp_bytes_entry_from(
    s: Seq<u8>,
    flds: Seq<(u64, FieldVal)>,
    acc: (Seq<char>, Seq<u8>),
) -> Option<(Seq<char>, Seq<u8>)>
    decreases flds.len(),
{
    if flds.len() == 0 {
        Some(acc)
    } else {
        let f = flds[0];
        match f.1 {
            FieldVal::Chunk(a, b) => {
                if f.0 == 1 {
                    sp_bytes_entry_from(
                        s,
                        flds.drop_first(),
                        (utf8_chars(s.subrange(a as int, b as int)), acc.1),
                    )
                } else if f.0 == 2 {
                    sp_bytes_entry_from(
                        s,
                        flds.drop_first(),
                        (acc.0, s.subrange(a as int, b as int)),
                    )
                } else {
                    None
                }
            },
            _ => None,
        }
    }
}

pub open spec fn sp_bytes_entry(s: Seq<u8>, a: int, b: int) -> Option<(Seq<char>, Seq<u8>)> {
    match sp_fields(s, a, b) {
        None => None,
        Some(f) => sp_bytes_entry_from(s, f, (Seq::empty(), Seq::empty())),
    }
}

/// Byte copy of a range of a slice.
fn bytes_of_range(s: &[u8], a: usize, b: usize) -> (r: Vec<u8>)
    requires
        a <= b,
        b <= s@.len(),
    ensures
        r@ == s@.subrange(a as int, b as int),
{
    let mut out: Vec<u8> = Vec::new();
    let mut i: usize = a;
    proof {
        assert(s@.subrange(a as int, a as int) =~= Seq::<u8>::empty());
    }
    while i < b
        invariant
            a <= i <= b,
            b <= s@.len(),
            out@ == s@.subrange(a as int, i as int),
        decreases b - i,
    {
        out.push(s[i]);
        proof {
            assert(s@.subrange(a as int, i as int + 1) =~= s@.subrange(a as int, i as int).push(
                s@[i as int],
            ));
        }
        i = i + 1;
    }
    out
}

fn parse_str_entry_from(
    s: &[u8],
    flds: &Vec<(u64, FieldVal)>,
    k: usize,
    acc: (String, String),
) -> (r: Option<(String, String)>)
    requires
        k <= flds@.len(),
        forall|m: int|
            k <= m < flds@.len() ==> fv_in_range((#[trigger] flds@[m]).1, s@.len() as int),
    ensures
        match r {
            Some(t) => sp_str_entry_from(s@, flds@.skip(k as int), (acc.0@, acc.1@)) == Some(
                (t.0@, t.1@),
            ),
            None => sp_str_entry_from(s@, flds@.skip(k as int), (acc.0@, acc.1@)) is None,
        },
    decreases flds@.len() - k,
{
    if k == flds.len() {
        proof {
            assert(flds@.skip(k as int) =~= Seq::<(u64, FieldVal)>::empty());
        }
        return Some(acc);
    }
    proof {
        assert(flds@.skip(k as int)[0] == flds@[k as int]);
        assert(flds@.skip(k as int).drop_first() =~= flds@.skip(k as int + 1));
    }
    let f = flds[k];
    match f.1 {
        FieldVal::Chunk(a, b) => {
            let v = string_from_bytes(&s[a..b]);
            if f.0 == 1 {
                parse_str_entry_from(s, flds, k + 1, (v, acc.1))
            } else if f.0 == 2 {
                parse_str_entry_from(s, flds, k + 1, (acc.0, v))
            } else {
                None
            }
        },
        _ => None,
    }
}

fn parse_str_entry(s: &[u8], a: usize, b: usize) -> (r: Option<(String, String)>)
    requires
        a <= b,
        b <= s@.len(),
    ensures
        match r {
            Some(t) => sp_str_entry(s@, a as int, b as int) == Some((t.0@, t.1@)),
            None => sp_str_entry(s@, a as int, b as int) is None,
        },
{
    match split_fields(s, a, b) {
        None => None,
        Some(f) => {
            proof {
                assert(f@.skip(0) =~= f@);
            }
            parse_str_entry_from(s, &f, 0, (String::new(), String::new()))
        },
    }
}

fn parse_metric_entry_from(
    s: &[u8],
    flds: &Vec<(u64, FieldVal)>,
    k: usize,
    acc: (String, u64),
) -> (r: Option<(String, u64)>)
    requires
        k <= flds@.len(),
        forall|m: int|
            k <= m < flds@.len() ==> fv_in_range((#[trigger] flds@[m]).1, s@.len() as int),
    ensures
        match r {
            Some(t) => sp_metric_entry_from(s@, flds@.skip(k as int), (acc.0@, acc.1)) == Some(
                (t.0@, t.1),
            ),
            None => sp_metric_entry_from(s@, flds@.skip(k as int), (acc.0@, acc.1)) is None,
        },
    decreases flds@.len() - k,
{
    if k == flds.len() {
        proof {
            assert(flds@.skip(k as int) =~= Seq::<(u64, FieldVal)>::empty());
        }
        return Some(acc);
    }
    proof {
        assert(flds@.skip(k as int)[0] == flds@[k as int]);
        assert(flds@.skip(k as int).drop_first() =~= flds@.skip(k as int + 1));
    }
    let f = flds[k];
    match f.1 {
        FieldVal::Chunk(a, b) => {
            if f.0 == 1 {
                let v = string_from_bytes(&s[a..b]);
                parse_metric_entry_from(s, flds, k + 1, (v, acc.1))
            } else {
                None
            }
        },
        FieldVal::F64(x) => {
            if f.0 == 2 {
                parse_metric_entry_from(s, flds, k + 1, (acc.0, x))
            } else {
                None
            }
        },
        _ => None,
    }
}

fn parse_metric_entry(s: &[u8], a: usize, b: usize) -> (r: Option<(String, u64)>)
    requires
        a <= b,
        b <= s@.len(),
    ensures
        match r {
            Some(t) => sp_metric_entry(s@, a as int, b as int) == Some((t.0@, t.1)),
            None => sp_metric_entry(s@, a as int, b as int) is None,
        },
{
    match split_fields(s, a, b) {
        None => None,
        Some(f) => {
            proof {
                assert(f@.skip(0) =~= f@);
            }
            parse_metric_entry_from(s, &f, 0, (String::new(), 0))
        },
    }
}

fn parse_bytes_entry_from(
    s: &[u8],
    flds: &Vec<(u64, FieldVal)>,
    k: usize,
    acc: (String, Vec<u8>),
) -> (r: Option<(String, Vec<u8>)>)
    requires
        k <= flds@.len(),
        forall|m: int|
            k <= m < flds@.len() ==> fv_in_range((#[trigger] flds@[m]).1, s@.len() as int),
    ensures
        match r {
            Some(t) => sp_bytes_entry_from(s@, flds@.skip(k as int), (acc.0@, acc.1@)) == Some(
                (t.0@, t.1@),
            ),
            None => sp_bytes_entry_from(s@, flds@.skip(k as int), (acc.0@, acc.1@)) is None,
        },
    decreases flds@.len() - k,
{
    if k == flds.len() {
        proof {
            assert(flds@.skip(k as int) =~= Seq::<(u64, FieldVal)>::empty());
        }
        return Some(acc);
    }
    proof {
        assert(flds@.skip(k as int)[0] == flds@[k as int]);
        assert(flds@.skip(k as int).drop_first() =~= flds@.skip(k as int + 1));
    }
    let f = flds[k];
    match f.1 {
        FieldVal::Chunk(a, b) => {
            if f.0 == 1 {
                let v = string_from_bytes(&s[a..b]);
                parse_bytes_entry_from(s, flds, k + 1, (v, acc.1))
            } else if f.0 == 2 {
                let v = bytes_of_range(s, a, b);
                parse_bytes_entry_from(s, flds, k + 1, (acc.0, v))
            } else {
                None
            }
        },
        _ => None,
    }
}

fn parse_bytes_entry(s: &[u8], a: usize, b: usize) -> (r: Option<(String, Vec<u8>)>)
    requires
        a <= b,
        b <= s@.len(),
    ensures
        match r {
            Some(t) => sp_bytes_entry(s@, a as int, b as int) == Some((t.0@, t.1@)),
            None => sp_bytes_entry(s@, a as int, b as int) is None,
        },
{
    match split_fields(s, a, b) {
        None => None,
        Some(f) => {
            proof {
                assert(f@.skip(0) =~= f@);
            }
            parse_bytes_entry_from(s, &f, 0, (String::new(), Vec::new()))
        },
    }
}

/// The all-defaults span view: empty strings and maps, zero scalars.
pub open spec fn span_view_default() -> SpanView {
    SpanView {
        service: Seq::empty(),
        name: Seq::empty(),
        resource: Seq::empty(),
        trace_id: 0,
        span_id: 0,
        parent_id: 0,
        start: 0,
        duration: 0,
        error: 0,
        meta: Map::empty(),
        metrics: Seq::empty(),
        meta_struct: Seq::empty(),
        span_type: Seq::empty(),
    }
}

fn span_default() -> (r: Span)
    ensures
        r@ == span_view_default(),
{
    let r = Span {
        service: String::new(),
        name: String::new(),
        resource: String::new(),
        trace_id: 0,
        span_id: 0,
        parent_id: 0,
        start: 0,
        duration: 0,
        error: 0,
        meta: TagMap::new(),
        metrics: Vec::new(),
        meta_struct: Vec::new(),
        span_type: String::new(),
    };
    proof {
        assert(r@ =~~= span_view_default());
    }
    r
}

/// A span record read from the fields of one length-delimited sub-message.
pub open spec fn sp_span_from(s: Seq<u8>, flds: Seq<(u64, FieldVal)>, acc: SpanView) -> Option<
    SpanView,
>
    decreases flds.len(),
{
    if flds.len() == 0 {
        Some(acc)
    } else {
        let f = flds[0];
        let rest = flds.drop_first();
        match f.1 {
            FieldVal::VInt(v) => {
                if f.0 == 4 {
                    sp_span_from(s, rest, SpanView { trace_id: v, ..acc })
                } else if f.0 == 5 {
                    sp_span_from(s, rest, SpanView { span_id: v, ..acc })
                } else if f.0 == 6 {
                    sp_span_from(s, rest, SpanView { parent_id: v, ..acc })
                } else if f.0 == 7 {
                    sp_span_from(s, rest, SpanView { start: v as i64, ..acc })
                } else if f.0 == 8 {
                    sp_span_from(s, rest, SpanView { duration: v as i64, ..acc })
                } else if f.0 == 9 {
                    sp_span_from(s, rest, SpanView { error: v as i32, ..acc })
                } else {
                    None
                }
            },
            FieldVal::F64(_) => None,
            FieldVal::Chunk(a, b) => {
                let body: Seq<char> = utf8_chars(s.subrange(a as int, b as int));
                if f.0 == 1 {
                    sp_span_from(s, rest, SpanView { service: body, ..acc })
                } else if f.0 == 2 {
                    sp_span_from(s, rest, SpanView { name: body, ..acc })
                } else if f.0 == 3 {
                    sp_span_from(s, rest, SpanView { resource: body, ..acc })
                } else if f.0 == 12 {
                    sp_span_from(s, rest, SpanView { span_type: body, ..acc })
                } else if f.0 == 10 {
                    match sp_str_entry(s, a as int, b as int) {
                        None => None,
                        Some(kv) => sp_span_from(
                            s,
                            rest,
                            SpanView { meta: acc.meta.insert(kv.0, kv.1), ..acc },
                        ),
                    }
                } else if f.0 == 11 {
                    match sp_metric_entry(s, a as int, b as int) {
                        None => None,
                        Some(kv) => sp_span_from(
                            s,
                            rest,
                            SpanView { metrics: acc.metrics.push(kv), ..acc },
                        ),
                    }
                } else if f.0 == 13 {
                    match sp_bytes_entry(s, a as int, b as int) {
                        None => None,
                        Some(kv) => sp_span_from(
                            s,
                            rest,
                            SpanView { meta_struct: acc.meta_struct.push(kv), ..acc },
                        ),
                    }
                } else {
                    None
                }
            },
        }
    }
}

/// The span encoded in the byte range `[a, b)`.
pub open spec fn sp_span(s: Seq<u8>, a: int, b: int) -> Option<SpanView> {
    match sp_fields(s, a, b) {
        None => None,
        Some(f) => sp_span_from(s, f, span_view_default()),
    }
}

fn build_span_from(s: &[u8], flds: &Vec<(u64, FieldVal)>, k: usize, acc: Span) -> (r: Option<
    Span,
>)
    requires
        k <= flds@.len(),
        forall|m: int|
            k <= m < flds@.len() ==> fv_in_range((#[trigger] flds@[m]).1, s@.len() as int),
    ensures
        match r {
            Some(sp) => sp_span_from(s@, flds@.skip(k as int), acc@) == Some(sp@),
            None => sp_span_from(s@, flds@.skip(k as int), acc@) is None,
        },
    decreases flds@.len() - k,
{
    if k == flds.len() {
        proof {
            assert(flds@.skip(k as int) =~= Seq::<(u64, FieldVal)>::empty());
        }
        return Some(acc);
    }
    proof {
        assert(flds@.skip(k as int)[0] == flds@[k as int]);
        assert(flds@.skip(k as int).drop_first() =~= flds@.skip(k as int + 1));
    }
    let f = flds[k];
    let mut acc = acc;
    let ghost a0 = acc@;
    match f.1 {
        FieldVal::VInt(v) => {
            if f.0 == 4 {
                acc.trace_id = v;
                proof {
                    assert(acc@ =~~= (SpanView { trace_id: v, ..a0 }));
                }
                build_span_from(s, flds, k + 1, acc)
            } else if f.0 == 5 {
                acc.span_id = v;
                proof {
                    assert(acc@ =~~= (SpanView { span_id: v, ..a0 }));
                }
                build_span_from(s, flds, k + 1, acc)
            } else if f.0 == 6 {
                acc.parent_id = v;
                proof {
                    assert(acc@ =~~= (SpanView { parent_id: v, ..a0 }));
                }
                build_span_from(s, flds, k + 1, acc)
            } else if f.0 == 7 {
                acc.start = #[verifier::truncate] (v as i64);
                proof {
                    assert(acc@ =~~= (SpanView { start: v as i64, ..a0 }));
                }
                build_span_from(s, flds, k + 1, acc)
            } else if f.0 == 8 {
                acc.duration = #[verifier::truncate] (v as i64);
                proof {
                    assert(acc@ =~~= (SpanView { duration: v as i64, ..a0 }));
                }
                build_span_from(s, flds, k + 1, acc)
            } else if f.0 == 9 {
                acc.error = #[verifier::truncate] (v as i32);
                proof {
                    assert(acc@ =~~= (SpanView { error: v as i32, ..a0 }));
                }
                build_span_from(s, flds, k + 1, acc)
            } else {
                None
            }
        },
        FieldVal::F64(_) => None,
        FieldVal::Chunk(a, b) => {
            if f.0 == 1 {
                acc.service = string_from_bytes(&s[a..b]);
                proof {
                    assert(acc@ =~~= (SpanView {
                        service: utf8_chars(s@.subrange(a as int, b as int)),
                        ..a0
                    }));
                }
                build_span_from(s, flds, k + 1, acc)
            } else if f.0 == 2 {
                acc.name = string_from_bytes(&s[a..b]);
                proof {
                    assert(acc@ =~~= (SpanView {
                        name: utf8_chars(s@.subrange(a as int, b as int)),
                        ..a0
                    }));
                }
                build_span_from(s, flds, k + 1, acc)
            } else if f.0 == 3 {
                acc.resource = string_from_bytes(&s[a..b]);
                proof {
                    assert(acc@ =~~= (SpanView {
                        resource: utf8_chars(s@.subrange(a as int, b as int)),
                        ..a0
                    }));
                }
                build_span_from(s, flds, k + 1, acc)
            } else if f.0 == 12 {
                acc.span_type = string_from_bytes(&s[a..b]);
                proof {
                    assert(acc@ =~~= (SpanView {
                        span_type: utf8_chars(s@.subrange(a as int, b as int)),
                        ..a0
                    }));
                }
                build_span_from(s, flds, k + 1, acc)
            } else if f.0 == 10 {
                match parse_str_entry(s, a, b) {
                    None => None,
                    Some(kv) => {
                        let ghost kv0 = kv.0@;
                        let ghost kv1 = kv.1@;
                        acc.meta.insert(kv.0, kv.1);
                        proof {
                            assert(acc@ =~~= (SpanView { meta: a0.meta.insert(kv0, kv1), ..a0 }));
                        }
                        build_span_from(s, flds, k + 1, acc)
                    },
                }
            } else if f.0 == 11 {
                match parse_metric_entry(s, a, b) {
                    None => None,
                    Some(kv) => {
                        let ghost kv0 = kv.0@;
                        let ghost kv1 = kv.1;
                        acc.metrics.push(kv);
                        proof {
                            assert(acc@.metrics =~= a0.metrics.push((kv0, kv1)));
                            assert(acc@ =~~= (SpanView {
                                metrics: a0.metrics.push((kv0, kv1)),
                                ..a0
                            }));
                        }
                        build_span_from(s, flds, k + 1, acc)
                    },
                }
            } else if f.0 == 13 {
                match parse_bytes_entry(s, a, b) {
                    None => None,
                    Some(kv) => {
                        let ghost kv0 = kv.0@;
                        let ghost kv1 = kv.1@;
                        acc.meta_struct.push(kv);
                        proof {
                            assert(acc@.meta_struct =~= a0.meta_struct.push((kv0, kv1)));
                            assert(acc@ =~~= (SpanView {
                                meta_struct: a0.meta_struct.push((kv0, kv1)),
                                ..a0
                            }));
                        }
                        build_span_from(s, flds, k + 1, acc)
                    },
                }
            } else {
                None
            }
        },
    }
}

fn parse_span(s: &[u8], a: usize, b: usize) -> (r: Option<Span>)
    requires
        a <= b,
        b <= s@.len(),
    ensures
        match r {
            Some(sp) => sp_span(s@, a as int, b as int) == Some(sp@),
            None => sp_span(s@, a as int, b as int) is None,
        },
{
    match split_fields(s, a, b) {
        None => None,
        Some(f) => {
            proof {
                assert(f@.skip(0) =~= f@);
            }
            build_span_from(s, &f, 0, span_default())
        },
    }
}

/// The all-defaults chunk view.
pub open spec fn chunk_view_default() -> TraceChunkView {
    TraceChunkView {
        priority: 0,
        origin: Seq::empty(),
        dropped_trace: false,
        tags: Map::empty(),
        spans: Seq::empty(),
    }
}

fn chunk_default() -> (r: TraceChunk)
    ensures
        r@ == chunk_view_default(),
{
    let r = TraceChunk {
        priority: 0,
        origin: String::new(),
        dropped_trace: false,
        tags: TagMap::new(),
        spans: Vec::new(),
    };
    proof {
        assert(r@ =~~= chunk_view_default());
    }
    r
}

/// A trace chunk read from the fields of one sub-message.
pub open spec fn sp_chunk_from(
    s: Seq<u8>,
    flds: Seq<(u64, FieldVal)>,
    acc: TraceChunkView,
) -> Option<TraceChunkView>
    decreases flds.len(),
{
    if flds.len() == 0 {
        Some(acc)
    } else {
        let f = flds[0];
        let rest = flds.drop_first();
        match f.1 {
            FieldVal::VInt(v) => {
                if f.0 == 1 {
                    sp_chunk_from(s, rest, TraceChunkView { priority: v as i32, ..acc })
                } else if f.0 == 3 {
                    sp_chunk_from(s, rest, TraceChunkView { dropped_trace: v != 0, ..acc })
                } else {
                    None
                }
            },
            FieldVal::F64(_) => None,
            FieldVal::Chunk(a, b) => {
                if f.0 == 2 {
                    sp_chunk_from(
                        s,
                        rest,
                        TraceChunkView {
                            origin: utf8_chars(s.subrange(a as int, b as int)),
                            ..acc
                        },
                    )
                } else if f.0 == 4 {
                    match sp_str_entry(s, a as int, b as int) {
                        None => None,
                        Some(kv) => sp_chunk_from(
                            s,
                            rest,
                            TraceChunkView { tags: acc.tags.insert(kv.0, kv.1), ..acc },
                        ),
                    }
                } else if f.0 == 5 {
                    match sp_span(s, a as int, b as int) {
                        None => None,
                        Some(sv) => sp_chunk_from(
                            s,
                            rest,
                            TraceChunkView { spans: acc.spans.push(sv), ..acc },
                        ),
                    }
                } else {
                    None
                }
            },
        }
    }
}

/// The chunk encoded in the byte range `[a, b)`.
pub open spec fn sp_chunk(s: Seq<u8>, a: int, b: int) -> Option<TraceChunkView> {
    match sp_fields(s, a, b) {
        None => None,
        Some(f) => sp_chunk_from(s, f, chunk_view_default()),
    }
}

fn build_chunk_from(s: &[u8], flds: &Vec<(u64, FieldVal)>, k: usize, acc: TraceChunk) -> (r:
    Option<TraceChunk>)
    requires
        k <= flds@.len(),
        forall|m: int|
            k <= m < flds@.len() ==> fv_in_range((#[trigger] flds@[m]).1, s@.len() as int),
    ensures
        match r {
            Some(c) => sp_chunk_from(s@, flds@.skip(k as int), acc@) == Some(c@),
            None => sp_chunk_from(s@, flds@.skip(k as int), acc@) is None,
        },
    decreases flds@.len() - k,
{
    if k == flds.len() {
        proof {
            assert(flds@.skip(k as int) =~= Seq::<(u64, FieldVal)>::empty());
        }
        return Some(acc);
    }
    proof {
        assert(flds@.skip(k as int)[0] == flds@[k as int]);
        assert(flds@.skip(k as int).drop_first() =~= flds@.skip(k as int + 1));
    }
    let f = flds[k];
    let mut acc = acc;
    let ghost a0 = acc@;
    match f.1 {
        FieldVal::VInt(v) => {
            if f.0 == 1 {
                acc.priority = #[verifier::truncate] (v as i32);
                proof {
                    assert(acc@ =~~= (TraceChunkView { priority: v as i32, ..a0 }));
                }
                build_chunk_from(s, flds, k + 1, acc)
            } else if f.0 == 3 {
                acc.dropped_trace = v != 0;
                proof {
                    assert(acc@ =~~= (TraceChunkView { dropped_trace: v != 0, ..a0 }));
                }
                build_chunk_from(s, flds, k + 1, acc)
            } else {
                None
            }
        },
        FieldVal::F64(_) => None,
        FieldVal::Chunk(a, b) => {
            if f.0 == 2 {
                acc.origin = string_from_bytes(&s[a..b]);
                proof {
                    assert(acc@ =~~= (TraceChunkView {
                        origin: utf8_chars(s@.subrange(a as int, b as int)),
                        ..a0
                    }));
                }
                build_chunk_from(s, flds, k + 1, acc)
            } else if f.0 == 4 {
                match parse_str_entry(s, a, b) {
                    None => None,
                    Some(kv) => {
                        let ghost kv0 = kv.0@;
                        let ghost kv1 = kv.1@;
                        acc.tags.insert(kv.0, kv.1);
                        proof {
                            assert(acc@ =~~= (TraceChunkView {
                                tags: a0.tags.insert(kv0, kv1),
                                ..a0
                            }));
                        }
                        build_chunk_from(s, flds, k + 1, acc)
                    },
                }
            } else if f.0 == 5 {
                match parse_span(s, a, b) {
                    None => None,
                    Some(sp) => {
                        let ghost spv = sp@;
                        acc.spans.push(sp);
                        proof {
                            assert(acc@.spans =~= a0.spans.push(spv));
                            assert(acc@ =~~= (TraceChunkView {
                                spans: a0.spans.push(spv),
                                ..a0
                            }));
                        }
                        build_chunk_from(s, flds, k + 1, acc)
                    },
                }
            } else {
                None
            }
        },
    }
}

fn parse_chunk(s: &[u8], a: usize, b: usize) -> (r: Option<TraceChunk>)
    requires
        a <= b,
        b <= s@.len(),
    ensures
        match r {
            Some(c) => sp_chunk(s@, a as int, b as int) == Some(c@),
            None => sp_chunk(s@, a as int, b as int) is None,
        },
{
    match split_fields(s, a, b) {
        None => None,
        Some(f) => {
            proof {
                assert(f@.skip(0) =~= f@);
            }
            build_chunk_from(s, &f, 0, chunk_default())
        },
    }
}

/// The all-defaults tracer-payload view.
pub open spec fn tracer_view_default() -> TracerPayloadView {
    TracerPayloadView {
        container_id: Seq::empty(),
        language_name: Seq::empty(),
        language_version: Seq::empty(),
        tracer_version: Seq::empty(),
        runtime_id: Seq::empty(),
        app_version: Seq::empty(),
        tags: Map::empty(),
        chunks: Seq::empty(),
    }
}

fn tracer_default() -> (r: TracerPayload)
    ensures
        r@ == tracer_view_default(),
{
    let r = TracerPayload {
        container_id: String::new(),
        language_name: String::new(),
        language_version: String::new(),
        tracer_version: String::new(),
        runtime_id: String::new(),
        app_version: String::new(),
        tags: TagMap::new(),
        chunks: Vec::new(),
    };
    proof {
        assert(r@ =~~= tracer_view_default());
    }
    r
}

/// A tracer payload read from the fields of one sub-message.
pub open spec fn sp_tracer_from(
    s: Seq<u8>,
    flds: Seq<(u64, FieldVal)>,
    acc: TracerPayloadView,
) -> Option<TracerPayloadView>
    decreases flds.len(),
{
    if flds.len() == 0 {
        Some(acc)
    } else {
        let f = flds[0];
        let rest = flds.drop_first();
        match f.1 {
            FieldVal::Chunk(a, b) => {
                let body: Seq<char> = utf8_chars(s.subrange(a as int, b as int));
                if f.0 == 1 {
                    sp_tracer_from(s, rest, TracerPayloadView { container_id: body, ..acc })
                } else if f.0 == 2 {
                    sp_tracer_from(s, rest, TracerPayloadView { language_name: body, ..acc })
                } else if f.0 == 3 {
                    sp_tracer_from(s, rest, TracerPayloadView { language_version: body, ..acc })
                } else if f.0 == 4 {
                    sp_tracer_from(s, rest, TracerPayloadView { tracer_version: body, ..acc })
                } else if f.0 == 5 {
                    sp_tracer_from(s, rest, TracerPayloadView { runtime_id: body, ..acc })
                } else if f.0 == 6 {
                    sp_tracer_from(s, rest, TracerPayloadView { app_version: body, ..acc })
                } else if f.0 == 7 {
                    match sp_str_entry(s, a as int, b as int) {
                        None => None,
                        Some(kv) => sp_tracer_from(
                            s,
                            rest,
                            TracerPayloadView { tags: acc.tags.insert(kv.0, kv.1), ..acc },
                        ),
                    }
                } else if f.0 == 8 {
                    match sp_chunk(s, a as int, b as int) {
                        None => None,
                        Some(cv) => sp_tracer_from(
                            s,
                            rest,
                            TracerPayloadView { chunks: acc.chunks.push(cv), ..acc },
                        ),
                    }
                } else {
                    None
                }
            },
            _ => None,
        }
    }
}

/// The tracer payload encoded in the byte range `[a, b)`.
pub open spec fn sp_tracer(s: Seq<u8>, a: int, b: int) -> Option<TracerPayloadView> {
    match sp_fields(s, a, b) {
        None => None,
        Some(f) => sp_tracer_from(s, f, tracer_view_default()),
    }
}

fn build_tracer_from(s: &[u8], flds: &Vec<(u64, FieldVal)>, k: usize, acc: TracerPayload) -> (r:
    Option<TracerPayload>)
    requires
        k <= flds@.len(),
        forall|m: int|
            k <= m < flds@.len() ==> fv_in_range((#[trigger] flds@[m]).1, s@.len() as int),
    ensures
        match r {
            Some(t) => sp_tracer_from(s@, flds@.skip(k as int), acc@) == Some(t@),
            None => sp_tracer_from(s@, flds@.skip(k as int), acc@) is None,
        },
    decreases flds@.len() - k,
{
    if k == flds.len() {
        proof {
            assert(flds@.skip(k as int) =~= Seq::<(u64, FieldVal)>::empty());
        }
        return Some(acc);
    }
    proof {
        assert(flds@.skip(k as int)[0] == flds@[k as int]);
        assert(flds@.skip(k as int).drop_first() =~= flds@.skip(k as int + 1));
    }
    let f = flds[k];
    let mut acc = acc;
    let ghost a0 = acc@;
    match f.1 {
        FieldVal::Chunk(a, b) => {
            if f.0 == 1 {
                acc.container_id = string_from_bytes(&s[a..b]);
                proof {
                    assert(acc@ =~~= (TracerPayloadView {
                        container_id: utf8_chars(s@.subrange(a as int, b as int)),
                        ..a0
                    }));
                }
                build_tracer_from(s, flds, k + 1, acc)
            } else if f.0 == 2 {
                acc.language_name = string_from_bytes(&s[a..b]);
                proof {
                    assert(acc@ =~~= (TracerPayloadView {
                        language_name: utf8_chars(s@.subrange(a as int, b as int)),
                        ..a0
                    }));
                }
                build_tracer_from(s, flds, k + 1, acc)
            } else if f.0 == 3 {
                acc.language_version = string_from_bytes(&s[a..b]);
                proof {
                    assert(acc@ =~~= (TracerPayloadView {
                        language_version: utf8_chars(s@.subrange(a as int, b as int)),
                        ..a0
                    }));
                }
                build_tracer_from(s, flds, k + 1, acc)
            } else if f.0 == 4 {
                acc.tracer_version = string_from_bytes(&s[a..b]);
                proof {
                    assert(acc@ =~~= (TracerPayloadView {
                        tracer_version: utf8_chars(s@.subrange(a as int, b as int)),
                        ..a0
                    }));
                }
                build_tracer_from(s, flds, k + 1, acc)
            } else if f.0 == 5 {
                acc.runtime_id = string_from_bytes(&s[a..b]);
                proof {
                    assert(acc@ =~~= (TracerPayloadView {
                        runtime_id: utf8_chars(s@.subrange(a as int, b as int)),
                        ..a0
                    }));
                }
                build_tracer_from(s, flds, k + 1, acc)
            } else if f.0 == 6 {
                acc.app_version = string_from_bytes(&s[a..b]);
                proof {
                    assert(acc@ =~~= (TracerPayloadView {
                        app_version: utf8_chars(s@.subrange(a as int, b as int)),
                        ..a0
                    }));
                }
                build_tracer_from(s, flds, k + 1, acc)
            } else if f.0 == 7 {
                match parse_str_entry(s, a, b) {
                    None => None,
                    Some(kv) => {
                        let ghost kv0 = kv.0@;
                        let ghost kv1 = kv.1@;
                        acc.tags.insert(kv.0, kv.1);
                        proof {
                            assert(acc@ =~~= (TracerPayloadView {
                                tags: a0.tags.insert(kv0, kv1),
                                ..a0
                            }));
                        }
                        build_tracer_from(s, flds, k + 1, acc)
                    },
                }
            } else if f.0 == 8 {
                match parse_chunk(s, a, b) {
                    None => None,
                    Some(c) => {
                        let ghost cv = c@;
                        acc.chunks.push(c);
                        proof {
                            assert(acc@.chunks =~= a0.chunks.push(cv));
                            assert(acc@ =~~= (TracerPayloadView {
                                chunks: a0.chunks.push(cv),
                                ..a0
                            }));
                        }
                        build_tracer_from(s, flds, k + 1, acc)
                    },
                }
            } else {
                None
            }
        },
        _ => None,
    }
}

fn parse_tracer(s: &[u8], a: usize, b: usize) -> (r: Option<TracerPayload>)
    requires
        a <= b,
        b <= s@.len(),
    ensures
        match r {
            Some(t) => sp_tracer(s@, a as int, b as int) == Some(t@),
            None => sp_tracer(s@, a as int, b as int) is None,
        },
{
    match split_fields(s, a, b) {
        None => None,
        Some(f) => {
            proof {
                assert(f@.skip(0) =~= f@);
            }
            build_tracer_from(s, &f, 0, tracer_default())
        },
    }
}

/// The all-defaults v0 trace view.
pub open spec fn trace_view_default() -> TraceView {
    TraceView { trace_id: 0, start_time: 0, end_time: 0, spans: Seq::empty() }
}

fn trace_default() -> (r: Trace)
    ensures
        r@ == trace_view_default(),
{
    let r = Trace { trace_id: 0, start_time: 0, end_time: 0, spans: Vec::new() };
    proof {
        assert(r@ =~~= trace_view_default());
    }
    r
}

/// A v0 flat trace read from the fields of one sub-message.
pub open spec fn sp_trace_from(s: Seq<u8>, flds: Seq<(u64, FieldVal)>, acc: TraceView) -> Option<
    TraceView,
>
    decreases flds.len(),
{
    if flds.len() == 0 {
        Some(acc)
    } else {
        let f = flds[0];
        let rest = flds.drop_first();
        match f.1 {
            FieldVal::VInt(v) => {
                if f.0 == 1 {
                    sp_trace_from(s, rest, TraceView { trace_id: v, ..acc })
                } else if f.0 == 3 {
                    sp_trace_from(s, rest, TraceView { start_time: v as i64, ..acc })
                } else if f.0 == 4 {
                    sp_trace_from(s, rest, TraceView { end_time: v as i64, ..acc })
                } else {
                    None
                }
            },
            FieldVal::F64(_) => None,
            FieldVal::Chunk(a, b) => {
                if f.0 == 2 {
                    match sp_span(s, a as int, b as int) {
                        None => None,
                        Some(sv) => sp_trace_from(
                            s,
                            rest,
                            TraceView { spans: acc.spans.push(sv), ..acc },
                        ),
                    }
                } else {
                    None
                }
            },
        }
    }
}

/// The v0 trace encoded in the byte range `[a, b)`.
pub open spec fn sp_trace(s: Seq<u8>, a: int, b: int) -> Option<TraceView> {
    match sp_fields(s, a, b) {
        None => None,
        Some(f) => sp_trace_from(s, f, trace_view_default()),
    }
}

fn build_trace_from(s: &[u8], flds: &Vec<(u64, FieldVal)>, k: usize, acc: Trace) -> (r: Option<
    Trace,
>)
    requires
        k <= flds@.len(),
        forall|m: int|
            k <= m < flds@.len() ==> fv_in_range((#[trigger] flds@[m]).1, s@.len() as int),
    ensures
        match r {
            Some(t) => sp_trace_from(s@, flds@.skip(k as int), acc@) == Some(t@),
            None => sp_trace_from(s@, flds@.skip(k as int), acc@) is None,
        },
    decreases flds@.len() - k,
{
    if k == flds.len() {
        proof {
            assert(flds@.skip(k as int) =~= Seq::<(u64, FieldVal)>::empty());
        }
        return Some(acc);
    }
    proof {
        assert(flds@.skip(k as int)[0] == flds@[k as int]);
        assert(flds@.skip(k as int).drop_first() =~= flds@.skip(k as int + 1));
    }
    let f = flds[k];
    let mut acc = acc;
    let ghost a0 = acc@;
    match f.1 {
        FieldVal::VInt(v) => {
            if f.0 == 1 {
                acc.trace_id = v;
                proof {
                    assert(acc@ =~~= (TraceView { trace_id: v, ..a0 }));
                }
                build_trace_from(s, flds, k + 1, acc)
            } else if f.0 == 3 {
                acc.start_time = #[verifier::truncate] (v as i64);
                proof {
                    assert(acc@ =~~= (TraceView { start_time: v as i64, ..a0 }));
                }
                build_trace_from(s, flds, k + 1, acc)
            } else if f.0 == 4 {
                acc.end_time = #[verifier::truncate] (v as i64);
                proof {
                    assert(acc@ =~~= (TraceView { end_time: v as i64, ..a0 }));
                }
                build_trace_from(s, flds, k + 1, acc)
            } else {
                None
            }
        },
        FieldVal::F64(_) => None,
        FieldVal::Chunk(a, b) => {
            if f.0 == 2 {
                match parse_span(s, a, b) {
                    None => None,
                    Some(sp) => {
                        let ghost spv = sp@;
                        acc.spans.push(sp);
                        proof {
                            assert(acc@.spans =~= a0.spans.push(spv));
                            assert(acc@ =~~= (TraceView { spans: a0.spans.push(spv), ..a0 }));
                        }
                        build_trace_from(s, flds, k + 1, acc)
                    },
                }
            } else {
                None
            }
        },
    }
}

fn parse_trace(s: &[u8], a: usize, b: usize) -> (r: Option<Trace>)
    requires
        a <= b,
        b <= s@.len(),
    ensures
        match r {
            Some(t) => sp_trace(s@, a as int, b as int) == Some(t@),
            None => sp_trace(s@, a as int, b as int) is None,
        },
{
    match split_fields(s, a, b) {
        None => None,
        Some(f) => {
            proof {
                assert(f@.skip(0) =~= f@);
            }
            build_trace_from(s, &f, 0, trace_default())
        },
    }
}

/// The all-defaults payload view.
pub open spec fn payload_view_default() -> DecodedPayloadView {
    DecodedPayloadView {
        env: Seq::empty(),
        host_name: Seq::empty(),
        agent_version: Seq::empty(),
        target_tps: 0,
        error_tps: 0,
        tags: Map::empty(),
        tracer_payloads: Seq::empty(),
        traces: Seq::empty(),
        transactions: Seq::empty(),
    }
}

fn payload_default() -> (r: DecodedPayload)
    ensures
        r@ == payload_view_default(),
{
    let r = DecodedPayload {
        env: String::new(),
        host_name: String::new(),
        agent_version: String::new(),
        target_tps: 0,
        error_tps: 0,
        tags: TagMap::new(),
        tracer_payloads: Vec::new(),
        traces: Vec::new(),
        transactions: Vec::new(),
    };
    proof {
        assert(r@ =~~= payload_view_default());
    }
    r
}

/// A top-level payload read from its wire fields.
pub open spec fn sp_payload_from(
    s: Seq<u8>,
    flds: Seq<(u64, FieldVal)>,
    acc: DecodedPayloadView,
) -> Option<DecodedPayloadView>
    decreases flds.len(),
{
    if flds.len() == 0 {
        Some(acc)
    } else {
        let f = flds[0];
        let rest = flds.drop_first();
        match f.1 {
            FieldVal::VInt(_) => None,
            FieldVal::F64(x) => {
                if f.0 == 7 {
                    sp_payload_from(s, rest, DecodedPayloadView { target_tps: x, ..acc })
                } else if f.0 == 8 {
                    sp_payload_from(s, rest, DecodedPayloadView { error_tps: x, ..acc })
                } else {
                    None
                }
            },
            FieldVal::Chunk(a, b) => {
                if f.0 == 1 {
                    sp_payload_from(
                        s,
                        rest,
                        DecodedPayloadView {
                            host_name: utf8_chars(s.subrange(a as int, b as int)),
                            ..acc
                        },
                    )
                } else if f.0 == 2 {
                    sp_payload_from(
                        s,
                        rest,
                        DecodedPayloadView {
                            env: utf8_chars(s.subrange(a as int, b as int)),
                            ..acc
                        },
                    )
                } else if f.0 == 6 {
                    sp_payload_from(
                        s,
                        rest,
                        DecodedPayloadView {
                            agent_version: utf8_chars(s.subrange(a as int, b as int)),
                            ..acc
                        },
                    )
                } else if f.0 == 3 {
                    match sp_trace(s, a as int, b as int) {
                        None => None,
                        Some(tv) => sp_payload_from(
                            s,
                            rest,
                            DecodedPayloadView { traces: acc.traces.push(tv), ..acc },
                        ),
                    }
                } else if f.0 == 4 {
                    match sp_span(s, a as int, b as int) {
                        None => None,
                        Some(sv) => sp_payload_from(
                            s,
                            rest,
                            DecodedPayloadView {
                                transactions: acc.transactions.push(sv),
                                ..acc
                            },
                        ),
                    }
                } else if f.0 == 5 {
                    match sp_tracer(s, a as int, b as int) {
                        None => None,
                        Some(tv) => sp_payload_from(
                            s,
                            rest,
                            DecodedPayloadView {
                                tracer_payloads: acc.tracer_payloads.push(tv),
                                ..acc
                            },
                        ),
                    }
                } else if f.0 == 9 {
                    match sp_str_entry(s, a as int, b as int) {
                        None => None,
                        Some(kv) => sp_payload_from(
                            s,
                            rest,
                            DecodedPayloadView { tags: acc.tags.insert(kv.0, kv.1), ..acc },
                        ),
                    }
                } else {
                    None
                }
            },
        }
    }
}

/// What a whole byte buffer decodes to: `None` exactly when the buffer is
/// not a well-formed serialized payload of this schema.
pub open spec fn sp_payload(s: Seq<u8>) -> Option<DecodedPayloadView> {
    match sp_fields(s, 0, s.len() as int) {
        None => None,
        Some(f) => sp_payload_from(s, f, payload_view_default()),
    }
}

fn build_payload_from(s: &[u8], flds: &Vec<(u64, FieldVal)>, k: usize, acc: DecodedPayload) -> (r:
    Option<DecodedPayload>)
    requires
        k <= flds@.len(),
        forall|m: int|
            k <= m < flds@.len() ==> fv_in_range((#[trigger] flds@[m]).1, s@.len() as int),
    ensures
        match r {
            Some(p) => sp_payload_from(s@, flds@.skip(k as int), acc@) == Some(p@),
            None => sp_payload_from(s@, flds@.skip(k as int), acc@) is None,
        },
    decreases flds@.len() - k,
{
    if k == flds.len() {
        proof {
            assert(flds@.skip(k as int) =~= Seq::<(u64, FieldVal)>::empty());
        }
        return Some(acc);
    }
    proof {
        assert(flds@.skip(k as int)[0] == flds@[k as int]);
        assert(flds@.skip(k as int).drop_first() =~= flds@.skip(k as int + 1));
    }
    let f = flds[k];
    let mut acc = acc;
    let ghost a0 = acc@;
    match f.1 {
        FieldVal::VInt(_) => None,
        FieldVal::F64(x) => {
            if f.0 == 7 {
                acc.target_tps = x;
                proof {
                    assert(acc@ =~~= (DecodedPayloadView { target_tps: x, ..a0 }));
                }
                build_payload_from(s, flds, k + 1, acc)
            } else if f.0 == 8 {
                acc.error_tps = x;
                proof {
                    assert(acc@ =~~= (DecodedPayloadView { error_tps: x, ..a0 }));
                }
                build_payload_from(s, flds, k + 1, acc)
            } else {
                None
            }
        },
        FieldVal::Chunk(a, b) => {
            if f.0 == 1 {
                acc.host_name = string_from_bytes(&s[a..b]);
                proof {
                    assert(acc@ =~~= (DecodedPayloadView {
                        host_name: utf8_chars(s@.subrange(a as int, b as int)),
                        ..a0
                    }));
                }
                build_payload_from(s, flds, k + 1, acc)
            } else if f.0 == 2 {
                acc.env = string_from_bytes(&s[a..b]);
                proof {
                    assert(acc@ =~~= (DecodedPayloadView {
                        env: utf8_chars(s@.subrange(a as int, b as int)),
                        ..a0
                    }));
                }
                build_payload_from(s, flds, k + 1, acc)
            } else if f.0 == 6 {
                acc.agent_version = string_from_bytes(&s[a..b]);
                proof {
                    assert(acc@ =~~= (DecodedPayloadView {
                        agent_version: utf8_chars(s@.subrange(a as int, b as int)),
                        ..a0
                    }));
                }
                build_payload_from(s, flds, k + 1, acc)
            } else if f.0 == 3 {
                match parse_trace(s, a, b) {
                    None => None,
                    Some(t) => {
                        let ghost tv = t@;
                        acc.traces.push(t);
                        proof {
                            assert(acc@.traces =~= a0.traces.push(tv));
                            assert(acc@ =~~= (DecodedPayloadView {
                                traces: a0.traces.push(tv),
                                ..a0
                            }));
                        }
                        build_payload_from(s, flds, k + 1, acc)
                    },
                }
            } else if f.0 == 4 {
                match parse_span(s, a, b) {
                    None => None,
                    Some(sp) => {
                        let ghost spv = sp@;
                        acc.transactions.push(sp);
                        proof {
                            assert(acc@.transactions =~= a0.transactions.push(spv));
                            assert(acc@ =~~= (DecodedPayloadView {
                                transactions: a0.transactions.push(spv),
                                ..a0
                            }));
                        }
                        build_payload_from(s, flds, k + 1, acc)
                    },
                }
            } else if f.0 == 5 {
                match parse_tracer(s, a, b) {
                    None => None,
                    Some(t) => {
                        let ghost tv = t@;
                        acc.tracer_payloads.push(t);
                        proof {
                            assert(acc@.tracer_payloads =~= a0.tracer_payloads.push(tv));
                            assert(acc@ =~~= (DecodedPayloadView {
                                tracer_payloads: a0.tracer_payloads.push(tv),
                                ..a0
                            }));
                        }
                        build_payload_from(s, flds, k + 1, acc)
                    },
                }
            } else if f.0 == 9 {
                match parse_str_entry(s, a, b) {
                    None => None,
                    Some(kv) => {
                        let ghost kv0 = kv.0@;
                        let ghost kv1 = kv.1@;
                        acc.tags.insert(kv.0, kv.1);
                        proof {
                            assert(acc@ =~~= (DecodedPayloadView {
                                tags: a0.tags.insert(kv0, kv1),
                                ..a0
                            }));
                        }
                        build_payload_from(s, flds, k + 1, acc)
                    },
                }
            } else {
                None
            }
        },
    }
}

/// The wire decoder. Parses raw request bytes into a decoded payload;
/// returns the decoding that [`sp_payload`] assigns the bytes, or a
/// [`DecodeError`] exactly when the bytes are not a well-formed serialized
/// payload. Deterministic and pure; carries no partial result on failure.
pub fn decode_payload(s: &[u8]) -> (r: Result<DecodedPayload, DecodeError>)
    ensures
        match r {
            Ok(p) => sp_payload(s@) == Some(p@),
            Err(_) => sp_payload(s@) is None,
        },
{
    match split_fields(s, 0, s.len()) {
        None => Err(DecodeError {  }),
        Some(f) => {
            proof {
                assert(f@.skip(0) =~= f@);
            }
            match build_payload_from(s, &f, 0, payload_default()) {
                None => Err(DecodeError {  }),
                Some(p) => Ok(p),
            }
        },
    }
}

} // verus!
