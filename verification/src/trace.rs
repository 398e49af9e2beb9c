//! Building blocks for tracing distributed programs: a trace is a tree of causally related
//! spans, and a [`Context`] names the trace and the current span and records whether the trace
//! is sampled.

use vstd::prelude::*;
use vstd::std_specs::convert::FromSpecImpl;
use crate::util::{hex_min2, lower_hex_min2};

pub mod otel;
pub mod u128_serde;

verus! {

/// A context for tracing the execution of processes, distributed or otherwise.
#[derive(Clone, Copy, Debug, PartialEq, Eq, Structural, Hash)]
pub struct Context {
    /// The trace the current span belongs to.
    pub trace_id: TraceId,
    /// The current span.
    pub span_id: SpanId,
    /// Whether a sampler has decided to sample the trace.
    pub sampling_decision: SamplingDecision,
}

/// A 128-bit identifier of a trace, shared by all spans caused by the same originating span.
#[derive(Clone, Copy, Debug, PartialEq, Eq, Structural, Hash)]
pub struct TraceId(pub u128);

/// A 64-bit identifier of a span, unique within its trace.
#[derive(Clone, Copy, Debug, PartialEq, Eq, Structural, Hash)]
pub struct SpanId(pub u64);

/// Whether the span that made the decision was sampled; children of a sampled span must be
/// sampled too.
#[derive(Clone, Copy, Debug, PartialEq, Eq, Structural, Hash)]
pub enum SamplingDecision {
    /// The associated span was sampled by its creating process.
    Sampled,
    /// The associated span was not sampled by its creating process.
    Unsampled,
}

/// Returned when a [`Context`] cannot be obtained because no span is active.
#[derive(Debug)]
pub struct NoActiveSpan;

/// A random number that is never zero, drawn with `rand::thread_rng().gen::<NonZeroU128>()`.
/// The value depends on the generator; only that it is nonzero is stated.
#[verifier::external_body]
fn random_nonzero_u128() -> (v: u128)
    ensures
        v != 0,
{
    rand::Rng::gen::<std::num::NonZeroU128>(&mut rand::thread_rng()).get()
}

/// A random number that is never zero, drawn with `rand::thread_rng().gen::<NonZeroU64>()`.
/// The value depends on the generator; only that it is nonzero is stated.
#[verifier::external_body]
fn random_nonzero_u64() -> (v: u64)
    ensures
        v != 0,
{
    rand::Rng::gen::<std::num::NonZeroU64>(&mut rand::thread_rng()).get()
}

impl Context {
    /// A new context with the trace id and sampling decision of `self` and a fresh span id:
    /// random, nonzero, and never the parent's own span id (should the random draw hit it, the
    /// next id after the parent's is taken instead).
    pub fn new_child(&self) -> (c: Context)
        ensures
            c.trace_id == self.trace_id,
            c.sampling_decision == self.sampling_decision,
            !c.span_id.is_none_spec(),
            c.span_id != self.span_id,
    {
        let drawn = SpanId::random();
        let span_id = if drawn.0 != self.span_id.0 {
            drawn
        } else if self.span_id.0 == u64::MAX {
            SpanId(1)
        } else {
            SpanId(self.span_id.0 + 1)
        };
        Context { trace_id: self.trace_id, span_id, sampling_decision: self.sampling_decision }
    }
}

impl Default for Context {
    fn default() -> (c: Context)
        ensures
            c.trace_id == TraceId(0),
            c.span_id == SpanId(0),
            c.sampling_decision == SamplingDecision::Unsampled,
    {
        Context {
            trace_id: TraceId::default(),
            span_id: SpanId::default(),
            sampling_decision: SamplingDecision::default(),
        }
    }
}

impl TraceId {
    /// Whether the id is zero, which no real trace has.
    pub open spec fn is_none_spec(&self) -> bool {
        self.0 == 0
    }

    /// A random trace id, which is never zero and can be assumed to be globally unique if the
    /// generator is actually random.
    pub fn random() -> (t: TraceId)
        ensures
            !t.is_none_spec(),
    {
        TraceId(random_nonzero_u128())
    }

    /// The id as it is displayed: lowercase hex, without leading zeros but at least two digits.
    pub fn to_hex_string(&self) -> (s: String)
        ensures
            s@ == hex_min2(self.0 as nat),
    {
        lower_hex_min2(self.0)
    }

    /// Returns true iff the trace id is 0.
    pub fn is_none(&self) -> (b: bool)
        ensures
            b == self.is_none_spec(),
    {
        self.0 == 0
    }
}

impl Default for TraceId {
    fn default() -> (t: TraceId)
        ensures
            t == TraceId(0),
    {
        TraceId(0)
    }
}

impl SpanId {
    /// Whether the id is zero, which no real span has.
    pub open spec fn is_none_spec(&self) -> bool {
        self.0 == 0
    }

    /// A random span id, which is never zero.
    pub fn random() -> (s: SpanId)
        ensures
            !s.is_none_spec(),
    {
        SpanId(random_nonzero_u64())
    }

    /// The id as it is displayed: lowercase hex, without leading zeros but at least two digits.
    pub fn to_hex_string(&self) -> (s: String)
        ensures
            s@ == hex_min2(self.0 as nat),
    {
        lower_hex_min2(self.0 as u128)
    }

    /// Returns true iff the span id is 0.
    pub fn is_none(&self) -> (b: bool)
        ensures
            b == self.is_none_spec(),
    {
        self.0 == 0
    }
}

impl Default for SpanId {
    fn default() -> (s: SpanId)
        ensures
            s == SpanId(0),
    {
        SpanId(0)
    }
}

impl Default for SamplingDecision {
    fn default() -> (d: SamplingDecision)
        ensures
            d == SamplingDecision::Unsampled,
    {
        SamplingDecision::Unsampled
    }
}

impl From<TraceId> for u128 {
    fn from(trace_id: TraceId) -> (v: u128) {
        trace_id.0
    }
}

impl FromSpecImpl<TraceId> for u128 {
    open spec fn obeys_from_spec() -> bool {
        true
    }

    open spec fn from_spec(v: TraceId) -> u128 {
        v.0
    }
}

impl From<u128> for TraceId {
    fn from(trace_id: u128) -> (t: TraceId) {
        TraceId(trace_id)
    }
}

impl FromSpecImpl<u128> for TraceId {
    open spec fn obeys_from_spec() -> bool {
        true
    }

    open spec fn from_spec(v: u128) -> TraceId {
        TraceId(v)
    }
}

impl From<SpanId> for u64 {
    fn from(span_id: SpanId) -> (v: u64) {
        span_id.0
    }
}

impl FromSpecImpl<SpanId> for u64 {
    open spec fn obeys_from_spec() -> bool {
        true
    }

    open spec fn from_spec(v: SpanId) -> u64 {
        v.0
    }
}

impl From<u64> for SpanId {
    fn from(span_id: u64) -> (s: SpanId) {
        SpanId(span_id)
    }
}

impl FromSpecImpl<u64> for SpanId {
    open spec fn obeys_from_spec() -> bool {
        true
    }

    open spec fn from_spec(v: u64) -> SpanId {
        SpanId(v)
    }
}

} // verus!
