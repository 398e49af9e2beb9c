//! Trace contexts as OpenTelemetry sees them: converting ids to and from OpenTelemetry's byte
//! forms, reading a trace context out of an OpenTelemetry context, and building the context that
//! makes a span a remote child of a request's trace.

use vstd::prelude::*;
use std::time::Instant;
use opentelemetry::trace::TraceContextExt;
use opentelemetry::trace::{
    SpanContext as OtelSpanContext, SpanId as OtelSpanId, TraceFlags as OtelTraceFlags,
    TraceId as OtelTraceId,
};
use opentelemetry::Context as OtelContext;
use tracing::Span as TracingSpan;
use tracing_opentelemetry::OpenTelemetrySpanExt;
use crate::protocol::framing::{be_bytes, be_value, read_u64_be, write_u64_be};
use crate::trace::u128_serde::{le_bytes, le_value};
use crate::trace::{Context, NoActiveSpan, SamplingDecision, SpanId, TraceId};

verus! {

#[verifier::external_type_specification]
#[verifier::external_body]
pub struct ExOtelTraceId(OtelTraceId);

#[verifier::external_type_specification]
#[verifier::external_body]
pub struct ExOtelSpanId(OtelSpanId);

#[verifier::external_type_specification]
#[verifier::external_body]
pub struct ExOtelTraceFlags(OtelTraceFlags);

#[verifier::external_type_specification]
#[verifier::external_body]
pub struct ExOtelSpanContext(OtelSpanContext);

#[verifier::external_type_specification]
#[verifier::external_body]
pub struct ExOtelContext(OtelContext);

#[verifier::external_type_specification]
#[verifier::external_body]
pub struct ExTracingSpan(TracingSpan);

/// A request deadline, stored as a value of the OpenTelemetry context of the request's span.
#[derive(Clone, Copy, Debug)]
pub struct Deadline(pub Instant);

/// What `opentelemetry::trace::TraceId::to_bytes` returns: the id's sixteen big-endian bytes.
pub uninterp spec fn otel_trace_id_bytes(t: OtelTraceId) -> Seq<u8>;

/// What `opentelemetry::trace::SpanId::to_bytes` returns: the id's eight big-endian bytes.
pub uninterp spec fn otel_span_id_bytes(s: OtelSpanId) -> Seq<u8>;

/// What `opentelemetry::trace::SpanContext::trace_id` returns.
pub uninterp spec fn span_context_trace_id(sc: OtelSpanContext) -> OtelTraceId;

/// What `opentelemetry::trace::SpanContext::span_id` returns.
pub uninterp spec fn span_context_span_id(sc: OtelSpanContext) -> OtelSpanId;

/// What `opentelemetry::trace::SpanContext::is_sampled` returns.
pub uninterp spec fn span_context_sampled(sc: OtelSpanContext) -> bool;

/// What `opentelemetry::trace::TraceFlags::is_sampled` returns.
pub uninterp spec fn trace_flags_sampled(f: OtelTraceFlags) -> bool;

/// What `opentelemetry::trace::TraceContextExt::has_active_span` returns for a context.
pub uninterp spec fn otel_context_has_span(cx: OtelContext) -> bool;

/// The span context of a context's span (`cx.span().span_context()`).
pub uninterp spec fn otel_context_span_context(cx: OtelContext) -> OtelSpanContext;

/// The deadline stored in a context, if any (`cx.get::<Deadline>()`).
pub uninterp spec fn otel_context_deadline(cx: OtelContext) -> Option<Instant>;

/// `opentelemetry::trace::TraceId::to_bytes`.
#[verifier::external_body]
fn otel_trace_id_to_bytes(t: OtelTraceId) -> (b: [u8; 16])
    ensures
        b@ == otel_trace_id_bytes(t),
{
    t.to_bytes()
}

/// `opentelemetry::trace::TraceId::from_bytes`, whose source stores the big-endian number of
/// the bytes, so that `to_bytes` gives the bytes back.
#[verifier::external_body]
fn otel_trace_id_from_bytes(b: [u8; 16]) -> (t: OtelTraceId)
    ensures
        otel_trace_id_bytes(t) == b@,
{
    OtelTraceId::from_bytes(b)
}

/// `opentelemetry::trace::SpanId::to_bytes`.
#[verifier::external_body]
fn otel_span_id_to_bytes(s: OtelSpanId) -> (b: [u8; 8])
    ensures
        b@ == otel_span_id_bytes(s),
{
    s.to_bytes()
}

/// `opentelemetry::trace::SpanId::from_bytes`, whose source stores the big-endian number of the
/// bytes, so that `to_bytes` gives the bytes back.
#[verifier::external_body]
fn otel_span_id_from_bytes(b: [u8; 8]) -> (s: OtelSpanId)
    ensures
        otel_span_id_bytes(s) == b@,
{
    OtelSpanId::from_bytes(b)
}

/// `opentelemetry::trace::SpanContext::trace_id`.
#[verifier::external_body]
fn sc_trace_id(sc: &OtelSpanContext) -> (t: OtelTraceId)
    ensures
        t == span_context_trace_id(*sc),
{
    sc.trace_id()
}

/// `opentelemetry::trace::SpanContext::span_id`.
#[verifier::external_body]
fn sc_span_id(sc: &OtelSpanContext) -> (s: OtelSpanId)
    ensures
        s == span_context_span_id(*sc),
{
    sc.span_id()
}

/// `opentelemetry::trace::SpanContext::is_sampled`.
#[verifier::external_body]
fn sc_is_sampled(sc: &OtelSpanContext) -> (b: bool)
    ensures
        b == span_context_sampled(*sc),
{
    sc.is_sampled()
}

/// `opentelemetry::trace::TraceFlags::SAMPLED`, whose `is_sampled` is true.
#[verifier::external_body]
fn flags_sampled() -> (f: OtelTraceFlags)
    ensures
        trace_flags_sampled(f),
{
    OtelTraceFlags::SAMPLED
}

/// `opentelemetry::trace::TraceFlags::default()`, the empty flags, whose `is_sampled` is false.
#[verifier::external_body]
fn flags_default() -> (f: OtelTraceFlags)
    ensures
        !trace_flags_sampled(f),
{
    OtelTraceFlags::default()
}

/// `TraceContextExt::has_active_span`.
#[verifier::external_body]
fn otel_has_active_span(cx: &OtelContext) -> (b: bool)
    ensures
        b == otel_context_has_span(*cx),
{
    cx.has_active_span()
}

/// The span context of the context's span: `cx.span().span_context()`, cloned.
#[verifier::external_body]
fn otel_span_context(cx: &OtelContext) -> (sc: OtelSpanContext)
    ensures
        sc == otel_context_span_context(*cx),
{
    cx.span().span_context().clone()
}

/// The deadline stored in the context, if any: `cx.get::<Deadline>()`, copied out.
#[verifier::external_body]
pub(crate) fn otel_deadline(cx: &OtelContext) -> (d: Option<Instant>)
    ensures
        d == otel_context_deadline(*cx),
{
    cx.get::<Deadline>().map(|d| d.0)
}

/// The OpenTelemetry context of a tracing span (`OpenTelemetrySpanExt::context`). What it holds
/// depends on the installed subscriber; nothing is stated of it.
#[verifier::external_body]
pub(crate) fn span_otel_context(span: &TracingSpan) -> (cx: OtelContext) {
    span.context()
}

/// The span the current thread is in (`tracing::Span::current`). Nothing is stated of it.
#[verifier::external_body]
pub(crate) fn current_span() -> (span: TracingSpan) {
    TracingSpan::current()
}

/// A context with a remote span context made of the given ids and flags, and holding
/// `deadline`: `Context::new().with_remote_span_context(SpanContext::new(trace_id, span_id,
/// flags, true, TraceState::default())).with_value(Deadline(deadline))`. In the source the new
/// context has an active span whose span context reports the given ids and the flags' sampling
/// bit, and `get::<Deadline>` gives the deadline back.
#[verifier::external_body]
fn remote_otel_context(
    trace_id: OtelTraceId,
    span_id: OtelSpanId,
    flags: OtelTraceFlags,
    deadline: Instant,
) -> (cx: OtelContext)
    ensures
        otel_context_has_span(cx),
        span_context_trace_id(otel_context_span_context(cx)) == trace_id,
        span_context_span_id(otel_context_span_context(cx)) == span_id,
        span_context_sampled(otel_context_span_context(cx)) == trace_flags_sampled(flags),
        otel_context_deadline(cx) == Some(deadline),
{
    OtelContext::new().with_remote_span_context(
        OtelSpanContext::new(
            trace_id,
            span_id,
            flags,
            true,
            opentelemetry::trace::TraceState::default(),
        ),
    ).with_value(Deadline(deadline))
}

/// Makes `cx` the parent of `span` (`OpenTelemetrySpanExt::set_parent`).
#[verifier::external_body]
pub(crate) fn span_set_parent(span: &TracingSpan, cx: OtelContext) {
    span.set_parent(cx)
}

/// Reverses sixteen bytes.
fn reverse16(b: [u8; 16]) -> (r: [u8; 16])
    ensures
        r@ == b@.reverse(),
{
    let mut r = [0u8; 16];
    let mut i: usize = 0;
    while i < 16
        invariant
            0 <= i <= 16,
            r@.len() == 16,
            forall|j: int| 0 <= j < i ==> r@[j] == b@[15 - j],
        decreases 16 - i,
    {
        r[i] = b[15 - i];
        i = i + 1;
    }
    assert(r@ =~= b@.reverse());
    r
}

/// The trace id whose number has the given big-endian bytes.
pub open spec fn trace_id_of_otel(t: OtelTraceId) -> TraceId {
    TraceId(le_value(otel_trace_id_bytes(t).reverse(), 16))
}

/// The span id whose number has the given big-endian bytes.
pub open spec fn span_id_of_otel(s: OtelSpanId) -> SpanId {
    SpanId(be_value(otel_span_id_bytes(s)))
}

/// The sampling decision a span context records.
pub open spec fn sampling_of(sampled: bool) -> SamplingDecision {
    if sampled {
        SamplingDecision::Sampled
    } else {
        SamplingDecision::Unsampled
    }
}

/// The trace context of an OpenTelemetry span context.
pub open spec fn context_of_span_context(sc: OtelSpanContext) -> Context {
    Context {
        trace_id: trace_id_of_otel(span_context_trace_id(sc)),
        span_id: span_id_of_otel(span_context_span_id(sc)),
        sampling_decision: sampling_of(span_context_sampled(sc)),
    }
}

/// The trace context of an OpenTelemetry context: that of its span, or an error when it has
/// none.
pub open spec fn context_of_otel(cx: OtelContext) -> Result<Context, NoActiveSpan> {
    if otel_context_has_span(cx) {
        Ok(context_of_span_context(otel_context_span_context(cx)))
    } else {
        Err(NoActiveSpan)
    }
}

impl TraceId {
    /// The trace id that an OpenTelemetry trace id stands for.
    pub fn from_otel(t: OtelTraceId) -> (id: TraceId)
        ensures
            id == trace_id_of_otel(t),
    {
        let bytes = reverse16(otel_trace_id_to_bytes(t));
        TraceId(crate::trace::u128_serde::deserialize(&bytes))
    }

    /// The OpenTelemetry trace id that stands for this one: its number's big-endian bytes.
    pub fn to_otel(&self) -> (t: OtelTraceId)
        ensures
            otel_trace_id_bytes(t) == le_bytes(self.0).reverse(),
    {
        otel_trace_id_from_bytes(reverse16(crate::trace::u128_serde::serialize(&self.0)))
    }
}

impl SpanId {
    /// The span id that an OpenTelemetry span id stands for.
    pub fn from_otel(s: OtelSpanId) -> (id: SpanId)
        ensures
            id == span_id_of_otel(s),
    {
        let bytes = otel_span_id_to_bytes(s);
        SpanId(read_u64_be(bytes.as_slice()))
    }

    /// The OpenTelemetry span id that stands for this one: its number's big-endian bytes.
    pub fn to_otel(&self) -> (s: OtelSpanId)
        ensures
            otel_span_id_bytes(s) == be_bytes(self.0),
    {
        otel_span_id_from_bytes(write_u64_be(self.0))
    }
}

impl SamplingDecision {
    /// The trace flags that carry this decision: the sampled flag, or none.
    pub fn to_trace_flags(self) -> (f: OtelTraceFlags)
        ensures
            trace_flags_sampled(f) == (self == SamplingDecision::Sampled),
    {
        match self {
            SamplingDecision::Sampled => flags_sampled(),
            SamplingDecision::Unsampled => flags_default(),
        }
    }

    /// The decision a span context records.
    pub fn from_span_context(sc: &OtelSpanContext) -> (d: SamplingDecision)
        ensures
            d == sampling_of(span_context_sampled(*sc)),
    {
        if sc_is_sampled(sc) {
            SamplingDecision::Sampled
        } else {
            SamplingDecision::Unsampled
        }
    }
}

impl Context {
    /// The trace context of an OpenTelemetry span context.
    pub fn from_span_context(sc: &OtelSpanContext) -> (c: Context)
        ensures
            c == context_of_span_context(*sc),
    {
        Context {
            trace_id: TraceId::from_otel(sc_trace_id(sc)),
            span_id: SpanId::from_otel(sc_span_id(sc)),
            sampling_decision: SamplingDecision::from_span_context(sc),
        }
    }

    /// The trace context of an OpenTelemetry context's span, or an error when it has no active
    /// span.
    pub fn try_from_otel(cx: &OtelContext) -> (r: Result<Context, NoActiveSpan>)
        ensures
            r == context_of_otel(*cx),
    {
        if otel_has_active_span(cx) {
            Ok(Context::from_span_context(&otel_span_context(cx)))
        } else {
            Err(NoActiveSpan)
        }
    }

    /// The trace context of a tracing span, read through its OpenTelemetry context (which the
    /// installed subscriber provides).
    pub fn try_from_span(span: &TracingSpan) -> (r: Result<Context, NoActiveSpan>)
        ensures
            exists|cx: OtelContext| r == #[trigger] context_of_otel(cx),
    {
        let cx = span_otel_context(span);
        Context::try_from_otel(&cx)
    }
}

/// The deadline a tracing span's OpenTelemetry context holds, if any.
pub fn span_deadline(span: &TracingSpan) -> (d: Option<Instant>)
    ensures
        exists|cx: OtelContext| d == #[trigger] otel_context_deadline(cx),
{
    let cx = span_otel_context(span);
    otel_deadline(&cx)
}

/// The OpenTelemetry context that carries `trace_context` as a remote parent, and `deadline`.
pub fn remote_parent(trace_context: &Context, deadline: Instant) -> (cx: OtelContext)
    ensures
        context_of_otel(cx) == Ok::<Context, NoActiveSpan>(*trace_context),
        otel_context_deadline(cx) == Some(deadline),
{
    let t = trace_context.trace_id.to_otel();
    let s = trace_context.span_id.to_otel();
    let f = trace_context.sampling_decision.to_trace_flags();
    let cx = remote_otel_context(t, s, f, deadline);
    proof {
        lemma_otel_trace_id_roundtrip(trace_context.trace_id.0, t);
        lemma_otel_span_id_roundtrip(trace_context.span_id.0, s);
    }
    cx
}

/// Makes `span` a child of the remote trace context `trace_context`, and stores `deadline` with
/// it.
pub fn set_context(span: &TracingSpan, trace_context: &Context, deadline: Instant) {
    let cx = remote_parent(trace_context, deadline);
    span_set_parent(span, cx);
}

/// A trace id survives the trip through OpenTelemetry's byte form.
pub proof fn lemma_otel_trace_id_roundtrip(u: u128, t: OtelTraceId)
    requires
        otel_trace_id_bytes(t) == le_bytes(u).reverse(),
    ensures
        trace_id_of_otel(t) == TraceId(u),
{
    assert(le_bytes(u).reverse().reverse() =~= le_bytes(u));
    crate::trace::u128_serde::lemma_serialize_roundtrip(u);
}

/// A span id survives the trip through OpenTelemetry's byte form.
pub proof fn lemma_otel_span_id_roundtrip(u: u64, s: OtelSpanId)
    requires
        otel_span_id_bytes(s) == be_bytes(u),
    ensures
        span_id_of_otel(s) == SpanId(u),
{
    crate::protocol::framing::lemma_be_value_of_bytes(u);
}

} // verus!
