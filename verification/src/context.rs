//! A request context that carries a deadline and trace context. It is sent from client to server
//! and is used by the server to enforce response deadlines.

use vstd::prelude::*;
use std::time::{Duration, Instant};
use crate::trace;
use crate::trace::TraceId;
use crate::trace::otel::{
    context_of_otel, current_span, otel_context_deadline, otel_deadline, span_otel_context,
};

pub mod absolute_to_relative_time;

verus! {

#[verifier::external_type_specification]
#[verifier::external_body]
pub struct ExInstant(std::time::Instant);

/// Reads the monotonic clock with `std::time::Instant::now`. The value depends on when the
/// call happens; nothing is stated of it.
#[verifier::external_body]
pub(crate) fn instant_now() -> (now: Instant) {
    Instant::now()
}

/// What `std::time::Duration::as_nanos` returns for `d`: the whole span in nanoseconds.
pub uninterp spec fn duration_nanos(d: Duration) -> u128;

/// What `std::time::Duration::from_secs` returns for `secs`.
pub uninterp spec fn duration_of_secs(secs: u64) -> Duration;

/// What `std::time::Duration::from_nanos` returns for `nanos`.
pub uninterp spec fn duration_of_nanos(nanos: u64) -> Duration;

/// What `std::time::Instant::checked_add` returns for `i` and `d`: the instant `d` after `i`,
/// or `None` when it cannot be represented.
pub uninterp spec fn instant_checked_add_result(i: Instant, d: Duration) -> Option<Instant>;

/// What `std::time::Instant::checked_duration_since` returns: the time from `earlier` to
/// `later`, or `None` when `earlier` is the later one.
pub uninterp spec fn instant_checked_duration_since(later: Instant, earlier: Instant) -> Option<
    Duration,
>;

/// What `std::time::Instant::duration_since` returns: the time from `earlier` to `later`.
pub uninterp spec fn instant_duration_since(later: Instant, earlier: Instant) -> Duration;

/// `std::time::Duration::as_nanos`: the whole span in nanoseconds.
#[verifier::external_body]
pub(crate) fn duration_as_nanos(d: Duration) -> (n: u128)
    ensures
        n == duration_nanos(d),
{
    d.as_nanos()
}

/// `std::time::Duration::from_secs`: a span of `secs` whole seconds, that is `secs` times
/// 10^9 nanoseconds.
#[verifier::external_body]
pub(crate) fn duration_from_secs(secs: u64) -> (d: Duration)
    ensures
        d == duration_of_secs(secs),
        duration_nanos(d) == secs * 1_000_000_000,
{
    Duration::from_secs(secs)
}

/// `std::time::Duration::from_nanos`: a span of `nanos` nanoseconds.
#[verifier::external_body]
pub(crate) fn duration_from_nanos(nanos: u64) -> (d: Duration)
    ensures
        d == duration_of_nanos(nanos),
        duration_nanos(d) == nanos,
{
    Duration::from_nanos(nanos)
}

/// `std::time::Instant::checked_add`: the instant `d` after `i`; `None` when that instant
/// cannot be represented.
#[verifier::external_body]
pub(crate) fn instant_checked_add(i: Instant, d: Duration) -> (r: Option<Instant>)
    ensures
        r == instant_checked_add_result(i, d),
{
    i.checked_add(d)
}

/// `std::time::Instant::checked_duration_since`: the time from `earlier` to `later`; `None`
/// when `earlier` is the later one.
#[verifier::external_body]
pub(crate) fn checked_duration_since(later: Instant, earlier: Instant) -> (d: Option<Duration>)
    ensures
        d == instant_checked_duration_since(later, earlier),
{
    later.checked_duration_since(earlier)
}

/// `std::time::Instant::duration_since`: the time from `earlier` to `later`, which the
/// standard library documents as zero when `earlier` is the later one.
#[verifier::external_body]
pub(crate) fn duration_since(later: Instant, earlier: Instant) -> (d: Duration)
    ensures
        d == instant_duration_since(later, earlier),
        duration_nanos(d) == match instant_checked_duration_since(later, earlier) {
            Some(x) => duration_nanos(x),
            None => 0,
        },
{
    later.duration_since(earlier)
}

/// The instant `d` after `now`, or `now` itself should that instant not be representable.
pub open spec fn instant_after(now: Instant, d: Duration) -> Instant {
    match instant_checked_add_result(now, d) {
        Some(t) => t,
        None => now,
    }
}

/// The deadline `secs` seconds after `now`.
pub open spec fn deadline_after_spec(now: Instant, secs: u64) -> Instant {
    instant_after(now, duration_of_secs(secs))
}

/// A request context that carries request-scoped information like deadlines and trace
/// information.
#[derive(Clone, Copy, Debug)]
pub struct DefaultContext {
    /// When the client expects the request to be complete by.
    pub deadline: Instant,
    /// Identifies the trace and span that the request belongs to.
    pub trace_context: trace::Context,
}

/// The context type carried by requests.
pub type Context = DefaultContext;

/// A shared, on-the-wire request context: the minimal interface required for contexts that are
/// transmitted between peers as part of an RPC call.
pub trait SharedContext {
    /// The deadline the context holds.
    spec fn deadline_of(&self) -> Instant;

    /// The trace context the context holds.
    spec fn trace_context_of(&self) -> trace::Context;

    /// Returns the absolute deadline for the request.
    fn deadline(&self) -> (d: Instant)
        ensures
            d == self.deadline_of(),
    ;

    /// Returns the distributed tracing context associated with the request.
    fn trace_context(&self) -> (t: trace::Context)
        ensures
            t == self.trace_context_of(),
    ;

    /// Updates the distributed tracing context; the deadline stays as it was.
    fn set_trace_context(&mut self, trace_context: trace::Context)
        ensures
            final(self).trace_context_of() == trace_context,
            final(self).deadline_of() == old(self).deadline_of(),
    ;
}

impl SharedContext for DefaultContext {
    open spec fn deadline_of(&self) -> Instant {
        self.deadline
    }

    open spec fn trace_context_of(&self) -> trace::Context {
        self.trace_context
    }

    fn deadline(&self) -> (d: Instant) {
        self.deadline
    }

    fn trace_context(&self) -> (t: trace::Context) {
        self.trace_context
    }

    fn set_trace_context(&mut self, trace_context: trace::Context) {
        self.trace_context = trace_context;
    }
}

/// Extracts a wire-level shared context contained within a client or server context.
pub trait ExtractContext<Ctx> {
    /// Extracts the inner context from the internal state.
    fn extract(&self) -> Ctx;
}

/// Updates a wire-level shared context contained within a client context. It is expected that
/// extracting after an update gives back the value of the update.
pub trait UpdateContext<Ctx>: ExtractContext<Ctx> {
    /// Updates the internal state from an inner context value.
    fn update(&mut self, value: Ctx);
}

impl<T: Clone> ExtractContext<T> for T {
    /// A clone of the value itself.
    fn extract(&self) -> (c: T)
        ensures
            cloned(*self, c),
    {
        self.clone()
    }
}

impl<T: ExtractContext<T>> UpdateContext<T> for T {
    /// Replaces the value; extracting afterwards gives a clone of `value`.
    fn update(&mut self, value: T)
        ensures
            *final(self) == value,
    {
        *self = value;
    }
}

/// The deadline `secs` seconds after `now`, or `now` itself in the (unreachable in practice)
/// case that the sum overflows the clock's range.
pub fn deadline_after(now: Instant, secs: u64) -> (d: Instant)
    ensures
        d == deadline_after_spec(now, secs),
{
    match instant_checked_add(now, duration_from_secs(secs)) {
        Some(d) => d,
        None => now,
    }
}

/// The default deadline: ten seconds from the moment the clock is read.
pub fn ten_seconds_from_now() -> (d: Instant)
    ensures
        exists|now: Instant| d == #[trigger] deadline_after_spec(now, 10),
{
    let now = instant_now();
    deadline_after(now, 10)
}

/// The trace context of a request outside any trace: zero ids, not sampled.
pub open spec fn default_trace_context() -> trace::Context {
    trace::Context {
        trace_id: TraceId(0),
        span_id: trace::SpanId(0),
        sampling_decision: trace::SamplingDecision::Unsampled,
    }
}

/// Returns the context for the current request, or a default context if no request is active.
pub fn current() -> (c: DefaultContext)
    ensures
        exists|cx: opentelemetry::Context|
            #![trigger context_of_otel(cx)]
            {
                &&& c.trace_context == match context_of_otel(cx) {
                    Ok(t) => t,
                    Err(_) => default_trace_context(),
                }
                &&& match otel_context_deadline(cx) {
                    Some(d) => c.deadline == d,
                    None => exists|now: Instant| c.deadline == #[trigger] deadline_after_spec(
                        now,
                        10,
                    ),
                }
            },
{
    DefaultContext::current()
}

impl DefaultContext {
    /// A context built from what the current tracing span carries: its trace context, or the
    /// default (all-zero, unsampled) one when no span is active, and its deadline, or ten seconds
    /// from now when it carries none.
    pub fn from_span_parts(trace_context: Option<trace::Context>, deadline: Option<Instant>) -> (c:
        DefaultContext)
        ensures
            trace_context matches Some(t) ==> c.trace_context == t,
            trace_context is None ==> c.trace_context == default_trace_context(),
            deadline matches Some(d) ==> c.deadline == d,
            deadline is None ==> exists|now: Instant| c.deadline == #[trigger] deadline_after_spec(
                now,
                10,
            ),
    {
        let trace_context = match trace_context {
            Some(t) => t,
            None => trace::Context::default(),
        };
        let deadline = match deadline {
            Some(d) => d,
            None => ten_seconds_from_now(),
        };
        DefaultContext { deadline, trace_context }
    }

    /// Returns the context for the current request, read from the OpenTelemetry context of the
    /// current tracing span: its trace context (or the default one when it has no active span)
    /// and its deadline (or ten seconds from now when it holds none).
    pub fn current() -> (c: DefaultContext)
        ensures
            exists|cx: opentelemetry::Context|
                #![trigger context_of_otel(cx)]
                {
                    &&& c.trace_context == match context_of_otel(cx) {
                        Ok(t) => t,
                        Err(_) => default_trace_context(),
                    }
                    &&& match otel_context_deadline(cx) {
                        Some(d) => c.deadline == d,
                        None => exists|now: Instant| c.deadline == #[trigger] deadline_after_spec(
                            now,
                            10,
                        ),
                    }
                },
    {
        let span = current_span();
        let cx = span_otel_context(&span);
        let trace_context = match trace::Context::try_from_otel(&cx) {
            Ok(t) => Some(t),
            Err(_) => None,
        };
        let deadline = otel_deadline(&cx);
        DefaultContext::from_span_parts(trace_context, deadline)
    }

    /// Returns the ID of the request-scoped trace.
    pub fn trace_id(&self) -> (t: &TraceId)
        ensures
            *t == self.trace_context.trace_id,
    {
        &self.trace_context.trace_id
    }
}

} // verus!
