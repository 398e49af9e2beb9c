//! Envelope types that mirror [`ClientMessage`], [`Response`], [`Request`] and [`ServerError`]
//! with plain fields only: error kinds as `u32` codes, sampling decisions as `u8`, and deadlines
//! as the nanoseconds left until them when the message is encoded.

use vstd::prelude::*;
use vstd::std_specs::convert::FromSpecImpl;
use std::time::{Duration, Instant};
use crate::{ClientMessage, ErrorKind, Request, Response, ServerError, context, trace};
use crate::error_kind::{code_kind, decode_kind, encode_kind, kind_code};
use crate::context::{
    checked_duration_since, duration_as_nanos, duration_from_nanos, duration_nanos,
    duration_of_nanos, instant_after, instant_checked_add, instant_checked_duration_since,
    instant_now,
};

verus! {

/// Plain mirror of [`trace::Context`].
#[derive(Debug, Clone, Copy, PartialEq, Eq, Structural)]
pub struct ForyTraceContext {
    /// Raw bits of the trace id.
    pub trace_id: u128,
    /// Raw bits of the span id.
    pub span_id: u64,
    /// Sampling decision: 1 = sampled, anything else = unsampled.
    pub sampling: u8,
}

/// Plain mirror of [`ServerError`]; `kind` is the error kind's wire code.
#[derive(Debug)]
pub struct ForyServerError {
    /// The error kind's wire code.
    pub kind: u32,
    /// Human-readable error detail.
    pub detail: String,
}

/// Plain analog of `Result<T, ServerError>`.
#[derive(Debug)]
pub enum ForyResult<T> {
    /// Successful response payload.
    Success(T),
    /// Server-side error.
    Failure(ForyServerError),
}

/// Plain mirror of [`Request`]; the deadline travels as the nanoseconds left until it when the
/// request was encoded (0 when it had passed).
#[derive(Debug)]
pub struct ForyRequest<T> {
    /// Request id, unique within a single channel.
    pub id: u64,
    /// Trace context of the request.
    pub trace: ForyTraceContext,
    /// Nanoseconds left until the deadline, from encoding time.
    pub deadline_ns: u64,
    /// Request body.
    pub message: T,
}

/// Plain mirror of [`Response`].
#[derive(Debug)]
pub struct ForyResponse<T> {
    /// Id of the request this responds to.
    pub request_id: u64,
    /// Response body or server error.
    pub message: ForyResult<T>,
}

/// Plain mirror of [`ClientMessage`].
#[derive(Debug)]
pub enum ForyClientMessage<T> {
    /// A new request from the client.
    Request(ForyRequest<T>),
    /// Cancellation of an in-flight request.
    Cancel {
        /// Trace context associated with the original request.
        trace: ForyTraceContext,
        /// Id of the request to cancel.
        request_id: u64,
    },
}

/// The wire byte of a sampling decision.
pub open spec fn sampling_code(d: trace::SamplingDecision) -> u8 {
    match d {
        trace::SamplingDecision::Sampled => 1,
        trace::SamplingDecision::Unsampled => 0,
    }
}

/// The sampling decision a wire byte denotes.
pub open spec fn code_sampling(v: u8) -> trace::SamplingDecision {
    if v == 1 {
        trace::SamplingDecision::Sampled
    } else {
        trace::SamplingDecision::Unsampled
    }
}

/// The plain mirror of a trace context.
pub open spec fn fory_trace(tc: trace::Context) -> ForyTraceContext {
    ForyTraceContext {
        trace_id: tc.trace_id.0,
        span_id: tc.span_id.0,
        sampling: sampling_code(tc.sampling_decision),
    }
}

/// The trace context a plain mirror denotes.
pub open spec fn native_trace(f: ForyTraceContext) -> trace::Context {
    trace::Context {
        trace_id: trace::TraceId(f.trace_id),
        span_id: trace::SpanId(f.span_id),
        sampling_decision: code_sampling(f.sampling),
    }
}

impl From<trace::SamplingDecision> for u8 {
    fn from(d: trace::SamplingDecision) -> (v: u8) {
        match d {
            trace::SamplingDecision::Sampled => 1,
            trace::SamplingDecision::Unsampled => 0,
        }
    }
}

impl FromSpecImpl<trace::SamplingDecision> for u8 {
    open spec fn obeys_from_spec() -> bool {
        true
    }

    open spec fn from_spec(d: trace::SamplingDecision) -> u8 {
        sampling_code(d)
    }
}

impl From<u8> for trace::SamplingDecision {
    fn from(v: u8) -> (d: trace::SamplingDecision) {
        if v == 1 {
            trace::SamplingDecision::Sampled
        } else {
            trace::SamplingDecision::Unsampled
        }
    }
}

impl FromSpecImpl<u8> for trace::SamplingDecision {
    open spec fn obeys_from_spec() -> bool {
        true
    }

    open spec fn from_spec(v: u8) -> trace::SamplingDecision {
        code_sampling(v)
    }
}

impl ForyTraceContext {
    /// The plain mirror of a trace context.
    pub fn from_trace(tc: &trace::Context) -> (f: ForyTraceContext)
        ensures
            f == fory_trace(*tc),
    {
        ForyTraceContext {
            trace_id: tc.trace_id.0,
            span_id: tc.span_id.0,
            sampling: u8::from(tc.sampling_decision),
        }
    }

    /// The trace context this mirror denotes.
    pub fn to_trace(self) -> (tc: trace::Context)
        ensures
            tc == native_trace(self),
    {
        trace::Context {
            trace_id: trace::TraceId(self.trace_id),
            span_id: trace::SpanId(self.span_id),
            sampling_decision: trace::SamplingDecision::from(self.sampling),
        }
    }
}

impl ForyServerError {
    /// The plain mirror of a server error.
    pub fn from_server_error(se: &ServerError) -> (f: ForyServerError)
        ensures
            f.kind == kind_code(se.kind),
            f.detail == se.detail,
    {
        ForyServerError { kind: encode_kind(se.kind), detail: se.detail.clone() }
    }

    /// The server error this mirror denotes.
    pub fn to_server_error(self) -> (se: ServerError)
        ensures
            se.kind == code_kind(self.kind),
            se.detail == self.detail,
    {
        ServerError { kind: decode_kind(self.kind), detail: self.detail }
    }
}

impl<T> ForyResult<T> {
    /// The plain mirror of a response body.
    pub fn from_result(r: Result<T, ServerError>) -> (f: ForyResult<T>)
        ensures
            match r {
                Ok(v) => f == ForyResult::<T>::Success(v),
                Err(e) => f matches ForyResult::Failure(fe) && fe.kind == kind_code(e.kind)
                    && fe.detail == e.detail,
            },
    {
        match r {
            Ok(v) => ForyResult::Success(v),
            Err(e) => ForyResult::Failure(ForyServerError::from_server_error(&e)),
        }
    }

    /// The response body this mirror denotes.
    pub fn to_result(self) -> (r: Result<T, ServerError>)
        ensures
            match self {
                ForyResult::Success(v) => r == Ok::<T, ServerError>(v),
                ForyResult::Failure(fe) => r matches Err(e) && e.kind == code_kind(fe.kind)
                    && e.detail == fe.detail,
            },
    {
        match self {
            ForyResult::Success(v) => Ok(v),
            ForyResult::Failure(fe) => Err(fe.to_server_error()),
        }
    }
}

/// A count of nanoseconds, saturated to fit a `u64`.
pub fn saturate_nanos(n: u128) -> (v: u64)
    ensures
        v == if n > u64::MAX as u128 {
            u64::MAX
        } else {
            n as u64
        },
{
    if n > u64::MAX as u128 {
        u64::MAX
    } else {
        n as u64
    }
}

/// The nanoseconds left from `now` until `deadline`, saturated to a `u64`; 0 once it has
/// passed.
pub open spec fn nanos_left(deadline: Instant, now: Instant) -> u64 {
    match instant_checked_duration_since(deadline, now) {
        Some(d) => if duration_nanos(d) > u64::MAX as u128 {
            u64::MAX
        } else {
            duration_nanos(d) as u64
        },
        None => 0,
    }
}

/// The nanoseconds left from `now` until `deadline`, saturated to a `u64`; 0 once it has
/// passed.
pub fn deadline_nanos_left(deadline: Instant, now: Instant) -> (n: u64)
    ensures
        n == nanos_left(deadline, now),
{
    match checked_duration_since(deadline, now) {
        Some(d) => saturate_nanos(duration_as_nanos(d)),
        None => 0,
    }
}

impl<T: Clone> ForyRequest<T> {
    /// The plain mirror of a request. The deadline becomes the nanoseconds left until it now
    /// (saturated to a `u64`, 0 once it has passed); that count depends on the clock.
    pub fn from_request(req: &Request<T>) -> (f: ForyRequest<T>)
        ensures
            f.id == req.id,
            f.trace == fory_trace(req.context.trace_context),
            cloned(req.message, f.message),
            exists|now: Instant| f.deadline_ns == #[trigger] nanos_left(req.context.deadline, now),
    {
        let now = instant_now();
        let deadline_ns = deadline_nanos_left(req.context.deadline, now);
        ForyRequest {
            id: req.id,
            trace: ForyTraceContext::from_trace(&req.context.trace_context),
            deadline_ns,
            message: req.message.clone(),
        }
    }
}

impl<T> ForyRequest<T> {
    /// The request this mirror denotes; its deadline lies `deadline_ns` nanoseconds from now
    /// (or is now, should that instant not be representable).
    pub fn to_request(self) -> (r: Request<T>)
        ensures
            r.id == self.id,
            r.context.trace_context == native_trace(self.trace),
            r.message == self.message,
            exists|now: Instant| r.context.deadline == #[trigger] instant_after(
                now,
                duration_of_nanos(self.deadline_ns),
            ),
    {
        let now = instant_now();
        let deadline = match instant_checked_add(now, duration_from_nanos(self.deadline_ns)) {
            Some(d) => d,
            None => now,
        };
        assert(deadline == instant_after(now, duration_of_nanos(self.deadline_ns)));
        Request {
            context: context::Context { deadline, trace_context: self.trace.to_trace() },
            id: self.id,
            message: self.message,
        }
    }
}

impl<T: Clone> ForyResponse<T> {
    /// The plain mirror of a response.
    pub fn from_response(resp: &Response<T>) -> (f: ForyResponse<T>)
        ensures
            f.request_id == resp.request_id,
            match (resp.message, f.message) {
                (Ok(v), ForyResult::Success(w)) => cloned(v, w),
                (Err(e), ForyResult::Failure(fe)) => fe.kind == kind_code(e.kind) && fe.detail
                    == e.detail,
                _ => false,
            },
    {
        let message = match &resp.message {
            Ok(v) => ForyResult::Success(v.clone()),
            Err(e) => ForyResult::Failure(ForyServerError::from_server_error(e)),
        };
        ForyResponse { request_id: resp.request_id, message }
    }
}

impl<T> ForyResponse<T> {
    /// The response this mirror denotes.
    pub fn to_response(self) -> (r: Response<T>)
        ensures
            r.request_id == self.request_id,
            match (self.message, r.message) {
                (ForyResult::Success(w), Ok(v)) => v == w,
                (ForyResult::Failure(fe), Err(e)) => e.kind == code_kind(fe.kind) && e.detail
                    == fe.detail,
                _ => false,
            },
    {
        Response { request_id: self.request_id, message: self.message.to_result() }
    }
}

impl<T: Clone> ForyClientMessage<T> {
    /// The plain mirror of a client message.
    pub fn from_client_message(msg: &ClientMessage<T>) -> (f: ForyClientMessage<T>)
        ensures
            match (msg, f) {
                (ClientMessage::Request(req), ForyClientMessage::Request(fr)) => {
                    &&& fr.id == req.id
                    &&& fr.trace == fory_trace(req.context.trace_context)
                    &&& cloned(req.message, fr.message)
                    &&& exists|now: Instant| fr.deadline_ns == #[trigger] nanos_left(
                        req.context.deadline,
                        now,
                    )
                },
                (
                    ClientMessage::Cancel { trace_context, request_id },
                    ForyClientMessage::Cancel { trace, request_id: fid },
                ) => trace == fory_trace(*trace_context) && fid == request_id,
                _ => false,
            },
    {
        match msg {
            ClientMessage::Request(req) => ForyClientMessage::Request(
                ForyRequest::from_request(req),
            ),
            ClientMessage::Cancel { trace_context, request_id } => ForyClientMessage::Cancel {
                trace: ForyTraceContext::from_trace(trace_context),
                request_id: *request_id,
            },
        }
    }
}

impl<T> ForyClientMessage<T> {
    /// The client message this mirror denotes.
    pub fn to_client_message(self) -> (m: ClientMessage<T>)
        ensures
            match (self, m) {
                (ForyClientMessage::Request(fr), ClientMessage::Request(req)) => {
                    &&& req.id == fr.id
                    &&& req.context.trace_context == native_trace(fr.trace)
                    &&& req.message == fr.message
                    &&& exists|now: Instant| req.context.deadline == #[trigger] instant_after(
                        now,
                        duration_of_nanos(fr.deadline_ns),
                    )
                },
                (
                    ForyClientMessage::Cancel { trace, request_id: fid },
                    ClientMessage::Cancel { trace_context, request_id },
                ) => trace_context == native_trace(trace) && request_id == fid,
                _ => false,
            },
    {
        match self {
            ForyClientMessage::Request(fr) => ClientMessage::Request(fr.to_request()),
            ForyClientMessage::Cancel { trace, request_id } => ClientMessage::Cancel {
                trace_context: trace.to_trace(),
                request_id,
            },
        }
    }
}

/// A trace context survives the trip through its plain mirror unchanged.
pub proof fn lemma_trace_roundtrip(tc: trace::Context)
    ensures
        native_trace(fory_trace(tc)) == tc,
{
}

/// A server error whose kind has its own wire code survives the trip through its plain mirror
/// unchanged; one of an unlisted kind comes back as `Other` with the same detail.
pub proof fn lemma_server_error_roundtrip(kind: ErrorKind)
    ensures
        kind != ErrorKind::Unlisted ==> code_kind(kind_code(kind)) == kind,
        kind == ErrorKind::Unlisted ==> code_kind(kind_code(kind)) == ErrorKind::Other,
{
}

} // verus!
