//! Server-side request lifecycle: the decisions a channel makes while it reads requests and
//! cancellations, expires deadlines and writes responses.

use vstd::prelude::*;
use crate::{ClientMessage, ErrorKind, Request, Response, ServerError, trace};
use crate::util::{push_str, since_epoch, system_time_since_epoch};
use crate::context::{duration_as_nanos, duration_nanos};
use crate::server::in_flight_requests::{AlreadyExistsError, InFlightRequests};

pub mod in_flight_requests;
pub mod limits;

verus! {

/// Settings that control the behavior of channels.
#[derive(Clone, Copy, Debug)]
pub struct Config {
    /// The number of responses that can sit in the outbound queue before request handlers
    /// begin blocking.
    pub pending_response_buffer: usize,
}

impl Default for Config {
    fn default() -> (c: Config)
        ensures
            c.pending_response_buffer == 100,
    {
        Config { pending_response_buffer: 100 }
    }
}

/// The state of one of the sources a channel polls.
#[derive(Clone, Copy, Debug, PartialEq, Eq, Structural)]
pub enum ReceiverStatus {
    /// The source yielded something; polling again may yield more.
    Ready,
    /// The source has nothing now but may have something later.
    Pending,
    /// The source will never yield anything again.
    Closed,
}

/// The status of several sources taken together: ready if any is ready, closed if all are
/// closed, pending otherwise.
pub open spec fn combine_spec(a: ReceiverStatus, b: ReceiverStatus) -> ReceiverStatus {
    if a == ReceiverStatus::Ready || b == ReceiverStatus::Ready {
        ReceiverStatus::Ready
    } else if a == ReceiverStatus::Closed && b == ReceiverStatus::Closed {
        ReceiverStatus::Closed
    } else {
        ReceiverStatus::Pending
    }
}

impl ReceiverStatus {
    /// The status of two sources taken together.
    pub fn combine(self, other: ReceiverStatus) -> (s: ReceiverStatus)
        ensures
            s == combine_spec(self, other),
    {
        match (self, other) {
            (ReceiverStatus::Ready, _) | (_, ReceiverStatus::Ready) => ReceiverStatus::Ready,
            (ReceiverStatus::Closed, ReceiverStatus::Closed) => ReceiverStatus::Closed,
            _ => ReceiverStatus::Pending,
        }
    }
}

/// Combining statuses does not depend on their order or grouping; a closed source never
/// changes the combined status, and a ready source makes it ready.
pub proof fn lemma_combine_laws(a: ReceiverStatus, b: ReceiverStatus, c: ReceiverStatus)
    ensures
        combine_spec(a, b) == combine_spec(b, a),
        combine_spec(combine_spec(a, b), c) == combine_spec(a, combine_spec(b, c)),
        combine_spec(a, ReceiverStatus::Closed) == a,
        combine_spec(a, ReceiverStatus::Ready) == ReceiverStatus::Ready,
        combine_spec(a, a) == a,
{
}

/// What a channel's poll loop does after looking at all its sources.
#[derive(Clone, Copy, Debug, PartialEq, Eq, Structural)]
pub enum PollStep {
    /// Something happened; look at the sources again.
    Continue,
    /// Every source is closed; the channel ends.
    Closed,
    /// Nothing happened; wait to be woken.
    Pending,
}

/// The next step of the poll loop for a combined status.
pub fn next_step(status: ReceiverStatus) -> (step: PollStep)
    ensures
        status == ReceiverStatus::Ready <==> step == PollStep::Continue,
        status == ReceiverStatus::Closed <==> step == PollStep::Closed,
        status == ReceiverStatus::Pending <==> step == PollStep::Pending,
{
    match status {
        ReceiverStatus::Ready => PollStep::Continue,
        ReceiverStatus::Closed => PollStep::Closed,
        ReceiverStatus::Pending => PollStep::Pending,
    }
}

/// The outcome of polling the timer of request deadlines.
pub enum ExpiryPoll {
    /// The deadline of this request passed.
    Expired(u64),
    /// No deadlines are being timed.
    Exhausted,
    /// No deadline has passed yet.
    Pending,
}

/// The outcome of polling the transport for an inbound message. A request comes with the
/// clean-up data prepared for it.
pub enum InboundPoll<Req, D> {
    /// A request, and the data that tracks it while it is in flight.
    Request(Request<Req>, D),
    /// A cancellation of request `request_id`.
    Cancel { trace_context: trace::Context, request_id: u64 },
    /// The transport is closed.
    Closed,
    /// No message yet.
    Pending,
}

/// Whether dropping a started request must tell the channel to cancel it. A guard starts inert;
/// it becomes active once the request is handed out to be served, and inert again once the
/// request has been served.
#[derive(Clone, Copy, Debug, PartialEq, Eq, Structural)]
pub struct ResponseGuard {
    /// The request the guard belongs to.
    pub request_id: u64,
    /// Whether dropping the request cancels it.
    pub cancel: bool,
}

/// What the channel makes of an inbound message.
pub enum InboundDecision<Req, D> {
    /// A new request to hand to the server.
    Yield(Request<Req>, ResponseGuard),
    /// A request whose id is already in flight: ignored, with its prepared data handed back.
    Duplicate(Request<Req>, D),
    /// The transport's status, and the data of a request that a cancellation ended, if any.
    Status(ReceiverStatus, Option<D>),
}

/// The request lifecycle of a server channel: which requests are in flight, and what each
/// polled event does to them.
pub struct ChannelCore<D> {
    config: Config,
    in_flight_requests: InFlightRequests<D>,
}

impl<D> ChannelCore<D> {
    /// The in-flight requests, by id.
    pub closed spec fn requests(&self) -> Map<u64, D> {
        self.in_flight_requests.requests()
    }

    /// The channel's settings.
    pub closed spec fn config_spec(&self) -> Config {
        self.config
    }

    /// Only finitely many requests are ever in flight.
    pub proof fn lemma_requests_finite(&self)
        ensures
            self.requests().dom().finite(),
    {
        self.in_flight_requests.lemma_requests_finite();
    }

    /// Starting a request that is not in flight adds exactly one to the number in flight; ending
    /// one that is in flight takes exactly one away.
    pub proof fn lemma_start_and_end_count_one(&self, id: u64, data: D)
        ensures
            !self.requests().contains_key(id) ==> self.requests().insert(id, data).len()
                == self.requests().len() + 1,
            self.requests().contains_key(id) ==> self.requests().remove(id).len() + 1
                == self.requests().len(),
    {
        self.in_flight_requests.lemma_start_and_end_count_one(id, data);
    }

    /// A channel with no requests in flight.
    pub fn new(config: Config) -> (c: ChannelCore<D>)
        ensures
            c.requests() == Map::<u64, D>::empty(),
            c.config_spec() == config,
    {
        ChannelCore { config, in_flight_requests: InFlightRequests::new() }
    }

    /// The channel's settings.
    pub fn config(&self) -> (c: &Config)
        ensures
            *c == self.config_spec(),
    {
        &self.config
    }

    /// The number of requests in flight.
    pub fn in_flight_requests(&self) -> (n: usize)
        ensures
            self.requests().dom().finite(),
            n == self.requests().len(),
    {
        self.in_flight_requests.len()
    }

    /// Handles the polled cancellation queue: a request whose handler was dropped is no longer
    /// tracked (its data is handed back); an empty or closed queue counts as closed, since
    /// cancellations only clean up state that closing the channel cleans up too.
    pub fn on_cancellation(&mut self, polled: Option<u64>) -> (res: (ReceiverStatus, Option<D>))
        ensures
            final(self).config_spec() == old(self).config_spec(),
            match polled {
                Some(id) => {
                    &&& res.0 == ReceiverStatus::Ready
                    &&& final(self).requests() == old(self).requests().remove(id)
                    &&& res.1 == if old(self).requests().contains_key(id) {
                        Some(old(self).requests()[id])
                    } else {
                        None
                    }
                },
                None => {
                    &&& res.0 == ReceiverStatus::Closed
                    &&& res.1 is None
                    &&& final(self).requests() == old(self).requests()
                },
            },
    {
        match polled {
            Some(id) => {
                let d = self.in_flight_requests.remove_request(id);
                (ReceiverStatus::Ready, d)
            },
            None => (ReceiverStatus::Closed, None),
        }
    }

    /// Handles the polled deadline timer: an expired request is no longer tracked, and its data
    /// is handed back so that its handler can be aborted.
    pub fn on_expiration(&mut self, polled: ExpiryPoll) -> (res: (ReceiverStatus, Option<D>))
        ensures
            final(self).config_spec() == old(self).config_spec(),
            match polled {
                ExpiryPoll::Expired(id) => {
                    &&& res.0 == ReceiverStatus::Ready
                    &&& final(self).requests() == old(self).requests().remove(id)
                    &&& res.1 == if old(self).requests().contains_key(id) {
                        Some(old(self).requests()[id])
                    } else {
                        None
                    }
                },
                ExpiryPoll::Exhausted => {
                    &&& res.0 == ReceiverStatus::Closed
                    &&& res.1 is None
                    &&& final(self).requests() == old(self).requests()
                },
                ExpiryPoll::Pending => {
                    &&& res.0 == ReceiverStatus::Pending
                    &&& res.1 is None
                    &&& final(self).requests() == old(self).requests()
                },
            },
    {
        match polled {
            ExpiryPoll::Expired(id) => {
                let d = self.in_flight_requests.expire(id);
                (ReceiverStatus::Ready, d)
            },
            ExpiryPoll::Exhausted => (ReceiverStatus::Closed, None),
            ExpiryPoll::Pending => (ReceiverStatus::Pending, None),
        }
    }

    /// Handles a polled inbound message. A new request starts being tracked and is handed on;
    /// a request whose id is in flight is ignored (it is already being processed); a
    /// cancellation ends the request it names, if it is still in flight.
    pub fn on_inbound<Req>(&mut self, polled: InboundPoll<Req, D>) -> (res: InboundDecision<Req, D>)
        ensures
            final(self).config_spec() == old(self).config_spec(),
            match polled {
                InboundPoll::Request(request, data) => if old(self).requests().contains_key(
                    request.id,
                ) {
                    &&& res matches InboundDecision::Duplicate(r, d) && r == request && d == data
                    &&& final(self).requests() == old(self).requests()
                } else {
                    &&& res matches InboundDecision::Yield(r, g) && r == request && g == (
                    ResponseGuard { request_id: request.id, cancel: false })
                    &&& final(self).requests() == old(self).requests().insert(request.id, data)
                },
                InboundPoll::Cancel { request_id, .. } => {
                    &&& res matches InboundDecision::Status(s, d) && s == ReceiverStatus::Ready
                        && d == if old(self).requests().contains_key(request_id) {
                        Some(old(self).requests()[request_id])
                    } else {
                        None
                    }
                    &&& final(self).requests() == old(self).requests().remove(request_id)
                },
                InboundPoll::Closed => {
                    &&& res matches InboundDecision::Status(s, d) && s == ReceiverStatus::Closed
                        && d is None
                    &&& final(self).requests() == old(self).requests()
                },
                InboundPoll::Pending => {
                    &&& res matches InboundDecision::Status(s, d) && s == ReceiverStatus::Pending
                        && d is None
                    &&& final(self).requests() == old(self).requests()
                },
            },
    {
        match polled {
            InboundPoll::Request(request, data) => {
                match self.in_flight_requests.start_request(request.id, data) {
                    Ok(()) => {
                        let guard = ResponseGuard { request_id: request.id, cancel: false };
                        InboundDecision::Yield(request, guard)
                    },
                    Err((AlreadyExistsError, data)) => InboundDecision::Duplicate(request, data),
                }
            },
            InboundPoll::Cancel { request_id, .. } => {
                let d = self.in_flight_requests.cancel_request(request_id);
                InboundDecision::Status(ReceiverStatus::Ready, d)
            },
            InboundPoll::Closed => InboundDecision::Status(ReceiverStatus::Closed, None),
            InboundPoll::Pending => InboundDecision::Status(ReceiverStatus::Pending, None),
        }
    }

    /// Handles a response about to be sent: if its request is still tracked, tracking ends and
    /// the data is handed back (the response is then written); otherwise there is no need to
    /// send the response.
    pub fn start_send(&mut self, request_id: u64) -> (d: Option<D>)
        ensures
            final(self).config_spec() == old(self).config_spec(),
            final(self).requests() == old(self).requests().remove(request_id),
            d == if old(self).requests().contains_key(request_id) {
                Some(old(self).requests()[request_id])
            } else {
                None
            },
    {
        self.in_flight_requests.remove_request(request_id)
    }
}

/// The trace context a server gives a request it starts: the context of the span opened for it
/// when one could be obtained, otherwise a child of the client's context (same trace, same
/// sampling decision, fresh span).
pub fn server_trace_context(span_context: Option<trace::Context>, client: &trace::Context) -> (t:
    trace::Context)
    ensures
        span_context matches Some(s) ==> t == s,
        span_context is None ==> t.trace_id == client.trace_id && t.sampling_decision
            == client.sampling_decision && !t.span_id.is_none_spec(),
{
    match span_context {
        Some(s) => s,
        None => client.new_child(),
    }
}

/// The outcome of polling one half of a request stream.
#[derive(Clone, Copy, Debug, PartialEq, Eq, Structural)]
pub enum Polled {
    /// An item (a request read, or a response written).
    Item,
    /// The half is finished.
    Done,
    /// Nothing yet.
    Pending,
}

/// What a stream of requests does after pumping its read and write halves.
#[derive(Clone, Copy, Debug, PartialEq, Eq, Structural)]
pub enum RequestsStep {
    /// Both halves are finished; the stream ends.
    Finish,
    /// Hand the request that was read to the caller.
    YieldRequest,
    /// A response was written; pump again.
    Continue,
    /// Wait to be woken.
    Pending,
}

/// The decision of the request stream's poll loop.
pub fn requests_step(read: Polled, write: Polled) -> (step: RequestsStep)
    ensures
        step == if read == Polled::Done && write == Polled::Done {
            RequestsStep::Finish
        } else if read == Polled::Item {
            RequestsStep::YieldRequest
        } else if write == Polled::Item {
            RequestsStep::Continue
        } else {
            RequestsStep::Pending
        },
{
    match (read, write) {
        (Polled::Done, Polled::Done) => RequestsStep::Finish,
        (Polled::Item, _) => RequestsStep::YieldRequest,
        (_, Polled::Item) => RequestsStep::Continue,
        _ => RequestsStep::Pending,
    }
}

/// The write half with no response to write, after flushing: it is finished once the read half
/// is closed and no request is in flight, and otherwise waits.
pub fn pump_write_idle(read_half_closed: bool, in_flight_requests: usize) -> (p: Polled)
    ensures
        p == if read_half_closed && in_flight_requests == 0 {
            Polled::Done
        } else {
            Polled::Pending
        },
{
    if read_half_closed && in_flight_requests == 0 {
        Polled::Done
    } else {
        Polled::Pending
    }
}

/// A channel wrapper that limits the number of concurrent requests by answering requests beyond
/// the limit with an error.
#[derive(Debug)]
pub struct Throttler<C> {
    max_in_flight_requests: usize,
    inner: C,
}

/// The text of the error a throttled request is answered with.
pub open spec fn throttled_detail() -> Seq<char> {
    "Server throttled the request."@
}

impl<C> Throttler<C> {
    /// The configured limit.
    pub closed spec fn max(&self) -> usize {
        self.max_in_flight_requests
    }

    /// The wrapped channel.
    pub closed spec fn inner_spec(&self) -> C {
        self.inner
    }

    /// Wraps `inner`, limiting concurrent requests to `max_in_flight_requests`.
    pub fn new(inner: C, max_in_flight_requests: usize) -> (t: Throttler<C>)
        ensures
            t.max() == max_in_flight_requests,
            t.inner_spec() == inner,
    {
        Throttler { inner, max_in_flight_requests }
    }

    /// Returns the inner channel.
    pub fn get_ref(&self) -> (c: &C)
        ensures
            *c == self.inner_spec(),
    {
        &self.inner
    }

    /// Whether a request arriving while `in_flight_requests` are in flight is throttled.
    pub fn throttles(&self, in_flight_requests: usize) -> (b: bool)
        ensures
            b == (in_flight_requests >= self.max()),
    {
        in_flight_requests >= self.max_in_flight_requests
    }
}

/// The response that a throttled request gets: a `WouldBlock` error saying the server
/// throttled it.
pub fn throttled_response<Resp>(request_id: u64) -> (r: Response<Resp>)
    ensures
        r.request_id == request_id,
        r.message matches Err(e) && e.kind == ErrorKind::WouldBlock && e.detail@
            == throttled_detail(),
{
    proof {
        reveal_strlit("Server throttled the request.");
    }
    let detail = "Server throttled the request.".to_owned();
    Response { request_id, message: Err(ServerError { kind: ErrorKind::WouldBlock, detail }) }
}

/// What a throttled channel does with a request that arrives.
pub enum Throttled<Req, Resp> {
    /// The request is handed on to be served.
    Serve(Request<Req>),
    /// The request is refused; this response goes back at once.
    Refuse(Response<Resp>),
}

impl<C> Throttler<C> {
    /// Decides, for a request arriving while `in_flight_requests` are in flight, whether it is
    /// handed on or answered at once with the throttling error.
    pub fn throttle<Req, Resp>(&self, in_flight_requests: usize, request: Request<Req>) -> (t:
        Throttled<Req, Resp>)
        ensures
            in_flight_requests >= self.max() ==> (t matches Throttled::Refuse(r) && r.request_id
                == request.id && (r.message matches Err(e) && e.kind == ErrorKind::WouldBlock
                && e.detail@ == throttled_detail())),
            in_flight_requests < self.max() ==> t == Throttled::<Req, Resp>::Serve(request),
    {
        if self.throttles(in_flight_requests) {
            Throttled::Refuse(throttled_response(request.id))
        } else {
            Throttled::Serve(request)
        }
    }
}


/// The text that `humantime::format_rfc3339` renders `t` as (an RFC 3339 timestamp in UTC).
pub uninterp spec fn rfc3339_text(t: std::time::SystemTime) -> Seq<char>;

/// Whether `t` can be rendered as an RFC 3339 timestamp: it lies at or after the Unix epoch and
/// before the start of the year 10000 (253402300800 seconds after the epoch).
pub open spec fn rfc3339_formattable(t: std::time::SystemTime) -> bool {
    match system_time_since_epoch(t) {
        Some(d) => duration_nanos(d) < 253_402_300_800_000_000_000u128,
        None => false,
    }
}

/// Whether `t` can be rendered as an RFC 3339 timestamp.
pub fn is_rfc3339_formattable(t: std::time::SystemTime) -> (b: bool)
    ensures
        b == rfc3339_formattable(t),
{
    match since_epoch(t) {
        Some(d) => duration_as_nanos(d) < 253_402_300_800_000_000_000u128,
        None => false,
    }
}

/// Formats a wall-clock time as RFC 3339 with `humantime::format_rfc3339` and renders it to a
/// `String`; the text is named, not spelled out. The rendering panics for a time before the Unix
/// epoch and fails (so that `to_string` panics) from the year 10000 on; `requires` leaves both
/// out.
#[verifier::external_body]
fn format_rfc3339(t: std::time::SystemTime) -> (s: String)
    requires
        rfc3339_formattable(t),
    ensures
        s@ == rfc3339_text(t),
{
    humantime::format_rfc3339(t).to_string()
}

/// The text before the deadline in the error of a response that missed its deadline.
pub open spec fn deadline_prefix() -> Seq<char> {
    "Response did not complete before deadline of "@
}

/// The message a handler's outcome is sent back as: its output, or, when the deadline passed
/// before the handler completed (`None`), a `TimedOut` error naming the deadline. Naming the
/// deadline needs it to be renderable as a timestamp.
pub fn response_message<R>(outcome: Option<R>, deadline: std::time::SystemTime) -> (m: Result<
    R,
    ServerError,
>)
    requires
        outcome is None ==> rfc3339_formattable(deadline),
    ensures
        outcome matches Some(r) ==> m == Ok::<R, ServerError>(r),
        outcome is None ==> (m matches Err(e) && e.kind == ErrorKind::TimedOut && e.detail@
            == deadline_prefix() + rfc3339_text(deadline) + "s."@),
{
    match outcome {
        Some(r) => Ok(r),
        None => {
            proof {
                reveal_strlit("Response did not complete before deadline of ");
                reveal_strlit("s.");
            }
            let mut detail = "Response did not complete before deadline of ".to_owned();
            let when = format_rfc3339(deadline);
            push_str(&mut detail, when.as_str());
            push_str(&mut detail, "s.");
            Err(ServerError { kind: ErrorKind::TimedOut, detail })
        },
    }
}

/// The message a handler's outcome is sent back as, as [`response_message`] builds it, or `None`
/// when the deadline passed and cannot be rendered as a timestamp.
pub fn try_response_message<R>(outcome: Option<R>, deadline: std::time::SystemTime) -> (m: Option<
    Result<R, ServerError>,
>)
    ensures
        outcome matches Some(r) ==> m == Some(Ok::<R, ServerError>(r)),
        outcome is None && rfc3339_formattable(deadline) ==> (m matches Some(Err(e)) && e.kind
            == ErrorKind::TimedOut && e.detail@ == deadline_prefix() + rfc3339_text(deadline)
            + "s."@),
        outcome is None && !rfc3339_formattable(deadline) ==> m is None,
{
    if outcome.is_none() && !is_rfc3339_formattable(deadline) {
        None
    } else {
        Some(response_message(outcome, deadline))
    }
}

/// The stages of delivering one response to the channel.
#[derive(Clone, Copy, Debug, PartialEq, Eq, Structural)]
pub enum RespState {
    /// Waiting for the handler's outcome.
    PollResp,
    /// Waiting for room to send the response.
    PollReady,
    /// Waiting for the response to be flushed.
    PollFlush,
    /// Finished.
    Done,
}

/// The stage after the current stage's wait ends; `ok` says whether the sending side accepted
/// (it is not looked at while waiting for the handler). A refused send ends delivery, since the
/// channel is gone.
pub fn resp_advance(state: RespState, ok: bool) -> (next: RespState)
    ensures
        next == match state {
            RespState::PollResp => RespState::PollReady,
            RespState::PollReady => if ok {
                RespState::PollFlush
            } else {
                RespState::Done
            },
            RespState::PollFlush => RespState::Done,
            RespState::Done => RespState::Done,
        },
{
    match state {
        RespState::PollResp => RespState::PollReady,
        RespState::PollReady => {
            if ok {
                RespState::PollFlush
            } else {
                RespState::Done
            }
        },
        RespState::PollFlush => RespState::Done,
        RespState::Done => RespState::Done,
    }
}

} // verus!
