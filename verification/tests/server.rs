use tarpc::server::in_flight_requests::InFlightRequests;
use tarpc::server::{
    next_step, pump_write_idle, requests_step, resp_advance, response_message,
    server_trace_context, throttled_response, ChannelCore, Config, ExpiryPoll, InboundDecision,
    InboundPoll, PollStep, Polled, ReceiverStatus, RequestsStep, RespState, ResponseGuard,
    Throttled, Throttler,
};
use tarpc::trace::{Context, SamplingDecision, SpanId, TraceId};
use tarpc::{ErrorKind, Request};
use std::time::{Duration, Instant, SystemTime, UNIX_EPOCH};

fn request(id: u64) -> Request<&'static str> {
    Request {
        context: tarpc::context::DefaultContext {
            deadline: Instant::now() + Duration::from_secs(10),
            trace_context: Context {
                trace_id: TraceId(1),
                span_id: SpanId(2),
                sampling_decision: SamplingDecision::Sampled,
            },
        },
        id,
        message: "hello",
    }
}

#[test]
fn start_request_increases_len() {
    let mut in_flight_requests: InFlightRequests<()> = InFlightRequests::new();
    assert_eq!(in_flight_requests.len(), 0);
    in_flight_requests.start_request(0, ()).unwrap();
    assert_eq!(in_flight_requests.len(), 1);
}

#[test]
fn cancel_request_aborts() {
    let mut in_flight_requests = InFlightRequests::new();
    assert!(in_flight_requests.start_request(0, "abort handle").is_ok());
    assert_eq!(in_flight_requests.cancel_request(0), Some("abort handle"));
    assert_eq!(in_flight_requests.len(), 0);
}

#[test]
fn remove_request_doesnt_abort() {
    let mut in_flight_requests = InFlightRequests::new();
    assert!(in_flight_requests.start_request(0, "abort handle").is_ok());
    assert!(in_flight_requests.contains(0));
    assert_eq!(in_flight_requests.remove_request(0), Some("abort handle"));
    assert_eq!(in_flight_requests.remove_request(0), None);
    assert_eq!(in_flight_requests.cancel_request(0), None);
    assert_eq!(in_flight_requests.len(), 0);
}

#[test]
fn polling_expired_aborts() {
    let mut in_flight_requests = InFlightRequests::new();
    assert!(in_flight_requests.start_request(0, 7u8).is_ok());
    assert_eq!(in_flight_requests.expire(0), Some(7));
    assert_eq!(in_flight_requests.len(), 0);
}

#[test]
fn starting_a_duplicate_request_hands_back_its_data() {
    let mut in_flight_requests = InFlightRequests::new();
    assert!(in_flight_requests.start_request(3, 'a').is_ok());
    match in_flight_requests.start_request(3, 'b') {
        Err((_, d)) => assert_eq!(d, 'b'),
        Ok(()) => panic!("duplicate accepted"),
    }
    assert_eq!(in_flight_requests.remove_request(3), Some('a'));
}

#[test]
fn receiver_status_combine_table() {
    let (ready, pending, closed) =
        (ReceiverStatus::Ready, ReceiverStatus::Pending, ReceiverStatus::Closed);
    let all = [ready, pending, closed];
    for a in all {
        for b in all {
            let expected = if a == ready || b == ready {
                ready
            } else if a == closed && b == closed {
                closed
            } else {
                pending
            };
            assert_eq!(a.combine(b), expected);
            assert_eq!(a.combine(b), b.combine(a));
        }
        assert_eq!(a.combine(closed), a);
    }
}

#[test]
fn next_step_follows_the_status() {
    assert_eq!(next_step(ReceiverStatus::Ready), PollStep::Continue);
    assert_eq!(next_step(ReceiverStatus::Closed), PollStep::Closed);
    assert_eq!(next_step(ReceiverStatus::Pending), PollStep::Pending);
}

#[test]
fn default_config_buffers_one_hundred_responses() {
    let config = Config::default();
    assert_eq!(config.pending_response_buffer, 100);
    let core: ChannelCore<()> = ChannelCore::new(config);
    assert_eq!(core.config().pending_response_buffer, 100);
    assert_eq!(core.in_flight_requests(), 0);
}

#[test]
fn base_channel_start_send_duplicate_request_returns_error() {
    let mut core = ChannelCore::new(Config::default());
    match core.on_inbound(InboundPoll::Request(request(0), "first")) {
        InboundDecision::Yield(r, g) => {
            assert_eq!(r.id, 0);
            assert_eq!(g, ResponseGuard { request_id: 0, cancel: false });
        }
        _ => panic!("expected the request"),
    }
    match core.on_inbound(InboundPoll::Request(request(0), "second")) {
        InboundDecision::Duplicate(r, d) => {
            assert_eq!(r.id, 0);
            assert_eq!(d, "second");
        }
        _ => panic!("expected a duplicate"),
    }
    assert_eq!(core.in_flight_requests(), 1);
}

#[test]
fn base_channel_poll_next_aborts_canceled_request() {
    let mut core = ChannelCore::new(Config::default());
    assert!(matches!(
        core.on_inbound(InboundPoll::Request(request(0), "handle")),
        InboundDecision::Yield(..)
    ));
    let cancel: InboundPoll<&str, &str> = InboundPoll::Cancel {
        trace_context: request(0).context.trace_context,
        request_id: 0,
    };
    match core.on_inbound(cancel) {
        InboundDecision::Status(s, d) => {
            assert_eq!(s, ReceiverStatus::Ready);
            assert_eq!(d, Some("handle"));
        }
        _ => panic!("expected a status"),
    }
    assert_eq!(core.in_flight_requests(), 0);
}

#[test]
fn base_channel_poll_next_aborts_multiple_requests() {
    let mut core = ChannelCore::new(Config::default());
    for id in 0..2 {
        assert!(matches!(
            core.on_inbound(InboundPoll::Request(request(id), id)),
            InboundDecision::Yield(..)
        ));
    }
    // Both deadlines pass: each expiry hands back the request's data so that its handler is
    // aborted, and the loop goes on.
    let (s0, d0) = core.on_expiration(ExpiryPoll::Expired(0));
    assert_eq!(next_step(s0), PollStep::Continue);
    assert_eq!(d0, Some(0));
    let (s1, d1) = core.on_expiration(ExpiryPoll::Expired(1));
    assert_eq!(next_step(s1), PollStep::Continue);
    assert_eq!(d1, Some(1));
    // Then nothing is left to expire, no cancellation arrives and the transport has nothing:
    // the poll ends pending.
    let cancellations = core.on_cancellation(None).0;
    let expirations = core.on_expiration(ExpiryPoll::Exhausted).0;
    let inbound = match core.on_inbound::<&str>(InboundPoll::Pending) {
        InboundDecision::Status(s, None) => s,
        _ => panic!("expected a status"),
    };
    assert_eq!(next_step(cancellations.combine(expirations).combine(inbound)), PollStep::Pending);
    assert_eq!(core.in_flight_requests(), 0);
}

#[test]
fn base_channel_with_closed_transport_and_no_in_flight_requests_returns_closed() {
    let mut core: ChannelCore<()> = ChannelCore::new(Config::default());
    let closed = match core.on_inbound::<&str>(InboundPoll::Closed) {
        InboundDecision::Status(s, None) => s,
        _ => panic!("expected a status"),
    };
    let cancellations = core.on_cancellation(None).0;
    let expirations = core.on_expiration(ExpiryPoll::Exhausted).0;
    let status = closed.combine(cancellations).combine(expirations);
    assert_eq!(next_step(status), PollStep::Closed);
}

#[test]
fn base_channel_with_closed_transport_and_in_flight_request_returns_pending() {
    let mut core = ChannelCore::new(Config::default());
    assert!(matches!(
        core.on_inbound(InboundPoll::Request(request(0), ())),
        InboundDecision::Yield(..)
    ));
    let closed = match core.on_inbound::<&str>(InboundPoll::Closed) {
        InboundDecision::Status(s, _) => s,
        _ => panic!("expected a status"),
    };
    let expirations = core.on_expiration(ExpiryPoll::Pending).0;
    let cancellations = core.on_cancellation(None).0;
    assert_eq!(next_step(closed.combine(expirations).combine(cancellations)), PollStep::Pending);
}

#[test]
fn base_channel_start_send_removes_in_flight_request() {
    let mut core = ChannelCore::new(Config::default());
    assert!(matches!(
        core.on_inbound(InboundPoll::Request(request(0), "span")),
        InboundDecision::Yield(..)
    ));
    assert_eq!(core.in_flight_requests(), 1);
    assert_eq!(core.start_send(0), Some("span"));
    assert_eq!(core.in_flight_requests(), 0);
    assert_eq!(core.start_send(0), None);
}

#[test]
fn cancellation_of_unknown_request_is_ready_with_nothing() {
    let mut core: ChannelCore<u8> = ChannelCore::new(Config::default());
    assert_eq!(core.on_cancellation(Some(5)), (ReceiverStatus::Ready, None));
    assert_eq!(core.on_cancellation(None), (ReceiverStatus::Closed, None));
}

#[test]
fn server_span_inherits_trace_and_sampling() {
    let client = Context {
        trace_id: TraceId(77),
        span_id: SpanId(5),
        sampling_decision: SamplingDecision::Unsampled,
    };
    let own = server_trace_context(None, &client);
    assert_eq!(own.trace_id, TraceId(77));
    assert_eq!(own.sampling_decision, SamplingDecision::Unsampled);
    assert!(!own.span_id.is_none());
    let given = Context { trace_id: TraceId(1), span_id: SpanId(1), sampling_decision: SamplingDecision::Sampled };
    assert_eq!(server_trace_context(Some(given), &client), given);
}

#[test]
fn requests_step_table() {
    let (item, done, pending) = (Polled::Item, Polled::Done, Polled::Pending);
    assert_eq!(requests_step(done, done), RequestsStep::Finish);
    assert_eq!(requests_step(item, done), RequestsStep::YieldRequest);
    assert_eq!(requests_step(item, item), RequestsStep::YieldRequest);
    assert_eq!(requests_step(pending, item), RequestsStep::Continue);
    assert_eq!(requests_step(done, item), RequestsStep::Continue);
    assert_eq!(requests_step(pending, pending), RequestsStep::Pending);
    assert_eq!(requests_step(done, pending), RequestsStep::Pending);
}

#[test]
fn requests_pump_write_idle_finishes_only_when_read_closed_and_nothing_in_flight() {
    assert_eq!(pump_write_idle(true, 0), Polled::Done);
    assert_eq!(pump_write_idle(true, 1), Polled::Pending);
    assert_eq!(pump_write_idle(false, 0), Polled::Pending);
}

#[test]
fn throttler_throttles_at_the_limit() {
    let t = Throttler::new("channel", 2);
    assert_eq!(t.get_ref(), &"channel");
    assert!(!t.throttles(0));
    assert!(!t.throttles(1));
    assert!(t.throttles(2));
    assert!(t.throttles(3));
    let none = Throttler::new((), 0);
    assert!(none.throttles(0));
}

#[test]
fn throttled_response_is_would_block() {
    let r = throttled_response::<u32>(12);
    assert_eq!(r.request_id, 12);
    let e = r.message.unwrap_err();
    assert_eq!(e.kind, ErrorKind::WouldBlock);
    assert_eq!(e.detail, "Server throttled the request.");
}

#[test]
fn response_message_passes_output_through() {
    assert_eq!(response_message(Some(5), SystemTime::now()).ok(), Some(5));
}

#[test]
fn response_message_times_out_with_the_deadline() {
    let deadline = UNIX_EPOCH + Duration::from_secs(1_000_000_000);
    let e = response_message::<u8>(None, deadline).unwrap_err();
    assert_eq!(e.kind, ErrorKind::TimedOut);
    assert_eq!(
        e.detail,
        "Response did not complete before deadline of 2001-09-09T01:46:40Zs."
    );
}

#[test]
fn resp_advance_runs_through_the_stages() {
    assert_eq!(resp_advance(RespState::PollResp, false), RespState::PollReady);
    assert_eq!(resp_advance(RespState::PollReady, true), RespState::PollFlush);
    assert_eq!(resp_advance(RespState::PollReady, false), RespState::Done);
    assert_eq!(resp_advance(RespState::PollFlush, true), RespState::Done);
    assert_eq!(resp_advance(RespState::Done, true), RespState::Done);
}

#[test]
fn throttler_poll_next_throttled() {
    let throttler = Throttler::new((), 0);
    assert!(throttler.throttles(0));
    let resp = throttled_response::<isize>(1);
    assert_eq!(resp.request_id, 1);
    assert!(resp.message.is_err());
}

#[test]
fn throttler_poll_next_some() {
    let throttler = Throttler::new((), 1);
    assert!(!throttler.throttles(0));
}

#[test]
fn deadlines_outside_the_rfc3339_range_cannot_be_named() {
    let before_epoch = UNIX_EPOCH - Duration::from_secs(1);
    let year_10000 = UNIX_EPOCH + Duration::from_secs(253_402_300_800);
    let last_second = UNIX_EPOCH + Duration::from_secs(253_402_300_799);
    assert!(!tarpc::server::is_rfc3339_formattable(before_epoch));
    assert!(!tarpc::server::is_rfc3339_formattable(year_10000));
    assert!(tarpc::server::is_rfc3339_formattable(last_second));
    assert!(tarpc::server::is_rfc3339_formattable(UNIX_EPOCH));
    assert!(tarpc::server::try_response_message::<u8>(None, before_epoch).is_none());
    assert!(tarpc::server::try_response_message::<u8>(None, year_10000).is_none());
    assert_eq!(tarpc::server::try_response_message(Some(3u8), before_epoch), Some(Ok(3)));
    let e = tarpc::server::try_response_message::<u8>(None, UNIX_EPOCH).unwrap().unwrap_err();
    assert_eq!(e.detail, "Response did not complete before deadline of 1970-01-01T00:00:00Zs.");
}

#[test]
fn throttler_refuses_at_the_limit_and_serves_below_it() {
    let throttler = Throttler::new((), 2);
    match throttler.throttle::<&'static str, ()>(2, request(7)) {
        Throttled::Refuse(r) => {
            assert_eq!(r.request_id, 7);
            let e = r.message.unwrap_err();
            assert_eq!(e.kind, ErrorKind::WouldBlock);
            assert_eq!(e.detail, "Server throttled the request.");
        }
        Throttled::Serve(_) => panic!("a request at the limit is refused"),
    }
    match throttler.throttle::<&'static str, ()>(1, request(8)) {
        Throttled::Serve(r) => {
            assert_eq!(r.id, 8);
            assert_eq!(r.message, "hello");
        }
        Throttled::Refuse(_) => panic!("a request below the limit is served"),
    }
}

#[test]
fn channel_core_start_adds_one_in_flight() {
    let mut core: ChannelCore<u8> = ChannelCore::new(Config::default());
    assert_eq!(core.in_flight_requests(), 0);
    let decision = core.on_inbound(InboundPoll::Request(request(3), 9u8));
    match decision {
        InboundDecision::Yield(r, g) => {
            assert_eq!(r.id, 3);
            assert_eq!(g, ResponseGuard { request_id: 3, cancel: false });
        }
        _ => panic!("a new request is yielded"),
    }
    assert_eq!(core.in_flight_requests(), 1);
}
