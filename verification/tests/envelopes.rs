use std::time::{Duration, Instant};
use tarpc::context::absolute_to_relative_time;
use tarpc::context::{
    deadline_after, ten_seconds_from_now, DefaultContext, ExtractContext, UpdateContext,
};
use tarpc::serde_transport::fory_envelope::{
    deadline_nanos_left, saturate_nanos, ForyClientMessage, ForyRequest, ForyResponse, ForyResult,
    ForyServerError, ForyTraceContext,
};
use tarpc::trace::{Context, SamplingDecision, SpanId, TraceId};
use tarpc::{ClientMessage, ErrorKind, Request, RequestName, Response, ServerError};

fn trace() -> Context {
    Context {
        trace_id: TraceId(0x1234),
        span_id: SpanId(0x56),
        sampling_decision: SamplingDecision::Sampled,
    }
}

#[test]
fn test_serialize() {
    let now = Instant::now();
    let deadline = now + Duration::from_secs(10);
    let deserialized_deadline = absolute_to_relative_time::serialize(&deadline);
    assert!(deserialized_deadline > Duration::from_secs(9));
}

#[test]
fn test_deserialize() {
    let deadline = Duration::from_secs(10);
    let deserialized_deadline = absolute_to_relative_time::deserialize(deadline);
    assert!(deserialized_deadline > Instant::now() + Duration::from_secs(9));
}

#[test]
fn past_deadline_serializes_as_zero() {
    let past = Instant::now();
    let mut now = Instant::now();
    while now == past {
        now = Instant::now();
    }
    assert_eq!(absolute_to_relative_time::serialize(&past), Duration::ZERO);
}

#[test]
fn deadline_after_adds_whole_seconds() {
    let now = Instant::now();
    assert_eq!(deadline_after(now, 10), now + Duration::from_secs(10));
    assert_eq!(deadline_after(now, 0), now);
}

#[test]
fn default_deadline_is_ten_seconds_out() {
    let before = Instant::now();
    let d = ten_seconds_from_now();
    let after = Instant::now();
    assert!(d >= before + Duration::from_secs(10));
    assert!(d <= after + Duration::from_secs(10));
}

#[test]
fn context_from_span_parts_uses_what_the_span_carries() {
    let deadline = Instant::now() + Duration::from_secs(3);
    let c = DefaultContext::from_span_parts(Some(trace()), Some(deadline));
    assert_eq!(c.trace_context, trace());
    assert_eq!(c.deadline, deadline);
    assert_eq!(c.trace_id(), &TraceId(0x1234));
    let d = DefaultContext::from_span_parts(None, None);
    assert_eq!(d.trace_context, Context::default());
    assert!(d.deadline > Instant::now() + Duration::from_secs(9));
}

#[test]
fn server_error_new_keeps_kind_and_detail() {
    let e = ServerError::new(ErrorKind::NotFound, "gone".to_string());
    assert_eq!(e.kind, ErrorKind::NotFound);
    assert_eq!(e.detail, "gone");
    let c = e.clone();
    assert_eq!(c.kind, ErrorKind::NotFound);
    assert_eq!(c.detail, "gone");
}

#[test]
fn request_deadline_is_the_context_deadline() {
    let deadline = Instant::now() + Duration::from_secs(1);
    let req = Request {
        context: DefaultContext { deadline, trace_context: trace() },
        id: 4,
        message: (),
    };
    assert_eq!(req.deadline(), &deadline);
}

#[test]
fn trace_context_mirror_roundtrips() {
    let f = ForyTraceContext::from_trace(&trace());
    assert_eq!(f, ForyTraceContext { trace_id: 0x1234, span_id: 0x56, sampling: 1 });
    assert_eq!(f.to_trace(), trace());
    let unsampled = Context { sampling_decision: SamplingDecision::Unsampled, ..trace() };
    assert_eq!(ForyTraceContext::from_trace(&unsampled).sampling, 0);
    let odd = ForyTraceContext { trace_id: 0, span_id: 0, sampling: 7 };
    assert_eq!(odd.to_trace().sampling_decision, SamplingDecision::Unsampled);
}

#[test]
fn server_error_mirror_uses_wire_codes() {
    let se = ServerError::new(ErrorKind::TimedOut, "late".to_string());
    let f = ForyServerError::from_server_error(&se);
    assert_eq!(f.kind, 13);
    assert_eq!(f.detail, "late");
    let back = f.to_server_error();
    assert_eq!(back.kind, ErrorKind::TimedOut);
    assert_eq!(back.detail, "late");
    let unknown = ForyServerError { kind: 99, detail: String::new() };
    assert_eq!(unknown.to_server_error().kind, ErrorKind::Other);
}

#[test]
fn result_mirror_roundtrips() {
    match ForyResult::from_result(Ok::<u8, ServerError>(3)) {
        ForyResult::Success(v) => assert_eq!(v, 3),
        ForyResult::Failure(_) => panic!("expected success"),
    }
    let f = ForyResult::<u8>::from_result(Err(ServerError::new(ErrorKind::WouldBlock, "busy".into())));
    let e = f.to_result().unwrap_err();
    assert_eq!(e.kind, ErrorKind::WouldBlock);
    assert_eq!(e.detail, "busy");
}

#[test]
fn response_mirror_roundtrips() {
    let resp = Response { request_id: 8, message: Ok::<String, ServerError>("body".to_string()) };
    let f = ForyResponse::from_response(&resp);
    assert_eq!(f.request_id, 8);
    let back = f.to_response();
    assert_eq!(back.request_id, 8);
    assert_eq!(back.message.unwrap(), "body");
}

#[test]
fn request_mirror_carries_the_time_left() {
    let req = Request {
        context: DefaultContext {
            deadline: Instant::now() + Duration::from_secs(10),
            trace_context: trace(),
        },
        id: 21,
        message: "m".to_string(),
    };
    let f = ForyRequest::from_request(&req);
    assert_eq!(f.id, 21);
    assert_eq!(f.message, "m");
    assert!(f.deadline_ns > 9_000_000_000 && f.deadline_ns <= 10_000_000_000);
    let back = f.to_request();
    assert_eq!(back.id, 21);
    assert_eq!(back.context.trace_context, trace());
    assert!(back.context.deadline > Instant::now() + Duration::from_secs(9));
}

#[test]
fn expired_deadline_travels_as_zero() {
    let now = Instant::now();
    let later = now + Duration::from_secs(1);
    assert_eq!(deadline_nanos_left(now, later), 0);
    assert_eq!(deadline_nanos_left(later, now), 1_000_000_000);
}

#[test]
fn nanos_saturate_at_u64_max() {
    assert_eq!(saturate_nanos(5), 5);
    assert_eq!(saturate_nanos(u64::MAX as u128), u64::MAX);
    assert_eq!(saturate_nanos(u64::MAX as u128 + 1), u64::MAX);
    assert_eq!(saturate_nanos(u128::MAX), u64::MAX);
}

#[test]
fn client_message_mirror_roundtrips() {
    let cancel = ClientMessage::<u8>::Cancel { trace_context: trace(), request_id: 2 };
    match ForyClientMessage::from_client_message(&cancel).to_client_message() {
        ClientMessage::Cancel { trace_context, request_id } => {
            assert_eq!(trace_context, trace());
            assert_eq!(request_id, 2);
        }
        ClientMessage::Request(_) => panic!("expected a cancel"),
    }
    let req = ClientMessage::Request(Request {
        context: DefaultContext { deadline: Instant::now(), trace_context: trace() },
        id: 1,
        message: 9u8,
    });
    match ForyClientMessage::from_client_message(&req).to_client_message() {
        ClientMessage::Request(r) => {
            assert_eq!(r.id, 1);
            assert_eq!(r.message, 9);
        }
        ClientMessage::Cancel { .. } => panic!("expected a request"),
    }
}

#[test]
fn extracting_after_an_update_gives_back_the_update() {
    let mut c = DefaultContext::from_span_parts(None, None);
    let v = DefaultContext { deadline: Instant::now(), trace_context: trace() };
    c.update(v);
    let e: DefaultContext = c.extract();
    assert_eq!(e.trace_context, trace());
    assert_eq!(e.deadline, v.deadline);
}

#[test]
fn shared_and_boxed_requests_keep_the_inner_name() {
    assert_eq!(std::sync::Arc::new(7u64).name(), "u64");
    assert_eq!(Box::new('x').name(), "char");
    assert_eq!(Box::new(std::sync::Arc::new(String::new())).name(), "string");
    assert_eq!(().name(), "unit");
}
