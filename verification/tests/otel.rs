use std::time::{Duration, Instant};
use tarpc::context::{self, DefaultContext};
use tarpc::trace::otel::{remote_parent, span_deadline};
use tarpc::trace::{Context, NoActiveSpan, SamplingDecision, SpanId, TraceId};

fn trace() -> Context {
    Context {
        trace_id: TraceId(0x0102030405060708090a0b0c0d0e0f10),
        span_id: SpanId(0x1112131415161718),
        sampling_decision: SamplingDecision::Sampled,
    }
}

#[test]
fn trace_id_matches_opentelemetry_big_endian_bytes() {
    let bytes = [1, 2, 3, 4, 5, 6, 7, 8, 9, 10, 11, 12, 13, 14, 15, 16];
    let otel = opentelemetry::trace::TraceId::from_bytes(bytes);
    assert_eq!(TraceId::from_otel(otel), TraceId(0x0102030405060708090a0b0c0d0e0f10));
    assert_eq!(TraceId(0x0102030405060708090a0b0c0d0e0f10).to_otel().to_bytes(), bytes);
}

#[test]
fn span_id_matches_opentelemetry_big_endian_bytes() {
    let bytes = [0x11, 0x12, 0x13, 0x14, 0x15, 0x16, 0x17, 0x18];
    let otel = opentelemetry::trace::SpanId::from_bytes(bytes);
    assert_eq!(SpanId::from_otel(otel), SpanId(0x1112131415161718));
    assert_eq!(SpanId(0x1112131415161718).to_otel().to_bytes(), bytes);
}

#[test]
fn ids_roundtrip_through_opentelemetry() {
    for u in [0u128, 1, u128::MAX, 0xfeed << 64] {
        assert_eq!(TraceId::from_otel(TraceId(u).to_otel()), TraceId(u));
    }
    for u in [0u64, 1, u64::MAX] {
        assert_eq!(SpanId::from_otel(SpanId(u).to_otel()), SpanId(u));
    }
}

#[test]
fn sampling_decision_maps_to_the_sampled_flag() {
    assert!(SamplingDecision::Sampled.to_trace_flags().is_sampled());
    assert!(!SamplingDecision::Unsampled.to_trace_flags().is_sampled());
}

#[test]
fn remote_parent_reads_back_its_trace_context_and_deadline() {
    let deadline = Instant::now() + Duration::from_secs(5);
    let cx = remote_parent(&trace(), deadline);
    assert_eq!(Context::try_from_otel(&cx).ok(), Some(trace()));
    let unsampled = Context { sampling_decision: SamplingDecision::Unsampled, ..trace() };
    let cx2 = remote_parent(&unsampled, deadline);
    assert_eq!(Context::try_from_otel(&cx2).ok(), Some(unsampled));
}

#[test]
fn empty_opentelemetry_context_has_no_active_span() {
    let cx = opentelemetry::Context::new();
    assert!(matches!(Context::try_from_otel(&cx), Err(NoActiveSpan)));
}

#[test]
fn current_context_outside_a_request_is_the_default() {
    let before = Instant::now();
    let c = context::current();
    assert_eq!(c.trace_context, Context::default());
    assert!(c.deadline >= before + Duration::from_secs(10));
    let d = DefaultContext::current();
    assert_eq!(d.trace_context, Context::default());
    let span = tracing::Span::none();
    assert!(matches!(Context::try_from_span(&span), Err(NoActiveSpan)));
    assert_eq!(span_deadline(&span), None);
}
