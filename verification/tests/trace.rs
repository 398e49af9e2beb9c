use tarpc::trace::u128_serde::{deserialize, serialize};
use tarpc::trace::{Context, SamplingDecision, SpanId, TraceId};

#[test]
fn random_ids_are_never_none() {
    for _ in 0..100 {
        assert!(!TraceId::random().is_none());
        assert!(!SpanId::random().is_none());
    }
}

#[test]
fn zero_ids_are_none() {
    assert!(TraceId(0).is_none());
    assert!(SpanId(0).is_none());
    assert!(!TraceId(1).is_none());
    assert!(!SpanId(u64::MAX).is_none());
    assert_eq!(TraceId::default(), TraceId(0));
    assert_eq!(SpanId::default(), SpanId(0));
}

#[test]
fn default_context_is_unsampled_and_empty() {
    let c = Context::default();
    assert_eq!(c.trace_id, TraceId(0));
    assert_eq!(c.span_id, SpanId(0));
    assert_eq!(c.sampling_decision, SamplingDecision::Unsampled);
    assert_eq!(SamplingDecision::default(), SamplingDecision::Unsampled);
}

#[test]
fn new_child_keeps_trace_and_sampling() {
    let parent = Context {
        trace_id: TraceId(99),
        span_id: SpanId(3),
        sampling_decision: SamplingDecision::Sampled,
    };
    let child = parent.new_child();
    assert_eq!(child.trace_id, TraceId(99));
    assert_eq!(child.sampling_decision, SamplingDecision::Sampled);
    assert!(!child.span_id.is_none());
}

#[test]
fn ids_convert_to_and_from_integers() {
    assert_eq!(u128::from(TraceId(5)), 5);
    assert_eq!(TraceId::from(6u128), TraceId(6));
    assert_eq!(u64::from(SpanId(7)), 7);
    assert_eq!(SpanId::from(8u64), SpanId(8));
}

#[test]
fn trace_id_serializes_as_sixteen_little_endian_bytes() {
    let u = 0x0f0e0d0c0b0a09080706050403020100u128;
    let bytes = serialize(&u);
    assert_eq!(bytes, [0, 1, 2, 3, 4, 5, 6, 7, 8, 9, 10, 11, 12, 13, 14, 15]);
    assert_eq!(bytes, u.to_le_bytes());
    assert_eq!(deserialize(&bytes), u);
}

#[test]
fn trace_id_serialization_roundtrips() {
    for u in [0u128, 1, u128::MAX, 1 << 64, 0xdead_beef << 77] {
        assert_eq!(deserialize(&serialize(&u)), u);
    }
}

#[test]
fn ids_display_as_lowercase_hex_at_least_two_digits() {
    for u in [0u128, 5, 15, 16, 255, 0xabcdef, u128::MAX] {
        assert_eq!(TraceId(u).to_hex_string(), format!("{:02x}", u));
    }
    for u in [0u64, 9, 0x1f, u64::MAX] {
        assert_eq!(SpanId(u).to_hex_string(), format!("{:02x}", u));
    }
    assert_eq!(TraceId(10).to_hex_string(), "0a");
}
