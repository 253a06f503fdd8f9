use native_notify::{CorrelationId, SpanId, TraceContext, TraceId};

fn header_value<'a>(headers: &'a [(String, String)], key: &str) -> Option<&'a String> {
    headers.iter().find(|(k, _)| k == key).map(|(_, v)| v)
}

#[test]
fn test_trace_context_headers() {
    let trace_context = TraceContext {
        trace_id: TraceId::generate(),
        span_id: SpanId::generate(),
        correlation_id: CorrelationId::generate(),
        sampling_decision: true,
    };

    let headers = trace_context.to_http_headers();
    assert!(header_value(&headers, "X-Trace-Id").is_some());
    assert!(header_value(&headers, "X-Span-Id").is_some());
    assert!(header_value(&headers, "X-Correlation-Id").is_some());
    assert!(header_value(&headers, "X-Sampling-Decision").is_some());

    let reconstructed = TraceContext::from_http_headers(&headers);
    assert!(reconstructed.is_some());
}

#[test]
fn test_trace_context_roundtrip_values() {
    let trace_context = TraceContext {
        trace_id: TraceId::from_u128(0xdeadbeef),
        span_id: SpanId::from_u64(0x1234),
        correlation_id: CorrelationId::from_string("corr-1".to_string()),
        sampling_decision: false,
    };
    let headers = trace_context.to_http_headers();
    assert_eq!(header_value(&headers, "X-Trace-Id").unwrap(), "deadbeef");
    assert_eq!(header_value(&headers, "X-Span-Id").unwrap(), "1234");
    let back = TraceContext::from_http_headers(&headers).unwrap();
    assert_eq!(back.trace_id, TraceId::from_u128(0xdeadbeef));
    assert_eq!(back.span_id, SpanId::from_u64(0x1234));
    assert_eq!(back.correlation_id.as_str(), "corr-1");
    assert!(!back.sampling_decision);
}
