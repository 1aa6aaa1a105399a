use hpx::middleware::{parse_trace, parse_trace_with};
use hpx::request::RequestHead;
use hpx::tracing::{
    parse_id_u128, parse_id_u64, sampling_value, service_name, set_tracing_header, HeaderLine,
    Tracing, X_PARENT_ID, X_SAMPLING, X_SPAN_ID, X_TRACE_ID,
};

fn bytes(text: &str) -> Option<Vec<u8>> {
    Some(text.as_bytes().to_vec())
}

fn fresh() -> Tracing {
    Tracing { trace_id: 1000, span_id: 2000, parent_id: None }
}

#[test]
fn header_names_are_the_known_ones() {
    assert_eq!(X_SAMPLING, "x-sampling");
    assert_eq!(X_TRACE_ID, "x-trace-id");
    assert_eq!(X_SPAN_ID, "x-span-id");
    assert_eq!(X_PARENT_ID, "x-parent-id");
}

#[test]
fn trace_is_read_from_its_headers() {
    let mut head = RequestHead::new("/".to_string());
    head.trace_id = bytes("123");
    head.span_id = bytes("456");
    head.parent_id = bytes("789");
    let trace = parse_trace(&head);
    assert_eq!(trace, Tracing { trace_id: 123, span_id: 456, parent_id: Some(789) });
}

#[test]
fn request_without_headers_gets_fresh_identifiers() {
    let head = RequestHead::new("/".to_string());
    for _ in 0..100 {
        let trace = parse_trace(&head);
        assert_ne!(trace.trace_id, 0);
        assert_ne!(trace.span_id, 0);
        assert_eq!(trace.parent_id, None);
    }
}

#[test]
fn fresh_identifiers_differ_from_request_to_request() {
    let a = Tracing::fresh();
    let b = Tracing::fresh();
    assert_ne!(a.trace_id, 0);
    assert_ne!(a.span_id, 0);
    assert_eq!(a.parent_id, None);
    assert_ne!(a.trace_id, b.trace_id);
}

#[test]
fn given_identifiers_stand_in_for_missing_headers() {
    let mut head = RequestHead::new("/".to_string());
    head.span_id = bytes("456");
    let trace = parse_trace_with(&head, fresh());
    assert_eq!(trace, Tracing { trace_id: 1000, span_id: 456, parent_id: None });
}

#[test]
fn header_that_is_no_identifier_counts_as_missing() {
    let mut head = RequestHead::new("/".to_string());
    head.trace_id = bytes("abc");
    head.span_id = bytes("0");
    head.parent_id = bytes("0");
    assert_eq!(parse_trace_with(&head, fresh()), fresh());
    head.trace_id = bytes("340282366920938463463374607431768211456");
    head.span_id = bytes("18446744073709551616");
    head.parent_id = bytes("-3");
    assert_eq!(parse_trace_with(&head, fresh()), fresh());
    head.trace_id = Some(vec![0xff, 0x31]);
    head.span_id = bytes("");
    head.parent_id = bytes("7 ");
    assert_eq!(parse_trace_with(&head, fresh()), fresh());
}

#[test]
fn largest_identifiers_are_read() {
    let trace = Tracing::from_headers(
        &bytes("340282366920938463463374607431768211455"),
        &bytes("18446744073709551615"),
        &bytes("+1"),
        fresh(),
    );
    assert_eq!(trace, Tracing { trace_id: u128::MAX, span_id: u64::MAX, parent_id: Some(1) });
}

#[test]
fn identifiers_are_read_one_by_one() {
    assert_eq!(parse_id_u128(&bytes("12")), Some(12));
    assert_eq!(parse_id_u128(&bytes("0")), None);
    assert_eq!(parse_id_u128(&None), None);
    assert_eq!(parse_id_u64(&bytes("12")), Some(12));
    assert_eq!(parse_id_u64(&bytes("00")), None);
    assert_eq!(parse_id_u64(&None), None);
}

#[test]
fn trace_headers_carry_the_identifiers_in_decimal() {
    let trace = Tracing { trace_id: 123, span_id: 456, parent_id: Some(789) };
    assert_eq!(
        set_tracing_header(trace, false),
        vec![
            HeaderLine { name: "x-trace-id", value: b"123".to_vec() },
            HeaderLine { name: "x-span-id", value: b"456".to_vec() },
        ]
    );
    assert_eq!(
        set_tracing_header(trace, true),
        vec![
            HeaderLine { name: "x-trace-id", value: b"123".to_vec() },
            HeaderLine { name: "x-span-id", value: b"456".to_vec() },
            HeaderLine { name: "x-sampling", value: b"true".to_vec() },
        ]
    );
}

#[test]
fn sampling_mark_is_true() {
    assert_eq!(sampling_value(), b"true".to_vec());
}

#[test]
fn service_is_named_after_its_environment() {
    assert_eq!(service_name("prod"), "HPX-prod");
    assert_eq!(service_name(""), "HPX-");
}
