use hpx::error::AppResponseError;
use hpx::middleware::{
    has_grpc_content_type, is_sampling, run_pipeline, run_pipeline_with, sampling_rate_ctl,
    sampling_rate_ctl_at, with_body_size_limit, with_print, with_request_id,
    with_request_id_from, with_trace, with_trace_from, Draws, Middleware, X_REQUEST_ID,
};
use hpx::request::{RequestHead, GRPC_CONTENT_TYPE};
use hpx::sampling::random_set;
use hpx::state::ContextState;
use hpx::tracing::Tracing;
use std::sync::atomic::AtomicUsize;

fn state(selected: usize) -> ContextState {
    ContextState { sampling: random_set(100, selected), counter: AtomicUsize::new(0) }
}

fn only_slot_seven() -> ContextState {
    let mut sampling = random_set(100, 0);
    sampling.insert(7);
    ContextState { sampling, counter: AtomicUsize::new(0) }
}

fn head() -> RequestHead {
    RequestHead::new("/api".to_string())
}

fn draws(slot: usize) -> Draws {
    Draws { slot, trace: Tracing { trace_id: 11, span_id: 22, parent_id: None }, request_id: 77 }
}

fn too_large() -> AppResponseError {
    AppResponseError { code: 413, message: "payload too large".to_string(), status_code: 413 }
}

#[test]
fn request_id_header_is_named() {
    assert_eq!(X_REQUEST_ID, "x-request-id");
}

#[test]
fn grpc_content_type_is_spelled_out() {
    assert_eq!(GRPC_CONTENT_TYPE.to_vec(), b"application/grpc".to_vec());
}

#[test]
fn print_changes_nothing() {
    let mut h = head();
    assert_eq!(with_print(&state(100), &mut h), Ok(()));
    assert_eq!(h, head());
}

#[test]
fn body_within_the_limit_passes() {
    let mut h = head();
    h.body_size = Some(10);
    assert_eq!(with_body_size_limit(Some(10), &mut h), Ok(()));
    assert_eq!(with_body_size_limit(None, &mut h), Ok(()));
    h.body_size = None;
    assert_eq!(with_body_size_limit(Some(0), &mut h), Ok(()));
}

#[test]
fn body_over_the_limit_is_turned_away() {
    let mut h = head();
    h.body_size = Some(11);
    assert_eq!(with_body_size_limit(Some(10), &mut h), Err(too_large()));
    assert_eq!(h.body_size, Some(11));
}

#[test]
fn selected_slot_marks_the_request() {
    let st = only_slot_seven();
    let mut h = head();
    assert_eq!(sampling_rate_ctl_at(&st, &mut h, 7), Ok(()));
    assert_eq!(h.sampling, Some(b"true".to_vec()));
    assert!(is_sampling(&h));
}

#[test]
fn other_slot_leaves_the_request_unmarked() {
    let st = only_slot_seven();
    let mut h = head();
    assert_eq!(sampling_rate_ctl_at(&st, &mut h, 8), Ok(()));
    assert_eq!(h, head());
    assert!(!is_sampling(&h));
}

#[test]
fn request_that_continues_a_trace_is_not_decided_anew() {
    let st = state(100);
    let mut h = head();
    h.trace_id = Some(b"5".to_vec());
    assert_eq!(sampling_rate_ctl_at(&st, &mut h, 7), Ok(()));
    assert_eq!(h.sampling, None);
    h.sampling = Some(b"yes".to_vec());
    assert_eq!(sampling_rate_ctl(&st, &mut h), Ok(()));
    assert_eq!(h.sampling, Some(b"yes".to_vec()));
}

#[test]
fn grpc_request_is_exempt_from_sampling() {
    let st = state(100);
    let mut h = head();
    h.content_type = Some(b"application/grpc".to_vec());
    assert!(has_grpc_content_type(&h));
    assert_eq!(sampling_rate_ctl(&st, &mut h), Ok(()));
    assert_eq!(h.sampling, None);
    h.content_type = Some(b"application/grpc+proto".to_vec());
    assert!(!has_grpc_content_type(&h));
    assert_eq!(sampling_rate_ctl(&st, &mut h), Ok(()));
    assert_eq!(h.sampling, Some(b"true".to_vec()));
}

#[test]
fn sampling_of_all_marks_every_new_request() {
    let st = state(100);
    for _ in 0..50 {
        let mut h = head();
        assert_eq!(sampling_rate_ctl(&st, &mut h), Ok(()));
        assert!(is_sampling(&h));
    }
}

#[test]
fn sampling_of_none_marks_no_request() {
    let st = state(0);
    for _ in 0..50 {
        let mut h = head();
        assert_eq!(sampling_rate_ctl(&st, &mut h), Ok(()));
        assert!(!is_sampling(&h));
    }
}

#[test]
fn draws_stay_in_their_ranges() {
    for _ in 0..500 {
        let d = Draws::draw();
        assert!(d.slot < 100);
        assert_ne!(d.trace.trace_id, 0);
        assert_ne!(d.trace.span_id, 0);
        assert_eq!(d.trace.parent_id, None);
        assert_ne!(d.request_id, 0);
    }
}

#[test]
fn trace_step_writes_the_identifiers() {
    let mut h = head();
    h.span_id = Some(b"456".to_vec());
    h.parent_id = Some(b"789".to_vec());
    let fresh = Tracing { trace_id: 11, span_id: 22, parent_id: None };
    assert_eq!(with_trace_from(&state(0), &mut h, fresh), Ok(()));
    assert_eq!(h.trace_id, Some(b"11".to_vec()));
    assert_eq!(h.span_id, Some(b"456".to_vec()));
    assert_eq!(h.parent_id, Some(b"789".to_vec()));
    assert_eq!(h.sampling, None);
}

#[test]
fn trace_step_renews_the_sampling_mark() {
    let mut h = head();
    h.sampling = Some(b"1".to_vec());
    assert_eq!(with_trace(&state(0), &mut h), Ok(()));
    assert_eq!(h.sampling, Some(b"true".to_vec()));
    let trace_id = h.trace_id.clone().unwrap();
    assert_ne!(trace_id, b"0".to_vec());
    assert_eq!(with_trace(&state(0), &mut h), Ok(()));
    assert_eq!(h.trace_id, Some(trace_id));
}

#[test]
fn steps_of_the_proxy_are_four() {
    assert_eq!(
        Middleware::canonical(),
        vec![
            Middleware::Print,
            Middleware::BodySizeLimit(None),
            Middleware::SamplingRate,
            Middleware::Trace,
        ]
    );
}

#[test]
fn pipeline_runs_every_step_in_order() {
    let st = only_slot_seven();
    let mut h = head();
    let r = run_pipeline_with(&Middleware::canonical(), &st, &mut h, &draws(7));
    assert_eq!(r, Ok(()));
    assert_eq!(h.sampling, Some(b"true".to_vec()));
    assert_eq!(h.trace_id, Some(b"11".to_vec()));
    assert_eq!(h.span_id, Some(b"22".to_vec()));
}

#[test]
fn order_of_the_steps_matters() {
    let st = only_slot_seven();
    let mut h = head();
    let steps = vec![Middleware::Trace, Middleware::SamplingRate];
    assert_eq!(run_pipeline_with(&steps, &st, &mut h, &draws(7)), Ok(()));
    assert_eq!(h.trace_id, Some(b"11".to_vec()));
    assert_eq!(h.sampling, None);
}

#[test]
fn pipeline_stops_at_the_first_error() {
    let st = only_slot_seven();
    let mut h = head();
    h.body_size = Some(2048);
    let steps = vec![
        Middleware::SamplingRate,
        Middleware::BodySizeLimit(Some(1024)),
        Middleware::Trace,
    ];
    let r = run_pipeline_with(&steps, &st, &mut h, &draws(7));
    assert_eq!(r, Err(too_large()));
    assert_eq!(h.sampling, Some(b"true".to_vec()));
    assert_eq!(h.trace_id, None);
    assert_eq!(h.span_id, None);
}

#[test]
fn pipeline_without_steps_changes_nothing() {
    let mut h = head();
    assert_eq!(run_pipeline(&vec![], &state(100), &mut h), Ok(()));
    assert_eq!(h, head());
}

#[test]
fn pipeline_draws_for_itself() {
    let mut h = head();
    assert_eq!(run_pipeline(&Middleware::canonical(), &state(100), &mut h), Ok(()));
    assert!(is_sampling(&h));
    assert!(h.trace_id.is_some());
    assert!(h.span_id.is_some());
}

#[test]
fn single_step_is_applied_by_its_kind() {
    let st = only_slot_seven();
    let mut h = head();
    h.body_size = Some(5);
    assert_eq!(Middleware::BodySizeLimit(Some(4)).apply(&st, &mut h, &draws(7)), Err(too_large()));
    assert_eq!(Middleware::Print.apply(&st, &mut h, &draws(7)), Ok(()));
    assert_eq!(Middleware::SamplingRate.apply(&st, &mut h, &draws(7)), Ok(()));
    assert!(is_sampling(&h));
}

#[test]
fn request_gets_an_identifier_of_its_own() {
    let mut h = head();
    assert_eq!(with_request_id_from(&state(0), &mut h, 42), Ok(()));
    assert_eq!(h.request_id, Some(b"42".to_vec()));
    assert_eq!(with_request_id_from(&state(0), &mut h, 43), Ok(()));
    assert_eq!(h.request_id, Some(b"43".to_vec()));
    assert_eq!(h.trace_id, None);
}

#[test]
fn request_identifier_is_renewed_every_time() {
    let mut h = head();
    h.request_id = Some(b"from-the-caller".to_vec());
    assert_eq!(with_request_id(&state(0), &mut h), Ok(()));
    let first = h.request_id.clone().unwrap();
    assert_ne!(first, b"from-the-caller".to_vec());
    assert_ne!(first, b"0".to_vec());
    assert_eq!(with_request_id(&state(0), &mut h), Ok(()));
    assert_ne!(h.request_id, Some(first));
}

#[test]
fn request_identifier_is_a_step_like_the_others() {
    let mut h = head();
    let steps = vec![Middleware::RequestId, Middleware::Trace];
    assert_eq!(run_pipeline_with(&steps, &state(0), &mut h, &draws(1)), Ok(()));
    assert_eq!(h.request_id, Some(b"77".to_vec()));
    assert_eq!(h.trace_id, Some(b"11".to_vec()));
}
