//! The steps that a request passes before it is forwarded: the size of its
//! body, the decision to sample it, and the identifiers of its trace.

use crate::error::{AppResponseError, ErrorView, STATUS_PAYLOAD_TOO_LARGE};
use crate::request::{HeadView, RequestHead, GRPC_CONTENT_TYPE};
use crate::sampling::{random_below, DEFAULT_RESERVOIR_SIZE};
use crate::state::ContextState;
use crate::text::{bytes_eq, decimal_digits, format_decimal};
use crate::tracing::{
    lemma_identifier_round_trip, random_trace_id, sampling_mark, sampling_value, trace_of,
    Tracing,
};
use vstd::prelude::*;

verus! {

/// Header of the identifier of a request.
pub const X_REQUEST_ID: &'static str = "x-request-id";

/// One step of the pipeline.
#[derive(Clone, Copy, Debug, PartialEq, Eq)]
pub enum Middleware {
    /// Shows the request to whoever watches; changes nothing.
    Print,
    /// Turns away a request whose body is over the limit, where there is
    /// one.
    BodySizeLimit(Option<u64>),
    /// Decides whether a request that begins a trace is sampled.
    SamplingRate,
    /// Gives the request the identifiers of its trace.
    Trace,
    /// Gives the request an identifier of its own, in place of any it has.
    RequestId,
}

/// What a request draws by chance: a slot of the reservoir, the identifiers
/// of a trace that begins with it, and an identifier of its own.
#[derive(Clone, Copy, Debug, PartialEq, Eq)]
pub struct Draws {
    pub slot: usize,
    pub trace: Tracing,
    pub request_id: u128,
}

impl Draws {
    /// The slot is one of the reservoir and the identifiers are not 0.
    pub open spec fn wf(&self) -> bool {
        &&& self.slot < DEFAULT_RESERVOIR_SIZE
        &&& self.trace.wf()
        &&& self.trace.parent_id is None
        &&& self.request_id != 0
    }

    /// Draws for one request.
    pub fn draw() -> (draws: Self)
        ensures
            draws.wf(),
    {
        Draws {
            slot: random_below(DEFAULT_RESERVOIR_SIZE),
            trace: Tracing::fresh(),
            request_id: random_trace_id(),
        }
    }
}

/// Whether a content type is the one that is exempt from sampling.
pub open spec fn is_grpc(content_type: Option<Seq<u8>>) -> bool {
    content_type == Some(GRPC_CONTENT_TYPE@)
}

/// Whether a body of the declared size is over the limit.
pub open spec fn over_limit(limit: Option<u64>, body_size: Option<u64>) -> bool {
    limit is Some && body_size is Some && body_size.unwrap() > limit.unwrap()
}

/// What is said of a body over the limit.
pub open spec fn too_large_view() -> ErrorView {
    ErrorView {
        code: STATUS_PAYLOAD_TOO_LARGE,
        message: "payload too large"@,
        status_code: STATUS_PAYLOAD_TOO_LARGE,
    }
}

/// The head after the sampling step with the slot drawn. A request of the
/// exempt content type, or one that continues a trace, is left as it is; any
/// other is marked where its slot is selected.
pub open spec fn after_sampling(h: HeadView, selected: Set<usize>, slot: usize) -> HeadView {
    if is_grpc(h.content_type) || h.trace_id is Some || !selected.contains(slot) {
        h
    } else {
        HeadView { sampling: Some(sampling_mark()), ..h }
    }
}

/// The identifiers of a request, where `fresh` stands in for what its
/// headers do not give.
pub open spec fn head_trace(h: HeadView, fresh: Tracing) -> Tracing {
    trace_of(h.trace_id, h.span_id, h.parent_id, fresh.trace_id, fresh.span_id)
}

/// The head after the trace step: it carries its identifiers in decimal,
/// and the sampling mark where it was marked in any way.
pub open spec fn after_trace(h: HeadView, fresh: Tracing) -> HeadView {
    HeadView {
        trace_id: Some(decimal_digits(head_trace(h, fresh).trace_id as nat)),
        span_id: Some(decimal_digits(head_trace(h, fresh).span_id as nat)),
        sampling: if h.sampling is Some {
            Some(sampling_mark())
        } else {
            None
        },
        ..h
    }
}

/// The head after the step that names the request: it carries the
/// identifier in decimal, whatever it carried before.
pub open spec fn after_request_id(h: HeadView, id: u128) -> HeadView {
    HeadView { request_id: Some(decimal_digits(id as nat)), ..h }
}

/// What one step makes of a head: the head after it, or the error with
/// which it turns the request away.
pub open spec fn step_outcome(
    step: Middleware,
    h: HeadView,
    selected: Set<usize>,
    draws: Draws,
) -> Result<HeadView, ErrorView> {
    match step {
        Middleware::Print => Ok(h),
        Middleware::BodySizeLimit(limit) => if over_limit(limit, h.body_size) {
            Err(too_large_view())
        } else {
            Ok(h)
        },
        Middleware::SamplingRate => Ok(after_sampling(h, selected, draws.slot)),
        Middleware::Trace => Ok(after_trace(h, draws.trace)),
        Middleware::RequestId => Ok(after_request_id(h, draws.request_id)),
    }
}

/// What the steps make of a head, one after the other: the head as the last
/// step that ran left it, and the error of the first step that turned the
/// request away, after which no step runs.
pub open spec fn pipeline_outcome(
    steps: Seq<Middleware>,
    h: HeadView,
    selected: Set<usize>,
    draws: Draws,
) -> (HeadView, Option<ErrorView>)
    decreases steps.len(),
{
    if steps.len() == 0 {
        (h, None)
    } else {
        match step_outcome(steps[0], h, selected, draws) {
            Ok(next) => pipeline_outcome(steps.drop_first(), next, selected, draws),
            Err(e) => (h, Some(e)),
        }
    }
}

/// The steps of the proxy in their order.
pub open spec fn canonical_steps() -> Seq<Middleware> {
    seq![
        Middleware::Print,
        Middleware::BodySizeLimit(None),
        Middleware::SamplingRate,
        Middleware::Trace,
    ]
}

/// Shows the request; changes nothing and turns nothing away.
pub fn with_print(_state: &ContextState, head: &mut RequestHead) -> (r: Result<(), AppResponseError>)
    ensures
        r is Ok,
        final(head)@ == old(head)@,
{
    Ok(())
}

/// Turns away a request that declares a body over the limit; without a
/// limit, or without a declared size, the request passes.
pub fn with_body_size_limit(limit: Option<u64>, head: &mut RequestHead) -> (r: Result<
    (),
    AppResponseError,
>)
    ensures
        final(head)@ == old(head)@,
        match r {
            Ok(_) => !over_limit(limit, old(head)@.body_size),
            Err(e) => over_limit(limit, old(head)@.body_size) && e@ == too_large_view(),
        },
{
    match (limit, head.body_size) {
        (Some(most), Some(size)) => {
            if size > most {
                return Err(
                    AppResponseError::from(
                        STATUS_PAYLOAD_TOO_LARGE,
                        "payload too large",
                        STATUS_PAYLOAD_TOO_LARGE,
                    ),
                );
            }
        },
        _ => {},
    }
    Ok(())
}

/// Whether the request has the content type that is exempt from sampling.
pub fn has_grpc_content_type(head: &RequestHead) -> (exempt: bool)
    ensures
        exempt == is_grpc(head@.content_type),
{
    match &head.content_type {
        Some(value) => bytes_eq(value.as_slice(), GRPC_CONTENT_TYPE.as_slice()),
        None => false,
    }
}

/// The sampling step for a request that drew `slot`: marks the request as
/// sampled where it begins a trace, is not of the exempt content type, and
/// its slot is selected.
pub fn sampling_rate_ctl_at(state: &ContextState, head: &mut RequestHead, slot: usize) -> (r: Result<
    (),
    AppResponseError,
>)
    ensures
        r is Ok,
        final(head)@ == after_sampling(old(head)@, state.selected(), slot),
{
    if has_grpc_content_type(head) {
        return Ok(());
    }
    if head.trace_id.is_none() {
        if state.should_sampling(slot) {
            head.sampling = Some(sampling_value());
        }
    }
    Ok(())
}

/// The sampling step: draws a slot of the reservoir and decides by it.
pub fn sampling_rate_ctl(state: &ContextState, head: &mut RequestHead) -> (r: Result<
    (),
    AppResponseError,
>)
    ensures
        r is Ok,
        exists|slot: usize|
            slot < DEFAULT_RESERVOIR_SIZE && final(head)@ == #[trigger] after_sampling(
                old(head)@,
                state.selected(),
                slot,
            ),
{
    let slot = random_below(DEFAULT_RESERVOIR_SIZE);
    sampling_rate_ctl_at(state, head, slot)
}

/// Whether the request is marked as sampled.
pub fn is_sampling(head: &RequestHead) -> (sampled: bool)
    ensures
        sampled == (head@.sampling is Some),
{
    head.sampling.is_some()
}

/// The identifiers of a request: those that its headers write, and those of
/// `fresh` in place of a trace or span identifier that they do not write.
pub fn parse_trace_with(head: &RequestHead, fresh: Tracing) -> (trace: Tracing)
    ensures
        trace == head_trace(head@, fresh),
        fresh.wf() ==> trace.wf(),
{
    Tracing::from_headers(&head.trace_id, &head.span_id, &head.parent_id, fresh)
}

/// The identifiers of a request, with fresh ones in place of those that its
/// headers do not write.
pub fn parse_trace(head: &RequestHead) -> (trace: Tracing)
    ensures
        trace.wf(),
        exists|fresh: Tracing| fresh.wf() && trace == #[trigger] head_trace(head@, fresh),
{
    let fresh = Tracing::fresh();
    parse_trace_with(head, fresh)
}

/// The trace step with the fresh identifiers given: writes the request's
/// identifiers into its headers, and renews its sampling mark.
pub fn with_trace_from(_state: &ContextState, head: &mut RequestHead, fresh: Tracing) -> (r: Result<
    (),
    AppResponseError,
>)
    ensures
        r is Ok,
        final(head)@ == after_trace(old(head)@, fresh),
{
    let trace = parse_trace_with(head, fresh);
    let sampling = is_sampling(head);
    head.trace_id = Some(format_decimal(trace.trace_id));
    head.span_id = Some(format_decimal(trace.span_id as u128));
    if sampling {
        head.sampling = Some(sampling_value());
    }
    Ok(())
}

/// The trace step: a request without identifiers of its own gets fresh ones.
pub fn with_trace(state: &ContextState, head: &mut RequestHead) -> (r: Result<(), AppResponseError>)
    ensures
        r is Ok,
        exists|fresh: Tracing|
            fresh.wf() && final(head)@ == #[trigger] after_trace(old(head)@, fresh),
{
    let fresh = Tracing::fresh();
    with_trace_from(state, head, fresh)
}

/// The step that names the request, with the identifier given: the request
/// carries it afterwards, in place of any it carried.
pub fn with_request_id_from(_state: &ContextState, head: &mut RequestHead, id: u128) -> (r: Result<
    (),
    AppResponseError,
>)
    ensures
        r is Ok,
        final(head)@ == after_request_id(old(head)@, id),
{
    head.request_id = Some(format_decimal(id));
    Ok(())
}

/// The step that names the request: it gets a fresh identifier, in place of
/// any it carried.
pub fn with_request_id(state: &ContextState, head: &mut RequestHead) -> (r: Result<
    (),
    AppResponseError,
>)
    ensures
        r is Ok,
        exists|id: u128| id != 0 && final(head)@ == #[trigger] after_request_id(old(head)@, id),
{
    let id = random_trace_id();
    with_request_id_from(state, head, id)
}

impl Middleware {
    /// The steps of the proxy in their order: show, limit (none), sample,
    /// trace.
    pub fn canonical() -> (steps: Vec<Middleware>)
        ensures
            steps@ == canonical_steps(),
    {
        let mut steps: Vec<Middleware> = Vec::new();
        steps.push(Middleware::Print);
        steps.push(Middleware::BodySizeLimit(None));
        steps.push(Middleware::SamplingRate);
        steps.push(Middleware::Trace);
        assert(steps@ =~= canonical_steps());
        steps
    }

    /// Runs one step with what the request drew.
    pub fn apply(&self, state: &ContextState, head: &mut RequestHead, draws: &Draws) -> (r: Result<
        (),
        AppResponseError,
    >)
        ensures
            match r {
                Ok(_) => step_outcome(*self, old(head)@, state.selected(), *draws) == Ok::<
                    HeadView,
                    ErrorView,
                >(final(head)@),
                Err(e) => step_outcome(*self, old(head)@, state.selected(), *draws) == Err::<
                    HeadView,
                    ErrorView,
                >(e@) && final(head)@ == old(head)@,
            },
    {
        match self {
            Middleware::Print => with_print(state, head),
            Middleware::BodySizeLimit(limit) => with_body_size_limit(*limit, head),
            Middleware::SamplingRate => sampling_rate_ctl_at(state, head, draws.slot),
            Middleware::Trace => with_trace_from(state, head, draws.trace),
            Middleware::RequestId => with_request_id_from(state, head, draws.request_id),
        }
    }
}

/// Runs the steps in their order with what the request drew, up to the
/// first that turns the request away.
pub fn run_pipeline_with(
    steps: &Vec<Middleware>,
    state: &ContextState,
    head: &mut RequestHead,
    draws: &Draws,
) -> (r: Result<(), AppResponseError>)
    ensures
        final(head)@ == pipeline_outcome(steps@, old(head)@, state.selected(), *draws).0,
        match r {
            Ok(_) => pipeline_outcome(steps@, old(head)@, state.selected(), *draws).1 is None,
            Err(e) => pipeline_outcome(steps@, old(head)@, state.selected(), *draws).1 == Some(e@),
        },
{
    let ghost start = head@;
    let ghost selected = state.selected();
    let mut i: usize = 0;
    assert(steps@.skip(0) =~= steps@);
    while i < steps.len()
        invariant
            i <= steps.len(),
            selected == state.selected(),
            start == old(head)@,
            pipeline_outcome(steps@, start, selected, *draws) == pipeline_outcome(
                steps@.skip(i as int),
                head@,
                selected,
                *draws,
            ),
        decreases steps.len() - i,
    {
        let ghost rest = steps@.skip(i as int);
        let ghost before = head@;
        assert(rest.drop_first() =~= steps@.skip(i + 1));
        assert(rest[0] == steps@[i as int]);
        match steps[i].apply(state, head, draws) {
            Ok(_) => {},
            Err(e) => {
                assert(pipeline_outcome(rest, before, selected, *draws) == (before, Some(e@)));
                return Err(e);
            },
        }
        i += 1;
    }
    Ok(())
}

/// Runs the steps in their order, up to the first that turns the request
/// away. What the request draws is drawn here.
pub fn run_pipeline(steps: &Vec<Middleware>, state: &ContextState, head: &mut RequestHead) -> (r:
    Result<(), AppResponseError>)
    ensures
        exists|draws: Draws|
            {
                &&& draws.wf()
                &&& final(head)@ == (#[trigger] pipeline_outcome(
                    steps@,
                    old(head)@,
                    state.selected(),
                    draws,
                )).0
                &&& match r {
                    Ok(_) => pipeline_outcome(steps@, old(head)@, state.selected(), draws).1 is None,
                    Err(e) => pipeline_outcome(steps@, old(head)@, state.selected(), draws).1
                        == Some(e@),
                }
            },
{
    let draws = Draws::draw();
    run_pipeline_with(steps, state, head, &draws)
}

/// A request that has passed the trace step carries its identifiers: read
/// again, with whatever fresh identifiers at hand, they are the same.
pub proof fn lemma_stamped_trace_is_read_back(h: HeadView, fresh: Tracing, other: Tracing)
    requires
        fresh.wf(),
    ensures
        head_trace(after_trace(h, fresh), other) == head_trace(h, fresh),
{
    let trace = head_trace(h, fresh);
    lemma_identifier_round_trip(trace.trace_id as nat, u128::MAX as nat);
    lemma_identifier_round_trip(trace.span_id as nat, u64::MAX as nat);
}

/// The steps of the proxy turn no request away.
pub proof fn lemma_canonical_steps_pass(h: HeadView, selected: Set<usize>, draws: Draws)
    ensures
        pipeline_outcome(canonical_steps(), h, selected, draws) == (
            after_trace(after_sampling(h, selected, draws.slot), draws.trace),
            None::<ErrorView>,
        ),
{
    let s0 = canonical_steps();
    let s1 = s0.drop_first();
    let s2 = s1.drop_first();
    let s3 = s2.drop_first();
    let s4 = s3.drop_first();
    assert(s4.len() == 0);
    let h2 = after_sampling(h, selected, draws.slot);
    let h3 = after_trace(h2, draws.trace);
    assert(pipeline_outcome(s4, h3, selected, draws) == (h3, None::<ErrorView>));
    assert(pipeline_outcome(s3, h2, selected, draws) == (h3, None::<ErrorView>));
    assert(pipeline_outcome(s2, h, selected, draws) == (h3, None::<ErrorView>));
    assert(pipeline_outcome(s1, h, selected, draws) == (h3, None::<ErrorView>));
}

} // verus!
