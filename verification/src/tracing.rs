//! The identifiers of a trace and their writing in headers.

use crate::text::{decimal_digits, decimal_up_to, format_decimal, parse_u128, parse_u64};
use vstd::prelude::*;
use vstd::string::*;

verus! {

/// Header that marks a sampled request.
pub const X_SAMPLING: &'static str = "x-sampling";

/// Header of the trace's identifier.
pub const X_TRACE_ID: &'static str = "x-trace-id";

/// Header of the span's identifier.
pub const X_SPAN_ID: &'static str = "x-span-id";

/// Header of the identifier of the span's parent.
pub const X_PARENT_ID: &'static str = "x-parent-id";

/// The identifiers that a request carries through the proxy.
#[derive(Clone, Copy, Debug, PartialEq, Eq, Structural)]
pub struct Tracing {
    pub trace_id: u128,
    pub span_id: u64,
    pub parent_id: Option<u64>,
}

/// One header to set: its name and its value.
#[derive(Clone, Debug, PartialEq, Eq)]
pub struct HeaderLine {
    pub name: &'static str,
    pub value: Vec<u8>,
}

/// `rand::random` for a non-zero number of 128 bits: some number other
/// than 0. Which one is not determined.
#[verifier::external_body]
pub(crate) fn random_trace_id() -> (id: u128)
    ensures
        id != 0,
{
    rand::random::<std::num::NonZeroU128>().get()
}

/// `rand::random` for a non-zero number of 64 bits: some number other than
/// 0. Which one is not determined.
#[verifier::external_body]
pub(crate) fn random_span_id() -> (id: u64)
    ensures
        id != 0,
{
    rand::random::<std::num::NonZeroU64>().get()
}

/// The identifier that a header value writes: a decimal number other than 0
/// of at most `max`.
pub open spec fn identifier_of(value: Option<Seq<u8>>, max: nat) -> Option<nat> {
    match value {
        Some(text) => match decimal_up_to(text, max) {
            Some(n) => if n != 0 {
                Some(n)
            } else {
                None
            },
            None => None,
        },
        None => None,
    }
}

/// The identifiers of a request with the given header values, where
/// `fresh_trace` and `fresh_span` stand in for what the headers do not give.
pub open spec fn trace_of(
    trace_id: Option<Seq<u8>>,
    span_id: Option<Seq<u8>>,
    parent_id: Option<Seq<u8>>,
    fresh_trace: u128,
    fresh_span: u64,
) -> Tracing {
    Tracing {
        trace_id: match identifier_of(trace_id, u128::MAX as nat) {
            Some(n) => n as u128,
            None => fresh_trace,
        },
        span_id: match identifier_of(span_id, u64::MAX as nat) {
            Some(n) => n as u64,
            None => fresh_span,
        },
        parent_id: match identifier_of(parent_id, u64::MAX as nat) {
            Some(n) => Some(n as u64),
            None => None,
        },
    }
}

/// The value `true` of the sampling header.
pub open spec fn sampling_mark() -> Seq<u8> {
    seq![116u8, 114u8, 117u8, 101u8]
}

/// The headers that carry a trace: the two identifiers in decimal, and the
/// sampling mark where the request is sampled.
pub open spec fn tracing_lines(trace: Tracing, sampling: bool) -> Seq<(Seq<char>, Seq<u8>)> {
    let ids = seq![
        (X_TRACE_ID@, decimal_digits(trace.trace_id as nat)),
        (X_SPAN_ID@, decimal_digits(trace.span_id as nat)),
    ];
    if sampling {
        ids.push((X_SAMPLING@, sampling_mark()))
    } else {
        ids
    }
}

/// The name and value of each header line.
pub open spec fn lines_view(lines: Seq<HeaderLine>) -> Seq<(Seq<char>, Seq<u8>)> {
    lines.map_values(|l: HeaderLine| (l.name@, l.value@))
}

/// Reads a header value as an identifier of up to 128 bits.
pub fn parse_id_u128(value: &Option<Vec<u8>>) -> (id: Option<u128>)
    ensures
        match id {
            Some(n) => identifier_of(option_bytes(*value), u128::MAX as nat) == Some(n as nat),
            None => identifier_of(option_bytes(*value), u128::MAX as nat) is None,
        },
{
    match value {
        Some(text) => match parse_u128(text.as_slice()) {
            Some(n) => if n != 0 {
                Some(n)
            } else {
                None
            },
            None => None,
        },
        None => None,
    }
}

/// Reads a header value as an identifier of up to 64 bits.
pub fn parse_id_u64(value: &Option<Vec<u8>>) -> (id: Option<u64>)
    ensures
        match id {
            Some(n) => identifier_of(option_bytes(*value), u64::MAX as nat) == Some(n as nat),
            None => identifier_of(option_bytes(*value), u64::MAX as nat) is None,
        },
{
    match value {
        Some(text) => match parse_u64(text.as_slice()) {
            Some(n) => if n != 0 {
                Some(n)
            } else {
                None
            },
            None => None,
        },
        None => None,
    }
}

/// The bytes of a header value that may be absent.
pub open spec fn option_bytes(value: Option<Vec<u8>>) -> Option<Seq<u8>> {
    match value {
        Some(text) => Some(text@),
        None => None,
    }
}

/// The value `true` of the sampling header.
pub fn sampling_value() -> (value: Vec<u8>)
    ensures
        value@ == sampling_mark(),
{
    let mut value: Vec<u8> = Vec::new();
    value.push(116);
    value.push(114);
    value.push(117);
    value.push(101);
    assert(value@ =~= sampling_mark());
    value
}

impl Tracing {
    /// No identifier is 0.
    pub open spec fn wf(&self) -> bool {
        &&& self.trace_id != 0
        &&& self.span_id != 0
        &&& self.parent_id != Some(0u64)
    }

    /// A trace that begins here: two fresh identifiers and no parent.
    pub fn fresh() -> (trace: Self)
        ensures
            trace.wf(),
            trace.parent_id is None,
    {
        Tracing { trace_id: random_trace_id(), span_id: random_span_id(), parent_id: None }
    }

    /// The identifiers that the three header values write. `fresh` stands in
    /// for a trace or span identifier that is absent or is no number other
    /// than 0; a parent that is absent or no such number is left out.
    pub fn from_headers(
        trace_id: &Option<Vec<u8>>,
        span_id: &Option<Vec<u8>>,
        parent_id: &Option<Vec<u8>>,
        fresh: Tracing,
    ) -> (trace: Self)
        ensures
            trace == trace_of(
                option_bytes(*trace_id),
                option_bytes(*span_id),
                option_bytes(*parent_id),
                fresh.trace_id,
                fresh.span_id,
            ),
            fresh.wf() ==> trace.wf(),
    {
        let trace_id = match parse_id_u128(trace_id) {
            Some(n) => n,
            None => fresh.trace_id,
        };
        let span_id = match parse_id_u64(span_id) {
            Some(n) => n,
            None => fresh.span_id,
        };
        Tracing { trace_id, span_id, parent_id: parse_id_u64(parent_id) }
    }
}

/// The headers that carry a trace: the two identifiers in decimal, and the
/// sampling mark where the request is sampled.
pub fn set_tracing_header(trace: Tracing, sampling: bool) -> (lines: Vec<HeaderLine>)
    ensures
        lines_view(lines@) == tracing_lines(trace, sampling),
{
    let mut lines: Vec<HeaderLine> = Vec::new();
    lines.push(HeaderLine { name: X_TRACE_ID, value: format_decimal(trace.trace_id) });
    lines.push(HeaderLine { name: X_SPAN_ID, value: format_decimal(trace.span_id as u128) });
    if sampling {
        lines.push(HeaderLine { name: X_SAMPLING, value: sampling_value() });
    }
    assert(lines_view(lines@) =~= tracing_lines(trace, sampling));
    lines
}

/// The name under which the proxy of an environment reports its spans.
pub fn service_name(env_code: &str) -> (name: String)
    ensures
        name@ == "HPX-"@ + env_code@,
{
    let mut name = String::from_str("HPX-");
    name.append(env_code);
    name
}

/// An identifier written in decimal is read back as itself.
pub proof fn lemma_identifier_round_trip(n: nat, max: nat)
    requires
        0 < n <= max,
    ensures
        identifier_of(Some(decimal_digits(n)), max) == Some(n),
{
    crate::text::lemma_decimal_round_trip(n);
}

} // verus!
