//! What the proxy reads of a request before it forwards it.

use vstd::prelude::*;

verus! {

/// The value of a content type that is exempt from sampling:
/// `application/grpc`.
pub const GRPC_CONTENT_TYPE: [u8; 16] = [
    97, 112, 112, 108, 105, 99, 97, 116, 105, 111, 110, 47, 103, 114, 112, 99,
];

/// The head of a request: its target, and the headers that the proxy
/// consults, each with its value as it came.
#[derive(Clone, Debug, PartialEq, Eq)]
pub struct RequestHead {
    /// The path of the target.
    pub path: String,
    /// The query of the target, without its question mark.
    pub query: Option<String>,
    /// The size that the request declares for its body.
    pub body_size: Option<u64>,
    /// `content-type`
    pub content_type: Option<Vec<u8>>,
    /// Whether the request asks for another protocol.
    pub upgrade: bool,
    /// `x-request-id`
    pub request_id: Option<Vec<u8>>,
    /// `x-trace-id`
    pub trace_id: Option<Vec<u8>>,
    /// `x-span-id`
    pub span_id: Option<Vec<u8>>,
    /// `x-parent-id`
    pub parent_id: Option<Vec<u8>>,
    /// `x-sampling`
    pub sampling: Option<Vec<u8>>,
}

/// What the head of a request holds.
pub struct HeadView {
    pub path: Seq<char>,
    pub query: Option<Seq<char>>,
    pub body_size: Option<u64>,
    pub content_type: Option<Seq<u8>>,
    pub upgrade: bool,
    pub request_id: Option<Seq<u8>>,
    pub trace_id: Option<Seq<u8>>,
    pub span_id: Option<Seq<u8>>,
    pub parent_id: Option<Seq<u8>>,
    pub sampling: Option<Seq<u8>>,
}

/// The text of a string that may be absent.
pub open spec fn option_text(value: Option<String>) -> Option<Seq<char>> {
    match value {
        Some(text) => Some(text@),
        None => None,
    }
}

impl View for RequestHead {
    type V = HeadView;

    open spec fn view(&self) -> HeadView {
        HeadView {
            path: self.path@,
            query: option_text(self.query),
            body_size: self.body_size,
            content_type: crate::tracing::option_bytes(self.content_type),
            upgrade: self.upgrade,
            request_id: crate::tracing::option_bytes(self.request_id),
            trace_id: crate::tracing::option_bytes(self.trace_id),
            span_id: crate::tracing::option_bytes(self.span_id),
            parent_id: crate::tracing::option_bytes(self.parent_id),
            sampling: crate::tracing::option_bytes(self.sampling),
        }
    }
}

impl RequestHead {
    /// The head of a request for a path, without query or headers.
    pub fn new(path: String) -> (head: Self)
        ensures
            head@ == (HeadView {
                path: path@,
                query: None,
                body_size: None,
                content_type: None,
                upgrade: false,
                request_id: None,
                trace_id: None,
                span_id: None,
                parent_id: None,
                sampling: None,
            }),
    {
        RequestHead {
            path,
            query: None,
            body_size: None,
            content_type: None,
            upgrade: false,
            request_id: None,
            trace_id: None,
            span_id: None,
            parent_id: None,
            sampling: None,
        }
    }
}

} // verus!
