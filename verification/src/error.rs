//! Answers that the proxy gives by itself, and the error they may carry.

use crate::json::{
    error_body, error_json, json_text, json_texts, servants_body, servants_json, text_bytes,
};
use vstd::prelude::*;
use vstd::string::*;

verus! {

/// Status of an answer that went well.
pub const STATUS_OK: u16 = 200;

/// Status of an answer to a request that could not be read.
pub const STATUS_BAD_REQUEST: u16 = 400;

/// Status of an answer to a path that no servant registered.
pub const STATUS_NOT_FOUND: u16 = 404;

/// Status of an answer to a request whose body is over the limit.
pub const STATUS_PAYLOAD_TOO_LARGE: u16 = 413;

/// Status of an answer to a request for what the proxy does not do.
pub const STATUS_NOT_IMPLEMENTED: u16 = 501;

/// Status of an answer in place of a backend that could not be reached.
pub const STATUS_SERVICE_UNAVAILABLE: u16 = 503;

/// An error as the caller is told of it.
#[derive(Clone, Debug, PartialEq, Eq)]
pub struct AppResponseError {
    pub code: u16,
    pub message: String,
    pub status_code: u16,
}

/// What an error holds.
pub struct ErrorView {
    pub code: u16,
    pub message: Seq<char>,
    pub status_code: u16,
}

/// The body of an answer.
#[derive(Clone, Debug, PartialEq, Eq)]
pub enum Payload {
    /// No body.
    Empty,
    /// A text as it stands.
    Text(String),
    /// An error, to be written as an object with its code and its message.
    Error(AppResponseError),
    /// The names of the servants, to be written as a list under `servant`.
    Servants(Vec<String>),
}

/// What a body holds.
pub enum PayloadView {
    Empty,
    Text(Seq<char>),
    Error(ErrorView),
    Servants(Seq<Seq<char>>),
}

/// An answer of the proxy: its status, whether its body is JSON, and the
/// body.
#[derive(Clone, Debug, PartialEq, Eq)]
pub struct Reply {
    pub status: u16,
    pub json: bool,
    pub payload: Payload,
}

/// What an answer holds.
pub struct ReplyView {
    pub status: u16,
    pub json: bool,
    pub payload: PayloadView,
}

impl View for AppResponseError {
    type V = ErrorView;

    open spec fn view(&self) -> ErrorView {
        ErrorView { code: self.code, message: self.message@, status_code: self.status_code }
    }
}

impl View for Payload {
    type V = PayloadView;

    open spec fn view(&self) -> PayloadView {
        match *self {
            Payload::Empty => PayloadView::Empty,
            Payload::Text(text) => PayloadView::Text(text@),
            Payload::Error(error) => PayloadView::Error(error@),
            Payload::Servants(names) => PayloadView::Servants(
                names@.map_values(|n: String| n@),
            ),
        }
    }
}

impl View for Reply {
    type V = ReplyView;

    open spec fn view(&self) -> ReplyView {
        ReplyView { status: self.status, json: self.json, payload: self.payload@ }
    }
}

/// The bytes of a body: none, the text, or the JSON of what it holds.
pub open spec fn body_of(payload: PayloadView) -> Seq<u8> {
    match payload {
        PayloadView::Empty => Seq::empty(),
        PayloadView::Text(text) => text_bytes(text),
        PayloadView::Error(error) => error_json(
            error.code,
            json_text(error.message),
            error.message,
        ),
        PayloadView::Servants(names) => servants_json(json_texts(names)),
    }
}

impl Payload {
    /// The bytes of the body.
    pub fn bytes(&self) -> (body: Vec<u8>)
        ensures
            body@ == body_of(self@),
    {
        match self {
            Payload::Empty => Vec::new(),
            Payload::Text(text) => text.as_str().as_bytes_vec(),
            Payload::Error(error) => error_body(error.code, error.message.as_str()),
            Payload::Servants(names) => servants_body(names),
        }
    }
}

/// `StatusCode::from_u16`: a number is a status from 100 up to 999.
#[verifier::external_body]
pub(crate) fn is_status_code(code: u16) -> (valid: bool)
    ensures
        valid == (100 <= code < 1000),
{
    hyper::http::StatusCode::from_u16(code).is_ok()
}

impl AppResponseError {
    /// An error with a code, a message and the status of its answer.
    pub fn from(code: u16, s: &str, status_code: u16) -> (e: Self)
        ensures
            e@ == (ErrorView { code, message: s@, status_code }),
    {
        AppResponseError { code, message: String::from_str(s), status_code }
    }
}

/// What `not_found` answers.
pub open spec fn not_found_view() -> ReplyView {
    ReplyView {
        status: STATUS_NOT_FOUND,
        json: true,
        payload: PayloadView::Error(
            ErrorView {
                code: STATUS_NOT_FOUND,
                message: "route not found"@,
                status_code: STATUS_NOT_FOUND,
            },
        ),
    }
}

/// What `to_response` answers.
pub open spec fn response_view(code: u16, message: Seq<char>) -> ReplyView {
    ReplyView {
        status: if 100 <= code < 1000 {
            code
        } else {
            STATUS_OK
        },
        json: false,
        payload: PayloadView::Text(message),
    }
}

/// The answer to a path that no servant registered.
pub fn not_found() -> (reply: Reply)
    ensures
        reply@ == not_found_view(),
{
    let error = AppResponseError::from(STATUS_NOT_FOUND, "route not found", STATUS_NOT_FOUND);
    Reply { status: error.status_code, json: true, payload: Payload::Error(error) }
}

/// The answer to a request that could not be read, with what was wrong.
pub fn bad_request(err: String) -> (reply: Reply)
    ensures
        reply@ == (ReplyView {
            status: STATUS_BAD_REQUEST,
            json: false,
            payload: PayloadView::Text(err@),
        }),
{
    Reply { status: STATUS_BAD_REQUEST, json: false, payload: Payload::Text(err) }
}

/// The answer to a request that was carried out.
pub fn status_ok() -> (reply: Reply)
    ensures
        reply@ == (ReplyView { status: STATUS_OK, json: false, payload: PayloadView::Empty }),
{
    Reply { status: STATUS_OK, json: false, payload: Payload::Empty }
}

/// An answer with a message as its body. A code that is no status is
/// answered with the status of success.
pub fn to_response(code: u16, message: String) -> (reply: Reply)
    ensures
        reply@ == response_view(code, message@),
{
    let status = if is_status_code(code) {
        code
    } else {
        STATUS_OK
    };
    Reply { status, json: false, payload: Payload::Text(message) }
}

} // verus!
