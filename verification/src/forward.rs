//! From a request to what becomes of it: the servant of its path, the
//! backend whose turn it is, the address it is sent to, and what is done
//! with the answer.

use crate::error::{
    not_found, not_found_view, response_view, to_response, Reply, ReplyView,
    STATUS_NOT_IMPLEMENTED, STATUS_SERVICE_UNAVAILABLE,
};
use crate::middleware::{
    canonical_steps, head_trace, is_sampling, parse_trace_with, pipeline_outcome,
    run_pipeline_with, Draws, Middleware,
};
use crate::request::{option_text, HeadView, RequestHead};
use crate::route::{addresses, route_of, turn, Route, Servant};
use crate::state::ContextState;
use crate::tracing::{lines_view, set_tracing_header, tracing_lines, HeaderLine, Tracing};
use vstd::prelude::*;
use vstd::string::*;

verus! {

/// Whether a text is a URI as `Uri::from_str` reads it.
pub uninterp spec fn is_uri(text: Seq<char>) -> bool;

/// `Uri::from_str`: whether the text is read as a URI.
#[verifier::external_body]
pub(crate) fn uri_parses(text: &str) -> (valid: bool)
    ensures
        valid == is_uri(text@),
{
    text.parse::<hyper::http::Uri>().is_ok()
}

/// The two ways in which a request is answered.
#[derive(Clone, Copy, Debug, PartialEq, Eq, Structural)]
pub enum RespondKind {
    /// The request is sent on to a backend.
    Forward,
    /// The request asks for another protocol.
    Upgrade,
}

/// What is done for a request.
#[derive(Clone, Debug, PartialEq, Eq)]
pub enum Action {
    /// The proxy answers by itself.
    Answer(Reply),
    /// The request is sent to this address.
    Send(String),
}

/// What an action holds.
pub enum ActionView {
    Answer(ReplyView),
    Send(Seq<char>),
}

/// What is done for a request, and the servant it concerns.
#[derive(Clone, Debug, PartialEq, Eq)]
pub struct Respond {
    /// The name of the servant that the path belongs to.
    pub target: Option<String>,
    pub action: Action,
}

/// What a `Respond` holds.
pub struct RespondView {
    pub target: Option<Seq<char>>,
    pub action: ActionView,
}

impl View for Action {
    type V = ActionView;

    open spec fn view(&self) -> ActionView {
        match *self {
            Action::Answer(reply) => ActionView::Answer(reply@),
            Action::Send(uri) => ActionView::Send(uri@),
        }
    }
}

impl View for Respond {
    type V = RespondView;

    open spec fn view(&self) -> RespondView {
        RespondView { target: option_text(self.target), action: self.action@ }
    }
}

/// The address a request is sent to: the backend, then the path and the
/// query as they came.
pub open spec fn forward_uri_text(addr: Seq<char>, path: Seq<char>, query: Option<Seq<char>>) -> Seq<
    char,
> {
    match query {
        Some(q) => "http://"@ + addr + path + "?"@ + q,
        None => "http://"@ + addr + path,
    }
}

/// The answer in place of a backend that cannot be had, with the reason.
pub open spec fn unavailable_view(message: Seq<char>) -> ReplyView {
    response_view(STATUS_SERVICE_UNAVAILABLE, message)
}

/// What is done for a request whose path belongs to the servant with the
/// given name and backends, at the counter value `count`.
pub open spec fn servant_respond(
    name: Seq<char>,
    addrs: Seq<Seq<char>>,
    count: usize,
    path: Seq<char>,
    query: Option<Seq<char>>,
) -> RespondView {
    if addrs.len() == 0 {
        RespondView {
            target: Some(name),
            action: ActionView::Answer(unavailable_view("servant has no backend"@)),
        }
    } else {
        let uri = forward_uri_text(addrs[turn(count as int, addrs.len() as int)], path, query);
        uri_respond(name, uri, is_uri(uri))
    }
}

/// What is done for a request to a path: the answer that no route was found
/// where the path belongs to no servant, else what the servant's turn gives.
pub open spec fn route_respond(
    servants: Seq<Servant>,
    exact: Map<Seq<char>, usize>,
    prefix: Map<Seq<char>, usize>,
    count: usize,
    path: Seq<char>,
    query: Option<Seq<char>>,
) -> RespondView {
    match route_of(exact, prefix, path) {
        Some(i) => servant_respond(
            servants[i as int].name@,
            addresses(servants[i as int].servers@),
            count,
            path,
            query,
        ),
        None => RespondView { target: None, action: ActionView::Answer(not_found_view()) },
    }
}

/// The address a request is sent to: `http://`, the backend, the path and,
/// after a question mark, the query where there is one.
pub fn forward_uri(addr: &str, path: &str, query: &Option<String>) -> (uri: String)
    ensures
        uri@ == forward_uri_text(addr@, path@, option_text(*query)),
{
    let mut uri = String::from_str("http://");
    uri.append(addr);
    uri.append(path);
    match query {
        Some(q) => {
            uri.append("?");
            uri.append(q.as_str());
        },
        None => {},
    }
    assert(uri@ =~= forward_uri_text(addr@, path@, option_text(*query)));
    uri
}

/// The answer in place of a backend that cannot be had, with the reason.
pub fn unavailable(message: String) -> (reply: Reply)
    ensures
        reply@ == unavailable_view(message@),
{
    to_response(STATUS_SERVICE_UNAVAILABLE, message)
}

/// The answer to a request for another protocol: the proxy changes none.
pub fn upgrade_refused() -> (reply: Reply)
    ensures
        reply@ == response_view(STATUS_NOT_IMPLEMENTED, "protocol upgrade is not supported"@),
{
    to_response(STATUS_NOT_IMPLEMENTED, String::from_str("protocol upgrade is not supported"))
}

/// Which way a request is answered: by an upgrade where it asks for one,
/// else by forwarding.
pub fn to_respond_kind(head: &RequestHead) -> (kind: RespondKind)
    ensures
        kind == if head@.upgrade {
            RespondKind::Upgrade
        } else {
            RespondKind::Forward
        },
{
    if head.upgrade {
        RespondKind::Upgrade
    } else {
        RespondKind::Forward
    }
}

/// What is done with an address once it is known whether it is a URI.
pub open spec fn uri_respond(name: Seq<char>, uri: Seq<char>, valid: bool) -> RespondView {
    if valid {
        RespondView { target: Some(name), action: ActionView::Send(uri) }
    } else {
        RespondView {
            target: Some(name),
            action: ActionView::Answer(unavailable_view("backend address is no URI"@)),
        }
    }
}

impl Servant {
    /// What is done for a request to this servant at the counter value
    /// `count`: it is sent to the backend whose turn it is; a servant
    /// without backends, or a backend whose address gives no URI, is
    /// answered for as unavailable.
    pub fn respond_at(&self, count: usize, path: &str, query: &Option<String>) -> (respond: Respond)
        ensures
            respond@ == servant_respond(
                self.name@,
                addresses(self.servers@),
                count,
                path@,
                option_text(*query),
            ),
    {
        let target = Some(self.name.clone());
        match self.server_at(count) {
            None => Respond {
                target,
                action: Action::Answer(unavailable(String::from_str("servant has no backend"))),
            },
            Some(server) => {
                let uri = forward_uri(server.addr.as_str(), path, query);
                let valid = uri_parses(uri.as_str());
                Respond::for_uri(self.name.as_str(), uri, valid)
            },
        }
    }
}

impl Respond {
    /// An action for a servant.
    pub fn new(action: Action, target: &str) -> (respond: Self)
        ensures
            respond@ == (RespondView { target: Some(target@), action: action@ }),
    {
        Respond { target: Some(String::from_str(target)), action }
    }

    /// What is done with an address for a servant once it is known whether
    /// it is a URI: the request is sent there, or the servant is answered for
    /// as unavailable.
    pub fn for_uri(target: &str, uri: String, valid: bool) -> (respond: Self)
        ensures
            respond@ == uri_respond(target@, uri@, valid),
    {
        if valid {
            Respond::new(Action::Send(uri), target)
        } else {
            Respond::new(
                Action::Answer(unavailable(String::from_str("backend address is no URI"))),
                target,
            )
        }
    }

    /// What is done for a request that is forwarded, at the counter value
    /// `count` of the servant its path belongs to.
    pub fn from_route_at(route: &Route, head: &RequestHead, count: usize) -> (respond: Self)
        ensures
            respond@ == route_respond(
                route.servants(),
                route.exact(),
                route.prefix(),
                count,
                head@.path,
                head@.query,
            ),
    {
        match route.lookup(head.path.as_str()) {
            Some(index) => route.servant(index).respond_at(count, head.path.as_str(), &head.query),
            None => Respond { target: None, action: Action::Answer(not_found()) },
        }
    }

    /// What is done for a request of the given kind. A request that is
    /// forwarded draws from the counter of the servant its path belongs to;
    /// the counter is shared, so the value drawn is not determined here.
    /// A request for an upgrade is not answered here.
    pub fn from_kind(kind: RespondKind, route: &Route, head: &RequestHead) -> (respond: Self)
        requires
            kind == RespondKind::Forward,
        ensures
            exists|count: usize|
                respond@ == #[trigger] route_respond(
                    route.servants(),
                    route.exact(),
                    route.prefix(),
                    count,
                    head@.path,
                    head@.query,
                ),
    {
        match route.lookup(head.path.as_str()) {
            Some(index) => {
                let servant = route.servant(index);
                let count = servant.state.next_count();
                let respond = servant.respond_at(count, head.path.as_str(), &head.query);
                assert(respond@ == route_respond(
                    route.servants(),
                    route.exact(),
                    route.prefix(),
                    count,
                    head@.path,
                    head@.query,
                ));
                respond
            },
            None => {
                let respond = Respond { target: None, action: Action::Answer(not_found()) };
                assert(respond@ == route_respond(
                    route.servants(),
                    route.exact(),
                    route.prefix(),
                    0,
                    head@.path,
                    head@.query,
                ));
                respond
            },
        }
    }
}

/// The most bytes of a body that are reported with a span.
pub const SPAN_MESSAGE_LIMIT: usize = 4096;

/// How many bytes of a body of `len` bytes are reported with a span: all of
/// it up to the limit.
pub fn span_message_len(len: usize) -> (kept: usize)
    ensures
        kept == if len <= SPAN_MESSAGE_LIMIT {
            len
        } else {
            SPAN_MESSAGE_LIMIT
        },
{
    if len <= SPAN_MESSAGE_LIMIT {
        len
    } else {
        SPAN_MESSAGE_LIMIT
    }
}

/// What to report of a sampled request once its answer is known.
#[derive(Clone, Debug, PartialEq, Eq)]
pub struct SpanRecord {
    pub trace: Tracing,
    /// The name of the servant.
    pub target: String,
    pub status_code: u16,
}

/// What is done with an answer before it goes back to the caller.
#[derive(Clone, Debug, PartialEq, Eq)]
pub struct ResponsePlan {
    /// Whether the body is read whole, to be reported with the span.
    pub buffer_body: bool,
    /// The span to report, without waiting for it.
    pub span: Option<SpanRecord>,
    /// The headers to set on the answer.
    pub headers: Vec<HeaderLine>,
}

/// Whether a status tells of success.
pub open spec fn is_success(status: u16) -> bool {
    200 <= status < 300
}

/// The span of a sampled request, where it was meant for a servant.
pub open spec fn span_of(trace: Tracing, target: Option<Seq<char>>, status: u16) -> Option<
    (Tracing, Seq<char>, u16),
> {
    match target {
        Some(name) => Some((trace, name, status)),
        None => None,
    }
}

/// What a span record holds.
pub open spec fn span_view(span: Option<SpanRecord>) -> Option<(Tracing, Seq<char>, u16)> {
    match span {
        Some(record) => Some((record.trace, record.target@, record.status_code)),
        None => None,
    }
}

/// What is done with the answer to a request. Every answer gets the
/// identifiers of its trace as headers, and the sampling mark where the
/// request is sampled. The answer to a sampled request is read whole where
/// its status tells of no success, and a span is reported for it where the
/// request was meant for a servant.
pub fn trace_respond(sampling: bool, trace: Tracing, target: &Option<String>, status: u16) -> (plan:
    ResponsePlan)
    ensures
        plan.buffer_body == (sampling && !is_success(status)),
        span_view(plan.span) == if sampling {
            span_of(trace, option_text(*target), status)
        } else {
            None
        },
        lines_view(plan.headers@) == tracing_lines(trace, sampling),
{
    if !sampling {
        return ResponsePlan {
            buffer_body: false,
            span: None,
            headers: set_tracing_header(trace, sampling),
        };
    }
    let buffer_body = !(200 <= status && status < 300);
    let span = match target {
        Some(name) => Some(SpanRecord { trace, target: name.clone(), status_code: status }),
        None => None,
    };
    ResponsePlan { buffer_body, span, headers: set_tracing_header(trace, sampling) }
}

/// What becomes of a request.
#[derive(Clone, Debug, PartialEq, Eq)]
pub enum Proxied {
    /// A step of the pipeline turned it away, with this answer.
    Rejected(Reply),
    /// It asks for another protocol.
    Upgrade,
    /// It passed the pipeline: whether it is sampled, the identifiers of its
    /// trace, and what is done for it.
    Forward { sampling: bool, trace: Tracing, respond: Respond },
}

/// What a `Proxied` holds.
pub enum ProxiedView {
    Rejected(ReplyView),
    Upgrade,
    Forward { sampling: bool, trace: Tracing, respond: RespondView },
}

impl View for Proxied {
    type V = ProxiedView;

    open spec fn view(&self) -> ProxiedView {
        match *self {
            Proxied::Rejected(reply) => ProxiedView::Rejected(reply@),
            Proxied::Upgrade => ProxiedView::Upgrade,
            Proxied::Forward { sampling, trace, respond } => ProxiedView::Forward {
                sampling,
                trace,
                respond: respond@,
            },
        }
    }
}

/// What becomes of a request once it has passed the steps `steps`, and its
/// head as they leave it.
pub open spec fn proxy_outcome(
    steps: Seq<Middleware>,
    h: HeadView,
    selected: Set<usize>,
    servants: Seq<Servant>,
    exact: Map<Seq<char>, usize>,
    prefix: Map<Seq<char>, usize>,
    draws: Draws,
    count: usize,
) -> (HeadView, ProxiedView) {
    let (after, rejected) = pipeline_outcome(steps, h, selected, draws);
    match rejected {
        Some(e) => (after, ProxiedView::Rejected(response_view(e.code, e.message))),
        None => if after.upgrade {
            (after, ProxiedView::Upgrade)
        } else {
            (
                after,
                ProxiedView::Forward {
                    sampling: after.sampling is Some,
                    trace: head_trace(after, draws.trace),
                    respond: route_respond(servants, exact, prefix, count, after.path, after.query),
                },
            )
        },
    }
}

/// Takes a request through the steps and decides what becomes of it, with
/// what the request drew and the counter value `count` given.
pub fn proxy_with(
    state: &ContextState,
    route: &Route,
    head: &mut RequestHead,
    draws: &Draws,
    count: usize,
) -> (proxied: Proxied)
    ensures
        (final(head)@, proxied@) == proxy_outcome(
            canonical_steps(),
            old(head)@,
            state.selected(),
            route.servants(),
            route.exact(),
            route.prefix(),
            *draws,
            count,
        ),
{
    let steps = Middleware::canonical();
    match run_pipeline_with(&steps, state, head, draws) {
        Err(e) => Proxied::Rejected(to_response(e.code, e.message)),
        Ok(_) => {
            let sampling = is_sampling(head);
            let trace = parse_trace_with(head, draws.trace);
            match to_respond_kind(head) {
                RespondKind::Upgrade => Proxied::Upgrade,
                RespondKind::Forward => Proxied::Forward {
                    sampling,
                    trace,
                    respond: Respond::from_route_at(route, head, count),
                },
            }
        },
    }
}

/// Takes a request through the steps and decides what becomes of it. What
/// the request draws, and the value of the servant's counter, are not
/// determined here: the outcome is the one that `proxy_with` gives for some
/// draws and some counter value.
pub fn proxy(state: &ContextState, route: &Route, head: &mut RequestHead) -> (proxied: Proxied)
    ensures
        exists|draws: Draws, count: usize|
            draws.wf() && (final(head)@, proxied@) == #[trigger] proxy_outcome(
                canonical_steps(),
                old(head)@,
                state.selected(),
                route.servants(),
                route.exact(),
                route.prefix(),
                draws,
                count,
            ),
{
    let draws = Draws::draw();
    let steps = Middleware::canonical();
    let ghost start = head@;
    match run_pipeline_with(&steps, state, head, &draws) {
        Err(e) => {
            let proxied = Proxied::Rejected(to_response(e.code, e.message));
            assert((head@, proxied@) == proxy_outcome(
                canonical_steps(),
                start,
                state.selected(),
                route.servants(),
                route.exact(),
                route.prefix(),
                draws,
                0,
            ));
            proxied
        },
        Ok(_) => {
            let sampling = is_sampling(head);
            let trace = parse_trace_with(head, draws.trace);
            match to_respond_kind(head) {
                RespondKind::Upgrade => {
                    let proxied = Proxied::Upgrade;
                    assert((head@, proxied@) == proxy_outcome(
                        canonical_steps(),
                        start,
                        state.selected(),
                        route.servants(),
                        route.exact(),
                        route.prefix(),
                        draws,
                        0,
                    ));
                    proxied
                },
                RespondKind::Forward => {
                    let respond = Respond::from_kind(RespondKind::Forward, route, head);
                    let ghost count = choose|count: usize|
                        respond@ == #[trigger] route_respond(
                            route.servants(),
                            route.exact(),
                            route.prefix(),
                            count,
                            head@.path,
                            head@.query,
                        );
                    let proxied = Proxied::Forward { sampling, trace, respond };
                    assert((head@, proxied@) == proxy_outcome(
                        canonical_steps(),
                        start,
                        state.selected(),
                        route.servants(),
                        route.exact(),
                        route.prefix(),
                        draws,
                        count,
                    ));
                    proxied
                },
            }
        },
    }
}

} // verus!
