use hpx::error::{
    bad_request, not_found, status_ok, to_response, AppResponseError, Payload, Reply,
};
use hpx::forward::{
    forward_uri, proxy, proxy_with, span_message_len, to_respond_kind, trace_respond, unavailable,
    Action, Proxied, Respond, RespondKind, ResponsePlan, SpanRecord,
};
use hpx::middleware::Draws;
use hpx::request::RequestHead;
use hpx::route::{
    EndpointsMap, Route, RouteEndpoint, RouteKind, RoutePath, Servant, ServantState, Server,
};
use hpx::sampling::random_set;
use hpx::state::ContextState;
use hpx::strmap::StringMap;
use hpx::tracing::{HeaderLine, Tracing};
use std::sync::atomic::AtomicUsize;
use std::sync::Arc;

fn table(entries: &[(&str, &[(&str, RouteKind)], &[&str])]) -> Route {
    let mut ep: EndpointsMap = StringMap::new();
    for (name, routes, addrs) in entries.iter() {
        ep.insert(
            name.to_string(),
            RouteEndpoint {
                routes: routes.iter().map(|(p, k)| RoutePath::new(p.to_string(), *k)).collect(),
                endpoints: addrs.iter().map(|a| a.to_string()).collect(),
            },
        );
    }
    Route::from_endpoints(&ep)
}

fn svc_table() -> Route {
    table(&[("svc", &[("/api", RouteKind::Precise)], &["10.0.0.1:8080"])])
}

fn state(selected: usize) -> ContextState {
    ContextState { sampling: random_set(100, selected), counter: AtomicUsize::new(0) }
}

fn draws() -> Draws {
    Draws { slot: 3, trace: Tracing { trace_id: 11, span_id: 22, parent_id: None }, request_id: 77 }
}

fn not_found_reply() -> Reply {
    Reply {
        status: 404,
        json: true,
        payload: Payload::Error(AppResponseError {
            code: 404,
            message: "route not found".to_string(),
            status_code: 404,
        }),
    }
}

fn text_reply(status: u16, text: &str) -> Reply {
    Reply { status, json: false, payload: Payload::Text(text.to_string()) }
}

#[test]
fn registered_path_is_forwarded_to_its_backend() {
    let route = svc_table();
    let head = RequestHead::new("/api".to_string());
    let respond = Respond::from_kind(RespondKind::Forward, &route, &head);
    assert_eq!(
        respond,
        Respond {
            target: Some("svc".to_string()),
            action: Action::Send("http://10.0.0.1:8080/api".to_string()),
        }
    );
}

#[test]
fn unknown_path_is_answered_not_found() {
    let route = svc_table();
    let head = RequestHead::new("/unknown".to_string());
    let respond = Respond::from_kind(RespondKind::Forward, &route, &head);
    assert_eq!(respond, Respond { target: None, action: Action::Answer(not_found_reply()) });
    assert_eq!(Respond::from_route_at(&route, &head, 9), respond);
}

#[test]
fn not_found_carries_its_code_and_message() {
    assert_eq!(not_found(), not_found_reply());
}

#[test]
fn error_is_made_of_its_parts() {
    assert_eq!(
        AppResponseError::from(404, "route not found", 404),
        AppResponseError { code: 404, message: "route not found".to_string(), status_code: 404 }
    );
}

#[test]
fn bad_request_carries_what_was_wrong() {
    assert_eq!(bad_request("expected value".to_string()), text_reply(400, "expected value"));
}

#[test]
fn status_ok_has_no_body() {
    assert_eq!(status_ok(), Reply { status: 200, json: false, payload: Payload::Empty });
}

#[test]
fn response_takes_the_code_as_its_status() {
    assert_eq!(to_response(413, "too big".to_string()), text_reply(413, "too big"));
    assert_eq!(to_response(100, "".to_string()), text_reply(100, ""));
    assert_eq!(to_response(999, "x".to_string()), text_reply(999, "x"));
}

#[test]
fn code_that_is_no_status_is_answered_with_success() {
    assert_eq!(to_response(99, "x".to_string()), text_reply(200, "x"));
    assert_eq!(to_response(1000, "x".to_string()), text_reply(200, "x"));
    assert_eq!(to_response(0, "x".to_string()), text_reply(200, "x"));
    assert_eq!(to_response(u16::MAX, "x".to_string()), text_reply(200, "x"));
}

#[test]
fn unreachable_backend_is_answered_unavailable() {
    assert_eq!(
        unavailable("error trying to connect: Connection refused".to_string()),
        text_reply(503, "error trying to connect: Connection refused")
    );
}

#[test]
fn address_is_made_of_backend_path_and_query() {
    assert_eq!(forward_uri("10.0.0.1:8080", "/api", &None), "http://10.0.0.1:8080/api");
    assert_eq!(
        forward_uri("host:1", "/a/b", &Some("x=1&y=%20".to_string())),
        "http://host:1/a/b?x=1&y=%20"
    );
    assert_eq!(forward_uri("host", "/", &Some("".to_string())), "http://host/?");
    assert_eq!(forward_uri("", "", &None), "http://");
}

#[test]
fn query_goes_with_the_request() {
    let route = svc_table();
    let mut head = RequestHead::new("/api".to_string());
    head.query = Some("page=2&sort=name".to_string());
    assert_eq!(
        Respond::from_route_at(&route, &head, 0).action,
        Action::Send("http://10.0.0.1:8080/api?page=2&sort=name".to_string())
    );
}

#[test]
fn requests_to_a_servant_go_round_its_backends() {
    let route = table(&[("svc", &[("/", RouteKind::Fuzzy)], &["a:1", "b:1", "c:1"])]);
    let head = RequestHead::new("/x".to_string());
    let mut sent = Vec::new();
    for _ in 0..6 {
        match Respond::from_kind(RespondKind::Forward, &route, &head).action {
            Action::Send(uri) => sent.push(uri),
            Action::Answer(reply) => panic!("answered {:?}", reply),
        }
    }
    assert_eq!(
        sent,
        vec!["http://a:1/x", "http://b:1/x", "http://c:1/x", "http://a:1/x", "http://b:1/x", "http://c:1/x"]
    );
    assert_eq!(
        Respond::from_route_at(&route, &head, 7).action,
        Action::Send("http://b:1/x".to_string())
    );
}

#[test]
fn servant_without_backends_is_answered_unavailable() {
    let route = table(&[("idle", &[("/idle", RouteKind::Precise)], &[])]);
    let head = RequestHead::new("/idle".to_string());
    let respond = Respond::from_kind(RespondKind::Forward, &route, &head);
    assert_eq!(
        respond,
        Respond {
            target: Some("idle".to_string()),
            action: Action::Answer(text_reply(503, "servant has no backend")),
        }
    );
}

#[test]
fn backend_whose_address_is_no_uri_is_answered_unavailable() {
    let servant = Servant {
        name: "odd".to_string(),
        servers: vec![Server::new("not a host".to_string())],
        state: Arc::new(ServantState::new()),
    };
    assert_eq!(
        servant.respond_at(0, "/x", &None),
        Respond {
            target: Some("odd".to_string()),
            action: Action::Answer(text_reply(503, "backend address is no URI")),
        }
    );
}

#[test]
fn respond_is_made_for_a_servant() {
    assert_eq!(
        Respond::new(Action::Send("http://a/".to_string()), "svc"),
        Respond { target: Some("svc".to_string()), action: Action::Send("http://a/".to_string()) }
    );
}

#[test]
fn upgrade_is_told_apart_from_forwarding() {
    let mut head = RequestHead::new("/ws".to_string());
    assert_eq!(to_respond_kind(&head), RespondKind::Forward);
    head.upgrade = true;
    assert_eq!(to_respond_kind(&head), RespondKind::Upgrade);
}

#[test]
fn answer_to_an_unsampled_request_carries_its_identifiers_alone() {
    let trace = Tracing { trace_id: 1, span_id: 2, parent_id: None };
    assert_eq!(
        trace_respond(false, trace, &Some("svc".to_string()), 500),
        ResponsePlan {
            buffer_body: false,
            span: None,
            headers: vec![
                HeaderLine { name: "x-trace-id", value: b"1".to_vec() },
                HeaderLine { name: "x-span-id", value: b"2".to_vec() },
            ],
        }
    );
    assert_eq!(trace_respond(false, trace, &None, 200).headers.len(), 2);
}

#[test]
fn answer_to_a_sampled_request_carries_its_trace() {
    let trace = Tracing { trace_id: 123, span_id: 456, parent_id: Some(789) };
    let plan = trace_respond(true, trace, &Some("svc".to_string()), 200);
    assert_eq!(
        plan,
        ResponsePlan {
            buffer_body: false,
            span: Some(SpanRecord { trace, target: "svc".to_string(), status_code: 200 }),
            headers: vec![
                HeaderLine { name: "x-trace-id", value: b"123".to_vec() },
                HeaderLine { name: "x-span-id", value: b"456".to_vec() },
                HeaderLine { name: "x-sampling", value: b"true".to_vec() },
            ],
        }
    );
}

#[test]
fn failed_answer_to_a_sampled_request_is_read_whole() {
    let trace = Tracing { trace_id: 1, span_id: 2, parent_id: None };
    assert!(trace_respond(true, trace, &None, 503).buffer_body);
    assert!(trace_respond(true, trace, &None, 404).buffer_body);
    assert!(trace_respond(true, trace, &None, 300).buffer_body);
    assert!(trace_respond(true, trace, &None, 199).buffer_body);
    assert!(!trace_respond(true, trace, &None, 200).buffer_body);
    assert!(!trace_respond(true, trace, &None, 299).buffer_body);
}

#[test]
fn no_span_is_reported_without_a_servant() {
    let trace = Tracing { trace_id: 1, span_id: 2, parent_id: None };
    let plan = trace_respond(true, trace, &None, 404);
    assert_eq!(plan.span, None);
    assert_eq!(plan.headers.len(), 3);
}

#[test]
fn span_message_is_capped() {
    assert_eq!(span_message_len(0), 0);
    assert_eq!(span_message_len(4096), 4096);
    assert_eq!(span_message_len(4097), 4096);
    assert_eq!(span_message_len(usize::MAX), 4096);
}

#[test]
fn request_passes_the_steps_and_is_forwarded() {
    let route = svc_table();
    let mut head = RequestHead::new("/api".to_string());
    head.parent_id = Some(b"789".to_vec());
    let proxied = proxy_with(&state(100), &route, &mut head, &draws(), 0);
    assert_eq!(
        proxied,
        Proxied::Forward {
            sampling: true,
            trace: Tracing { trace_id: 11, span_id: 22, parent_id: Some(789) },
            respond: Respond {
                target: Some("svc".to_string()),
                action: Action::Send("http://10.0.0.1:8080/api".to_string()),
            },
        }
    );
    assert_eq!(head.trace_id, Some(b"11".to_vec()));
    assert_eq!(head.span_id, Some(b"22".to_vec()));
    assert_eq!(head.sampling, Some(b"true".to_vec()));
}

#[test]
fn request_to_an_unknown_path_passes_the_steps_and_is_not_found() {
    let route = svc_table();
    let mut head = RequestHead::new("/unknown".to_string());
    let proxied = proxy_with(&state(0), &route, &mut head, &draws(), 0);
    assert_eq!(
        proxied,
        Proxied::Forward {
            sampling: false,
            trace: Tracing { trace_id: 11, span_id: 22, parent_id: None },
            respond: Respond { target: None, action: Action::Answer(not_found_reply()) },
        }
    );
}

#[test]
fn request_for_an_upgrade_is_set_apart() {
    let route = svc_table();
    let mut head = RequestHead::new("/api".to_string());
    head.upgrade = true;
    assert_eq!(proxy_with(&state(0), &route, &mut head, &draws(), 0), Proxied::Upgrade);
    assert_eq!(proxy(&state(0), &route, &mut head), Proxied::Upgrade);
}

#[test]
fn proxy_draws_for_itself() {
    let route = svc_table();
    let mut head = RequestHead::new("/api".to_string());
    head.trace_id = Some(b"123".to_vec());
    head.span_id = Some(b"456".to_vec());
    match proxy(&state(100), &route, &mut head) {
        Proxied::Forward { sampling, trace, respond } => {
            assert!(!sampling);
            assert_eq!(trace, Tracing { trace_id: 123, span_id: 456, parent_id: None });
            assert_eq!(respond.action, Action::Send("http://10.0.0.1:8080/api".to_string()));
        },
        other => panic!("unexpected {:?}", other),
    }
    let mut fresh = RequestHead::new("/api".to_string());
    match proxy(&state(100), &route, &mut fresh) {
        Proxied::Forward { sampling, trace, .. } => {
            assert!(sampling);
            assert_ne!(trace.trace_id, 0);
            assert_ne!(trace.span_id, 0);
            assert_eq!(fresh.trace_id, Some(trace.trace_id.to_string().into_bytes()));
            assert_eq!(fresh.span_id, Some(trace.span_id.to_string().into_bytes()));
        },
        other => panic!("unexpected {:?}", other),
    }
}

#[test]
fn proxy_keeps_serving_after_a_failure() {
    let route = table(&[
        ("down", &[("/down", RouteKind::Precise)], &[]),
        ("up", &[("/up", RouteKind::Precise)], &["10.0.0.9:80"]),
    ]);
    let st = state(0);
    let mut first = RequestHead::new("/down".to_string());
    match proxy(&st, &route, &mut first) {
        Proxied::Forward { respond, .. } => {
            assert_eq!(respond.action, Action::Answer(text_reply(503, "servant has no backend")));
        },
        other => panic!("unexpected {:?}", other),
    }
    let mut second = RequestHead::new("/up".to_string());
    match proxy(&st, &route, &mut second) {
        Proxied::Forward { respond, .. } => {
            assert_eq!(respond.action, Action::Send("http://10.0.0.9:80/up".to_string()));
        },
        other => panic!("unexpected {:?}", other),
    }
}

#[test]
fn upgrade_is_refused_in_so_many_words() {
    assert_eq!(
        hpx::forward::upgrade_refused(),
        text_reply(501, "protocol upgrade is not supported")
    );
}

#[test]
fn address_that_is_a_uri_is_sent_to() {
    assert_eq!(
        Respond::for_uri("svc", "http://a:1/x".to_string(), true),
        Respond { target: Some("svc".to_string()), action: Action::Send("http://a:1/x".to_string()) }
    );
    assert_eq!(
        Respond::for_uri("svc", "http://a b/".to_string(), false),
        Respond {
            target: Some("svc".to_string()),
            action: Action::Answer(text_reply(503, "backend address is no URI")),
        }
    );
}
