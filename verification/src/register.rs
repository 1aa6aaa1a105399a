//! The control channel: a new route table is registered whole, and the
//! servants of the table in use are shown.

use crate::error::{
    bad_request, not_found, not_found_view, status_ok, Payload, PayloadView, Reply, ReplyView,
    STATUS_BAD_REQUEST, STATUS_OK,
};
use crate::route::{
    claimed_paths, endpoint_views, servant_matches, EndpointView, EndpointsMap, Route,
    RouteEndpoint, RouteKind, RoutePath,
};
use crate::strmap::StringMap;
use crate::text::str_eq;
use std::sync::Arc;
use vstd::prelude::*;

verus! {

/// What one servant registers, as it comes over the control channel.
#[derive(Clone, Debug, PartialEq, Eq)]
pub struct ServiceRoute {
    pub servant: String,
    pub routes: Vec<RoutePath>,
    pub endpoints: Vec<String>,
}

/// What is asked over the control channel.
#[derive(Clone, Copy, Debug, PartialEq, Eq, Structural)]
pub enum ControlCommand {
    /// A new table is registered.
    Register,
    /// The servants of the table in use are shown.
    Inspect,
    /// Anything else.
    Unknown,
}

/// A request on the control channel, with what was read of its body.
#[derive(Debug)]
pub enum ControlRequest {
    /// The servants to register, or what was wrong with the body.
    Register(Result<Vec<ServiceRoute>, String>),
    Inspect,
    Unknown,
}

/// The table in use. Requests take it as it is; a reload puts a new table in
/// its place, whole.
pub struct RouteSlot {
    current: Arc<Route>,
}

/// The command that a method and a path stand for.
pub open spec fn command_of(method: Seq<char>, path: Seq<char>) -> ControlCommand {
    if method == "POST"@ && path == "/route/register"@ {
        ControlCommand::Register
    } else if method == "GET"@ && path == "/routes"@ {
        ControlCommand::Inspect
    } else {
        ControlCommand::Unknown
    }
}

/// What a servant registers, without its name.
pub open spec fn endpoint_of(service: ServiceRoute) -> EndpointView {
    EndpointView {
        routes: service.routes@.map_values(|r: RoutePath| r@),
        endpoints: service.endpoints@.map_values(|a: String| a@),
    }
}

/// The names of the first `n` servants that register, each once, in the
/// order in which they first come; and under each name what the last servant
/// of that name registers.
pub open spec fn collected(services: Seq<ServiceRoute>, n: nat) -> (
    Seq<Seq<char>>,
    Seq<EndpointView>,
)
    decreases n,
{
    if n == 0 {
        (Seq::empty(), Seq::empty())
    } else {
        let (names, endpoints) = collected(services, (n - 1) as nat);
        let name = services[n - 1].servant@;
        if names.contains(name) {
            (names, endpoints.update(names.index_of(name), endpoint_of(services[n - 1])))
        } else {
            (names.push(name), endpoints.push(endpoint_of(services[n - 1])))
        }
    }
}

/// The names of the servants that register, each once.
pub open spec fn registered_names(services: Seq<ServiceRoute>) -> Seq<Seq<char>> {
    collected(services, services.len()).0
}

/// What is registered under each name.
pub open spec fn registered_endpoints(services: Seq<ServiceRoute>) -> Seq<EndpointView> {
    collected(services, services.len()).1
}

/// Whether a table is the one that the servants register.
pub open spec fn is_table_of(table: Route, services: Seq<ServiceRoute>) -> bool {
    &&& table.wf()
    &&& table.names() == registered_names(services)
    &&& forall|i: int|
        0 <= i < registered_names(services).len() ==> servant_matches(
            #[trigger] table.servants()[i],
            registered_names(services)[i],
            registered_endpoints(services)[i],
        )
    &&& table.exact() == claimed_paths(registered_endpoints(services), RouteKind::Precise)
    &&& table.prefix() == claimed_paths(registered_endpoints(services), RouteKind::Fuzzy)
}

/// The command that a method and a path stand for.
pub fn control_command(method: &str, path: &str) -> (command: ControlCommand)
    ensures
        command == command_of(method@, path@),
{
    if str_eq(method, "POST") && str_eq(path, "/route/register") {
        ControlCommand::Register
    } else if str_eq(method, "GET") && str_eq(path, "/routes") {
        ControlCommand::Inspect
    } else {
        ControlCommand::Unknown
    }
}

/// A copy of a list of registered paths.
pub fn copy_routes(routes: &Vec<RoutePath>) -> (copy: Vec<RoutePath>)
    ensures
        copy@ == routes@,
{
    let mut copy: Vec<RoutePath> = Vec::new();
    let mut i: usize = 0;
    while i < routes.len()
        invariant
            i <= routes.len(),
            copy@ == routes@.take(i as int),
        decreases routes.len() - i,
    {
        copy.push(RoutePath::new(routes[i].path.clone(), routes[i].kind));
        assert(copy@ =~= routes@.take(i + 1));
        i += 1;
    }
    assert(routes@.take(i as int) =~= routes@);
    copy
}

/// A copy of a list of addresses.
pub fn copy_addresses(addresses: &Vec<String>) -> (copy: Vec<String>)
    ensures
        copy@ == addresses@,
{
    let mut copy: Vec<String> = Vec::new();
    let mut i: usize = 0;
    while i < addresses.len()
        invariant
            i <= addresses.len(),
            copy@ == addresses@.take(i as int),
        decreases addresses.len() - i,
    {
        copy.push(addresses[i].clone());
        assert(copy@ =~= addresses@.take(i + 1));
        i += 1;
    }
    assert(addresses@.take(i as int) =~= addresses@);
    copy
}

/// What the servants register, by name. Of several servants with one name
/// the last counts, in the place of the first.
pub fn collect_endpoints(services: &Vec<ServiceRoute>) -> (ep: EndpointsMap)
    ensures
        ep.wf(),
        ep.keys() == registered_names(services@),
        endpoint_views(ep.values()) == registered_endpoints(services@),
{
    let mut ep: EndpointsMap = StringMap::new();
    let mut i: usize = 0;
    while i < services.len()
        invariant
            i <= services.len(),
            ep.wf(),
            ep.keys() == collected(services@, i as nat).0,
            endpoint_views(ep.values()) == collected(services@, i as nat).1,
        decreases services.len() - i,
    {
        let service = &services[i];
        let endpoint = RouteEndpoint {
            routes: copy_routes(&service.routes),
            endpoints: copy_addresses(&service.endpoints),
        };
        assert(endpoint@ == endpoint_of(*service));
        let ghost before = ep.values();
        ep.insert(service.servant.clone(), endpoint);
        proof {
            if ep.keys().len() == before.len() {
                let at = collected(services@, i as nat).0.index_of(service.servant@);
                assert(endpoint_views(ep.values()) =~= endpoint_views(before).update(
                    at,
                    endpoint_of(*service),
                ));
            } else {
                assert(endpoint_views(ep.values()) =~= endpoint_views(before).push(
                    endpoint_of(*service),
                ));
            }
        }
        i += 1;
    }
    ep
}

/// Builds the table of what the servants register.
pub fn build_table(services: &Vec<ServiceRoute>) -> (route: Route)
    ensures
        is_table_of(route, services@),
{
    let ep = collect_endpoints(services);
    let route = Route::from_endpoints(&ep);
    proof {
        assert(route.names() =~= registered_names(services@)) by {
            assert forall|i: int| 0 <= i < route.names().len() implies route.names()[i]
                == registered_names(services@)[i] by {
                assert(servant_matches(route.servants()[i], ep.keys()[i], ep.values()[i]@));
            }
        }
    }
    route
}

/// What a request on the control channel makes of a table.
pub open spec fn control_outcome(
    table: Route,
    request: ControlRequest,
    reply: ReplyView,
    fresh: Option<Route>,
) -> bool {
    match request {
        ControlRequest::Register(Ok(services)) => {
            &&& reply == (ReplyView { status: STATUS_OK, json: false, payload: PayloadView::Empty })
            &&& fresh is Some
            &&& is_table_of(fresh.unwrap(), services@)
        },
        ControlRequest::Register(Err(e)) => {
            &&& reply == (ReplyView {
                status: STATUS_BAD_REQUEST,
                json: false,
                payload: PayloadView::Text(e@),
            })
            &&& fresh is None
        },
        ControlRequest::Inspect => {
            &&& reply == (ReplyView {
                status: STATUS_OK,
                json: true,
                payload: PayloadView::Servants(table.names()),
            })
            &&& fresh is None
        },
        ControlRequest::Unknown => {
            &&& reply == not_found_view()
            &&& fresh is None
        },
    }
}

/// Answers a request on the control channel against the table in use. With
/// the answer comes the table to put in its place, where one was
/// registered; the table in use is only read.
pub fn serve_table(table: &Route, request: ControlRequest) -> (out: (Reply, Option<Route>))
    ensures
        control_outcome(*table, request, out.0@, out.1),
{
    match request {
        ControlRequest::Register(Ok(services)) => (status_ok(), Some(build_table(&services))),
        ControlRequest::Register(Err(e)) => (bad_request(e), None),
        ControlRequest::Inspect => (
            Reply { status: STATUS_OK, json: true, payload: Payload::Servants(table.servant_names()) },
            None,
        ),
        ControlRequest::Unknown => (not_found(), None),
    }
}

impl RouteSlot {
    /// The table in use.
    pub closed spec fn table(&self) -> Route {
        *self.current
    }

    /// The table in use is in order.
    pub open spec fn wf(&self) -> bool {
        self.table().wf()
    }

    /// A slot with the table without servants.
    pub fn new() -> (slot: Self)
        ensures
            slot.wf(),
            slot.table().names() == Seq::<Seq<char>>::empty(),
            slot.table().exact() == Map::<Seq<char>, usize>::empty(),
            slot.table().prefix() == Map::<Seq<char>, usize>::empty(),
    {
        let slot = RouteSlot { current: Arc::new(Route::empty()) };
        assert(slot.table().names() =~= Seq::<Seq<char>>::empty());
        slot
    }

    /// The table in use, to be kept for as long as a request needs it.
    pub fn get_route(&self) -> (route: Arc<Route>)
        ensures
            *route == self.table(),
    {
        self.current.clone()
    }

    /// Puts a new table in the place of the one in use.
    pub fn reload_route(&mut self, route: Route)
        ensures
            final(self).table() == route,
    {
        self.current = Arc::new(route);
    }

    /// Builds the table of what the servants register and puts it in the
    /// place of the one in use.
    pub fn register(&mut self, services: &Vec<ServiceRoute>)
        ensures
            is_table_of(final(self).table(), services@),
    {
        self.reload_route(build_table(services));
    }

    /// The names of the servants of the table in use.
    pub fn inspect(&self) -> (names: Vec<String>)
        ensures
            names@.map_values(|n: String| n@) == self.table().names(),
    {
        self.current.servant_names()
    }
}

/// Answers a request on the control channel. A table that was read is
/// registered; a body that could not be read is answered with what was
/// wrong, and the table in use stays; the servants in use are shown;
/// anything else is not found.
pub fn serve_http(slot: &mut RouteSlot, request: ControlRequest) -> (reply: Reply)
    ensures
        old(slot).wf() ==> final(slot).wf(),
        match request {
            ControlRequest::Register(Ok(services)) => {
                &&& reply@ == (ReplyView {
                    status: STATUS_OK,
                    json: false,
                    payload: PayloadView::Empty,
                })
                &&& is_table_of(final(slot).table(), services@)
            },
            ControlRequest::Register(Err(e)) => {
                &&& reply@ == (ReplyView {
                    status: STATUS_BAD_REQUEST,
                    json: false,
                    payload: PayloadView::Text(e@),
                })
                &&& final(slot).table() == old(slot).table()
            },
            ControlRequest::Inspect => {
                &&& reply@ == (ReplyView {
                    status: STATUS_OK,
                    json: true,
                    payload: PayloadView::Servants(old(slot).table().names()),
                })
                &&& final(slot).table() == old(slot).table()
            },
            ControlRequest::Unknown => {
                &&& reply@ == not_found_view()
                &&& final(slot).table() == old(slot).table()
            },
        },
{
    let (reply, fresh) = serve_table(&slot.current, request);
    match fresh {
        Some(route) => slot.reload_route(route),
        None => {},
    }
    reply
}

/// The names that are registered are those of the servants that register,
/// each once: no name of another table is among them.
pub proof fn lemma_registered_names(services: Seq<ServiceRoute>, n: nat)
    requires
        n <= services.len(),
    ensures
        collected(services, n).0.no_duplicates(),
        collected(services, n).0.len() == collected(services, n).1.len(),
        forall|name: Seq<char>|
            collected(services, n).0.contains(name) <==> exists|k: int|
                0 <= k < n && (#[trigger] services[k]).servant@ == name,
    decreases n,
{
    if n > 0 {
        lemma_registered_names(services, (n - 1) as nat);
        let (names, endpoints) = collected(services, (n - 1) as nat);
        let name = services[n - 1].servant@;
        let after = collected(services, n).0;
        assert forall|other: Seq<char>| after.contains(other) implies exists|k: int|
            0 <= k < n && (#[trigger] services[k]).servant@ == other by {
            if names.contains(other) {
                let k = choose|k: int| 0 <= k < n - 1 && (#[trigger] services[k]).servant@ == other;
                assert(services[k].servant@ == other);
            } else {
                let p = choose|p: int| 0 <= p < after.len() && after[p] == other;
                if p < names.len() {
                    assert(names[p] == other);
                }
                assert(services[n - 1].servant@ == other);
            }
        }
        assert forall|other: Seq<char>|
            (exists|k: int| 0 <= k < n && (#[trigger] services[k]).servant@ == other) implies after.contains(
            other,
        ) by {
            let k = choose|k: int| 0 <= k < n && (#[trigger] services[k]).servant@ == other;
            if k < n - 1 {
                assert(names.contains(other));
                let p = choose|p: int| 0 <= p < names.len() && names[p] == other;
                assert(after[p] == other);
            } else {
                if names.contains(name) {
                } else {
                    assert(after[names.len() as int] == name);
                }
            }
        }
    } else {
        assert forall|name: Seq<char>| !collected(services, n).0.contains(name) by {}
    }
}

/// Whether servant `k` is the last of the first `n` with the name `name`.
pub open spec fn is_last_named(services: Seq<ServiceRoute>, n: nat, k: int, name: Seq<char>) -> bool {
    &&& 0 <= k < n
    &&& services[k].servant@ == name
    &&& forall|later: int| k < later < n ==> (#[trigger] services[later]).servant@ != name
}

/// Under each name stands what the last servant of that name registers.
pub proof fn lemma_registered_endpoints(services: Seq<ServiceRoute>, n: nat, p: int)
    requires
        n <= services.len(),
        0 <= p < collected(services, n).0.len(),
    ensures
        p < collected(services, n).1.len(),
        exists|k: int| #[trigger]
            is_last_named(services, n, k, collected(services, n).0[p]) && collected(services, n).1[p]
                == endpoint_of(services[k]),
    decreases n,
{
    lemma_registered_names(services, n);
    if n > 0 {
        lemma_registered_names(services, (n - 1) as nat);
        let (names, endpoints) = collected(services, (n - 1) as nat);
        let name = services[n - 1].servant@;
        let after = collected(services, n).0;
        if after[p] == name {
            assert(is_last_named(services, n, n - 1, name));
            if names.contains(name) {
                assert(names[p] == name);
                assert(names.index_of(name) == p);
            }
        } else {
            assert(p < names.len());
            lemma_registered_endpoints(services, (n - 1) as nat, p);
            let k = choose|k: int| #[trigger]
                is_last_named(services, (n - 1) as nat, k, names[p]) && endpoints[p] == endpoint_of(
                    services[k],
                );
            assert(is_last_named(services, n, k, after[p]));
            if names.contains(name) {
                assert(names.index_of(name) != p);
            }
        }
    }
}

/// What is shown after a table is registered is what was registered: the
/// names of the servants that registered, each once, whatever the table
/// before held.
pub proof fn lemma_inspect_after_register(table: Route, services: Seq<ServiceRoute>)
    requires
        is_table_of(table, services),
    ensures
        table.names().no_duplicates(),
        forall|name: Seq<char>|
            table.names().contains(name) <==> exists|k: int|
                0 <= k < services.len() && (#[trigger] services[k]).servant@ == name,
{
    lemma_registered_names(services, services.len());
}

} // verus!
