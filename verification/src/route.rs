//! The route table: which servant a path belongs to, and which of the
//! servant's backends is next in turn.

use crate::pathmap::RouteMap;
use crate::strmap::StringMap;
use crate::text::{lowercase_of, str_eq, to_lowercase};
use crate::trie::{
    ancestor_value, trie_entries, trie_get_ancestor_value, trie_insert, trie_new, RouteRadixTrie,
};
use std::sync::atomic::{AtomicUsize, Ordering};
use std::sync::Arc;
use vstd::prelude::*;
use vstd::string::*;

verus! {

/// What was registered, by servant name.
pub type EndpointsMap = StringMap<RouteEndpoint>;

/// How a registered path is matched against a request's path.
#[derive(Clone, Copy, Debug, PartialEq, Eq, Structural)]
pub enum RouteKind {
    /// The request's path is the registered path.
    Precise,
    /// The request's path begins with the registered path.
    Fuzzy,
}

/// A registered path.
#[derive(Clone, Debug, PartialEq, Eq)]
pub struct RoutePath {
    pub path: String,
    pub kind: RouteKind,
}

/// What one servant registers: its paths and its backends.
#[derive(Clone, Debug, PartialEq, Eq)]
pub struct RouteEndpoint {
    pub routes: Vec<RoutePath>,
    pub endpoints: Vec<String>,
}

/// One backend of a servant.
#[derive(Clone, Debug, PartialEq, Eq)]
pub struct Server {
    pub addr: String,
    pub weight: Option<i8>,
}

/// The counter from which a servant's backends take their turns.
#[derive(Debug)]
pub struct ServantState {
    pub count: AtomicUsize,
}

/// A named group of backends that serve the same paths.
#[derive(Clone, Debug)]
pub struct Servant {
    pub name: String,
    pub servers: Vec<Server>,
    pub state: Arc<ServantState>,
}

/// What a registered path holds.
pub struct PathView {
    pub path: Seq<char>,
    pub kind: RouteKind,
}

/// What a servant's registration holds.
pub struct EndpointView {
    pub routes: Seq<PathView>,
    pub endpoints: Seq<Seq<char>>,
}

impl View for RoutePath {
    type V = PathView;

    open spec fn view(&self) -> PathView {
        PathView { path: self.path@, kind: self.kind }
    }
}

impl View for RouteEndpoint {
    type V = EndpointView;

    open spec fn view(&self) -> EndpointView {
        EndpointView {
            routes: self.routes@.map_values(|r: RoutePath| r@),
            endpoints: self.endpoints@.map_values(|a: String| a@),
        }
    }
}

/// What each of a list of registrations holds.
pub open spec fn endpoint_views(endpoints: Seq<RouteEndpoint>) -> Seq<EndpointView> {
    endpoints.map_values(|e: RouteEndpoint| e@)
}

/// The kind that a name in lower case stands for.
pub open spec fn kind_named(lower: Seq<char>) -> Option<RouteKind> {
    if lower == "precise"@ {
        Some(RouteKind::Precise)
    } else if lower == "fuzzy"@ {
        Some(RouteKind::Fuzzy)
    } else {
        None
    }
}

/// What is said of a name that stands for no kind.
pub open spec fn invalid_kind_message(lower: Seq<char>) -> Seq<char> {
    "Invalid query param kind '"@ + lower + "'"@
}

impl RouteKind {
    /// The kind that a name in lower case stands for, or what is said of a
    /// name that stands for none.
    pub fn from_lowercase(lower: &str) -> (r: Result<RouteKind, String>)
        ensures
            match r {
                Ok(kind) => kind_named(lower@) == Some(kind),
                Err(message) => kind_named(lower@) is None && message@ == invalid_kind_message(
                    lower@,
                ),
            },
    {
        if str_eq(lower, "precise") {
            Ok(RouteKind::Precise)
        } else if str_eq(lower, "fuzzy") {
            Ok(RouteKind::Fuzzy)
        } else {
            let mut message = String::from_str("Invalid query param kind '");
            message.append(lower);
            message.append("'");
            Err(message)
        }
    }

    /// The kind that a name stands for, whatever the case of its letters.
    pub fn from_name(name: &str) -> (r: Result<RouteKind, String>)
        ensures
            match r {
                Ok(kind) => kind_named(lowercase_of(name@)) == Some(kind),
                Err(message) => kind_named(lowercase_of(name@)) is None && message@
                    == invalid_kind_message(lowercase_of(name@)),
            },
    {
        let lower = to_lowercase(name);
        RouteKind::from_lowercase(lower.as_str())
    }
}

impl RoutePath {
    /// A path to be matched as the kind says.
    pub fn new(path: String, kind: RouteKind) -> (r: Self)
        ensures
            r.path == path,
            r.kind == kind,
    {
        RoutePath { path, kind }
    }
}

impl Server {
    /// A backend at an address.
    pub fn new(addr: String) -> (s: Self)
        ensures
            s.addr == addr,
            s.weight is None,
    {
        Server { addr, weight: None }
    }
}

impl ServantState {
    /// A counter that no request has drawn from.
    pub fn new() -> Self {
        ServantState { count: AtomicUsize::new(0) }
    }

    /// Takes the counter's value and leaves it one higher, in one step.
    pub fn next_count(&self) -> usize {
        self.count.fetch_add(1, Ordering::SeqCst)
    }
}

impl Default for ServantState {
    /// A counter that no request has drawn from.
    fn default() -> Self {
        ServantState::new()
    }
}

/// The backend whose turn it is at a counter value, among `servers` backends.
pub open spec fn turn(count: int, servers: int) -> int {
    count % servers
}

/// The addresses of a list of backends.
pub open spec fn addresses(servers: Seq<Server>) -> Seq<Seq<char>> {
    servers.map_values(|s: Server| s.addr@)
}

impl Servant {
    /// The backend whose turn it is at the counter value `count`; none where
    /// the servant has no backend.
    pub fn server_at(&self, count: usize) -> (server: Option<&Server>)
        ensures
            self.servers@.len() == 0 ==> server is None,
            self.servers@.len() > 0 ==> server == Some(
                &self.servers@[turn(count as int, self.servers@.len() as int)],
            ),
    {
        let n = self.servers.len();
        if n == 0 {
            None
        } else {
            Some(&self.servers[count % n])
        }
    }

    /// Draws from the servant's counter and gives the backend whose turn it
    /// is. The counter is shared, so the value drawn is not determined here:
    /// the backend is the one that `server_at` gives for some value.
    pub fn select(&self) -> (server: Option<&Server>)
        ensures
            self.servers@.len() == 0 ==> server is None,
            self.servers@.len() > 0 ==> exists|count: usize|
                server == Some(
                    &self.servers@[#[trigger] turn(count as int, self.servers@.len() as int)],
                ),
    {
        let count = self.state.next_count();
        self.server_at(count)
    }
}

/// Whether backend `b` takes one of the `k` turns that start at `start`.
pub open spec fn takes_turn(start: int, k: int, b: int) -> bool {
    exists|i: int| 0 <= i < k && #[trigger] turn(start + i, k) == b
}

/// Round robin: from any counter value, `k` draws in a row take the `k`
/// backends in their order, each once, as long as the counter does not pass
/// its top value on the way.
pub proof fn lemma_round_robin(start: usize, k: int)
    requires
        k > 0,
        start + k - 1 <= usize::MAX,
    ensures
        forall|i: int|
            0 <= i < k ==> #[trigger] turn(start + i, k) == (turn(start as int, k) + i) % k,
        forall|i: int, j: int|
            0 <= i < j < k ==> #[trigger] turn(start + i, k) != #[trigger] turn(start + j, k),
        forall|b: int| 0 <= b < k ==> #[trigger] takes_turn(start as int, k, b),
{
    let s = start as int;
    assert forall|i: int| 0 <= i < k implies #[trigger] turn(s + i, k) == (turn(s, k) + i) % k by {
        vstd::arithmetic::div_mod::lemma_add_mod_noop(s, i, k);
        vstd::arithmetic::div_mod::lemma_small_mod(i as nat, k as nat);
    }
    assert forall|i: int, j: int| 0 <= i < j < k implies #[trigger] turn(s + i, k) != #[trigger] turn(
        s + j,
        k,
    ) by {
        lemma_turns_differ(s, i, j, k);
    }
    assert forall|b: int| 0 <= b < k implies #[trigger] takes_turn(s, k, b) by {
        let i = (b - s % k + k) % k;
        vstd::arithmetic::div_mod::lemma_mod_bound(b - s % k + k, k);
        vstd::arithmetic::div_mod::lemma_add_mod_noop(s, i, k);
        vstd::arithmetic::div_mod::lemma_mod_bound(s, k);
        let r = s % k;
        if b >= r {
            vstd::arithmetic::div_mod::lemma_mod_add_multiples_vanish(b - r, k);
            vstd::arithmetic::div_mod::lemma_small_mod((b - r) as nat, k as nat);
            assert(i == b - r);
            vstd::arithmetic::div_mod::lemma_small_mod(b as nat, k as nat);
            assert((r + i) % k == b);
        } else {
            vstd::arithmetic::div_mod::lemma_small_mod((b - r + k) as nat, k as nat);
            assert(i == b - r + k);
            vstd::arithmetic::div_mod::lemma_mod_add_multiples_vanish(b, k);
            vstd::arithmetic::div_mod::lemma_small_mod(b as nat, k as nat);
            assert((r + i) % k == b);
        }
        vstd::arithmetic::div_mod::lemma_small_mod(i as nat, k as nat);
        assert(turn(s + i, k) == b);
    }
}

/// The backends that `n` draws in a row select, from the counter value
/// `start` on.
pub open spec fn selections(servers: Seq<Server>, start: int, n: nat) -> Seq<Server> {
    Seq::new(n, |i: int| servers[turn(start + i, servers.len() as int)])
}

/// As many draws in a row as there are backends select every backend once:
/// first those from the turn of the first draw to the last backend, then
/// those before it, each in its place in the list.
pub proof fn lemma_round_robin_order(servers: Seq<Server>, start: usize)
    requires
        servers.len() > 0,
        start + servers.len() - 1 <= usize::MAX,
    ensures
        selections(servers, start as int, servers.len()) == servers.skip(
            turn(start as int, servers.len() as int),
        ) + servers.take(turn(start as int, servers.len() as int)),
{
    let k = servers.len() as int;
    let r = turn(start as int, k);
    lemma_round_robin(start, k);
    vstd::arithmetic::div_mod::lemma_mod_bound(start as int, k);
    let picked = selections(servers, start as int, servers.len());
    let turned = servers.skip(r) + servers.take(r);
    assert forall|i: int| 0 <= i < k implies picked[i] == turned[i] by {
        assert(turn(start + i, k) == (r + i) % k);
        if r + i < k {
            vstd::arithmetic::div_mod::lemma_small_mod((r + i) as nat, k as nat);
        } else {
            vstd::arithmetic::div_mod::lemma_mod_add_multiples_vanish(r + i - k, k);
            vstd::arithmetic::div_mod::lemma_small_mod((r + i - k) as nat, k as nat);
        }
    }
    assert(picked =~= turned);
}

/// Two counter values less than `k` apart take different turns.
proof fn lemma_turns_differ(s: int, i: int, j: int, k: int)
    requires
        0 <= i < j < k,
        0 <= s,
    ensures
        turn(s + i, k) != turn(s + j, k),
{
    if (s + i) % k == (s + j) % k {
        vstd::arithmetic::div_mod::lemma_fundamental_div_mod(s + i, k);
        vstd::arithmetic::div_mod::lemma_fundamental_div_mod(s + j, k);
        let a = (s + i) / k;
        let b = (s + j) / k;
        assert(j - i == k * b - k * a);
        assert(k * b - k * a == k * (b - a)) by (nonlinear_arith);
        if b - a >= 1 {
            assert(k * (b - a) >= k) by (nonlinear_arith)
                requires
                    b - a >= 1,
                    k > 0,
            ;
        } else {
            assert(k * (b - a) <= 0) by (nonlinear_arith)
                requires
                    b - a <= 0,
                    k > 0,
            ;
        }
    }
}

/// Whether a registered path is `path`, to be matched as `kind` says.
pub open spec fn route_is(r: PathView, path: Seq<char>, kind: RouteKind) -> bool {
    r.path == path && r.kind == kind
}

/// Whether one of the first `n` registered paths is `path` with `kind`.
pub open spec fn claims_upto(routes: Seq<PathView>, n: int, path: Seq<char>, kind: RouteKind) -> bool {
    exists|j: int| 0 <= j < n && j < routes.len() && #[trigger] route_is(routes[j], path, kind)
}

/// Whether a servant registers `path` with `kind`.
pub open spec fn claims(e: EndpointView, path: Seq<char>, kind: RouteKind) -> bool {
    claims_upto(e.routes, e.routes.len() as int, path, kind)
}

/// The last of the first `n` servants that registers `path` with `kind`.
pub open spec fn last_claimant(
    eps: Seq<EndpointView>,
    n: nat,
    path: Seq<char>,
    kind: RouteKind,
) -> Option<nat>
    decreases n,
{
    if n == 0 {
        None
    } else if claims(eps[n - 1], path, kind) {
        Some((n - 1) as nat)
    } else {
        last_claimant(eps, (n - 1) as nat, path, kind)
    }
}

/// The paths registered with `kind`, each with the number of the last
/// servant that registers it.
pub open spec fn claimed_paths(eps: Seq<EndpointView>, kind: RouteKind) -> Map<Seq<char>, usize> {
    Map::new(
        |p: Seq<char>| last_claimant(eps, eps.len(), p, kind) is Some,
        |p: Seq<char>| last_claimant(eps, eps.len(), p, kind).unwrap() as usize,
    )
}

/// The last claimant once the servants before `i` and the first `j` paths
/// of servant `i` are entered.
spec fn claimant_so_far(
    eps: Seq<EndpointView>,
    i: nat,
    j: int,
    path: Seq<char>,
    kind: RouteKind,
) -> Option<nat> {
    if i < eps.len() && claims_upto(eps[i as int].routes, j, path, kind) {
        Some(i)
    } else {
        last_claimant(eps, i, path, kind)
    }
}

/// The table once the servants before `i` and the first `j` paths of
/// servant `i` are entered.
spec fn paths_so_far(eps: Seq<EndpointView>, i: nat, j: int, kind: RouteKind) -> Map<
    Seq<char>,
    usize,
> {
    Map::new(
        |p: Seq<char>| claimant_so_far(eps, i, j, p, kind) is Some,
        |p: Seq<char>| claimant_so_far(eps, i, j, p, kind).unwrap() as usize,
    )
}

/// A claimant among the first `n` servants has a number below `n`.
pub proof fn lemma_claimant_below(eps: Seq<EndpointView>, n: nat, path: Seq<char>, kind: RouteKind)
    ensures
        last_claimant(eps, n, path, kind) is Some ==> last_claimant(eps, n, path, kind).unwrap() < n,
    decreases n,
{
    if n > 0 && !claims(eps[n - 1], path, kind) {
        lemma_claimant_below(eps, (n - 1) as nat, path, kind);
    }
}

/// The last claimant registers the path, and no servant after it does; there
/// is none exactly where no servant registers the path.
pub proof fn lemma_last_claimant(eps: Seq<EndpointView>, n: nat, path: Seq<char>, kind: RouteKind)
    ensures
        match last_claimant(eps, n, path, kind) {
            Some(c) => c < n && claims(eps[c as int], path, kind) && forall|later: int|
                c < later < n ==> !claims(#[trigger] eps[later], path, kind),
            None => forall|any: int| 0 <= any < n ==> !claims(#[trigger] eps[any], path, kind),
        },
    decreases n,
{
    if n > 0 && !claims(eps[n - 1], path, kind) {
        lemma_last_claimant(eps, (n - 1) as nat, path, kind);
    }
}

/// Entering one more path of servant `i` writes that path into the table of
/// its kind and leaves the other table as it is.
proof fn lemma_enter_path(eps: Seq<EndpointView>, i: nat, j: int, kind: RouteKind)
    requires
        i < eps.len(),
        0 <= j < eps[i as int].routes.len(),
    ensures
        paths_so_far(eps, i, j + 1, kind) == if eps[i as int].routes[j].kind == kind {
            paths_so_far(eps, i, j, kind).insert(eps[i as int].routes[j].path, i as usize)
        } else {
            paths_so_far(eps, i, j, kind)
        },
        forall|p: Seq<char>| #[trigger]
            paths_so_far(eps, i, j + 1, kind).contains_key(p) ==> paths_so_far(eps, i, j + 1, kind)[p]
                <= i,
{
    let routes = eps[i as int].routes;
    let r = routes[j];
    let before = paths_so_far(eps, i, j, kind);
    let after = paths_so_far(eps, i, j + 1, kind);
    assert forall|p: Seq<char>|
        claims_upto(routes, j + 1, p, kind) == (claims_upto(routes, j, p, kind) || route_is(
            r,
            p,
            kind,
        )) by {
        if claims_upto(routes, j + 1, p, kind) {
            let w = choose|w: int| 0 <= w < j + 1 && w < routes.len() && #[trigger] route_is(routes[w], p, kind);
            if w < j {
                assert(claims_upto(routes, j, p, kind));
            }
        }
        if claims_upto(routes, j, p, kind) {
            let w = choose|w: int| 0 <= w < j && w < routes.len() && #[trigger] route_is(routes[w], p, kind);
            assert(route_is(routes[w], p, kind));
        }
        if route_is(r, p, kind) {
            assert(route_is(routes[j], p, kind));
        }
    }
    assert forall|p: Seq<char>| #[trigger] after.contains_key(p) implies after[p] <= i by {
        lemma_claimant_below(eps, i, p, kind);
    }
    if r.kind == kind {
        assert(after =~= before.insert(r.path, i as usize)) by {
            assert forall|p: Seq<char>| after.contains_key(p) == before.insert(
                r.path,
                i as usize,
            ).contains_key(p) by {
                assert(route_is(r, p, kind) == (p == r.path));
            }
            assert forall|p: Seq<char>| after.contains_key(p) implies after[p] == before.insert(
                r.path,
                i as usize,
            )[p] by {
                assert(route_is(r, p, kind) == (p == r.path));
            }
        }
    } else {
        assert(after =~= before) by {
            assert forall|p: Seq<char>| !route_is(r, p, kind) by {}
        }
    }
}

/// Once all paths of servant `i` are entered, the table is the one from
/// which servant `i + 1` starts.
proof fn lemma_next_servant(eps: Seq<EndpointView>, i: nat, kind: RouteKind)
    requires
        i < eps.len(),
    ensures
        paths_so_far(eps, i, eps[i as int].routes.len() as int, kind) == paths_so_far(
            eps,
            i + 1,
            0,
            kind,
        ),
{
    let done = paths_so_far(eps, i, eps[i as int].routes.len() as int, kind);
    let next = paths_so_far(eps, i + 1, 0, kind);
    assert forall|p: Seq<char>|
        claimant_so_far(eps, i, eps[i as int].routes.len() as int, p, kind) == claimant_so_far(
            eps,
            i + 1,
            0,
            p,
            kind,
        ) by {
        if i + 1 < eps.len() {
            assert(!claims_upto(eps[(i + 1) as int].routes, 0, p, kind));
        }
    }
    assert(done =~= next);
}

/// The table from which the first servant starts is empty, and the table
/// after the last servant holds every registered path.
proof fn lemma_first_and_last(eps: Seq<EndpointView>, kind: RouteKind)
    ensures
        paths_so_far(eps, 0, 0, kind) == Map::<Seq<char>, usize>::empty(),
        paths_so_far(eps, eps.len(), 0, kind) == claimed_paths(eps, kind),
{
    assert forall|p: Seq<char>| claimant_so_far(eps, 0, 0, p, kind) is None by {
        if 0 < eps.len() {
            assert(!claims_upto(eps[0].routes, 0, p, kind));
        }
    }
    assert(paths_so_far(eps, 0, 0, kind) =~= Map::<Seq<char>, usize>::empty());
    assert(paths_so_far(eps, eps.len(), 0, kind) =~= claimed_paths(eps, kind));
}

/// The servant that a path belongs to: the one that registered exactly this
/// path, else the one that registered the longest prefix of it.
pub open spec fn route_of(
    exact: Map<Seq<char>, usize>,
    prefix: Map<Seq<char>, usize>,
    path: Seq<char>,
) -> Option<usize> {
    if exact.contains_key(path) {
        Some(exact[path])
    } else {
        ancestor_value(prefix, path)
    }
}

/// Whether a servant of the table is what was registered under `name`.
pub open spec fn servant_matches(s: Servant, name: Seq<char>, e: EndpointView) -> bool {
    s.name@ == name && addresses(s.servers@) == e.endpoints
}

/// The route table: the servants, the exact paths and the path prefixes.
/// A table is built whole and not changed afterwards.
#[derive(Debug)]
pub struct Route {
    servant: Vec<Servant>,
    rmap: RouteMap,
    rtrie: RouteRadixTrie,
}

impl Route {
    /// The servants, each at its number.
    pub closed spec fn servants(&self) -> Seq<Servant> {
        self.servant@
    }

    /// The exact paths, each with the number of its servant.
    pub closed spec fn exact(&self) -> Map<Seq<char>, usize> {
        self.rmap@
    }

    /// The path prefixes, each with the number of its servant.
    pub closed spec fn prefix(&self) -> Map<Seq<char>, usize> {
        trie_entries(self.rtrie)
    }

    /// Whether the map of exact paths is in order.
    pub closed spec fn exact_wf(&self) -> bool {
        self.rmap.wf()
    }

    /// Every path and every prefix leads to a servant of the table.
    #[verifier::type_invariant]
    pub open spec fn wf(&self) -> bool {
        &&& self.exact_wf()
        &&& forall|p: Seq<char>| #[trigger]
            self.exact().contains_key(p) ==> self.exact()[p] < self.servants().len()
        &&& forall|p: Seq<char>| #[trigger]
            self.prefix().contains_key(p) ==> self.prefix()[p] < self.servants().len()
    }

    /// The names of the servants, in the order of their numbers.
    pub open spec fn names(&self) -> Seq<Seq<char>> {
        self.servants().map_values(|s: Servant| s.name@)
    }

    /// The table without servants.
    pub fn empty() -> (r: Self)
        ensures
            r.wf(),
            r.servants() == Seq::<Servant>::empty(),
            r.exact() == Map::<Seq<char>, usize>::empty(),
            r.prefix() == Map::<Seq<char>, usize>::empty(),
    {
        let r = Route { servant: Vec::new(), rmap: RouteMap::new(), rtrie: trie_new() };
        assert(r.prefix() =~= Map::<Seq<char>, usize>::empty());
        r
    }

    /// Builds the table of what was registered. Servant `i` of the table is
    /// the `i`-th that registered, with its backends in their order. A path
    /// that several servants register belongs to the last of them.
    pub fn from_endpoints(ep: &EndpointsMap) -> (r: Self)
        requires
            ep.wf(),
        ensures
            r.wf(),
            r.servants().len() == ep.keys().len(),
            forall|i: int|
                0 <= i < ep.keys().len() ==> servant_matches(
                    #[trigger] r.servants()[i],
                    ep.keys()[i],
                    ep.values()[i]@,
                ),
            r.exact() == claimed_paths(endpoint_views(ep.values()), RouteKind::Precise),
            r.prefix() == claimed_paths(endpoint_views(ep.values()), RouteKind::Fuzzy),
    {
        let mut rmap = RouteMap::new();
        let mut rtrie = trie_new();
        let mut servants: Vec<Servant> = Vec::new();
        let ghost eps = endpoint_views(ep.values());
        proof {
            lemma_first_and_last(eps, RouteKind::Precise);
            lemma_first_and_last(eps, RouteKind::Fuzzy);
            assert(trie_entries(rtrie) =~= Map::<Seq<char>, usize>::empty());
        }
        let count = ep.len();
        let mut i: usize = 0;
        while i < count
            invariant
                i <= count,
                count == ep.keys().len(),
                ep.wf(),
                eps == endpoint_views(ep.values()),
                rmap.wf(),
                servants@.len() == i,
                forall|k: int|
                    0 <= k < i ==> servant_matches(#[trigger] servants@[k], ep.keys()[k], eps[k]),
                rmap@ == paths_so_far(eps, i as nat, 0, RouteKind::Precise),
                trie_entries(rtrie) == paths_so_far(eps, i as nat, 0, RouteKind::Fuzzy),
                forall|p: Seq<char>| #[trigger] rmap@.contains_key(p) ==> rmap@[p] < i,
                forall|p: Seq<char>| #[trigger]
                    trie_entries(rtrie).contains_key(p) ==> trie_entries(rtrie)[p] < i,
            decreases count - i,
        {
            let name = ep.key_at(i).clone();
            let endpoint = ep.value_at(i);
            let servers = servers_of(endpoint);
            servants.push(Servant { name, servers, state: Arc::new(ServantState::new()) });
            let mut j: usize = 0;
            while j < endpoint.routes.len()
                invariant
                    j <= endpoint.routes.len(),
                    i < count,
                    count == eps.len(),
                    endpoint@ == eps[i as int],
                    rmap.wf(),
                    rmap@ == paths_so_far(eps, i as nat, j as int, RouteKind::Precise),
                    trie_entries(rtrie) == paths_so_far(eps, i as nat, j as int, RouteKind::Fuzzy),
                    forall|p: Seq<char>| #[trigger] rmap@.contains_key(p) ==> rmap@[p] <= i,
                    forall|p: Seq<char>| #[trigger]
                        trie_entries(rtrie).contains_key(p) ==> trie_entries(rtrie)[p] <= i,
                decreases endpoint.routes.len() - j,
            {
                let route = &endpoint.routes[j];
                assert(eps[i as int].routes[j as int] == route@);
                proof {
                    lemma_enter_path(eps, i as nat, j as int, RouteKind::Precise);
                    lemma_enter_path(eps, i as nat, j as int, RouteKind::Fuzzy);
                }
                match route.kind {
                    RouteKind::Precise => {
                        rmap.insert(route.path.clone(), i);
                    },
                    RouteKind::Fuzzy => {
                        trie_insert(&mut rtrie, route.path.clone(), i);
                    },
                }
                j += 1;
            }
            proof {
                lemma_next_servant(eps, i as nat, RouteKind::Precise);
                lemma_next_servant(eps, i as nat, RouteKind::Fuzzy);
            }
            i += 1;
        }
        Route { servant: servants, rmap, rtrie }
    }

    /// The number of servants.
    pub fn len(&self) -> (n: usize)
        ensures
            n == self.servants().len(),
    {
        self.servant.len()
    }

    /// The servant with a number.
    pub fn servant(&self, index: usize) -> (s: &Servant)
        requires
            index < self.servants().len(),
        ensures
            *s == self.servants()[index as int],
    {
        &self.servant[index]
    }

    /// The names of the servants, in the order of their numbers.
    pub fn servant_names(&self) -> (names: Vec<String>)
        ensures
            names@.map_values(|n: String| n@) == self.names(),
    {
        let mut names: Vec<String> = Vec::new();
        let mut i: usize = 0;
        while i < self.servant.len()
            invariant
                i <= self.servant.len(),
                names@.len() == i,
                forall|k: int| 0 <= k < i ==> (#[trigger] names@[k])@ == self.servant@[k].name@,
            decreases self.servant.len() - i,
        {
            names.push(self.servant[i].name.clone());
            i += 1;
        }
        assert(names@.map_values(|n: String| n@) =~= self.names());
        names
    }

    /// The number of the servant that a path belongs to: the servant that
    /// registered exactly this path, else the one that registered the longest
    /// prefix of it, else none.
    pub fn lookup(&self, path: &str) -> (found: Option<usize>)
        ensures
            found == route_of(self.exact(), self.prefix(), path@),
            found is Some ==> found.unwrap() < self.servants().len(),
    {
        proof {
            use_type_invariant(self);
        }
        match self.rmap.get(path) {
            Some(index) => Some(index),
            None => {
                proof {
                    crate::trie::lemma_longest_prefix_len(self.prefix(), path@, path@.len());
                }
                trie_get_ancestor_value(&self.rtrie, path)
            },
        }
    }
}

impl Default for Route {
    /// The table without servants.
    fn default() -> (r: Self)
        ensures
            r.wf(),
            r.servants() == Seq::<Servant>::empty(),
            r.exact() == Map::<Seq<char>, usize>::empty(),
            r.prefix() == Map::<Seq<char>, usize>::empty(),
    {
        Route::empty()
    }
}

/// The backends of a servant, one for each address it registers.
pub fn servers_of(endpoint: &RouteEndpoint) -> (servers: Vec<Server>)
    ensures
        addresses(servers@) == endpoint@.endpoints,
{
    let mut servers: Vec<Server> = Vec::new();
    let mut k: usize = 0;
    while k < endpoint.endpoints.len()
        invariant
            k <= endpoint.endpoints.len(),
            servers@.len() == k,
            forall|x: int| 0 <= x < k ==> (#[trigger] servers@[x]).addr@ == endpoint.endpoints@[x]@,
        decreases endpoint.endpoints.len() - k,
    {
        servers.push(Server::new(endpoint.endpoints[k].clone()));
        k += 1;
    }
    assert(addresses(servers@) =~= endpoint@.endpoints);
    servers
}

/// An exact registration decides: a path that some servant registers as
/// exact belongs to the last servant that does so, whatever prefixes are
/// registered.
pub proof fn lemma_exact_match_decides(eps: Seq<EndpointView>, path: Seq<char>)
    requires
        last_claimant(eps, eps.len(), path, RouteKind::Precise) is Some,
    ensures
        route_of(
            claimed_paths(eps, RouteKind::Precise),
            claimed_paths(eps, RouteKind::Fuzzy),
            path,
        ) == Some(last_claimant(eps, eps.len(), path, RouteKind::Precise).unwrap() as usize),
{
}

/// Without an exact registration the longest prefix decides: the path
/// belongs to the servant of the longest registered prefix that it begins
/// with, and to none where it begins with no registered prefix.
pub proof fn lemma_longest_prefix_decides(eps: Seq<EndpointView>, path: Seq<char>)
    requires
        last_claimant(eps, eps.len(), path, RouteKind::Precise) is None,
    ensures
        ({
            let prefixes = claimed_paths(eps, RouteKind::Fuzzy);
            let found = route_of(claimed_paths(eps, RouteKind::Precise), prefixes, path);
            &&& found is None <==> forall|k: Seq<char>|
                prefixes.contains_key(k) ==> !k.is_prefix_of(path)
            &&& found is Some ==> exists|k: Seq<char>|
                {
                    &&& #[trigger] prefixes.contains_key(k)
                    &&& k.is_prefix_of(path)
                    &&& found == Some(prefixes[k])
                    &&& forall|other: Seq<char>|
                        prefixes.contains_key(other) && other.is_prefix_of(path) ==> other.len()
                            <= k.len()
                }
        }),
{
    crate::trie::lemma_ancestor_is_longest_prefix(claimed_paths(eps, RouteKind::Fuzzy), path);
}

} // verus!
