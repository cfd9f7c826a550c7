//! The server plan: for each domain of a configuration its virtual host, and
//! for each route path the handler that answers it; the lookup of the host
//! and the route of a request.
use crate::balance::{
    balancer_after, balancer_pick, node_addrs, node_view, Balancer, BalancerV, Node, ProxyV,
    ReverseProxyHandler, RoundRobinBalancer, RoundRobinV, SingleUpstream, RESET_THRESHOLD,
};
use crate::handlers::{FileHandler, RedirectHandler, RedirectHandlerV};
use crate::hints::lit;
use crate::respond::{
    html_error_handler, plain_handler, RespondHandler, RespondHandlerV, UtilitiesResponses,
};
use crate::text::{
    ends_with, has_prefix, has_suffix, slice_vec, starts_with, string_eq_str, to_chars,
};
use crate::types::{
    Config, Handler, HandlerV, LoadBalancer, LoadBalancerV, Route, RouteV, Upstream, UpstreamV,
    VirtualHost, VirtualHostV, hosts_view, routes_view,
};
use crate::uri::{designated_port, http_uri_parse, parse_uri, UriExt};
use vstd::prelude::*;

verus! {

broadcast use vstd::string::group_string_axioms;

// ---------------------------------------------------------------------------
// Keyed lists
// ---------------------------------------------------------------------------

/// The position of the entry with key `k` at or after `i`, if any.
pub open spec fn key_index_from<V>(s: Seq<(Seq<char>, V)>, k: Seq<char>, i: int) -> Option<int>
    decreases s.len() - i,
{
    if i < 0 || i >= s.len() {
        None
    } else if s[i].0 == k {
        Some(i)
    } else {
        key_index_from(s, k, i + 1)
    }
}

/// `s` with the entry of key `k` set to `v`: replaced where the key is, else
/// added at the end (a map insertion).
pub open spec fn insert_keyed<V>(s: Seq<(Seq<char>, V)>, k: Seq<char>, v: V) -> Seq<(Seq<char>, V)> {
    match key_index_from(s, k, 0) {
        Some(i) => s.update(i, (k, v)),
        None => s.push((k, v)),
    }
}

/// No key occurs twice.
pub open spec fn distinct_keys<V>(s: Seq<(Seq<char>, V)>) -> bool {
    forall|i: int, j: int| 0 <= i < j < s.len() ==> s[i].0 != s[j].0
}

pub proof fn lemma_key_index_from<V>(s: Seq<(Seq<char>, V)>, k: Seq<char>, i: int)
    requires
        0 <= i,
    ensures
        key_index_from(s, k, i) matches Some(p) ==> i <= p < s.len() && s[p].0 == k,
        key_index_from(s, k, i) is None ==> forall|q: int| i <= q < s.len() ==> s[q].0 != k,
    decreases s.len() - i,
{
    if i < s.len() && s[i].0 != k {
        lemma_key_index_from(s, k, i + 1);
    }
}

/// Inserting keeps the keys distinct.
pub proof fn lemma_insert_keyed_distinct<V>(s: Seq<(Seq<char>, V)>, k: Seq<char>, v: V)
    requires
        distinct_keys(s),
    ensures
        distinct_keys(insert_keyed(s, k, v)),
        exists|i: int|
            0 <= i < insert_keyed(s, k, v).len() && #[trigger] insert_keyed(s, k, v)[i] == (k, v),
{
    lemma_key_index_from(s, k, 0);
    let t = insert_keyed(s, k, v);
    match key_index_from(s, k, 0) {
        Some(p) => {
            assert(t[p] == (k, v));
        },
        None => {
            assert(t[s.len() as int] == (k, v));
        },
    }
}

// ---------------------------------------------------------------------------
// Route plans
// ---------------------------------------------------------------------------

/// The handler of a route.
pub enum RoutePlan {
    File(FileHandler),
    Respond(RespondHandler),
    Redirect(RedirectHandler),
    ReverseProxy(ReverseProxyHandler),
}

/// A `RoutePlan` as plain values.
pub enum RoutePlanV {
    File { path: Seq<char>, is_dir: bool, route: Seq<char> },
    Respond(RespondHandlerV),
    Redirect(RedirectHandlerV),
    ReverseProxy(ProxyV),
}

impl View for RoutePlan {
    type V = RoutePlanV;

    open spec fn view(&self) -> RoutePlanV {
        match self {
            RoutePlan::File(h) => RoutePlanV::File { path: h.path@, is_dir: h.is_dir, route: h.route@ },
            RoutePlan::Respond(h) => RoutePlanV::Respond(h@),
            RoutePlan::Redirect(h) => RoutePlanV::Redirect(h@),
            RoutePlan::ReverseProxy(h) => RoutePlanV::ReverseProxy(h@),
        }
    }
}

pub open spec fn route_entries_view(s: Seq<(String, RoutePlan)>) -> Seq<(Seq<char>, RoutePlanV)> {
    s.map_values(|e: (String, RoutePlan)| (e.0@, e.1@))
}

/// A route path matches a request path: a path ending in `/*` matches every
/// request path that starts with it without the `*`; another path matches
/// only itself.
pub open spec fn route_matches(key: Seq<char>, path: Seq<char>) -> bool {
    if has_suffix(key, "/*"@) {
        has_prefix(path, key.take(key.len() - 1))
    } else {
        key == path
    }
}

/// A route path that ends in `/*` matches exactly the request paths that
/// begin with everything before its `*`, character for character (so
/// `/api/*` matches `/api/users` and not `/v1/api/users`); any other route
/// path matches only the request path equal to it.
pub proof fn lemma_route_match_meaning(key: Seq<char>, path: Seq<char>)
    ensures
        (key.len() >= 2 && key[key.len() - 2] == '/' && key[key.len() - 1] == '*') ==> (
        route_matches(key, path) <==> (key.len() - 1 <= path.len() && forall|q: int|
            0 <= q < key.len() - 1 ==> path[q] == key[q])),
        !(key.len() >= 2 && key[key.len() - 2] == '/' && key[key.len() - 1] == '*') ==> (
        route_matches(key, path) <==> path == key),
{
    reveal_strlit("/*");
    let wild = key.len() >= 2 && key[key.len() - 2] == '/' && key[key.len() - 1] == '*';
    if key.len() >= 2 {
        let tail = key.subrange(key.len() - 2, key.len() as int);
        if wild {
            assert(tail =~= "/*"@);
        } else if tail == "/*"@ {
            assert(tail[0] == key[key.len() - 2]);
            assert(tail[1] == key[key.len() - 1]);
        }
    }
    assert(has_suffix(key, "/*"@) == wild);
    if wild {
        let n = key.len() - 1;
        if route_matches(key, path) {
            assert(path.subrange(0, n) == key.take(n));
            assert forall|q: int| 0 <= q < n implies path[q] == key[q] by {
                assert(path.subrange(0, n)[q] == key.take(n)[q]);
            }
        }
        if n <= path.len() && forall|q: int| 0 <= q < n ==> path[q] == key[q] {
            assert(path.subrange(0, n) =~= key.take(n));
        }
    }
}

/// The first entry at or after `i` whose route path matches `path`, or the
/// number of entries.
pub open spec fn first_match_from(s: Seq<(Seq<char>, RoutePlanV)>, path: Seq<char>, i: int) -> int
    decreases s.len() - i,
{
    if i < 0 || i >= s.len() {
        s.len() as int
    } else if route_matches(s[i].0, path) {
        i
    } else {
        first_match_from(s, path, i + 1)
    }
}

pub proof fn lemma_first_match_from(s: Seq<(Seq<char>, RoutePlanV)>, path: Seq<char>, i: int)
    requires
        0 <= i <= s.len(),
    ensures
        i <= first_match_from(s, path, i) <= s.len(),
        first_match_from(s, path, i) < s.len() ==> route_matches(
            s[first_match_from(s, path, i)].0,
            path,
        ),
        forall|q: int| i <= q < first_match_from(s, path, i) ==> !route_matches(#[trigger] s[q].0, path),
    decreases s.len() - i,
{
    if i < s.len() && !route_matches(s[i].0, path) {
        lemma_first_match_from(s, path, i + 1);
    }
}

fn route_matches_exec(key: &String, path: &Vec<char>) -> (b: bool)
    ensures
        b == route_matches(key@, path@),
{
    let k = to_chars(key.as_str());
    if ends_with(&k, &lit("/*")) {
        proof {
            reveal_strlit("/*");
        }
        let prefix = slice_vec(&k, 0, k.len() - 1);
        assert(prefix@ =~= k@.take(k@.len() - 1));
        starts_with(path, &prefix)
    } else {
        let ghost g = k@;
        if k.len() != path.len() {
            assert(k@ != path@);
            return false;
        }
        let mut i: usize = 0;
        while i < k.len()
            invariant
                i <= k.len() == path.len(),
                k@ == key@,
                !has_suffix(k@, "/*"@),
                forall|q: int| 0 <= q < i ==> k@[q] == path@[q],
            decreases k.len() - i,
        {
            if k[i] != path[i] {
                assert(k@[i as int] != path@[i as int]);
                return false;
            }
            i = i + 1;
        }
        assert(k@ =~= path@);
        true
    }
}

// ---------------------------------------------------------------------------
// Virtual host plans
// ---------------------------------------------------------------------------

/// The host and port that a domain designates, when it parses as a URI with
/// a host.
pub open spec fn endpoint_of(domain: Seq<char>) -> Option<(Seq<char>, u16)> {
    match http_uri_parse(domain) {
        Ok(parts) => match parts.0 {
            Some(h) => Some((h, designated_port(parts.1, parts.2))),
            None => None,
        },
        Err(_) => None,
    }
}

fn endpoint_exec(domain: &str) -> (r: Option<(String, u16)>)
    ensures
        match r {
            Some((h, p)) => endpoint_of(domain@) == Some((h@, p)),
            None => endpoint_of(domain@) is None,
        },
{
    match parse_uri(domain) {
        Ok(parts) => {
            let port = parts.get_port();
            match parts.host {
                Some(h) => Some((h, port)),
                None => None,
            }
        },
        Err(_) => None,
    }
}

/// The routes of one domain.
pub struct VirtualHostPlan {
    domain: String,
    endpoint: Option<(String, u16)>,
    routes: Vec<(String, RoutePlan)>,
}

/// A `VirtualHostPlan` as plain values: the domain, the host and port it
/// designates, and its routes by path.
pub struct VirtualHostPlanV {
    pub domain: Seq<char>,
    pub endpoint: Option<(Seq<char>, u16)>,
    pub routes: Seq<(Seq<char>, RoutePlanV)>,
}

impl View for VirtualHostPlan {
    type V = VirtualHostPlanV;

    closed spec fn view(&self) -> VirtualHostPlanV {
        VirtualHostPlanV {
            domain: self.domain@,
            endpoint: match self.endpoint {
                Some((h, p)) => Some((h@, p)),
                None => None,
            },
            routes: route_entries_view(self.routes@),
        }
    }
}

impl VirtualHostPlan {
    /// The plan of `domain` without routes.
    pub fn new(domain: String) -> (r: Self)
        ensures
            r@ == (VirtualHostPlanV {
                domain: domain@,
                endpoint: endpoint_of(domain@),
                routes: Seq::empty(),
            }),
    {
        let endpoint = endpoint_exec(domain.as_str());
        let r = VirtualHostPlan { domain, endpoint, routes: Vec::new() };
        assert(r@.routes =~= Seq::<(Seq<char>, RoutePlanV)>::empty());
        r
    }

    /// The domain.
    pub fn domain(&self) -> (r: &str)
        ensures
            r@ == self@.domain,
    {
        self.domain.as_str()
    }

    /// Sets the handler of route `path`, replacing the one it had.
    pub fn insert_route(&mut self, path: String, plan: RoutePlan)
        ensures
            final(self)@ == (VirtualHostPlanV {
                routes: insert_keyed(old(self)@.routes, path@, plan@),
                ..old(self)@
            }),
    {
        let ghost s = old(self)@.routes;
        let mut i: usize = 0;
        while i < self.routes.len()
            invariant
                i <= self.routes.len(),
                self@ == old(self)@,
                s == route_entries_view(self.routes@),
                key_index_from(s, path@, i as int) == key_index_from(s, path@, 0),
            decreases self.routes.len() - i,
        {
            if self.routes[i].0 == path {
                let ghost pv = plan@;
                self.routes.set(i, (path, plan));
                proof {
                    assert(route_entries_view(self.routes@) =~= s.update(i as int, (path@, pv)));
                }
                return;
            }
            i = i + 1;
        }
        let ghost pv = plan@;
        let ghost kv = path@;
        self.routes.push((path, plan));
        proof {
            assert(route_entries_view(self.routes@) =~= s.push((kv, pv)));
        }
    }

    /// The position of the first route whose path matches `path` (see
    /// `route_matches`), or the number of routes.
    pub fn route_index(&self, path: &str) -> (r: usize)
        ensures
            r == first_match_from(self@.routes, path@, 0),
            r <= self@.routes.len(),
    {
        let ghost s = self@.routes;
        proof {
            lemma_first_match_from(s, path@, 0);
        }
        let pv = to_chars(path);
        let mut i: usize = 0;
        while i < self.routes.len()
            invariant
                i <= self.routes.len(),
                s == self@.routes,
                s == route_entries_view(self.routes@),
                pv@ == path@,
                first_match_from(s, path@, i as int) == first_match_from(s, path@, 0),
            decreases self.routes.len() - i,
        {
            if route_matches_exec(&self.routes[i].0, &pv) {
                return i;
            }
            i = i + 1;
        }
        i
    }

    /// The handler of route `i`.
    pub fn route_at(&self, i: usize) -> (r: &RoutePlan)
        requires
            i < self@.routes.len(),
        ensures
            r@ == self@.routes[i as int].1,
    {
        &self.routes[i].1
    }

    /// The handler of the first route whose path matches `path` (see
    /// `route_matches`), or `None` when no route matches.
    pub fn find_route(&self, path: &str) -> (r: Option<&RoutePlan>)
        ensures
            ({
                let i = first_match_from(self@.routes, path@, 0);
                match r {
                    Some(p) => i < self@.routes.len() && p@ == self@.routes[i].1,
                    None => i == self@.routes.len(),
                }
            }),
    {
        let i = self.route_index(path);
        if i < self.routes.len() {
            Some(&self.routes[i].1)
        } else {
            None
        }
    }

    /// For a reverse-proxy route `i`, the upstream for its next request, its
    /// balancer moving on (see `balancer_after`); `None` and no change for
    /// another route.
    pub fn next_upstream(&mut self, i: usize) -> (r: Option<Node>)
        requires
            i < old(self)@.routes.len(),
        ensures
            match old(self)@.routes[i as int].1 {
                RoutePlanV::ReverseProxy(p) => node_view(r) == balancer_pick(p.balancer)
                    && final(self)@ == proxy_moved_on(old(self)@, i as int),
                _ => r is None && final(self)@ == old(self)@,
            },
    {
        let ghost old_routes = self.routes@;
        let ghost mut is_proxy = false;
        let ghost mut after: ProxyV = arbitrary();
        let entry = &mut self.routes[i];
        let r = match &mut entry.1 {
            RoutePlan::ReverseProxy(h) => {
                proof {
                    is_proxy = true;
                }
                let r = h.get_node();
                proof {
                    after = h@;
                }
                r
            },
            _ => None,
        };
        proof {
            assert(route_entries_view(self.routes@) =~= route_entries_view(old_routes).update(
                i as int,
                (self.routes@[i as int].0@, self.routes@[i as int].1@),
            ));
            if is_proxy {
                assert(self@.routes =~= old(self)@.routes.update(
                    i as int,
                    (old(self)@.routes[i as int].0, RoutePlanV::ReverseProxy(after)),
                ));
                assert(self@ == proxy_moved_on(old(self)@, i as int));
            } else {
                assert(self@.routes =~= old(self)@.routes);
                assert(self@ == old(self)@);
            }
        }
        r
    }
}

/// A virtual host plan after its reverse-proxy route `i` handed out an
/// upstream: that route's balancer moved on, all else unchanged.
pub open spec fn proxy_moved_on(v: VirtualHostPlanV, i: int) -> VirtualHostPlanV {
    match v.routes[i].1 {
        RoutePlanV::ReverseProxy(p) => VirtualHostPlanV {
            routes: v.routes.update(
                i,
                (v.routes[i].0, RoutePlanV::ReverseProxy(ProxyV { balancer: balancer_after(p.balancer), ..p })),
            ),
            ..v
        },
        _ => v,
    }
}

/// A route is found exactly when some route path matches the request path,
/// and the route found matches it.
pub proof fn lemma_find_route_iff(s: Seq<(Seq<char>, RoutePlanV)>, path: Seq<char>)
    ensures
        first_match_from(s, path, 0) < s.len() <==> exists|i: int|
            0 <= i < s.len() && route_matches(#[trigger] s[i].0, path),
        first_match_from(s, path, 0) < s.len() ==> route_matches(
            s[first_match_from(s, path, 0)].0,
            path,
        ),
{
    lemma_first_match_from(s, path, 0);
    if first_match_from(s, path, 0) < s.len() {
        let i = first_match_from(s, path, 0);
        assert(route_matches(s[i].0, path));
    }
}

// ---------------------------------------------------------------------------
// Server plans
// ---------------------------------------------------------------------------

/// The virtual hosts of a server, by domain.
pub struct ServerPlan {
    virtual_hosts: Vec<(String, VirtualHostPlan)>,
}

pub open spec fn host_entries_view(s: Seq<(String, VirtualHostPlan)>) -> Seq<(Seq<char>, VirtualHostPlanV)> {
    s.map_values(|e: (String, VirtualHostPlan)| (e.0@, e.1@))
}

impl View for ServerPlan {
    type V = Seq<(Seq<char>, VirtualHostPlanV)>;

    closed spec fn view(&self) -> Seq<(Seq<char>, VirtualHostPlanV)> {
        host_entries_view(self.virtual_hosts@)
    }
}

/// Every virtual host of the plan designates a host and a port.
pub open spec fn endpoints_known(p: Seq<(Seq<char>, VirtualHostPlanV)>) -> bool {
    forall|i: int| 0 <= i < p.len() ==> (#[trigger] p[i]).1.endpoint is Some
}

/// The first virtual host at or after `i` that designates `host` and `port`,
/// or the number of hosts.
pub open spec fn first_host_from(
    p: Seq<(Seq<char>, VirtualHostPlanV)>,
    host: Seq<char>,
    port: u16,
    i: int,
) -> int
    decreases p.len() - i,
{
    if i < 0 || i >= p.len() {
        p.len() as int
    } else if p[i].1.endpoint == Some((host, port)) {
        i
    } else {
        first_host_from(p, host, port, i + 1)
    }
}

impl ServerPlan {
    /// A plan without virtual hosts.
    pub fn empty() -> (r: Self)
        ensures
            r@ == Seq::<(Seq<char>, VirtualHostPlanV)>::empty(),
    {
        let r = ServerPlan { virtual_hosts: Vec::new() };
        assert(r@ =~= Seq::<(Seq<char>, VirtualHostPlanV)>::empty());
        r
    }

    /// Sets the plan of the virtual host's domain, replacing the one it had.
    pub fn insert_host(&mut self, host: VirtualHostPlan)
        ensures
            final(self)@ == insert_keyed(old(self)@, host@.domain, host@),
    {
        let ghost s = old(self)@;
        let key = host.domain.clone();
        let mut i: usize = 0;
        while i < self.virtual_hosts.len()
            invariant
                i <= self.virtual_hosts.len(),
                self@ == old(self)@,
                s == host_entries_view(self.virtual_hosts@),
                key@ == host@.domain,
                key_index_from(s, key@, i as int) == key_index_from(s, key@, 0),
            decreases self.virtual_hosts.len() - i,
        {
            if self.virtual_hosts[i].0 == key {
                let ghost hv = host@;
                self.virtual_hosts.set(i, (key, host));
                proof {
                    assert(host_entries_view(self.virtual_hosts@) =~= s.update(
                        i as int,
                        (hv.domain, hv),
                    ));
                }
                return;
            }
            i = i + 1;
        }
        let ghost hv = host@;
        self.virtual_hosts.push((key, host));
        proof {
            assert(host_entries_view(self.virtual_hosts@) =~= s.push((hv.domain, hv)));
        }
    }

    /// Whether every virtual host designates a host and a port.
    pub fn endpoints_known(&self) -> (b: bool)
        ensures
            b == endpoints_known(self@),
    {
        let mut i: usize = 0;
        while i < self.virtual_hosts.len()
            invariant
                i <= self.virtual_hosts.len(),
                forall|q: int| 0 <= q < i ==> (#[trigger] self@[q]).1.endpoint is Some,
            decreases self.virtual_hosts.len() - i,
        {
            if self.virtual_hosts[i].1.endpoint.is_none() {
                assert(self@[i as int].1.endpoint is None);
                return false;
            }
            i = i + 1;
        }
        true
    }

    /// The position of the first virtual host whose domain designates
    /// `host` and `port`, or the number of hosts.
    pub fn host_index(&self, host: &str, port: u16) -> (r: usize)
        requires
            endpoints_known(self@),
        ensures
            r == first_host_from(self@, host@, port, 0),
            r <= self@.len(),
    {
        let ghost s = self@;
        proof {
            lemma_first_host_from(s, host@, port, 0);
        }
        let mut i: usize = 0;
        while i < self.virtual_hosts.len()
            invariant
                i <= self.virtual_hosts.len(),
                s == self@,
                first_host_from(s, host@, port, i as int) == first_host_from(s, host@, port, 0),
            decreases self.virtual_hosts.len() - i,
        {
            let vh = &self.virtual_hosts[i].1;
            assert(s[i as int].1 == vh@);
            match &vh.endpoint {
                Some((h, p)) => {
                    if string_eq_str(h, host) && *p == port {
                        return i;
                    }
                },
                None => {},
            }
            i = i + 1;
        }
        i
    }

    /// The first virtual host whose domain designates `host` and `port`.
    pub fn find_virtual_host(&self, host: &str, port: u16) -> (r: Option<&VirtualHostPlan>)
        requires
            endpoints_known(self@),
        ensures
            ({
                let i = first_host_from(self@, host@, port, 0);
                match r {
                    Some(v) => i < self@.len() && v@ == self@[i].1,
                    None => i >= self@.len(),
                }
            }),
    {
        let i = self.host_index(host, port);
        if i < self.virtual_hosts.len() {
            Some(&self.virtual_hosts[i].1)
        } else {
            None
        }
    }

    /// The handler of route `route` of virtual host `host`.
    pub fn route_at(&self, host: usize, route: usize) -> (r: &RoutePlan)
        requires
            host < self@.len(),
            route < self@[host as int].1.routes.len(),
        ensures
            r@ == self@[host as int].1.routes[route as int].1,
    {
        self.virtual_hosts[host].1.route_at(route)
    }

    /// For a reverse-proxy route, the upstream for its next request, its
    /// balancer moving on; `None` and no change for another route.
    pub fn next_upstream(&mut self, host: usize, route: usize) -> (r: Option<Node>)
        requires
            host < old(self)@.len(),
            route < old(self)@[host as int].1.routes.len(),
        ensures
            match old(self)@[host as int].1.routes[route as int].1 {
                RoutePlanV::ReverseProxy(p) => node_view(r) == balancer_pick(p.balancer)
                    && final(self)@ == old(self)@.update(
                    host as int,
                    (old(self)@[host as int].0, proxy_moved_on(old(self)@[host as int].1, route as int)),
                ),
                _ => r is None && final(self)@ == old(self)@,
            },
    {
        let ghost old_hosts = self.virtual_hosts@;
        let entry = &mut self.virtual_hosts[host];
        let r = entry.1.next_upstream(route);
        proof {
            assert(host_entries_view(self.virtual_hosts@) =~= host_entries_view(old_hosts).update(
                host as int,
                (self.virtual_hosts@[host as int].0@, self.virtual_hosts@[host as int].1@),
            ));
        }
        r
    }
}

pub proof fn lemma_first_host_from(p: Seq<(Seq<char>, VirtualHostPlanV)>, host: Seq<char>, port: u16, i: int)
    requires
        0 <= i <= p.len(),
    ensures
        i <= first_host_from(p, host, port, i) <= p.len(),
        first_host_from(p, host, port, i) < p.len() ==> p[first_host_from(p, host, port, i)].1.endpoint
            == Some((host, port)),
        forall|q: int| i <= q < first_host_from(p, host, port, i) ==> (#[trigger] p[q]).1.endpoint
            != Some((host, port)),
    decreases p.len() - i,
{
    if i < p.len() && p[i].1.endpoint != Some((host, port)) {
        lemma_first_host_from(p, host, port, i + 1);
    }
}

// ---------------------------------------------------------------------------
// Plans from configurations
// ---------------------------------------------------------------------------

/// The handler a route gets: a file handler for its file or directory, a
/// reverse proxy over its upstreams (with the default time limits where none
/// is given), a fixed response (status 200 when none is given), or a
/// redirect. `None` for the routes on which the server stops: directory
/// listings, browsing, and redirects without a target.
pub open spec fn spec_route_plan(r: RouteV) -> Option<RoutePlanV> {
    match r.handler {
        HandlerV::File(p) => Some(RoutePlanV::File { path: p, is_dir: has_suffix(p, "/"@), route: r.path }),
        HandlerV::Proxy(pc) => Some(
            RoutePlanV::ReverseProxy(
                ProxyV {
                    balancer: match pc.load_balancer {
                        LoadBalancerV::NoBalancer(u) => BalancerV::Single(u.host_addrs),
                        LoadBalancerV::RoundRobin(us) => BalancerV::RoundRobin(
                            RoundRobinV {
                                nodes: us.map_values(|u: UpstreamV| u.host_addrs),
                                counter: 0,
                                reset_threshold: RESET_THRESHOLD,
                            },
                        ),
                    },
                    request_timeout: match pc.request_timeout {
                        Some(t) => t,
                        None => 30,
                    },
                    connection_timeout: match pc.connection_timeout {
                        Some(t) => t,
                        None => 10,
                    },
                },
            ),
        ),
        HandlerV::Respond { status, body } => Some(
            RoutePlanV::Respond(
                plain_handler(
                    match status {
                        Some(c) => c,
                        None => 200,
                    },
                    body,
                ),
            ),
        ),
        HandlerV::Redirect { path, status_code } => match path {
            Some(p) => Some(RoutePlanV::Redirect(RedirectHandlerV { path: p, status_code })),
            None => None,
        },
        HandlerV::Dir(_) => None,
        HandlerV::Browse(_) => None,
    }
}

/// A file route is served by a file handler for its path and route, which
/// serves a directory exactly when the path ends with `/`.
pub proof fn lemma_file_route_plan(r: RouteV)
    ensures
        r.handler matches HandlerV::File(p) ==> spec_route_plan(r) == Some(
            RoutePlanV::File { path: p, is_dir: p.len() > 0 && p[p.len() - 1] == '/', route: r.path },
        ),
{
    reveal_strlit("/");
    if let HandlerV::File(p) = r.handler {
        if p.len() > 0 && p[p.len() - 1] == '/' {
            assert(p.subrange(p.len() - 1, p.len() as int) =~= "/"@);
        } else if has_suffix(p, "/"@) {
            assert(p.subrange(p.len() - 1, p.len() as int)[0] == p[p.len() - 1]);
        }
    }
}

/// A fixed response without a status answers `200` with its body and no
/// header fields; a reverse proxy without time limits waits 30 seconds for
/// a response and 10 for a connection.
pub proof fn lemma_route_plan_defaults(r: RouteV)
    ensures
        r.handler matches HandlerV::Respond { status: None, body } ==> spec_route_plan(r) == Some(
            RoutePlanV::Respond(RespondHandlerV { status: 200, body, headers: Seq::empty() }),
        ),
        r.handler matches HandlerV::Proxy(pc) ==> (spec_route_plan(r) matches Some(
            RoutePlanV::ReverseProxy(h),
        ) && h.request_timeout == (if pc.request_timeout is Some {
            pc.request_timeout.unwrap()
        } else {
            30
        }) && h.connection_timeout == (if pc.connection_timeout is Some {
            pc.connection_timeout.unwrap()
        } else {
            10
        })),
{
}

/// The routes of a host by path, later routes replacing earlier ones of the
/// same path.
pub open spec fn spec_host_routes(rs: Seq<RouteV>) -> Option<Seq<(Seq<char>, RoutePlanV)>>
    decreases rs.len(),
{
    if rs.len() == 0 {
        Some(Seq::empty())
    } else {
        match (spec_host_routes(rs.drop_last()), spec_route_plan(rs.last())) {
            (Some(acc), Some(p)) => Some(insert_keyed(acc, rs.last().path, p)),
            _ => None,
        }
    }
}

/// The plan of a virtual host.
pub open spec fn spec_host_plan(h: VirtualHostV) -> Option<VirtualHostPlanV> {
    match spec_host_routes(h.routes) {
        Some(rs) => Some(VirtualHostPlanV { domain: h.domain, endpoint: endpoint_of(h.domain), routes: rs }),
        None => None,
    }
}

/// The plan of a server: its virtual hosts by domain, later hosts replacing
/// earlier ones of the same domain.
pub open spec fn spec_server_plan(hs: Seq<VirtualHostV>) -> Option<Seq<(Seq<char>, VirtualHostPlanV)>>
    decreases hs.len(),
{
    if hs.len() == 0 {
        Some(Seq::empty())
    } else {
        match (spec_server_plan(hs.drop_last()), spec_host_plan(hs.last())) {
            (Some(acc), Some(h)) => Some(insert_keyed(acc, hs.last().domain, h)),
            _ => None,
        }
    }
}

pub open spec fn opt_route_view(r: Option<RoutePlan>) -> Option<RoutePlanV> {
    match r {
        Some(p) => Some(p@),
        None => None,
    }
}

fn balancer_of(lb: &LoadBalancer) -> (r: Balancer)
    ensures
        r@ == match lb@ {
            LoadBalancerV::NoBalancer(u) => BalancerV::Single(u.host_addrs),
            LoadBalancerV::RoundRobin(us) => BalancerV::RoundRobin(
                RoundRobinV {
                    nodes: us.map_values(|u: UpstreamV| u.host_addrs),
                    counter: 0,
                    reset_threshold: RESET_THRESHOLD,
                },
            ),
        },
{
    match lb {
        LoadBalancer::NoBalancer(u) => {
            let node = Node::new(u.get_host_port().to_string());
            Balancer::Single(SingleUpstream::new(node))
        },
        LoadBalancer::RoundRobin(us) => {
            let ghost uv = us@.map_values(|u: Upstream| u@);
            let mut nodes: Vec<Node> = Vec::new();
            let mut i: usize = 0;
            while i < us.len()
                invariant
                    i <= us.len(),
                    uv == us@.map_values(|u: Upstream| u@),
                    node_addrs(nodes@) == uv.map_values(|u: UpstreamV| u.host_addrs).take(
                        i as int,
                    ),
                decreases us.len() - i,
            {
                let ghost old_nodes = nodes@;
                nodes.push(Node::new(us[i].get_host_port().to_string()));
                assert(node_addrs(nodes@) =~= node_addrs(old_nodes).push(uv[i as int].host_addrs));
                i = i + 1;
                assert(uv.map_values(|u: UpstreamV| u.host_addrs).take(i as int) =~= uv.map_values(
                    |u: UpstreamV| u.host_addrs,
                ).take(i - 1).push(uv[i - 1].host_addrs));
            }
            assert(uv.map_values(|u: UpstreamV| u.host_addrs).take(i as int) =~= uv.map_values(
                |u: UpstreamV| u.host_addrs,
            ));
            Balancer::RoundRobin(RoundRobinBalancer::new(nodes))
        },
    }
}

fn route_plan(r: &Route) -> (p: Option<RoutePlan>)
    ensures
        opt_route_view(p) == spec_route_plan(r@),
{
    match &r.handler {
        Handler::File(path) => Some(RoutePlan::File(FileHandler::new(path.clone(), r.path.clone()))),
        Handler::Proxy(pc) => {
            let b = balancer_of(&pc.load_balancer);
            Some(
                RoutePlan::ReverseProxy(
                    ReverseProxyHandler::with_timeouts(b, pc.request_timeout, pc.connection_timeout),
                ),
            )
        },
        Handler::Respond { status, body } => {
            let code = match status {
                Some(c) => *c,
                None => 200,
            };
            Some(RoutePlan::Respond(RespondHandler::new(code, body.clone())))
        },
        Handler::Redirect { path, status_code } => match path {
            Some(p) => Some(RoutePlan::Redirect(RedirectHandler::new(p.clone(), *status_code))),
            None => None,
        },
        Handler::Dir(_) => None,
        Handler::Browse(_) => None,
    }
}

fn host_plan(h: &VirtualHost) -> (r: Option<VirtualHostPlan>)
    ensures
        match r {
            Some(p) => spec_host_plan(h@) == Some(p@),
            None => spec_host_plan(h@) is None,
        },
{
    let rs = &h.routes;
    let ghost rv = routes_view(rs@);
    let mut plan = VirtualHostPlan::new(h.domain.clone());
    let mut i: usize = 0;
    while i < rs.len()
        invariant
            i <= rs.len(),
            rs@ == h.routes@,
            rv == routes_view(rs@),
            plan@.domain == h@.domain,
            plan@.endpoint == endpoint_of(h@.domain),
            spec_host_routes(rv.take(i as int)) == Some(plan@.routes),
        decreases rs.len() - i,
    {
        assert(rv.take(i + 1).drop_last() =~= rv.take(i as int));
        assert(rv.take(i + 1).last() == rs@[i as int]@);
        match route_plan(&rs[i]) {
            Some(p) => plan.insert_route(rs[i].path.clone(), p),
            None => {
                proof {
                    lemma_host_routes_prefix(rv, i + 1);
                }
                return None;
            },
        }
        i = i + 1;
    }
    assert(rv.take(i as int) =~= rv);
    Some(plan)
}

/// When a prefix of the routes has no plan, neither have the routes.
pub proof fn lemma_host_routes_prefix(rs: Seq<RouteV>, n: int)
    requires
        0 <= n <= rs.len(),
        spec_host_routes(rs.take(n)) is None,
    ensures
        spec_host_routes(rs) is None,
    decreases rs.len() - n,
{
    if n < rs.len() {
        assert(rs.take(n + 1).drop_last() =~= rs.take(n));
        lemma_host_routes_prefix(rs, n + 1);
    } else {
        assert(rs.take(n) =~= rs);
    }
}

/// When a prefix of the hosts has no plan, neither has the server.
pub proof fn lemma_server_plan_prefix(hs: Seq<VirtualHostV>, n: int)
    requires
        0 <= n <= hs.len(),
        spec_server_plan(hs.take(n)) is None,
    ensures
        spec_server_plan(hs) is None,
    decreases hs.len() - n,
{
    if n < hs.len() {
        assert(hs.take(n + 1).drop_last() =~= hs.take(n));
        lemma_server_plan_prefix(hs, n + 1);
    } else {
        assert(hs.take(n) =~= hs);
    }
}

impl ServerPlan {
    /// The plan of a configuration, or `None` when a route is one on which
    /// the server stops (see `spec_route_plan`).
    pub fn try_from_config(config: &Config) -> (r: Option<ServerPlan>)
        ensures
            match r {
                Some(p) => spec_server_plan(config@.virtual_hosts) == Some(p@),
                None => spec_server_plan(config@.virtual_hosts) is None,
            },
    {
        let hs = &config.virtual_hosts;
        let ghost hv = hosts_view(hs@);
        let mut plan = ServerPlan::empty();
        let mut i: usize = 0;
        while i < hs.len()
            invariant
                i <= hs.len(),
                hs@ == config.virtual_hosts@,
                hv == hosts_view(hs@),
                spec_server_plan(hv.take(i as int)) == Some(plan@),
            decreases hs.len() - i,
        {
            assert(hv.take(i + 1).drop_last() =~= hv.take(i as int));
            assert(hv.take(i + 1).last() == hs@[i as int]@);
            match host_plan(&hs[i]) {
                Some(h) => plan.insert_host(h),
                None => {
                    proof {
                        lemma_server_plan_prefix(hv, i + 1);
                    }
                    return None;
                },
            }
            i = i + 1;
        }
        assert(hv.take(i as int) =~= hv);
        Some(plan)
    }

    /// The plan of a configuration without directory, browse or target-less
    /// redirect routes.
    pub fn from_config(config: &Config) -> (r: ServerPlan)
        requires
            spec_server_plan(config@.virtual_hosts) is Some,
        ensures
            spec_server_plan(config@.virtual_hosts) == Some(r@),
    {
        match ServerPlan::try_from_config(config) {
            Some(p) => p,
            None => ServerPlan::empty(),
        }
    }
}

// ---------------------------------------------------------------------------
// Choosing the handler of a request
// ---------------------------------------------------------------------------

/// Who answers a request: a fixed response, or the handler of a route,
/// by the positions of its virtual host and of the route.
#[derive(PartialEq, Debug)]
pub enum Dispatch {
    Reply(RespondHandler),
    Route(usize, usize),
}

pub enum DispatchV {
    Reply(RespondHandlerV),
    Route(int, int),
}

impl View for Dispatch {
    type V = DispatchV;

    open spec fn view(&self) -> DispatchV {
        match self {
            Dispatch::Reply(h) => DispatchV::Reply(h@),
            Dispatch::Route(i, j) => DispatchV::Route(*i as int, *j as int),
        }
    }
}

pub open spec fn host_header_view(h: Option<Option<&str>>) -> Option<Option<Seq<char>>> {
    match h {
        None => None,
        Some(None) => Some(None),
        Some(Some(s)) => Some(Some(s@)),
    }
}

/// Who answers a request with the `Host` header `host` (absent, not text,
/// or its text) and the URI path `path`: `400` when the header is absent or
/// does not parse as a URI with a host; `404` when no virtual host designates
/// that host and port, or none of its routes matches the path; else the
/// first matching route's handler.
pub open spec fn spec_select_handler(
    plan: Seq<(Seq<char>, VirtualHostPlanV)>,
    host: Option<Option<Seq<char>>>,
    path: Seq<char>,
) -> DispatchV {
    let not_found = html_error_handler(
        404,
        "Not Found"@,
        "The requested resource could not be found on this server."@,
    );
    let invalid = html_error_handler(400, "Bad Request"@, "Invalid Host header."@);
    match host {
        None => DispatchV::Reply(
            html_error_handler(400, "Bad Request"@, "Host header is missing in the request."@),
        ),
        Some(None) => DispatchV::Reply(invalid),
        Some(Some(h)) => match http_uri_parse(h) {
            Err(_) => DispatchV::Reply(invalid),
            Ok(parts) => match parts.0 {
                None => DispatchV::Reply(invalid),
                Some(name) => {
                    let i = first_host_from(plan, name, designated_port(parts.1, parts.2), 0);
                    if i >= plan.len() {
                        DispatchV::Reply(not_found)
                    } else {
                        let routes = plan[i].1.routes;
                        let j = first_match_from(routes, path, 0);
                        if j >= routes.len() {
                            DispatchV::Reply(not_found)
                        } else {
                            DispatchV::Route(i, j)
                        }
                    }
                },
            },
        },
    }
}

impl ServerPlan {
    /// Who answers a request (see `spec_select_handler`).
    pub fn select_handler(&self, host: Option<Option<&str>>, path: &str) -> (r: Dispatch)
        requires
            endpoints_known(self@),
        ensures
            r@ == spec_select_handler(self@, host_header_view(host), path@),
    {
        let h = match host {
            None => {
                return Dispatch::Reply(
                    UtilitiesResponses::bad_request_host_header_not_found_respond_handler(),
                );
            },
            Some(None) => {
                return Dispatch::Reply(
                    UtilitiesResponses::bad_request_invalid_host_header_respond_handler(),
                );
            },
            Some(Some(h)) => h,
        };
        let parts = match parse_uri(h) {
            Err(_) => {
                return Dispatch::Reply(
                    UtilitiesResponses::bad_request_invalid_host_header_respond_handler(),
                );
            },
            Ok(parts) => parts,
        };
        let port = parts.get_port();
        let name = match &parts.host {
            None => {
                return Dispatch::Reply(
                    UtilitiesResponses::bad_request_invalid_host_header_respond_handler(),
                );
            },
            Some(name) => name,
        };
        let i = self.host_index(name.as_str(), port);
        if i >= self.virtual_hosts.len() {
            return Dispatch::Reply(UtilitiesResponses::not_found_respond_handler());
        }
        let vh = &self.virtual_hosts[i].1;
        assert(vh@ == self@[i as int].1);
        let j = vh.route_index(path);
        if j >= vh.routes.len() {
            Dispatch::Reply(UtilitiesResponses::not_found_respond_handler())
        } else {
            Dispatch::Route(i, j)
        }
    }
}

/// The handler chosen for a request is a route of a virtual host that
/// designates the request's host and port, and the route's path matches the
/// request path; no earlier route of that host matches it.
pub proof fn lemma_selected_route_matches(
    plan: Seq<(Seq<char>, VirtualHostPlanV)>,
    host: Option<Option<Seq<char>>>,
    path: Seq<char>,
)
    ensures
        spec_select_handler(plan, host, path) matches DispatchV::Route(i, j) ==> {
            &&& 0 <= i < plan.len()
            &&& 0 <= j < plan[i].1.routes.len()
            &&& route_matches(plan[i].1.routes[j].0, path)
            &&& forall|q: int| 0 <= q < j ==> !route_matches(#[trigger] plan[i].1.routes[q].0, path)
            &&& host matches Some(Some(h)) && http_uri_parse(h) matches Ok(parts) && parts.0
                matches Some(name) && plan[i].1.endpoint == Some(
                (name, designated_port(parts.1, parts.2)),
            )
        },
{
    if let Some(Some(h)) = host {
        if let Ok(parts) = http_uri_parse(h) {
            if let Some(name) = parts.0 {
                let port = designated_port(parts.1, parts.2);
                lemma_first_host_from(plan, name, port, 0);
                let i = first_host_from(plan, name, port, 0);
                if i < plan.len() {
                    lemma_first_match_from(plan[i].1.routes, path, 0);
                }
            }
        }
    }
}

/// The routes of a host plan have one entry per path.
pub proof fn lemma_host_routes_distinct(rs: Seq<RouteV>)
    ensures
        spec_host_routes(rs) matches Some(p) ==> distinct_keys(p),
    decreases rs.len(),
{
    if rs.len() > 0 {
        lemma_host_routes_distinct(rs.drop_last());
        match (spec_host_routes(rs.drop_last()), spec_route_plan(rs.last())) {
            (Some(acc), Some(p)) => lemma_insert_keyed_distinct(acc, rs.last().path, p),
            _ => {},
        }
    }
}

/// A server plan has one virtual host per domain, and each virtual host one
/// route per path, as maps keyed by domain and by path do.
pub proof fn lemma_server_plan_distinct(hs: Seq<VirtualHostV>)
    ensures
        spec_server_plan(hs) matches Some(p) ==> distinct_keys(p) && forall|i: int|
            0 <= i < p.len() ==> distinct_keys(#[trigger] p[i].1.routes),
    decreases hs.len(),
{
    if hs.len() > 0 {
        lemma_server_plan_distinct(hs.drop_last());
        lemma_host_routes_distinct(hs.last().routes);
        match (spec_server_plan(hs.drop_last()), spec_host_plan(hs.last())) {
            (Some(acc), Some(h)) => {
                lemma_insert_keyed_distinct(acc, hs.last().domain, h);
                lemma_key_index_from(acc, hs.last().domain, 0);
                let p = insert_keyed(acc, hs.last().domain, h);
                assert forall|i: int| 0 <= i < p.len() implies distinct_keys(#[trigger] p[i].1.routes) by {
                    if i < acc.len() && p[i] == acc[i] {
                    } else {
                        assert(p[i].1 == h);
                    }
                }
            },
            _ => {},
        }
    }
}

} // verus!
