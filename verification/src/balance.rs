//! Choosing the upstream server of a reverse proxy: a single upstream, or a
//! round-robin rotation over several, and the proxy handler that holds the
//! choice with its timeouts.
use crate::respond::{html_error_handler, plain_handler, RespondHandler};
use crate::text::{concat, decimal, push_decimal, string_of_all, to_chars};
use crate::uri::{parse_uri, http_uri_parse};
use vstd::arithmetic::div_mod::{lemma_add_mod_noop_right, lemma_small_mod};
use vstd::prelude::*;

verus! {

broadcast use vstd::string::group_string_axioms;

/// An upstream server, by its socket address (`ip:port`).
#[derive(PartialEq, Eq, Debug, Clone)]
pub struct Node {
    pub addr: String,
}

impl Node {
    /// The upstream at `addr`.
    pub fn new(addr: String) -> (r: Self)
        ensures
            r.addr@ == addr@,
    {
        Self { addr }
    }

    /// A copy of this node.
    pub fn duplicate(&self) -> (r: Self)
        ensures
            r.addr@ == self.addr@,
    {
        Node { addr: self.addr.clone() }
    }
}

/// Always the same upstream.
pub struct SingleUpstream {
    node: Node,
}

impl SingleUpstream {
    /// A balancer over the one upstream `node`.
    pub fn new(node: Node) -> (r: Self)
        ensures
            r.node_addr() == node.addr@,
    {
        Self { node }
    }

    /// The address of the upstream.
    pub closed spec fn node_addr(&self) -> Seq<char> {
        self.node.addr@
    }

    /// The upstream.
    pub fn get_node(&self) -> (r: Option<Node>)
        ensures
            r matches Some(n) && n.addr@ == self.node_addr(),
    {
        Some(self.node.duplicate())
    }
}

/// The counter above which a round-robin balancer restarts its count.
pub const RESET_THRESHOLD: usize = usize::MAX / 2;

/// The counter after one request on `len > 0` upstreams: the next count, or,
/// once the count has reached `threshold`, the position after the one just
/// chosen.
pub open spec fn rr_step(counter: usize, len: usize, threshold: usize) -> usize {
    if counter >= threshold {
        ((counter % len) + 1) as usize
    } else {
        (counter + 1) as usize
    }
}

/// The counter after `k` requests from a fresh balancer.
pub open spec fn rr_counter(k: nat, len: usize, threshold: usize) -> usize
    decreases k,
{
    if k == 0 {
        0
    } else {
        rr_step(rr_counter((k - 1) as nat, len, threshold), len, threshold)
    }
}

/// Hands out the upstreams in turn, starting over after the last.
pub struct RoundRobinBalancer {
    nodes: Vec<Node>,
    counter: usize,
    reset_threshold: usize,
}

/// A `RoundRobinBalancer` as plain values.
pub struct RoundRobinV {
    pub nodes: Seq<Seq<char>>,
    pub counter: usize,
    pub reset_threshold: usize,
}

pub open spec fn node_addrs(ns: Seq<Node>) -> Seq<Seq<char>> {
    ns.map_values(|n: Node| n.addr@)
}

impl View for RoundRobinBalancer {
    type V = RoundRobinV;

    closed spec fn view(&self) -> RoundRobinV {
        RoundRobinV {
            nodes: node_addrs(self.nodes@),
            counter: self.counter,
            reset_threshold: self.reset_threshold,
        }
    }
}

impl RoundRobinBalancer {
    /// A balancer over `nodes`, in that order, restarting its count at
    /// `RESET_THRESHOLD`.
    pub fn new(nodes: Vec<Node>) -> (r: Self)
        ensures
            r@ == (RoundRobinV {
                nodes: node_addrs(nodes@),
                counter: 0,
                reset_threshold: RESET_THRESHOLD,
            }),
    {
        Self { nodes, counter: 0, reset_threshold: RESET_THRESHOLD }
    }

    /// A balancer over `nodes` restarting its count at `threshold`.
    pub fn with_reset_threshold(nodes: Vec<Node>, threshold: usize) -> (r: Self)
        ensures
            r@ == (RoundRobinV { nodes: node_addrs(nodes@), counter: 0, reset_threshold: threshold }),
    {
        Self { nodes, counter: 0, reset_threshold: threshold }
    }

    /// How many requests the balancer has counted since it last restarted.
    pub fn counter(&self) -> (r: usize)
        ensures
            r == self@.counter,
    {
        self.counter
    }

    /// The next upstream (see `rr_pick`), and the count moved on (see
    /// `rr_after`).
    pub fn next(&mut self) -> (r: Option<Node>)
        ensures
            node_view(r) == rr_pick(old(self)@),
            final(self)@ == rr_after(old(self)@),
    {
        let len = self.nodes.len();
        if len == 0 {
            return None;
        }
        let current = self.counter;
        let index = current % len;
        if current >= self.reset_threshold {
            self.counter = index + 1;
        } else {
            self.counter = current + 1;
        }
        Some(self.nodes[index].duplicate())
    }

    /// The next upstream (see `next`).
    pub fn get_node(&mut self) -> (r: Option<Node>)
        ensures
            node_view(r) == rr_pick(old(self)@),
            final(self)@ == rr_after(old(self)@),
    {
        self.next()
    }
}

/// One request moves the count on by one position among the upstreams, and
/// after the restart the counter is no more than the number of upstreams.
pub proof fn lemma_rr_step(counter: usize, len: usize, threshold: usize)
    requires
        len > 0,
    ensures
        rr_step(counter, len, threshold) as int % len as int == (counter as int + 1) % len as int,
        counter >= threshold ==> rr_step(counter, len, threshold) <= len,
{
    lemma_add_mod_noop_right(1, counter as int, len as int);
}

/// From a fresh balancer, the `k`-th request (from 0) goes to upstream
/// `k % len`: the rotation is kept across restarts of the count, and the
/// counter stays at most the larger of the threshold and the number of
/// upstreams.
pub proof fn lemma_round_robin_order(k: nat, len: usize, threshold: usize)
    requires
        len > 0,
    ensures
        rr_counter(k, len, threshold) as int % len as int == k as int % len as int,
        rr_counter(k, len, threshold) <= if threshold >= len {
            threshold
        } else {
            len
        },
    decreases k,
{
    if k == 0 {
        lemma_small_mod(0, len as nat);
    } else {
        let prev = rr_counter((k - 1) as nat, len, threshold);
        lemma_round_robin_order((k - 1) as nat, len, threshold);
        lemma_rr_step(prev, len, threshold);
        lemma_add_mod_noop_right(1, (k - 1) as int, len as int);
        lemma_add_mod_noop_right(1, prev as int, len as int);
    }
}

/// The upstream a round-robin balancer hands out next: the one at the
/// counter's position modulo the number of upstreams; none when there is no
/// upstream.
pub open spec fn rr_pick(b: RoundRobinV) -> Option<Seq<char>> {
    if b.nodes.len() > 0 {
        Some(b.nodes[b.counter as int % b.nodes.len() as int])
    } else {
        None
    }
}

/// A round-robin balancer after handing out an upstream: the counter moves
/// on (see `rr_step`) when there is an upstream; nothing else changes.
pub open spec fn rr_after(b: RoundRobinV) -> RoundRobinV {
    if b.nodes.len() > 0 {
        RoundRobinV { counter: rr_step(b.counter, b.nodes.len() as usize, b.reset_threshold), ..b }
    } else {
        b
    }
}

/// A round-robin balancer after `k` upstreams were asked of it in turn.
pub open spec fn rr_after_calls(b: RoundRobinV, k: nat) -> RoundRobinV
    decreases k,
{
    if k == 0 {
        b
    } else {
        rr_after(rr_after_calls(b, (k - 1) as nat))
    }
}

/// Asked for upstreams again and again, a fresh round-robin balancer hands
/// out its upstreams in turn: the request numbered `k` (from 0) gets
/// upstream `k % len`, also after the count has restarted at the
/// threshold, and nothing when there is no upstream; the upstreams and the
/// threshold never change, and the counter is the one `rr_counter` gives.
pub proof fn lemma_round_robin_calls(b: RoundRobinV, k: nat)
    requires
        b.counter == 0,
        b.nodes.len() <= usize::MAX,
    ensures
        rr_after_calls(b, k).nodes == b.nodes,
        rr_after_calls(b, k).reset_threshold == b.reset_threshold,
        rr_after_calls(b, k).counter == if b.nodes.len() > 0 {
            rr_counter(k, b.nodes.len() as usize, b.reset_threshold)
        } else {
            0
        },
        rr_pick(rr_after_calls(b, k)) == if b.nodes.len() > 0 {
            Some(b.nodes[k as int % b.nodes.len() as int])
        } else {
            None
        },
    decreases k,
{
    if k > 0 {
        lemma_round_robin_calls(b, (k - 1) as nat);
    }
    if b.nodes.len() > 0 {
        lemma_round_robin_order(k, b.nodes.len() as usize, b.reset_threshold);
    }
}

/// How a reverse proxy picks its upstream.
pub enum Balancer {
    Single(SingleUpstream),
    RoundRobin(RoundRobinBalancer),
}

impl Balancer {
    /// The upstream for the next request (see `balancer_pick`), and the
    /// balancer moved on (see `balancer_after`).
    pub fn get_node(&mut self) -> (r: Option<Node>)
        ensures
            node_view(r) == balancer_pick(old(self)@),
            final(self)@ == balancer_after(old(self)@),
    {
        match self {
            Balancer::Single(s) => s.get_node(),
            Balancer::RoundRobin(b) => {
                let r = b.get_node();
                assert(b@ == (RoundRobinV { counter: b@.counter, ..b@ }));
                r
            },
        }
    }
}

pub open spec fn node_view(r: Option<Node>) -> Option<Seq<char>> {
    match r {
        Some(n) => Some(n.addr@),
        None => None,
    }
}

/// The upstream a balancer hands out next: the single one, or the one at
/// the round-robin counter's position (none when there is no upstream).
pub open spec fn balancer_pick(b: BalancerV) -> Option<Seq<char>> {
    match b {
        BalancerV::Single(a) => Some(a),
        BalancerV::RoundRobin(rr) => rr_pick(rr),
    }
}

/// A balancer after handing out an upstream: the round-robin counter moves
/// on (see `rr_step`); nothing else changes.
pub open spec fn balancer_after(b: BalancerV) -> BalancerV {
    match b {
        BalancerV::Single(a) => BalancerV::Single(a),
        BalancerV::RoundRobin(rr) => BalancerV::RoundRobin(rr_after(rr)),
    }
}

/// A `Balancer` as plain values: the single upstream's address, or the
/// round-robin state.
pub enum BalancerV {
    Single(Seq<char>),
    RoundRobin(RoundRobinV),
}

impl View for Balancer {
    type V = BalancerV;

    open spec fn view(&self) -> BalancerV {
        match self {
            Balancer::Single(s) => BalancerV::Single(s.node_addr()),
            Balancer::RoundRobin(b) => BalancerV::RoundRobin(b@),
        }
    }
}

/// A `ReverseProxyHandler` as plain values.
pub struct ProxyV {
    pub balancer: BalancerV,
    pub request_timeout: u64,
    pub connection_timeout: u64,
}

impl View for ReverseProxyHandler {
    type V = ProxyV;

    open spec fn view(&self) -> ProxyV {
        ProxyV {
            balancer: self.load_balancer@,
            request_timeout: self.request_timeout,
            connection_timeout: self.connection_timeout,
        }
    }
}

/// Forwards requests to an upstream chosen by a balancer, with a time limit
/// (in seconds) for connecting and one for the whole request.
pub struct ReverseProxyHandler {
    pub load_balancer: Balancer,
    pub request_timeout: u64,
    pub connection_timeout: u64,
}

impl ReverseProxyHandler {
    /// A proxy with the default limits: 30 s per request, 10 s to connect.
    pub fn new(load_balancer: Balancer) -> (r: Self)
        ensures
            r.load_balancer == load_balancer,
            r.request_timeout == 30,
            r.connection_timeout == 10,
    {
        Self { load_balancer, request_timeout: 30, connection_timeout: 10 }
    }

    /// A proxy with the given limits, each defaulting as in `new`.
    pub fn with_timeouts(
        load_balancer: Balancer,
        request_timeout: Option<u64>,
        connection_timeout: Option<u64>,
    ) -> (r: Self)
        ensures
            r.load_balancer == load_balancer,
            r.request_timeout == match request_timeout {
                Some(t) => t,
                None => 30,
            },
            r.connection_timeout == match connection_timeout {
                Some(t) => t,
                None => 10,
            },
    {
        Self {
            load_balancer,
            request_timeout: match request_timeout {
                Some(t) => t,
                None => 30,
            },
            connection_timeout: match connection_timeout {
                Some(t) => t,
                None => 10,
            },
        }
    }

    /// The upstream for the next request (see `balancer_pick`); the
    /// balancer moves on and the time limits stay.
    pub fn get_node(&mut self) -> (r: Option<Node>)
        ensures
            node_view(r) == balancer_pick(old(self)@.balancer),
            final(self)@ == (ProxyV { balancer: balancer_after(old(self)@.balancer), ..old(self)@ }),
    {
        self.load_balancer.get_node()
    }
}

/// How forwarding a request to the upstream failed.
#[derive(PartialEq, Eq, Debug, Clone, Copy)]
pub enum ProxyFailure {
    /// The connection to the upstream was refused or failed.
    Connect,
    /// The connection was not made within the connection time limit.
    ConnectTimeout,
    /// The HTTP/1 handshake with the upstream failed.
    Handshake,
    /// Sending the request failed.
    Send,
    /// The upstream did not answer within the request time limit.
    SendTimeout,
}

/// The response to a failed forwarding: the HTML `502` page with a message
/// for failures before the request was sent, a plain `502` when sending
/// failed, and a plain `504` when the upstream did not answer in time.
pub open spec fn spec_proxy_failure_response(f: ProxyFailure) -> crate::respond::RespondHandlerV {
    match f {
        ProxyFailure::Connect => html_error_handler(
            502,
            "Bad Gateway"@,
            "502 Bad Gateway - could not connect to upstream server."@,
        ),
        ProxyFailure::ConnectTimeout => html_error_handler(
            502,
            "Bad Gateway"@,
            "502 Bad Gateway - connection timeout to upstream server."@,
        ),
        ProxyFailure::Handshake => html_error_handler(
            502,
            "Bad Gateway"@,
            "502 Bad Gateway - handshake with upstream server failed."@,
        ),
        ProxyFailure::Send => plain_handler(502, Some("502 Bad Gateway - error sending request."@)),
        ProxyFailure::SendTimeout => plain_handler(
            504,
            Some("504 Gateway Timeout - upstream did not respond in time."@),
        ),
    }
}

/// The response to a failed forwarding (see `spec_proxy_failure_response`).
pub fn proxy_failure_response(f: ProxyFailure) -> (r: RespondHandler)
    ensures
        r@ == spec_proxy_failure_response(f),
{
    match f {
        ProxyFailure::Connect => RespondHandler::bad_gateway_with_body(
            "502 Bad Gateway - could not connect to upstream server.".to_string(),
        ),
        ProxyFailure::ConnectTimeout => RespondHandler::bad_gateway_with_body(
            "502 Bad Gateway - connection timeout to upstream server.".to_string(),
        ),
        ProxyFailure::Handshake => RespondHandler::bad_gateway_with_body(
            "502 Bad Gateway - handshake with upstream server failed.".to_string(),
        ),
        ProxyFailure::Send => RespondHandler::new(
            502,
            Some("502 Bad Gateway - error sending request.".to_string()),
        ),
        ProxyFailure::SendTimeout => RespondHandler::new(
            504,
            Some("504 Gateway Timeout - upstream did not respond in time.".to_string()),
        ),
    }
}

/// The URI a request is forwarded to: `http://`, the upstream's address, and
/// the request's path and query (`/` when it has none).
pub fn proxied_uri(upstream_addr: &str, path_and_query: Option<&str>) -> (r: String)
    ensures
        r@ == "http://"@ + upstream_addr@ + match path_and_query {
            Some(p) => p@,
            None => "/"@,
        },
{
    let mut v = to_chars("http://");
    v = concat(&v, &to_chars(upstream_addr));
    match path_and_query {
        Some(p) => {
            v = concat(&v, &to_chars(p));
        },
        None => {
            v = concat(&v, &to_chars("/"));
        },
    }
    string_of_all(&v)
}

/// The `Host` header of a forwarded request: the host and the explicit port
/// of the URI it is forwarded to, joined by `:`; `None` when the URI does not
/// parse or lacks either.
pub open spec fn spec_upstream_host_header(uri: Seq<char>) -> Option<Seq<char>> {
    match http_uri_parse(uri) {
        Ok(parts) => match (parts.0, parts.1) {
            (Some(h), Some(p)) => Some(h + ":"@ + decimal(p as nat)),
            _ => None,
        },
        Err(_) => None,
    }
}

/// The `Host` header of a forwarded request (see `spec_upstream_host_header`).
pub fn upstream_host_header(uri: &str) -> (r: Option<String>)
    ensures
        match r {
            Some(h) => spec_upstream_host_header(uri@) == Some(h@),
            None => spec_upstream_host_header(uri@) is None,
        },
{
    match parse_uri(uri) {
        Ok(parts) => match (parts.host, parts.port) {
            (Some(h), Some(p)) => {
                let mut v = to_chars(h.as_str());
                v = concat(&v, &to_chars(":"));
                push_decimal(&mut v, p as u128);
                Some(string_of_all(&v))
            },
            _ => None,
        },
        Err(_) => None,
    }
}

} // verus!
