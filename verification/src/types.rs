//! The configuration model: virtual hosts, routes, handlers and middleware,
//! with their mathematical views.
use crate::text::{decimal, push_decimal, string_of_all, to_chars};
use crate::uri::{designated_port, http_uri_parse, opt_view, parse_uri, UriExt};
use vstd::prelude::*;

verus! {

/// A parsed configuration file.
#[derive(Debug, PartialEq, Clone)]
pub struct Config {
    pub virtual_hosts: Vec<VirtualHost>,
}

/// A site: a domain and the routes it serves.
#[derive(Debug, PartialEq, Clone)]
pub struct VirtualHost {
    pub domain: String,
    pub routes: Vec<Route>,
}

/// A request path pattern with its handler and middleware.
#[derive(Debug, PartialEq, Clone)]
pub struct Route {
    pub path: String,
    pub handler: Handler,
    pub middlewares: Vec<Middleware>,
}

/// What answers the requests of a route.
#[derive(Debug, PartialEq, Clone)]
pub enum Handler {
    File(String),
    Proxy(ProxyConfig),
    Dir(String),
    Browse(String),
    Respond { status: Option<u16>, body: Option<String> },
    Redirect { path: Option<String>, status_code: Option<u16> },
}

/// Upstreams of a proxy with its timeouts, in seconds.
#[derive(Debug, PartialEq, Clone)]
pub struct ProxyConfig {
    pub load_balancer: LoadBalancer,
    pub request_timeout: Option<u64>,
    pub connection_timeout: Option<u64>,
}

/// How requests are spread over the upstreams of a proxy.
#[derive(Debug, PartialEq, Clone)]
pub enum LoadBalancer {
    NoBalancer(Upstream),
    RoundRobin(Vec<Upstream>),
}

/// An upstream server: the address it was given as, and its `host:port`.
#[derive(Debug, PartialEq, Clone)]
pub struct Upstream {
    uri: String,
    host_addrs: String,
}

/// Per-route request processing added after the handler.
#[derive(Debug, PartialEq, Clone)]
pub enum Middleware {
    Gzip,
    Cors,
    Log,
    RateLimit(u32),
    Auth { username: String, password: String },
    Cache(String),
    /// A header rule: the operator, the header name, its value and the
    /// replacement value.
    Header {
        operator: HeaderOperator,
        name: String,
        value: Option<String>,
        replace_with: Option<String>,
    },
}

/// The operator of a header rule.
#[derive(Debug, PartialEq, Eq, Clone, Copy)]
pub enum HeaderOperator {
    /// `+`: add the field, keeping earlier ones.
    Add,
    /// `=`: set the field, replacing it if present.
    SetValue,
    /// `>`: set the field, deferred.
    DeferSet,
    /// `-`: delete the field (prefix or suffix `*` wildcards allowed).
    Delete,
    /// `~`: search and replace in the value.
    Replace,
    /// `~>`: search and replace, deferred.
    DeferReplace,
    /// `?`: set the field only if it is absent.
    Default,
}

// ---------------------------------------------------------------------------
// Views
// ---------------------------------------------------------------------------

pub struct UpstreamV {
    pub uri: Seq<char>,
    pub host_addrs: Seq<char>,
}

pub enum LoadBalancerV {
    NoBalancer(UpstreamV),
    RoundRobin(Seq<UpstreamV>),
}

pub struct ProxyConfigV {
    pub load_balancer: LoadBalancerV,
    pub request_timeout: Option<u64>,
    pub connection_timeout: Option<u64>,
}

pub enum HandlerV {
    File(Seq<char>),
    Proxy(ProxyConfigV),
    Dir(Seq<char>),
    Browse(Seq<char>),
    Respond { status: Option<u16>, body: Option<Seq<char>> },
    Redirect { path: Option<Seq<char>>, status_code: Option<u16> },
}

pub enum MiddlewareV {
    Gzip,
    Cors,
    Log,
    RateLimit(u32),
    Auth { username: Seq<char>, password: Seq<char> },
    Cache(Seq<char>),
    Header {
        operator: HeaderOperator,
        name: Seq<char>,
        value: Option<Seq<char>>,
        replace_with: Option<Seq<char>>,
    },
}

pub struct RouteV {
    pub path: Seq<char>,
    pub handler: HandlerV,
    pub middlewares: Seq<MiddlewareV>,
}

pub struct VirtualHostV {
    pub domain: Seq<char>,
    pub routes: Seq<RouteV>,
}

pub struct ConfigV {
    pub virtual_hosts: Seq<VirtualHostV>,
}

impl View for Upstream {
    type V = UpstreamV;

    closed spec fn view(&self) -> UpstreamV {
        UpstreamV { uri: self.uri@, host_addrs: self.host_addrs@ }
    }
}

impl View for LoadBalancer {
    type V = LoadBalancerV;

    open spec fn view(&self) -> LoadBalancerV {
        match self {
            LoadBalancer::NoBalancer(u) => LoadBalancerV::NoBalancer(u@),
            LoadBalancer::RoundRobin(us) => LoadBalancerV::RoundRobin(
                us@.map_values(|u: Upstream| u@),
            ),
        }
    }
}

impl View for ProxyConfig {
    type V = ProxyConfigV;

    open spec fn view(&self) -> ProxyConfigV {
        ProxyConfigV {
            load_balancer: self.load_balancer@,
            request_timeout: self.request_timeout,
            connection_timeout: self.connection_timeout,
        }
    }
}

impl View for Handler {
    type V = HandlerV;

    open spec fn view(&self) -> HandlerV {
        match self {
            Handler::File(p) => HandlerV::File(p@),
            Handler::Proxy(c) => HandlerV::Proxy(c@),
            Handler::Dir(p) => HandlerV::Dir(p@),
            Handler::Browse(p) => HandlerV::Browse(p@),
            Handler::Respond { status, body } => HandlerV::Respond {
                status: *status,
                body: opt_view(*body),
            },
            Handler::Redirect { path, status_code } => HandlerV::Redirect {
                path: opt_view(*path),
                status_code: *status_code,
            },
        }
    }
}

impl View for Middleware {
    type V = MiddlewareV;

    open spec fn view(&self) -> MiddlewareV {
        match self {
            Middleware::Gzip => MiddlewareV::Gzip,
            Middleware::Cors => MiddlewareV::Cors,
            Middleware::Log => MiddlewareV::Log,
            Middleware::RateLimit(n) => MiddlewareV::RateLimit(*n),
            Middleware::Auth { username, password } => MiddlewareV::Auth {
                username: username@,
                password: password@,
            },
            Middleware::Cache(d) => MiddlewareV::Cache(d@),
            Middleware::Header { operator, name, value, replace_with } => MiddlewareV::Header {
                operator: *operator,
                name: name@,
                value: opt_view(*value),
                replace_with: opt_view(*replace_with),
            },
        }
    }
}

pub open spec fn middlewares_view(ms: Seq<Middleware>) -> Seq<MiddlewareV> {
    ms.map_values(|m: Middleware| m@)
}

impl View for Route {
    type V = RouteV;

    open spec fn view(&self) -> RouteV {
        RouteV {
            path: self.path@,
            handler: self.handler@,
            middlewares: middlewares_view(self.middlewares@),
        }
    }
}

pub open spec fn routes_view(rs: Seq<Route>) -> Seq<RouteV> {
    rs.map_values(|r: Route| r@)
}

impl View for VirtualHost {
    type V = VirtualHostV;

    open spec fn view(&self) -> VirtualHostV {
        VirtualHostV { domain: self.domain@, routes: routes_view(self.routes@) }
    }
}

pub open spec fn hosts_view(hs: Seq<VirtualHost>) -> Seq<VirtualHostV> {
    hs.map_values(|h: VirtualHost| h@)
}

impl View for Config {
    type V = ConfigV;

    open spec fn view(&self) -> ConfigV {
        ConfigV { virtual_hosts: hosts_view(self.virtual_hosts@) }
    }
}

// ---------------------------------------------------------------------------
// Constructors and accessors
// ---------------------------------------------------------------------------

impl ProxyConfig {
    /// A proxy configuration without timeouts.
    pub fn new(load_balancer: LoadBalancer) -> (r: Self)
        ensures
            r.load_balancer == load_balancer,
            r.request_timeout is None,
            r.connection_timeout is None,
    {
        Self { load_balancer, request_timeout: None, connection_timeout: None }
    }

    /// A proxy configuration with the given timeouts.
    pub fn with_timeouts(
        load_balancer: LoadBalancer,
        request_timeout: Option<u64>,
        connection_timeout: Option<u64>,
    ) -> (r: Self)
        ensures
            r.load_balancer == load_balancer,
            r.request_timeout == request_timeout,
            r.connection_timeout == connection_timeout,
    {
        Self { load_balancer, request_timeout, connection_timeout }
    }
}

/// What `Upstream::new` makes of an address: the upstream, with the host of
/// the parsed URI and the port it designates joined by `':'`; the parser's
/// error text when the address does not parse; a fixed message when it has no
/// host.
pub open spec fn spec_upstream_new(addr: Seq<char>) -> Result<UpstreamV, Seq<char>> {
    match http_uri_parse(addr) {
        Err(msg) => Err(msg),
        Ok(parts) => match parts.0 {
            None => Err("host name is not valid"@),
            Some(host) => Ok(
                UpstreamV {
                    uri: addr,
                    host_addrs: host + seq![':'] + decimal(designated_port(parts.1, parts.2) as nat),
                },
            ),
        },
    }
}

pub open spec fn upstream_result_view(r: Result<Upstream, String>) -> Result<UpstreamV, Seq<char>> {
    match r {
        Ok(u) => Ok(u@),
        Err(e) => Err(e@),
    }
}

impl Upstream {
    /// An upstream from an address such as `http://localhost:3000`.
    pub fn new(upstream_addr: String) -> (r: Result<Self, String>)
        ensures
            upstream_result_view(r) == spec_upstream_new(upstream_addr@),
    {
        let parsed = parse_uri(upstream_addr.as_str());
        match parsed {
            Err(msg) => Err(msg),
            Ok(parts) => {
                let port = parts.get_port();
                assert(port == designated_port(parts.port, opt_view(parts.scheme)));
                match &parts.host {
                    None => Err("host name is not valid".to_string()),
                    Some(host) => {
                        let mut v = to_chars(host.as_str());
                        v.push(':');
                        push_decimal(&mut v, port as u128);
                        let host_addrs = string_of_all(&v);
                        assert(host_addrs@ =~= host@ + seq![':'] + decimal(port as nat));
                        Ok(Upstream { uri: upstream_addr, host_addrs })
                    },
                }
            },
        }
    }

    /// `host:port` of the upstream.
    pub fn get_host_port(&self) -> (r: &str)
        ensures
            r@ == self@.host_addrs,
    {
        self.host_addrs.as_str()
    }
}

impl Handler {
    /// The name of the handler's kind.
    pub fn kind_name(&self) -> (r: &str)
        ensures
            r@ == match self {
                Handler::File(_) => "File"@,
                Handler::Proxy(_) => "Proxy"@,
                Handler::Dir(_) => "Dir"@,
                Handler::Browse(_) => "Browse"@,
                Handler::Respond { .. } => "Respond"@,
                Handler::Redirect { .. } => "Redirect"@,
            },
    {
        match self {
            Handler::File(_) => "File",
            Handler::Proxy(_) => "Proxy",
            Handler::Dir(_) => "Dir",
            Handler::Browse(_) => "Browse",
            Handler::Respond { .. } => "Respond",
            Handler::Redirect { .. } => "Redirect",
        }
    }
}

} // verus!
