//! What the server checks of a configuration file before it serves it: that
//! it parses, that it names at least one virtual host, that no domain occurs
//! twice and that no host has two routes with one path; and the ports its
//! virtual hosts listen on.
use crate::config_file::ParseError;
use crate::grammar::{spec_config, ErrorKind, Step};
use crate::hints::{any_alphabetic, any_alphabetic_exec, begins, has_text, lit};
use crate::parser::{config_at, PStep};
use crate::report::{error_context, location, spec_error_context, spec_location};
use crate::text::{
    concat, contains, has_char, has_char_exec, has_prefix, slice_vec, string_of_all, to_chars,
    lemma_trim_idempotent, trim, trim_exec, utf8_len, utf8_len_exec,
};
use crate::types::{hosts_view, routes_view, Config, ConfigV, RouteV, VirtualHost, VirtualHostV};
use crate::uri::{designated_port, http_uri_parse, parse_uri, UriExt};
use vstd::prelude::*;

verus! {

broadcast use vstd::string::group_string_axioms;

// ---------------------------------------------------------------------------
// Messages for parse failures
// ---------------------------------------------------------------------------

/// The server's suggestion for the text where parsing failed.
pub open spec fn spec_server_hint(e: Seq<char>) -> Seq<char> {
    let t = trim(e);
    if has_prefix(t, "{"@) && !has_char(t, '}') {
        "Check for missing closing brace '}'."@
    } else if contains(t, "route"@) && !has_char(t, '{') {
        "Route definitions should be followed by a block enclosed in braces { }."@
    } else if any_alphabetic(t) && !has_char(t, '{') {
        "Domain definitions should be followed by a block enclosed in braces { }."@
    } else if has_prefix(t, "proxy"@) || has_prefix(t, "file"@) || has_prefix(t, "respond"@) {
        "Handler definitions should be inside a route block."@
    } else if t.len() == 0 {
        "Configuration file appears to be empty or contains only whitespace."@
    } else {
        "Check the configuration syntax - ensure domains, routes, and handlers are properly defined."@
    }
}

/// The server's suggestion depends only on the failing text with its
/// leading and trailing white space removed.
pub proof fn lemma_server_hint_trimmed(e: Seq<char>)
    ensures
        spec_server_hint(trim(e)) == spec_server_hint(e),
{
    lemma_trim_idempotent(e);
}

fn server_hint(e: &Vec<char>) -> (r: Vec<char>)
    ensures
        r@ == spec_server_hint(e@),
{
    let t = trim_exec(e);
    if begins(&t, "{") && !has_char_exec(&t, '}') {
        lit("Check for missing closing brace '}'.")
    } else if has_text(&t, "route") && !has_char_exec(&t, '{') {
        lit("Route definitions should be followed by a block enclosed in braces { }.")
    } else if any_alphabetic_exec(&t) && !has_char_exec(&t, '{') {
        lit("Domain definitions should be followed by a block enclosed in braces { }.")
    } else if begins(&t, "proxy") || begins(&t, "file") || begins(&t, "respond") {
        lit("Handler definitions should be inside a route block.")
    } else if t.len() == 0 {
        lit("Configuration file appears to be empty or contains only whitespace.")
    } else {
        lit(
            "Check the configuration syntax - ensure domains, routes, and handlers are properly defined.",
        )
    }
}

/// The server's suggestion for the text where parsing failed.
pub fn suggest_fix_for_content(error_input: &str) -> (r: String)
    ensures
        r@ == spec_server_hint(error_input@),
{
    let e = to_chars(error_input);
    string_of_all(&server_hint(&e))
}

/// The message the server reports for a failure of kind `kind` at character
/// `p` of `s`.
pub open spec fn spec_server_message(s: Seq<char>, p: int, kind: ErrorKind) -> Seq<char> {
    let e = s.skip(p);
    let loc = spec_location(s, utf8_len(s.take(p)) as int);
    let ctx = spec_error_context(e);
    match kind {
        ErrorKind::Tag => if e.len() == 0 {
            "Unexpected end of file. The configuration appears to be incomplete."@
        } else {
            "Syntax error near"@ + loc + ": '"@ + ctx + "'. "@ + spec_server_hint(e)
        },
        ErrorKind::Char => "Expected a specific character near"@ + loc + ": '"@ + ctx + "'. "@
            + "Check for missing braces or other syntax elements."@,
        ErrorKind::Alt => "Invalid syntax near"@ + loc + ": '"@ + ctx + "'. "@ + spec_server_hint(
            e,
        ),
        ErrorKind::Many1 => "Expected at least one virtual host definition in the configuration file."@,
        _ => "Parse error near"@ + loc + ": '"@ + ctx + "'. "@
            + "Please check the syntax of your configuration."@,
    }
}

fn near(head: &str, loc: &Vec<char>, ctx: &Vec<char>, tail: &Vec<char>) -> (r: Vec<char>)
    ensures
        r@ == head@ + loc@ + ": '"@ + ctx@ + "'. "@ + tail@,
{
    let mut r = lit(head);
    r = concat(&r, loc);
    r = concat(&r, &lit(": '"));
    r = concat(&r, ctx);
    r = concat(&r, &lit("'. "));
    concat(&r, tail)
}

fn server_message(s: &Vec<char>, p: usize, kind: ErrorKind) -> (r: Vec<char>)
    requires
        p <= s.len(),
    ensures
        r@ == spec_server_message(s@, p as int, kind),
{
    let e = slice_vec(s, p, s.len());
    assert(e@ =~= s@.skip(p as int));
    let loc = location(s, utf8_len_exec(s, p));
    let ctx = error_context(&e);
    match kind {
        ErrorKind::Tag => if e.len() == 0 {
            lit("Unexpected end of file. The configuration appears to be incomplete.")
        } else {
            near("Syntax error near", &loc, &ctx, &server_hint(&e))
        },
        ErrorKind::Char => near(
            "Expected a specific character near",
            &loc,
            &ctx,
            &lit("Check for missing braces or other syntax elements."),
        ),
        ErrorKind::Alt => near("Invalid syntax near", &loc, &ctx, &server_hint(&e)),
        ErrorKind::Many1 => lit(
            "Expected at least one virtual host definition in the configuration file.",
        ),
        _ => near(
            "Parse error near",
            &loc,
            &ctx,
            &lit("Please check the syntax of your configuration."),
        ),
    }
}

/// Where and why parsing `input` as a configuration file fails; `None` when
/// it parses, or when the parser stops the process on it.
pub fn config_failure(input: &str) -> (r: Option<ParseError>)
    ensures
        match spec_config(input@) {
            Step::Fail(p, k) => r == Some(ParseError { pos: p as usize, kind: k }) && p <= input@.len(),
            _ => r is None,
        },
{
    let s = to_chars(input);
    match config_at(&s) {
        PStep::Fail(p, k) => Some(ParseError { pos: p, kind: k }),
        _ => None,
    }
}

/// The message the server reports when `input` fails to parse with `error`.
pub fn format_parse_error(input: &str, error: ParseError) -> (r: String)
    requires
        error.pos <= input@.len(),
    ensures
        r@ == spec_server_message(input@, error.pos as int, error.kind),
{
    let s = to_chars(input);
    string_of_all(&server_message(&s, error.pos, error.kind))
}


// ---------------------------------------------------------------------------
// Repeated names
// ---------------------------------------------------------------------------

/// `s[i]` occurs earlier in `s`.
pub open spec fn seen_before(s: Seq<Seq<char>>, i: int) -> bool {
    exists|j: int| 0 <= j < i && s[j] == s[i]
}

/// The first position at or after `i` whose name occurred earlier, or the
/// length of `s` when there is none.
pub open spec fn first_repeat_from(s: Seq<Seq<char>>, i: int) -> int
    decreases s.len() - i,
{
    if i < 0 || i >= s.len() {
        s.len() as int
    } else if seen_before(s, i) {
        i
    } else {
        first_repeat_from(s, i + 1)
    }
}

/// The first position of `s` whose name occurred earlier, or the length of
/// `s` when all names differ.
pub open spec fn first_repeat(s: Seq<Seq<char>>) -> int {
    first_repeat_from(s, 0)
}

/// No name occurs twice in `s`.
pub open spec fn all_distinct(s: Seq<Seq<char>>) -> bool {
    forall|i: int, j: int| 0 <= i < j < s.len() ==> s[i] != s[j]
}

pub proof fn lemma_first_repeat_from(s: Seq<Seq<char>>, i: int)
    requires
        0 <= i <= s.len(),
    ensures
        i <= first_repeat_from(s, i) <= s.len(),
        first_repeat_from(s, i) < s.len() ==> seen_before(s, first_repeat_from(s, i)),
        forall|k: int| i <= k < first_repeat_from(s, i) ==> !seen_before(s, k),
    decreases s.len() - i,
{
    if i < s.len() && !seen_before(s, i) {
        lemma_first_repeat_from(s, i + 1);
    }
}

/// When no position repeats an earlier name, all names differ.
pub proof fn lemma_no_repeat_distinct(s: Seq<Seq<char>>)
    requires
        first_repeat(s) == s.len(),
    ensures
        all_distinct(s),
{
    lemma_first_repeat_from(s, 0);
    assert forall|i: int, j: int| 0 <= i < j < s.len() implies s[i] != s[j] by {
        assert(!seen_before(s, j));
    }
}

/// The first position of `keys` whose name occurred earlier (or the length).
fn first_repeat_exec(keys: &Vec<String>) -> (r: usize)
    ensures
        r == first_repeat(keys@.map_values(|k: String| k@)),
{
    let ghost s = keys@.map_values(|k: String| k@);
    let mut i: usize = 0;
    while i < keys.len()
        invariant
            i <= keys.len(),
            s == keys@.map_values(|k: String| k@),
            first_repeat_from(s, i as int) == first_repeat(s),
        decreases keys.len() - i,
    {
        let mut j: usize = 0;
        while j < i
            invariant
                j <= i < keys.len(),
                s == keys@.map_values(|k: String| k@),
                first_repeat_from(s, i as int) == first_repeat(s),
                forall|q: int| 0 <= q < j ==> s[q] != s[i as int],
            decreases i - j,
        {
            if keys[j] == keys[i] {
                assert(s[j as int] == s[i as int]);
                return i;
            }
            j = j + 1;
        }
        assert(!seen_before(s, i as int));
        i = i + 1;
    }
    i
}

/// The domains of the virtual hosts, in order.
pub open spec fn domains(hs: Seq<VirtualHostV>) -> Seq<Seq<char>> {
    hs.map_values(|h: VirtualHostV| h.domain)
}

/// The paths of the routes, in order.
pub open spec fn paths(rs: Seq<RouteV>) -> Seq<Seq<char>> {
    rs.map_values(|r: RouteV| r.path)
}

/// The first host at or after `i` with two routes of one path, or the number
/// of hosts.
pub open spec fn first_host_repeat_from(hs: Seq<VirtualHostV>, i: int) -> int
    decreases hs.len() - i,
{
    if i < 0 || i >= hs.len() {
        hs.len() as int
    } else if first_repeat(paths(hs[i].routes)) < hs[i].routes.len() {
        i
    } else {
        first_host_repeat_from(hs, i + 1)
    }
}

pub proof fn lemma_first_host_repeat_from(hs: Seq<VirtualHostV>, i: int)
    requires
        0 <= i <= hs.len(),
    ensures
        i <= first_host_repeat_from(hs, i) <= hs.len(),
        first_host_repeat_from(hs, i) < hs.len() ==> first_repeat(
            paths(hs[first_host_repeat_from(hs, i)].routes),
        ) < hs[first_host_repeat_from(hs, i)].routes.len(),
        forall|k: int|
            i <= k < first_host_repeat_from(hs, i) ==> first_repeat(paths(#[trigger] hs[k].routes))
                == hs[k].routes.len(),
    decreases hs.len() - i,
{
    if i < hs.len() {
        lemma_first_repeat_from(paths(hs[i].routes), 0);
        if first_repeat(paths(hs[i].routes)) == hs[i].routes.len() {
            lemma_first_host_repeat_from(hs, i + 1);
        }
    }
}

/// What is wrong with a parsed configuration, if anything: no virtual host,
/// a domain given twice (the first repeat), or a host with two routes of one
/// path (the first such host and its first repeated path).
pub open spec fn spec_config_problem(c: ConfigV) -> Option<Seq<char>> {
    let hs = c.virtual_hosts;
    let d = first_repeat(domains(hs));
    let h = first_host_repeat_from(hs, 0);
    if hs.len() == 0 {
        Some("Failed to parse config file. reason: no virtual hosts found."@)
    } else if d < hs.len() {
        Some("Failed to parse config file. reason: duplicate domain found: "@ + hs[d].domain)
    } else if h < hs.len() {
        Some(
            "Failed to parse config file. reason: duplicate in host "@ + hs[h].domain
                + " route found: "@ + hs[h].routes[first_repeat(paths(hs[h].routes))].path,
        )
    } else {
        None
    }
}

fn domain_keys(hs: &Vec<VirtualHost>) -> (r: Vec<String>)
    ensures
        r@.map_values(|k: String| k@) == domains(hosts_view(hs@)),
{
    let mut r: Vec<String> = Vec::new();
    let mut i: usize = 0;
    while i < hs.len()
        invariant
            i <= hs.len(),
            r@.map_values(|k: String| k@) == domains(hosts_view(hs@)).take(i as int),
        decreases hs.len() - i,
    {
        let ghost old_r = r@;
        r.push(hs[i].domain.clone());
        assert(r@.map_values(|k: String| k@) =~= old_r.map_values(|k: String| k@).push(
            hs@[i as int].domain@,
        ));
        i = i + 1;
        assert(domains(hosts_view(hs@)).take(i as int) =~= domains(hosts_view(hs@)).take(
            i - 1,
        ).push(hs@[i - 1].domain@));
    }
    assert(domains(hosts_view(hs@)).take(i as int) =~= domains(hosts_view(hs@)));
    r
}

fn path_keys(h: &VirtualHost) -> (r: Vec<String>)
    ensures
        r@.map_values(|k: String| k@) == paths(h@.routes),
{
    let rs = &h.routes;
    let mut r: Vec<String> = Vec::new();
    let mut i: usize = 0;
    while i < rs.len()
        invariant
            i <= rs.len(),
            rs@ == h.routes@,
            r@.map_values(|k: String| k@) == paths(routes_view(rs@)).take(i as int),
        decreases rs.len() - i,
    {
        let ghost old_r = r@;
        r.push(rs[i].path.clone());
        assert(r@.map_values(|k: String| k@) =~= old_r.map_values(|k: String| k@).push(
            rs@[i as int].path@,
        ));
        i = i + 1;
        assert(paths(routes_view(rs@)).take(i as int) =~= paths(routes_view(rs@)).take(
            i - 1,
        ).push(rs@[i - 1].path@));
    }
    assert(paths(routes_view(rs@)).take(i as int) =~= paths(routes_view(rs@)));
    r
}

fn config_problem(c: &Config) -> (r: Option<String>)
    ensures
        match r {
            Some(m) => spec_config_problem(c@) == Some(m@),
            None => spec_config_problem(c@) is None,
        },
{
    let hs = &c.virtual_hosts;
    let ghost hv = hosts_view(hs@);
    if hs.len() == 0 {
        return Some("Failed to parse config file. reason: no virtual hosts found.".to_string());
    }
    let keys = domain_keys(hs);
    let d = first_repeat_exec(&keys);
    proof {
        lemma_first_repeat_from(domains(hv), 0);
    }
    if d < hs.len() {
        let mut m = to_chars("Failed to parse config file. reason: duplicate domain found: ");
        m = concat(&m, &to_chars(hs[d].domain.as_str()));
        return Some(string_of_all(&m));
    }
    let mut i: usize = 0;
    while i < hs.len()
        invariant
            i <= hs.len(),
            hs@ == c.virtual_hosts@,
            hv == hosts_view(hs@),
            hv.len() > 0,
            first_repeat(domains(hv)) == hv.len(),
            first_host_repeat_from(hv, i as int) == first_host_repeat_from(hv, 0),
        decreases hs.len() - i,
    {
        let pk = path_keys(&hs[i]);
        let p = first_repeat_exec(&pk);
        assert(hv[i as int] == hs@[i as int]@);
        if p < hs[i].routes.len() {
            assert(hv[i as int].routes[p as int] == hs@[i as int].routes@[p as int]@);
            let mut m = to_chars("Failed to parse config file. reason: duplicate in host ");
            m = concat(&m, &to_chars(hs[i].domain.as_str()));
            m = concat(&m, &to_chars(" route found: "));
            m = concat(&m, &to_chars(hs[i].routes[p].path.as_str()));
            return Some(string_of_all(&m));
        }
        i = i + 1;
    }
    None
}

/// What the server makes of a configuration file's content: the
/// configuration, or the message it reports. `None` for content on which the
/// parser stops the process (a rate limit beyond `u32`).
pub open spec fn spec_parse_with_validate(s: Seq<char>) -> Option<Result<ConfigV, Seq<char>>> {
    if s.len() == 0 {
        Some(Err("Failed to parse content. reason: content is empty."@))
    } else {
        match spec_config(s) {
            Step::Fail(p, k) => Some(
                Err("Failed to parse config file. "@ + spec_server_message(s, p, k)),
            ),
            Step::Abort => None,
            Step::Done(_, c) => Some(
                match spec_config_problem(c) {
                    Some(m) => Err(m),
                    None => Ok(c),
                },
            ),
        }
    }
}

pub open spec fn validated_view(r: Result<Config, String>) -> Result<ConfigV, Seq<char>> {
    match r {
        Ok(c) => Ok(c@),
        Err(e) => Err(e@),
    }
}

/// Parses a configuration file's content and checks it: at least one virtual
/// host, no domain twice, no two routes of one host with one path.
pub fn parse_with_validate(content: &str) -> (r: Result<Config, String>)
    requires
        spec_parse_with_validate(content@) is Some,
    ensures
        Some(validated_view(r)) == spec_parse_with_validate(content@),
{
    if content.is_empty() {
        return Err("Failed to parse content. reason: content is empty.".to_string());
    }
    let s = to_chars(content);
    match config_at(&s) {
        PStep::Fail(p, k) => {
            let mut m = to_chars("Failed to parse config file. ");
            m = concat(&m, &server_message(&s, p, k));
            Err(string_of_all(&m))
        },
        PStep::Abort => Err(String::new()),
        PStep::Done(_, c) => match config_problem(&c) {
            Some(m) => Err(m),
            None => Ok(c),
        },
    }
}

/// `parse_with_validate`, or `None` on content on which the parser stops.
pub fn try_parse_with_validate(content: &str) -> (r: Option<Result<Config, String>>)
    ensures
        match r {
            Some(res) => Some(validated_view(res)) == spec_parse_with_validate(content@),
            None => spec_parse_with_validate(content@) is None,
        },
{
    if content.is_empty() {
        return Some(parse_with_validate(content));
    }
    let s = to_chars(content);
    match config_at(&s) {
        PStep::Abort => None,
        _ => Some(parse_with_validate(content)),
    }
}

/// A configuration that passes the server's checks has a virtual host, no
/// domain twice, and no host with two routes of one path.
pub proof fn lemma_validated_config_distinct(s: Seq<char>, c: ConfigV)
    requires
        spec_parse_with_validate(s) == Some(Ok::<ConfigV, Seq<char>>(c)),
    ensures
        c.virtual_hosts.len() > 0,
        all_distinct(domains(c.virtual_hosts)),
        forall|i: int|
            0 <= i < c.virtual_hosts.len() ==> all_distinct(
                paths(#[trigger] c.virtual_hosts[i].routes),
            ),
{
    let hs = c.virtual_hosts;
    lemma_first_repeat_from(domains(hs), 0);
    lemma_no_repeat_distinct(domains(hs));
    lemma_first_host_repeat_from(hs, 0);
    assert forall|i: int| 0 <= i < hs.len() implies all_distinct(paths(#[trigger] hs[i].routes)) by {
        lemma_first_repeat_from(paths(hs[i].routes), 0);
        lemma_no_repeat_distinct(paths(hs[i].routes));
    }
}

// ---------------------------------------------------------------------------
// Ports
// ---------------------------------------------------------------------------

/// The port a domain designates when the URI parser accepts it: its explicit
/// port, else 443 for `https` and 80 otherwise.
pub open spec fn domain_port(d: Seq<char>) -> Option<u16> {
    match http_uri_parse(d) {
        Ok(parts) => Some(designated_port(parts.1, parts.2)),
        Err(_) => None,
    }
}

/// The port each virtual host listens on, in order, when every domain parses.
pub open spec fn hosts_ports(hs: Seq<VirtualHostV>) -> Option<Seq<u16>>
    decreases hs.len(),
{
    if hs.len() == 0 {
        Some(Seq::empty())
    } else {
        match (hosts_ports(hs.drop_last()), domain_port(hs.last().domain)) {
            (Some(ps), Some(p)) => Some(ps.push(p)),
            _ => None,
        }
    }
}

/// The port of a virtual host.
pub trait VirtualHostExt {
    /// The port, when the domain parses as a URI.
    spec fn spec_port(&self) -> Option<u16>;

    fn get_port(&self) -> (p: u16)
        requires
            self.spec_port() is Some,
        ensures
            Some(p) == self.spec_port(),
    ;
}

impl VirtualHostExt for VirtualHost {
    open spec fn spec_port(&self) -> Option<u16> {
        domain_port(self.domain@)
    }

    fn get_port(&self) -> (p: u16) {
        match parse_uri(self.domain.as_str()) {
            Ok(parts) => parts.get_port(),
            Err(_) => 0,
        }
    }
}

/// The port of a virtual host, or `None` when its domain does not parse.
pub fn try_get_port(host: &VirtualHost) -> (r: Option<u16>)
    ensures
        r == domain_port(host@.domain),
{
    match parse_uri(host.domain.as_str()) {
        Ok(parts) => Some(parts.get_port()),
        Err(_) => None,
    }
}

/// The ports that a configuration listens on.
pub trait ConfigExt {
    /// The port of each virtual host, in order, when every domain parses.
    spec fn spec_ports(&self) -> Option<Seq<u16>>;

    fn get_ports(&self) -> (r: Vec<u16>)
        requires
            self.spec_ports() is Some,
        ensures
            Some(r@) == self.spec_ports(),
    ;
}

impl ConfigExt for Config {
    open spec fn spec_ports(&self) -> Option<Seq<u16>> {
        hosts_ports(self@.virtual_hosts)
    }

    fn get_ports(&self) -> (r: Vec<u16>) {
        match try_get_ports(self) {
            Some(ps) => ps,
            None => Vec::new(),
        }
    }
}

/// The port of each virtual host, in order, or `None` when some domain does
/// not parse.
pub fn try_get_ports(config: &Config) -> (r: Option<Vec<u16>>)
    ensures
        match r {
            Some(ps) => hosts_ports(config@.virtual_hosts) == Some(ps@),
            None => hosts_ports(config@.virtual_hosts) is None,
        },
{
    let hs = &config.virtual_hosts;
    let ghost hv = hosts_view(hs@);
    let mut ps: Vec<u16> = Vec::new();
    let mut i: usize = 0;
    while i < hs.len()
        invariant
            i <= hs.len(),
            hv == hosts_view(hs@),
            hs@ == config.virtual_hosts@,
            hosts_ports(hv.take(i as int)) == Some(ps@),
        decreases hs.len() - i,
    {
        assert(hv.take(i + 1).drop_last() =~= hv.take(i as int));
        assert(hv.take(i + 1).last() == hs@[i as int]@);
        match try_get_port(&hs[i]) {
            Some(p) => ps.push(p),
            None => {
                proof {
                    lemma_hosts_ports_prefix(hv, i + 1);
                }
                return None;
            },
        }
        i = i + 1;
    }
    assert(hv.take(i as int) =~= hv);
    Some(ps)
}

/// When some prefix of the hosts has no ports, neither has the whole.
pub proof fn lemma_hosts_ports_prefix(hs: Seq<VirtualHostV>, n: int)
    requires
        0 <= n <= hs.len(),
        hosts_ports(hs.take(n)) is None,
    ensures
        hosts_ports(hs) is None,
    decreases hs.len() - n,
{
    if n < hs.len() {
        assert(hs.take(n + 1).drop_last() =~= hs.take(n));
        lemma_hosts_ports_prefix(hs, n + 1);
    } else {
        assert(hs.take(n) =~= hs);
    }
}

} // verus!
