//! The grammar of configuration files, as specification functions over
//! `Seq<char>`.
//!
//! Every parser takes the whole input `s` and a position `i`, and yields a
//! `Step`: success with the position after what it consumed and a value;
//! failure at a position with an `ErrorKind`; or `Abort`, for an input that
//! the server rejects by stopping (a `rate_limit` that does not fit in `u32`).
//! Alternatives are tried in order and a failing alternative reports the
//! failure of its last branch; repetitions stop at the first failing item.
use crate::text::{digits_value, lemma_span, span_end, starts_at, CharClass};
use crate::types::{
    spec_upstream_new, HandlerV, HeaderOperator, LoadBalancerV, MiddlewareV, ProxyConfigV, RouteV,
    UpstreamV, VirtualHostV, ConfigV,
};
use vstd::prelude::*;

verus! {

/// Why a parser failed.
#[derive(Clone, Copy, PartialEq, Eq, Debug)]
pub enum ErrorKind {
    /// An expected keyword or symbol is missing.
    Tag,
    /// An expected character (`{`, `}`, `"`) is missing.
    Char,
    /// A value was read but is not acceptable (an upstream address, a
    /// load-balancing policy, an empty upstream list).
    Alt,
    /// A non-empty word was expected.
    TakeWhile1,
    /// A space or tab was expected.
    Space,
    /// White space (space, tab, carriage return, line feed) was expected.
    MultiSpace,
    /// A number was expected, or the number is out of range.
    Digit,
    /// An item of a repetition succeeded without consuming input.
    Many0,
    /// The first item of a non-empty repetition succeeded, and a later one
    /// succeeded without consuming input.
    Many1,
}

/// The outcome of a parser.
pub enum Step<V> {
    Done(int, V),
    Fail(int, ErrorKind),
    Abort,
}

pub open spec fn ms0(s: Seq<char>, i: int) -> int {
    span_end(s, i, CharClass::MultiSpace)
}

pub open spec fn char_at(s: Seq<char>, i: int, c: char) -> bool {
    0 <= i < s.len() && s[i] == c
}

/// `opt(not_line_ending)` from `k`: the end of the line, or `k` itself when
/// the line ends in a lone carriage return.
pub open spec fn line_rest_end(s: Seq<char>, k: int) -> int {
    let p = span_end(s, k, CharClass::NotLineEnd);
    if p >= s.len() {
        p
    } else if s[p] == '\n' {
        p
    } else if char_at(s, p + 1, '\n') {
        p
    } else {
        k
    }
}

/// A comment: optional white space, `#`, and the rest of the line.
pub open spec fn spec_comment(s: Seq<char>, i: int) -> Step<()> {
    let j = ms0(s, i);
    if starts_at(s, j, "#"@) {
        Step::Done(line_rest_end(s, j + 1), ())
    } else {
        Step::Fail(j, ErrorKind::Tag)
    }
}

/// Any number of comments.
pub open spec fn skip_comments(s: Seq<char>, i: int) -> int
    decreases s.len() - i,
{
    match spec_comment(s, i) {
        Step::Done(j, _) => if i < j <= s.len() {
            skip_comments(s, j)
        } else {
            i
        },
        _ => i,
    }
}

/// White space, comments, white space.
pub open spec fn gap(s: Seq<char>, i: int) -> int {
    ms0(s, skip_comments(s, ms0(s, i)))
}

pub proof fn lemma_run1(s: Seq<char>, i: int, k: CharClass, kind: ErrorKind)
    requires
        0 <= i <= s.len(),
    ensures
        spec_run1(s, i, k, kind) matches Step::Done(e, w) ==> i < e <= s.len() && w == s.subrange(
            i,
            e,
        ) && e == span_end(s, i, k),
        spec_run1(s, i, k, kind) matches Step::Fail(p, kk) ==> p == i && kk == kind,
        !(spec_run1(s, i, k, kind) is Abort),
{
    lemma_span(s, i, k);
}

/// One or more characters of class `k`, failing with `kind`.
pub open spec fn spec_run1(s: Seq<char>, i: int, k: CharClass, kind: ErrorKind) -> Step<Seq<char>> {
    let e = span_end(s, i, k);
    if e == i {
        Step::Fail(i, kind)
    } else {
        Step::Done(e, s.subrange(i, e))
    }
}

/// A word: one or more characters that are not white space.
pub open spec fn spec_word(s: Seq<char>, i: int) -> Step<Seq<char>> {
    spec_run1(s, i, CharClass::NotWs, ErrorKind::TakeWhile1)
}

/// One or more spaces or tabs.
pub open spec fn spec_space1(s: Seq<char>, i: int) -> Step<Seq<char>> {
    spec_run1(s, i, CharClass::Space, ErrorKind::Space)
}

/// Spaces or tabs, then a word.
pub open spec fn spec_value(s: Seq<char>, i: int) -> Step<Seq<char>> {
    match spec_space1(s, i) {
        Step::Done(e, _) => spec_word(s, e),
        Step::Fail(p, k) => Step::Fail(p, k),
        Step::Abort => Step::Abort,
    }
}

/// Optionally: spaces or tabs, then a word. Yields the position after it, or
/// `i` when absent.
pub open spec fn opt_value(s: Seq<char>, i: int) -> (int, Option<Seq<char>>) {
    match spec_value(s, i) {
        Step::Done(e, w) => (e, Some(w)),
        _ => (i, None),
    }
}

/// A double-quoted string without escapes.
pub open spec fn spec_string_literal(s: Seq<char>, i: int) -> Step<Seq<char>> {
    if !char_at(s, i, '"') {
        Step::Fail(i, ErrorKind::Char)
    } else {
        let e = span_end(s, i + 1, CharClass::NotQuote);
        if !char_at(s, e, '"') {
            Step::Fail(e, ErrorKind::Char)
        } else {
            Step::Done(e + 1, s.subrange(i + 1, e))
        }
    }
}

/// White space, then a word made only of digits whose value fits in `u16`.
pub open spec fn spec_u16(s: Seq<char>, i: int) -> Step<u16> {
    let j = ms0(s, i);
    let w = span_end(s, j, CharClass::NotWs);
    let d = span_end(s, j, CharClass::Digit);
    if w == j {
        Step::Fail(j, ErrorKind::TakeWhile1)
    } else if d == j {
        Step::Fail(j, ErrorKind::Digit)
    } else if d < w {
        Step::Fail(w, ErrorKind::Digit)
    } else if digits_value(s.subrange(j, w)) > 65535 {
        Step::Fail(w, ErrorKind::Digit)
    } else {
        Step::Done(w, digits_value(s.subrange(j, w)) as u16)
    }
}

/// A string literal, spaces or tabs, and a `u16`.
pub open spec fn spec_literal_u16(s: Seq<char>, i: int) -> Step<(Seq<char>, u16)> {
    match spec_string_literal(s, i) {
        Step::Done(k, body) => match spec_space1(s, k) {
            Step::Done(sp, _) => match spec_u16(s, sp) {
                Step::Done(m, v) => Step::Done(m, (body, v)),
                Step::Fail(p, e) => Step::Fail(p, e),
                Step::Abort => Step::Abort,
            },
            Step::Fail(p, e) => Step::Fail(p, e),
            Step::Abort => Step::Abort,
        },
        Step::Fail(p, e) => Step::Fail(p, e),
        Step::Abort => Step::Abort,
    }
}

/// A word, spaces or tabs, and a `u16`.
pub open spec fn spec_string_u16(s: Seq<char>, i: int) -> Step<(Seq<char>, u16)> {
    match spec_word(s, i) {
        Step::Done(w, word) => match spec_space1(s, w) {
            Step::Done(sp, _) => match spec_u16(s, sp) {
                Step::Done(m, v) => Step::Done(m, (word, v)),
                Step::Fail(p, e) => Step::Fail(p, e),
                Step::Abort => Step::Abort,
            },
            Step::Fail(p, e) => Step::Fail(p, e),
            Step::Abort => Step::Abort,
        },
        Step::Fail(p, e) => Step::Fail(p, e),
        Step::Abort => Step::Abort,
    }
}

/// The arguments of `respond`: spaces or tabs, then a body and a status, a
/// body, or a status. Yields `(status, body)`.
pub open spec fn spec_respond_args(s: Seq<char>, i: int) -> Step<(Option<u16>, Option<Seq<char>>)> {
    match spec_space1(s, i) {
        Step::Done(sp, _) => match spec_literal_u16(s, sp) {
            Step::Done(k, (body, st)) => Step::Done(k, (Some(st), Some(body))),
            _ => match spec_string_literal(s, sp) {
                Step::Done(k, body) => Step::Done(k, (None, Some(body))),
                _ => match spec_u16(s, sp) {
                    Step::Done(k, st) => Step::Done(k, (Some(st), None)),
                    Step::Fail(p, e) => Step::Fail(p, e),
                    Step::Abort => Step::Abort,
                },
            },
        },
        Step::Fail(p, e) => Step::Fail(p, e),
        Step::Abort => Step::Abort,
    }
}

/// The arguments of `redirect`: spaces or tabs, then a path and a status, or
/// a path. Yields `(status, path)`.
pub open spec fn spec_redirect_args(s: Seq<char>, i: int) -> Step<(Option<u16>, Option<Seq<char>>)> {
    match spec_space1(s, i) {
        Step::Done(sp, _) => match spec_string_u16(s, sp) {
            Step::Done(k, (path, code)) => Step::Done(k, (Some(code), Some(path))),
            _ => match spec_word(s, sp) {
                Step::Done(k, path) => Step::Done(k, (None, Some(path))),
                Step::Fail(p, e) => Step::Fail(p, e),
                Step::Abort => Step::Abort,
            },
        },
        Step::Fail(p, e) => Step::Fail(p, e),
        Step::Abort => Step::Abort,
    }
}


// ---------------------------------------------------------------------------
// Middleware
// ---------------------------------------------------------------------------

/// `rate_limit <digits>`; aborts when the number does not fit in `u32`.
pub open spec fn spec_rate_limit(s: Seq<char>, j: int) -> Step<MiddlewareV> {
    if !starts_at(s, j, "rate_limit"@) {
        Step::Fail(j, ErrorKind::Tag)
    } else {
        match spec_space1(s, j + "rate_limit"@.len()) {
            Step::Done(e, _) => match spec_run1(s, e, CharClass::Digit, ErrorKind::TakeWhile1) {
                Step::Done(d, digits) => if digits_value(digits) > u32::MAX {
                    Step::Abort
                } else {
                    Step::Done(d, MiddlewareV::RateLimit(digits_value(digits) as u32))
                },
                Step::Fail(p, k) => Step::Fail(p, k),
                Step::Abort => Step::Abort,
            },
            Step::Fail(p, k) => Step::Fail(p, k),
            Step::Abort => Step::Abort,
        }
    }
}

/// `auth <username> <password>`.
pub open spec fn spec_auth(s: Seq<char>, j: int) -> Step<MiddlewareV> {
    if !starts_at(s, j, "auth"@) {
        Step::Fail(j, ErrorKind::Tag)
    } else {
        match spec_value(s, j + "auth"@.len()) {
            Step::Done(u, user) => match spec_value(s, u) {
                Step::Done(p, pass) => Step::Done(
                    p,
                    MiddlewareV::Auth { username: user, password: pass },
                ),
                Step::Fail(q, k) => Step::Fail(q, k),
                Step::Abort => Step::Abort,
            },
            Step::Fail(q, k) => Step::Fail(q, k),
            Step::Abort => Step::Abort,
        }
    }
}

/// `cache <duration>`.
pub open spec fn spec_cache(s: Seq<char>, j: int) -> Step<MiddlewareV> {
    if !starts_at(s, j, "cache"@) {
        Step::Fail(j, ErrorKind::Tag)
    } else {
        match spec_value(s, j + "cache"@.len()) {
            Step::Done(e, d) => Step::Done(e, MiddlewareV::Cache(d)),
            Step::Fail(q, k) => Step::Fail(q, k),
            Step::Abort => Step::Abort,
        }
    }
}

/// The operator of a header rule at `e` and its length; `~>` is tried first.
pub open spec fn header_operator(s: Seq<char>, e: int) -> Option<(HeaderOperator, int)> {
    if starts_at(s, e, "~>"@) {
        Some((HeaderOperator::DeferReplace, 2))
    } else if char_at(s, e, '+') {
        Some((HeaderOperator::Add, 1))
    } else if char_at(s, e, '>') {
        Some((HeaderOperator::DeferSet, 1))
    } else if char_at(s, e, '-') {
        Some((HeaderOperator::Delete, 1))
    } else if char_at(s, e, '?') {
        Some((HeaderOperator::Default, 1))
    } else if char_at(s, e, '=') {
        Some((HeaderOperator::SetValue, 1))
    } else if char_at(s, e, '~') {
        Some((HeaderOperator::Replace, 1))
    } else {
        None
    }
}

/// `header <op><name> [value [replacement]]`.
pub open spec fn spec_header(s: Seq<char>, j: int) -> Step<MiddlewareV> {
    if !starts_at(s, j, "header"@) {
        Step::Fail(j, ErrorKind::Tag)
    } else {
        match spec_space1(s, j + "header"@.len()) {
            Step::Done(e, _) => match header_operator(s, e) {
                None => Step::Fail(e, ErrorKind::Tag),
                Some((op, n)) => match spec_word(s, e + n) {
                    Step::Done(ne, name) => {
                        let (ve, value) = opt_value(s, ne);
                        let (re, replace_with) = opt_value(s, ve);
                        Step::Done(
                            re,
                            MiddlewareV::Header { operator: op, name, value, replace_with },
                        )
                    },
                    Step::Fail(q, k) => Step::Fail(q, k),
                    Step::Abort => Step::Abort,
                },
            },
            Step::Fail(q, k) => Step::Fail(q, k),
            Step::Abort => Step::Abort,
        }
    }
}

/// One middleware, after optional white space.
pub open spec fn spec_middleware(s: Seq<char>, i: int) -> Step<MiddlewareV> {
    let j = ms0(s, i);
    if starts_at(s, j, "gzip"@) {
        Step::Done(j + 4, MiddlewareV::Gzip)
    } else if starts_at(s, j, "cors"@) {
        Step::Done(j + 4, MiddlewareV::Cors)
    } else if starts_at(s, j, "log"@) {
        Step::Done(j + 3, MiddlewareV::Log)
    } else {
        match spec_rate_limit(s, j) {
            Step::Fail(_, _) => match spec_auth(s, j) {
                Step::Fail(_, _) => match spec_cache(s, j) {
                    Step::Fail(_, _) => spec_header(s, j),
                    r => r,
                },
                r => r,
            },
            r => r,
        }
    }
}

/// Comments and middleware, in any order, until neither parses.
pub open spec fn spec_middlewares(s: Seq<char>, i: int) -> Step<Seq<MiddlewareV>>
    decreases s.len() - i,
{
    let (j, item): (int, Option<MiddlewareV>) = match spec_comment(s, i) {
        Step::Done(j, _) => (j, None),
        _ => match spec_middleware(s, i) {
            Step::Done(j, m) => (j, Some(m)),
            Step::Fail(_, _) => (-1, None),
            Step::Abort => (-2, None),
        },
    };
    if j == -1 {
        Step::Done(i, Seq::empty())
    } else if j == -2 {
        Step::Abort
    } else if j <= i || j > s.len() {
        Step::Fail(i, ErrorKind::Many0)
    } else {
        match spec_middlewares(s, j) {
            Step::Done(k, rest) => Step::Done(
                k,
                match item {
                    Some(m) => seq![m] + rest,
                    None => rest,
                },
            ),
            r => r,
        }
    }
}

// ---------------------------------------------------------------------------
// Handlers
// ---------------------------------------------------------------------------

/// `lb_policy [value]`, `request_timeout <secs>`, `connection_timeout <secs>`
/// in any order, each while it is unset, separated by white space and
/// comments. A number that does not fit in `u64` leaves its field unset.
pub open spec fn spec_proxy_fields(
    s: Seq<char>,
    r: int,
    lb: Option<Seq<char>>,
    rt: Option<u64>,
    ct: Option<u64>,
) -> Step<(Option<Seq<char>>, Option<u64>, Option<u64>)>
    decreases s.len() - r,
{
    let q = gap(s, r);
    if r < 0 || q < r || q > s.len() {
        Step::Fail(r, ErrorKind::Many0)
    } else if q >= s.len() || char_at(s, q, '}') {
        Step::Done(q, (lb, rt, ct))
    } else if starts_at(s, q, "lb_policy"@) && lb is None {
        let k = q + "lb_policy"@.len();
        let sp = span_end(s, k, CharClass::MultiSpace);
        let v = span_end(s, sp, CharClass::PolicyValue);
        proof {
            reveal_strlit("lb_policy");
            lemma_span(s, k, CharClass::MultiSpace);
            lemma_span(s, sp, CharClass::PolicyValue);
        }
        if sp > k && v > sp {
            spec_proxy_fields(s, v, Some(s.subrange(sp, v)), rt, ct)
        } else {
            spec_proxy_fields(s, k, None, rt, ct)
        }
    } else if starts_at(s, q, "request_timeout"@) && rt is None {
        let k = q + "request_timeout"@.len();
        proof {
            reveal_strlit("request_timeout");
            lemma_run1(s, k, CharClass::MultiSpace, ErrorKind::MultiSpace);
            let sp = span_end(s, k, CharClass::MultiSpace);
            lemma_span(s, k, CharClass::MultiSpace);
            lemma_run1(s, sp, CharClass::Digit, ErrorKind::Digit);
        }
        match spec_run1(s, k, CharClass::MultiSpace, ErrorKind::MultiSpace) {
            Step::Done(sp, _) => match spec_run1(s, sp, CharClass::Digit, ErrorKind::Digit) {
                Step::Done(d, digits) => spec_proxy_fields(
                    s,
                    d,
                    lb,
                    if digits_value(digits) <= u64::MAX {
                        Some(digits_value(digits) as u64)
                    } else {
                        None
                    },
                    ct,
                ),
                Step::Fail(p, e) => Step::Fail(p, e),
                Step::Abort => Step::Abort,
            },
            Step::Fail(p, e) => Step::Fail(p, e),
            Step::Abort => Step::Abort,
        }
    } else if starts_at(s, q, "connection_timeout"@) && ct is None {
        let k = q + "connection_timeout"@.len();
        proof {
            reveal_strlit("connection_timeout");
            lemma_run1(s, k, CharClass::MultiSpace, ErrorKind::MultiSpace);
            let sp = span_end(s, k, CharClass::MultiSpace);
            lemma_span(s, k, CharClass::MultiSpace);
            lemma_run1(s, sp, CharClass::Digit, ErrorKind::Digit);
        }
        match spec_run1(s, k, CharClass::MultiSpace, ErrorKind::MultiSpace) {
            Step::Done(sp, _) => match spec_run1(s, sp, CharClass::Digit, ErrorKind::Digit) {
                Step::Done(d, digits) => spec_proxy_fields(
                    s,
                    d,
                    lb,
                    rt,
                    if digits_value(digits) <= u64::MAX {
                        Some(digits_value(digits) as u64)
                    } else {
                        None
                    },
                ),
                Step::Fail(p, e) => Step::Fail(p, e),
                Step::Abort => Step::Abort,
            },
            Step::Fail(p, e) => Step::Fail(p, e),
            Step::Abort => Step::Abort,
        }
    } else {
        Step::Done(q, (lb, rt, ct))
    }
}

/// Whether an upstream list ends at `q`: at a field keyword, `}` or the end.
pub open spec fn upstreams_end_at(s: Seq<char>, q: int) -> bool {
    starts_at(s, q, "lb_policy"@) || starts_at(s, q, "request_timeout"@) || starts_at(
        s,
        q,
        "connection_timeout"@,
    ) || char_at(s, q, '}') || q >= s.len()
}

/// Upstream addresses separated by white space and comments, from `r`, after
/// those in `acc`; the list began at `start`. An address that is not a valid
/// upstream fails where it begins; an empty list fails at `start`.
pub open spec fn spec_upstreams(s: Seq<char>, start: int, r: int, acc: Seq<UpstreamV>) -> Step<
    Seq<UpstreamV>,
>
    decreases s.len() - r,
{
    let q = gap(s, r);
    if r < 0 || q < r || q > s.len() {
        Step::Fail(r, ErrorKind::Many0)
    } else if upstreams_end_at(s, q) {
        if acc.len() == 0 {
            Step::Fail(start, ErrorKind::Alt)
        } else {
            Step::Done(q, acc)
        }
    } else {
        match spec_word(s, q) {
            Step::Done(w, addr) => match spec_upstream_new(addr) {
                Ok(u) => if w <= r || w > s.len() {
                    Step::Fail(r, ErrorKind::Many0)
                } else {
                    spec_upstreams(s, start, w, acc.push(u))
                },
                Err(_) => Step::Fail(q, ErrorKind::Alt),
            },
            Step::Fail(p, e) => Step::Fail(p, e),
            Step::Abort => Step::Abort,
        }
    }
}

/// The inside of a proxy block: `upstreams <addr>...` then optional fields.
pub open spec fn spec_proxy_contents(s: Seq<char>, i: int) -> Step<
    (Seq<UpstreamV>, Option<Seq<char>>, Option<u64>, Option<u64>),
> {
    let c = gap(s, i);
    if !starts_at(s, c, "upstreams"@) {
        Step::Fail(c, ErrorKind::Tag)
    } else {
        match spec_run1(s, c + "upstreams"@.len(), CharClass::MultiSpace, ErrorKind::MultiSpace) {
            Step::Done(e, _) => match spec_upstreams(s, e, e, Seq::empty()) {
                Step::Done(f, ups) => match spec_proxy_fields(s, ms0(s, f), None, None, None) {
                    Step::Done(h, (lb, rt, ct)) => Step::Done(h, (ups, lb, rt, ct)),
                    Step::Fail(p, k) => Step::Fail(p, k),
                    Step::Abort => Step::Abort,
                },
                Step::Fail(p, k) => Step::Fail(p, k),
                Step::Abort => Step::Abort,
            },
            Step::Fail(p, k) => Step::Fail(p, k),
            Step::Abort => Step::Abort,
        }
    }
}

/// The load balancer for a list of upstreams: none for a single one, round
/// robin for several.
pub open spec fn balancer_for(ups: Seq<UpstreamV>) -> LoadBalancerV {
    if ups.len() == 1 {
        LoadBalancerV::NoBalancer(ups[0])
    } else {
        LoadBalancerV::RoundRobin(ups)
    }
}

/// `{ upstreams ... }`; the policy, when given, must be `round_robin`.
pub open spec fn spec_proxy_block(s: Seq<char>, k: int) -> Step<HandlerV> {
    if !char_at(s, k, '{') {
        Step::Fail(k, ErrorKind::Char)
    } else {
        match spec_proxy_contents(s, k + 1) {
            Step::Done(m, (ups, lb, rt, ct)) => if !char_at(s, m, '}') {
                Step::Fail(m, ErrorKind::Char)
            } else if lb is None || lb == Some("round_robin"@) || lb == Some(Seq::<char>::empty()) {
                Step::Done(
                    m + 1,
                    HandlerV::Proxy(
                        ProxyConfigV {
                            load_balancer: balancer_for(ups),
                            request_timeout: rt,
                            connection_timeout: ct,
                        },
                    ),
                )
            } else {
                Step::Fail(m + 1, ErrorKind::Alt)
            },
            Step::Fail(p, e) => Step::Fail(p, e),
            Step::Abort => Step::Abort,
        }
    }
}

/// A proxy block is accepted only when its `lb_policy` is absent, empty or
/// `round_robin`: a block that parses had one of those, and balances over
/// its upstreams (round robin when there are several); a closed block
/// whose contents name any other policy fails with `Alt` right after it.
pub proof fn lemma_proxy_block_policy(s: Seq<char>, k: int)
    ensures
        spec_proxy_block(s, k) matches Step::Done(_, h) ==> (spec_proxy_contents(s, k + 1) matches Step::Done(
            _,
            (ups, lb, _, _),
        ) && (lb is None || lb == Some("round_robin"@) || lb == Some(Seq::<char>::empty())) && (
        h matches HandlerV::Proxy(pc) && pc.load_balancer == if ups.len() == 1 {
            LoadBalancerV::NoBalancer(ups[0])
        } else {
            LoadBalancerV::RoundRobin(ups)
        })),
        spec_proxy_contents(s, k + 1) matches Step::Done(m, (_, Some(p), _, _)) ==> ((char_at(
            s,
            k,
            '{',
        ) && char_at(s, m, '}') && p != "round_robin"@ && p.len() > 0) ==> spec_proxy_block(s, k)
            == Step::<HandlerV>::Fail(m + 1, ErrorKind::Alt)),
{
}

/// A single upstream address.
pub open spec fn spec_proxy_simple(s: Seq<char>, k: int) -> Step<HandlerV> {
    match spec_word(s, k) {
        Step::Done(w, addr) => match spec_upstream_new(addr) {
            Ok(u) => Step::Done(
                w,
                HandlerV::Proxy(
                    ProxyConfigV {
                        load_balancer: LoadBalancerV::NoBalancer(u),
                        request_timeout: None,
                        connection_timeout: None,
                    },
                ),
            ),
            Err(_) => Step::Fail(w, ErrorKind::Alt),
        },
        Step::Fail(p, e) => Step::Fail(p, e),
        Step::Abort => Step::Abort,
    }
}

/// `proxy` then a block or an address.
pub open spec fn spec_proxy_handler(s: Seq<char>, j: int) -> Step<HandlerV> {
    if !starts_at(s, j, "proxy"@) {
        Step::Fail(j, ErrorKind::Tag)
    } else {
        let k = ms0(s, j + "proxy"@.len());
        match spec_proxy_block(s, k) {
            Step::Fail(_, _) => spec_proxy_simple(s, k),
            r => r,
        }
    }
}

/// A keyword followed by a value.
pub open spec fn spec_keyword_value(s: Seq<char>, j: int, kw: Seq<char>) -> Step<Seq<char>> {
    if !starts_at(s, j, kw) {
        Step::Fail(j, ErrorKind::Tag)
    } else {
        spec_value(s, j + kw.len())
    }
}

/// One handler, after optional white space.
pub open spec fn spec_handler(s: Seq<char>, i: int) -> Step<HandlerV> {
    let j = ms0(s, i);
    match spec_keyword_value(s, j, "file"@) {
        Step::Done(k, v) => Step::Done(k, HandlerV::File(v)),
        _ => match spec_proxy_handler(s, j) {
            Step::Done(k, h) => Step::Done(k, h),
            _ => match spec_keyword_value(s, j, "dir"@) {
                Step::Done(k, v) => Step::Done(k, HandlerV::Dir(v)),
                _ => match spec_keyword_value(s, j, "browse"@) {
                    Step::Done(k, v) => Step::Done(k, HandlerV::Browse(v)),
                    _ => match if starts_at(s, j, "respond"@) {
                        spec_respond_args(s, j + "respond"@.len())
                    } else {
                        Step::Fail(j, ErrorKind::Tag)
                    } {
                        Step::Done(k, (status, body)) => Step::Done(
                            k,
                            HandlerV::Respond { status, body },
                        ),
                        _ => match if starts_at(s, j, "redirect"@) {
                            spec_redirect_args(s, j + "redirect"@.len())
                        } else {
                            Step::Fail(j, ErrorKind::Tag)
                        } {
                            Step::Done(k, (status_code, path)) => Step::Done(
                                k,
                                HandlerV::Redirect { path, status_code },
                            ),
                            Step::Fail(p, e) => Step::Fail(p, e),
                            Step::Abort => Step::Abort,
                        },
                    },
                },
            },
        },
    }
}

// ---------------------------------------------------------------------------
// Routes, virtual hosts, configuration
// ---------------------------------------------------------------------------

/// The inside of a route block: comments, a handler, then comments and
/// middleware.
pub open spec fn spec_route_contents(s: Seq<char>, i: int) -> Step<(HandlerV, Seq<MiddlewareV>)> {
    match spec_handler(s, skip_comments(s, ms0(s, i))) {
        Step::Done(c, h) => match spec_middlewares(s, ms0(s, c)) {
            Step::Done(e, ms) => Step::Done(ms0(s, e), (h, ms)),
            Step::Fail(p, k) => Step::Fail(p, k),
            Step::Abort => Step::Abort,
        },
        Step::Fail(p, k) => Step::Fail(p, k),
        Step::Abort => Step::Abort,
    }
}

/// `route <path> { ... }` with comments and white space around it.
pub open spec fn spec_route(s: Seq<char>, i: int) -> Step<RouteV> {
    let c = gap(s, i);
    if !starts_at(s, c, "route"@) {
        Step::Fail(c, ErrorKind::Tag)
    } else {
        match spec_space1(s, c + "route"@.len()) {
            Step::Done(e, _) => match spec_run1(s, e, CharClass::Word, ErrorKind::TakeWhile1) {
                Step::Done(f, path) => {
                    let g = ms0(s, f);
                    if !char_at(s, g, '{') {
                        Step::Fail(g, ErrorKind::Char)
                    } else {
                        match spec_route_contents(s, g + 1) {
                            Step::Done(h, (handler, middlewares)) => if !char_at(s, h, '}') {
                                Step::Fail(h, ErrorKind::Char)
                            } else {
                                Step::Done(
                                    gap(s, h + 1),
                                    RouteV { path, handler, middlewares },
                                )
                            },
                            Step::Fail(p, k) => Step::Fail(p, k),
                            Step::Abort => Step::Abort,
                        }
                    }
                },
                Step::Fail(p, k) => Step::Fail(p, k),
                Step::Abort => Step::Abort,
            },
            Step::Fail(p, k) => Step::Fail(p, k),
            Step::Abort => Step::Abort,
        }
    }
}

/// Routes and comments, in any order, until neither parses.
pub open spec fn spec_routes(s: Seq<char>, i: int) -> Step<Seq<RouteV>>
    decreases s.len() - i,
{
    let (j, item): (int, Option<RouteV>) = match spec_route(s, i) {
        Step::Done(j, r) => (j, Some(r)),
        Step::Abort => (-2, None),
        Step::Fail(_, _) => match spec_comment(s, i) {
            Step::Done(j, _) => (j, None),
            _ => (-1, None),
        },
    };
    if j == -1 {
        Step::Done(i, Seq::empty())
    } else if j == -2 {
        Step::Abort
    } else if j <= i || j > s.len() {
        Step::Fail(i, ErrorKind::Many0)
    } else {
        match spec_routes(s, j) {
            Step::Done(k, rest) => Step::Done(
                k,
                match item {
                    Some(r) => seq![r] + rest,
                    None => rest,
                },
            ),
            r => r,
        }
    }
}

/// `<domain> { routes }` followed by comments.
pub open spec fn spec_virtual_host(s: Seq<char>, i: int) -> Step<VirtualHostV> {
    let a = ms0(s, i);
    match spec_run1(s, a, CharClass::Word, ErrorKind::TakeWhile1) {
        Step::Done(d, domain) => {
            let k = ms0(s, d);
            if !char_at(s, k, '{') {
                Step::Fail(k, ErrorKind::Char)
            } else {
                match spec_routes(s, k + 1) {
                    Step::Done(m, routes) => if !char_at(s, m, '}') {
                        Step::Fail(m, ErrorKind::Char)
                    } else {
                        Step::Done(skip_comments(s, m + 1), VirtualHostV { domain, routes })
                    },
                    Step::Fail(p, e) => Step::Fail(p, e),
                    Step::Abort => Step::Abort,
                }
            }
        },
        Step::Fail(p, e) => Step::Fail(p, e),
        Step::Abort => Step::Abort,
    }
}

/// A virtual host or a comment at `i`: the position after it and the host, if
/// it was one; `Fail` with the comment's failure when neither parses.
pub open spec fn spec_host_or_comment(s: Seq<char>, i: int) -> Step<Option<VirtualHostV>> {
    match spec_virtual_host(s, i) {
        Step::Done(j, h) => Step::Done(j, Some(h)),
        Step::Abort => Step::Abort,
        Step::Fail(_, _) => match spec_comment(s, i) {
            Step::Done(j, _) => Step::Done(j, None),
            Step::Fail(p, e) => Step::Fail(p, e),
            Step::Abort => Step::Abort,
        },
    }
}

/// Virtual hosts and comments after the first item, until neither parses.
pub open spec fn spec_hosts_rest(s: Seq<char>, i: int) -> Step<Seq<VirtualHostV>>
    decreases s.len() - i,
{
    match spec_host_or_comment(s, i) {
        Step::Fail(_, _) => Step::Done(i, Seq::empty()),
        Step::Abort => Step::Abort,
        Step::Done(j, item) => if j <= i || j > s.len() {
            Step::Fail(i, ErrorKind::Many1)
        } else {
            match spec_hosts_rest(s, j) {
                Step::Done(k, rest) => Step::Done(
                    k,
                    match item {
                        Some(h) => seq![h] + rest,
                        None => rest,
                    },
                ),
                r => r,
            }
        },
    }
}

/// A configuration: one or more virtual hosts and comments, in any order.
/// Yields the position where parsing stopped and the hosts.
pub open spec fn spec_config(s: Seq<char>) -> Step<ConfigV> {
    match spec_host_or_comment(s, 0) {
        Step::Fail(p, e) => Step::Fail(p, e),
        Step::Abort => Step::Abort,
        Step::Done(j, item) => if j <= 0 || j > s.len() {
            Step::Fail(0, ErrorKind::Many1)
        } else {
            match spec_hosts_rest(s, j) {
                Step::Done(k, rest) => Step::Done(
                    k,
                    ConfigV {
                        virtual_hosts: match item {
                            Some(h) => seq![h] + rest,
                            None => rest,
                        },
                    },
                ),
                Step::Fail(p, e) => Step::Fail(p, e),
                Step::Abort => Step::Abort,
            }
        },
    }
}

// ---------------------------------------------------------------------------
// Load balancing of parsed proxies
// ---------------------------------------------------------------------------

pub proof fn lemma_upstreams_nonempty(s: Seq<char>, start: int, r: int, acc: Seq<UpstreamV>)
    ensures
        spec_upstreams(s, start, r, acc) matches Step::Done(_, ups) ==> ups.len() >= 1,
    decreases s.len() - r,
{
    let q = gap(s, r);
    if !(r < 0 || q < r || q > s.len()) && !upstreams_end_at(s, q) {
        match spec_word(s, q) {
            Step::Done(w, addr) => match spec_upstream_new(addr) {
                Ok(u) => if !(w <= r || w > s.len()) {
                    lemma_upstreams_nonempty(s, start, w, acc.push(u));
                },
                Err(_) => {},
            },
            _ => {},
        }
    }
}

/// A proxy that the parser accepts balances with round robin only over two
/// or more upstreams; one upstream, in a block or on its own, gets no
/// balancer.
pub proof fn lemma_parsed_proxy_balancer(s: Seq<char>, j: int)
    ensures
        spec_proxy_handler(s, j) matches Step::Done(_, HandlerV::Proxy(pc)) ==> match pc.load_balancer {
            LoadBalancerV::NoBalancer(_) => true,
            LoadBalancerV::RoundRobin(us) => us.len() >= 2,
        },
{
    if starts_at(s, j, "proxy"@) {
        let k = ms0(s, j + "proxy"@.len());
        if char_at(s, k, '{') {
            let c = gap(s, k + 1);
            if starts_at(s, c, "upstreams"@) {
                match spec_run1(s, c + "upstreams"@.len(), CharClass::MultiSpace, ErrorKind::MultiSpace) {
                    Step::Done(e, _) => {
                        lemma_upstreams_nonempty(s, e, e, Seq::empty());
                    },
                    _ => {},
                }
            }
        }
    }
}

} // verus!
