//! The configuration parser: executable counterparts of the grammar in
//! `grammar`, each proved to compute exactly what its specification says.
use crate::grammar::{
    balancer_for, char_at, gap, header_operator, line_rest_end, ms0, opt_value, skip_comments,
    spec_auth, spec_cache, spec_comment, spec_config, spec_handler, spec_header,
    spec_host_or_comment, spec_hosts_rest, spec_keyword_value, spec_literal_u16, spec_middleware,
    spec_middlewares, spec_proxy_block, spec_proxy_contents, spec_proxy_fields, spec_proxy_handler,
    spec_proxy_simple, spec_rate_limit, spec_redirect_args, spec_respond_args, spec_route,
    spec_route_contents, spec_routes, spec_run1, spec_string_literal, spec_string_u16, spec_u16,
    spec_upstreams, spec_value, spec_virtual_host, spec_word, upstreams_end_at, ErrorKind, Step,
};
use crate::text::{digits_upto, lemma_span, span, starts_at, string_of, tag_at, to_chars, CharClass};
use crate::types::{
    Handler, HeaderOperator, LoadBalancer, Middleware, ProxyConfig, Route, Upstream, VirtualHost,
    Config,
};
use vstd::prelude::*;

verus! {

broadcast use vstd::string::group_string_axioms;

/// The outcome of an executable parser.
pub enum PStep<T> {
    Done(usize, T),
    Fail(usize, ErrorKind),
    Abort,
}

/// The executable outcome `r` is the specified outcome `g`, values compared
/// through `f`.
pub open spec fn agrees<T, V>(r: PStep<T>, g: Step<V>, f: spec_fn(T) -> V) -> bool {
    match (r, g) {
        (PStep::Done(j, x), Step::Done(k, y)) => j == k && f(x) == y,
        (PStep::Fail(p, e), Step::Fail(q, d)) => p == q && e == d,
        (PStep::Abort, Step::Abort) => true,
        _ => false,
    }
}

/// A successful outcome ends between `i` and `n`.
pub open spec fn within<T>(r: PStep<T>, i: int, n: int) -> bool {
    &&& r matches PStep::Done(j, _) ==> i <= j <= n
    &&& r matches PStep::Fail(p, _) ==> p <= n
}

/// Whether the literal `t` occurs in `s` at `i`.
fn lit_at(s: &Vec<char>, i: usize, t: &str) -> (b: bool)
    ensures
        b == starts_at(s@, i as int, t@),
{
    let v = to_chars(t);
    tag_at(s, i, &v)
}

fn ms0_exec(s: &Vec<char>, i: usize) -> (j: usize)
    requires
        i <= s.len(),
    ensures
        j == ms0(s@, i as int),
        i <= j <= s.len(),
{
    span(s, i, CharClass::MultiSpace)
}

fn char_at_exec(s: &Vec<char>, i: usize, c: char) -> (b: bool)
    ensures
        b == char_at(s@, i as int, c),
{
    i < s.len() && s[i] == c
}

fn line_rest_end_exec(s: &Vec<char>, k: usize) -> (r: usize)
    requires
        k <= s.len(),
    ensures
        r == line_rest_end(s@, k as int),
        k <= r <= s.len(),
{
    let p = span(s, k, CharClass::NotLineEnd);
    if p >= s.len() {
        p
    } else if s[p] == '\n' {
        p
    } else if char_at_exec(s, p + 1, '\n') {
        p
    } else {
        k
    }
}

/// A comment at `i`.
pub fn comment_at(s: &Vec<char>, i: usize) -> (r: PStep<()>)
    requires
        i <= s.len(),
    ensures
        agrees(r, spec_comment(s@, i as int), |x: ()| x),
        r matches PStep::Done(j, _) ==> i < j <= s.len(),
        within(r, i as int, s.len() as int),
        r is Fail || r is Done,
{
    let j = ms0_exec(s, i);
    if lit_at(s, j, "#") {
        proof {
            reveal_strlit("#");
        }
        PStep::Done(line_rest_end_exec(s, j + 1), ())
    } else {
        PStep::Fail(j, ErrorKind::Tag)
    }
}

pub proof fn lemma_comment_progress(s: Seq<char>, i: int)
    requires
        0 <= i <= s.len(),
    ensures
        spec_comment(s, i) matches Step::Done(j, _) ==> i < j <= s.len(),
        !(spec_comment(s, i) is Abort),
{
    lemma_span(s, i, CharClass::MultiSpace);
    reveal_strlit("#");
    let j = ms0(s, i);
    if starts_at(s, j, "#"@) {
        lemma_span(s, j + 1, CharClass::NotLineEnd);
    }
}

pub proof fn lemma_skip_comments(s: Seq<char>, i: int)
    requires
        0 <= i <= s.len(),
    ensures
        i <= skip_comments(s, i) <= s.len(),
    decreases s.len() - i,
{
    lemma_comment_progress(s, i);
    if let Step::Done(j, _) = spec_comment(s, i) {
        lemma_skip_comments(s, j);
    }
}

/// Skips any number of comments.
fn skip_comments_exec(s: &Vec<char>, i: usize) -> (r: usize)
    requires
        i <= s.len(),
    ensures
        r == skip_comments(s@, i as int),
        i <= r <= s.len(),
{
    let mut k = i;
    proof {
        lemma_skip_comments(s@, i as int);
    }
    loop
        invariant
            i <= k <= s.len(),
            skip_comments(s@, k as int) == skip_comments(s@, i as int),
        decreases s.len() - k,
    {
        match comment_at(s, k) {
            PStep::Done(j, _) => {
                k = j;
            },
            _ => {
                return k;
            },
        }
    }
}

fn gap_exec(s: &Vec<char>, i: usize) -> (r: usize)
    requires
        i <= s.len(),
    ensures
        r == gap(s@, i as int),
        i <= r <= s.len(),
{
    let a = ms0_exec(s, i);
    let b = skip_comments_exec(s, a);
    ms0_exec(s, b)
}

/// A word at `i`: its end and its characters.
fn word_at(s: &Vec<char>, i: usize) -> (r: PStep<String>)
    requires
        i <= s.len(),
    ensures
        agrees(r, spec_word(s@, i as int), |x: String| x@),
        r matches PStep::Done(j, _) ==> i < j <= s.len(),
        within(r, i as int, s.len() as int),
{
    let e = span(s, i, CharClass::NotWs);
    if e == i {
        PStep::Fail(i, ErrorKind::TakeWhile1)
    } else {
        PStep::Done(e, string_of(s, i, e))
    }
}

/// Spaces or tabs then a word.
fn value_at(s: &Vec<char>, i: usize) -> (r: PStep<String>)
    requires
        i <= s.len(),
    ensures
        agrees(r, spec_value(s@, i as int), |x: String| x@),
        r matches PStep::Done(j, _) ==> i < j <= s.len(),
        within(r, i as int, s.len() as int),
{
    let e = span(s, i, CharClass::Space);
    if e == i {
        return PStep::Fail(i, ErrorKind::Space);
    }
    word_at(s, e)
}

fn opt_value_at(s: &Vec<char>, i: usize) -> (r: (usize, Option<String>))
    requires
        i <= s.len(),
    ensures
        r.0 == opt_value(s@, i as int).0,
        crate::uri::opt_view(r.1) == opt_value(s@, i as int).1,
        i <= r.0 <= s.len(),
{
    match value_at(s, i) {
        PStep::Done(e, w) => (e, Some(w)),
        _ => (i, None),
    }
}

/// A double-quoted string.
pub fn string_literal_at(s: &Vec<char>, i: usize) -> (r: PStep<String>)
    requires
        i <= s.len(),
    ensures
        agrees(r, spec_string_literal(s@, i as int), |x: String| x@),
        within(r, i as int, s.len() as int),
{
    if !char_at_exec(s, i, '"') {
        return PStep::Fail(i, ErrorKind::Char);
    }
    let e = span(s, i + 1, CharClass::NotQuote);
    if !char_at_exec(s, e, '"') {
        return PStep::Fail(e, ErrorKind::Char);
    }
    PStep::Done(e + 1, string_of(s, i + 1, e))
}

/// White space then a `u16`.
pub fn u16_at(s: &Vec<char>, i: usize) -> (r: PStep<u16>)
    requires
        i <= s.len(),
    ensures
        agrees(r, spec_u16(s@, i as int), |x: u16| x),
        within(r, i as int, s.len() as int),
{
    let j = ms0_exec(s, i);
    let w = span(s, j, CharClass::NotWs);
    let d = span(s, j, CharClass::Digit);
    if w == j {
        return PStep::Fail(j, ErrorKind::TakeWhile1);
    }
    if d == j {
        return PStep::Fail(j, ErrorKind::Digit);
    }
    if d < w {
        return PStep::Fail(w, ErrorKind::Digit);
    }
    proof {
        lemma_span(s@, j as int, CharClass::Digit);
        lemma_span(s@, j as int, CharClass::NotWs);
        if d > w {
            assert(crate::text::in_class(CharClass::Digit, s@[w as int]));
        }
        assert(crate::text::all_digits(s@.subrange(j as int, w as int)));
    }
    match digits_upto(s, j, w, 65535) {
        Some(v) => PStep::Done(w, v as u16),
        None => PStep::Fail(w, ErrorKind::Digit),
    }
}

/// A string literal, spaces or tabs, and a `u16`.
pub fn literal_u16_at(s: &Vec<char>, i: usize) -> (r: PStep<(String, u16)>)
    requires
        i <= s.len(),
    ensures
        agrees(r, spec_literal_u16(s@, i as int), |x: (String, u16)| (x.0@, x.1)),
        within(r, i as int, s.len() as int),
{
    match string_literal_at(s, i) {
        PStep::Done(k, body) => {
            let sp = span(s, k, CharClass::Space);
            if sp == k {
                return PStep::Fail(k, ErrorKind::Space);
            }
            match u16_at(s, sp) {
                PStep::Done(m, v) => PStep::Done(m, (body, v)),
                PStep::Fail(p, e) => PStep::Fail(p, e),
                PStep::Abort => PStep::Abort,
            }
        },
        PStep::Fail(p, e) => PStep::Fail(p, e),
        PStep::Abort => PStep::Abort,
    }
}

/// A word, spaces or tabs, and a `u16`.
pub fn string_u16_at(s: &Vec<char>, i: usize) -> (r: PStep<(String, u16)>)
    requires
        i <= s.len(),
    ensures
        agrees(r, spec_string_u16(s@, i as int), |x: (String, u16)| (x.0@, x.1)),
        within(r, i as int, s.len() as int),
{
    match word_at(s, i) {
        PStep::Done(w, word) => {
            let sp = span(s, w, CharClass::Space);
            if sp == w {
                return PStep::Fail(w, ErrorKind::Space);
            }
            match u16_at(s, sp) {
                PStep::Done(m, v) => PStep::Done(m, (word, v)),
                PStep::Fail(p, e) => PStep::Fail(p, e),
                PStep::Abort => PStep::Abort,
            }
        },
        PStep::Fail(p, e) => PStep::Fail(p, e),
        PStep::Abort => PStep::Abort,
    }
}

pub open spec fn args_view(x: (Option<u16>, Option<String>)) -> (Option<u16>, Option<Seq<char>>) {
    (x.0, crate::uri::opt_view(x.1))
}

/// The arguments of `respond`, as `(status, body)`.
pub fn respond_args_at(s: &Vec<char>, i: usize) -> (r: PStep<(Option<u16>, Option<String>)>)
    requires
        i <= s.len(),
    ensures
        agrees(r, spec_respond_args(s@, i as int), |x: (Option<u16>, Option<String>)| args_view(x)),
        within(r, i as int, s.len() as int),
{
    let sp = span(s, i, CharClass::Space);
    if sp == i {
        return PStep::Fail(i, ErrorKind::Space);
    }
    if let PStep::Done(k, (body, st)) = literal_u16_at(s, sp) {
        return PStep::Done(k, (Some(st), Some(body)));
    }
    if let PStep::Done(k, body) = string_literal_at(s, sp) {
        return PStep::Done(k, (None, Some(body)));
    }
    match u16_at(s, sp) {
        PStep::Done(k, st) => PStep::Done(k, (Some(st), None)),
        PStep::Fail(p, e) => PStep::Fail(p, e),
        PStep::Abort => PStep::Abort,
    }
}

/// The arguments of `redirect`, as `(status, path)`.
pub fn redirect_args_at(s: &Vec<char>, i: usize) -> (r: PStep<(Option<u16>, Option<String>)>)
    requires
        i <= s.len(),
    ensures
        agrees(r, spec_redirect_args(s@, i as int), |x: (Option<u16>, Option<String>)| args_view(x)),
        within(r, i as int, s.len() as int),
{
    let sp = span(s, i, CharClass::Space);
    if sp == i {
        return PStep::Fail(i, ErrorKind::Space);
    }
    if let PStep::Done(k, (path, code)) = string_u16_at(s, sp) {
        return PStep::Done(k, (Some(code), Some(path)));
    }
    match word_at(s, sp) {
        PStep::Done(k, path) => PStep::Done(k, (None, Some(path))),
        PStep::Fail(p, e) => PStep::Fail(p, e),
        PStep::Abort => PStep::Abort,
    }
}


// ---------------------------------------------------------------------------
// Middleware
// ---------------------------------------------------------------------------

pub fn rate_limit_at(s: &Vec<char>, j: usize) -> (r: PStep<Middleware>)
    requires
        j <= s.len(),
    ensures
        agrees(r, spec_rate_limit(s@, j as int), |x: Middleware| x@),
        within(r, j as int, s.len() as int),
{
    if !lit_at(s, j, "rate_limit") {
        return PStep::Fail(j, ErrorKind::Tag);
    }
    proof {
        reveal_strlit("rate_limit");
    }
    let k = j + 10;
    let e = span(s, k, CharClass::Space);
    if e == k {
        return PStep::Fail(k, ErrorKind::Space);
    }
    let d = span(s, e, CharClass::Digit);
    if d == e {
        return PStep::Fail(e, ErrorKind::TakeWhile1);
    }
    proof {
        lemma_span(s@, e as int, CharClass::Digit);
        assert(crate::text::all_digits(s@.subrange(e as int, d as int)));
    }
    match digits_upto(s, e, d, 4294967295u64) {
        Some(v) => PStep::Done(d, Middleware::RateLimit(v as u32)),
        None => PStep::Abort,
    }
}

pub fn auth_at(s: &Vec<char>, j: usize) -> (r: PStep<Middleware>)
    requires
        j <= s.len(),
    ensures
        agrees(r, spec_auth(s@, j as int), |x: Middleware| x@),
        within(r, j as int, s.len() as int),
{
    if !lit_at(s, j, "auth") {
        return PStep::Fail(j, ErrorKind::Tag);
    }
    proof {
        reveal_strlit("auth");
    }
    match value_at(s, j + 4) {
        PStep::Done(u, user) => match value_at(s, u) {
            PStep::Done(p, pass) => PStep::Done(
                p,
                Middleware::Auth { username: user, password: pass },
            ),
            PStep::Fail(q, k) => PStep::Fail(q, k),
            PStep::Abort => PStep::Abort,
        },
        PStep::Fail(q, k) => PStep::Fail(q, k),
        PStep::Abort => PStep::Abort,
    }
}

pub fn cache_at(s: &Vec<char>, j: usize) -> (r: PStep<Middleware>)
    requires
        j <= s.len(),
    ensures
        agrees(r, spec_cache(s@, j as int), |x: Middleware| x@),
        within(r, j as int, s.len() as int),
{
    if !lit_at(s, j, "cache") {
        return PStep::Fail(j, ErrorKind::Tag);
    }
    proof {
        reveal_strlit("cache");
    }
    match value_at(s, j + 5) {
        PStep::Done(e, d) => PStep::Done(e, Middleware::Cache(d)),
        PStep::Fail(q, k) => PStep::Fail(q, k),
        PStep::Abort => PStep::Abort,
    }
}

fn header_operator_at(s: &Vec<char>, e: usize) -> (r: Option<(HeaderOperator, usize)>)
    requires
        e <= s.len(),
    ensures
        match (r, header_operator(s@, e as int)) {
            (Some((op, n)), Some((sop, sn))) => op == sop && n == sn && e + n <= s.len(),
            (None, None) => true,
            _ => false,
        },
{
    proof {
        reveal_strlit("~>");
    }
    if lit_at(s, e, "~>") {
        Some((HeaderOperator::DeferReplace, 2))
    } else if char_at_exec(s, e, '+') {
        Some((HeaderOperator::Add, 1))
    } else if char_at_exec(s, e, '>') {
        Some((HeaderOperator::DeferSet, 1))
    } else if char_at_exec(s, e, '-') {
        Some((HeaderOperator::Delete, 1))
    } else if char_at_exec(s, e, '?') {
        Some((HeaderOperator::Default, 1))
    } else if char_at_exec(s, e, '=') {
        Some((HeaderOperator::SetValue, 1))
    } else if char_at_exec(s, e, '~') {
        Some((HeaderOperator::Replace, 1))
    } else {
        None
    }
}

pub fn header_at(s: &Vec<char>, j: usize) -> (r: PStep<Middleware>)
    requires
        j <= s.len(),
    ensures
        agrees(r, spec_header(s@, j as int), |x: Middleware| x@),
        within(r, j as int, s.len() as int),
{
    if !lit_at(s, j, "header") {
        return PStep::Fail(j, ErrorKind::Tag);
    }
    proof {
        reveal_strlit("header");
    }
    let k = j + 6;
    let e = span(s, k, CharClass::Space);
    if e == k {
        return PStep::Fail(k, ErrorKind::Space);
    }
    match header_operator_at(s, e) {
        None => PStep::Fail(e, ErrorKind::Tag),
        Some((op, n)) => match word_at(s, e + n) {
            PStep::Done(ne, name) => {
                let (ve, value) = opt_value_at(s, ne);
                let (re, replace_with) = opt_value_at(s, ve);
                PStep::Done(re, Middleware::Header { operator: op, name, value, replace_with })
            },
            PStep::Fail(q, k) => PStep::Fail(q, k),
            PStep::Abort => PStep::Abort,
        },
    }
}

/// One middleware at `i`.
pub fn middleware_at(s: &Vec<char>, i: usize) -> (r: PStep<Middleware>)
    requires
        i <= s.len(),
    ensures
        agrees(r, spec_middleware(s@, i as int), |x: Middleware| x@),
        within(r, i as int, s.len() as int),
{
    let j = ms0_exec(s, i);
    proof {
        reveal_strlit("gzip");
        reveal_strlit("cors");
        reveal_strlit("log");
    }
    if lit_at(s, j, "gzip") {
        return PStep::Done(j + 4, Middleware::Gzip);
    }
    if lit_at(s, j, "cors") {
        return PStep::Done(j + 4, Middleware::Cors);
    }
    if lit_at(s, j, "log") {
        return PStep::Done(j + 3, Middleware::Log);
    }
    match rate_limit_at(s, j) {
        PStep::Fail(_, _) => {},
        r => {
            return r;
        },
    }
    match auth_at(s, j) {
        PStep::Fail(_, _) => {},
        r => {
            return r;
        },
    }
    match cache_at(s, j) {
        PStep::Fail(_, _) => {},
        r => {
            return r;
        },
    }
    header_at(s, j)
}

pub open spec fn mws_view(v: Seq<Middleware>) -> Seq<crate::types::MiddlewareV> {
    crate::types::middlewares_view(v)
}

pub open spec fn prepend<V>(acc: Seq<V>, g: Step<Seq<V>>) -> Step<Seq<V>> {
    match g {
        Step::Done(k, xs) => Step::Done(k, acc + xs),
        Step::Fail(p, e) => Step::Fail(p, e),
        Step::Abort => Step::Abort,
    }
}

/// Comments and middleware from `i` until neither parses.
#[verifier::spinoff_prover]
#[verifier::rlimit(50)]
pub fn middlewares_at(s: &Vec<char>, i: usize) -> (r: PStep<Vec<Middleware>>)
    requires
        i <= s.len(),
    ensures
        agrees(r, spec_middlewares(s@, i as int), |x: Vec<Middleware>| mws_view(x@)),
        within(r, i as int, s.len() as int),
{
    let mut acc: Vec<Middleware> = Vec::new();
    let mut k = i;
    loop
        invariant
            i <= k <= s.len(),
            spec_middlewares(s@, i as int) == prepend(mws_view(acc@), spec_middlewares(s@, k as int)),
        decreases s.len() - k,
    {
        let ghost old_acc = acc@;
        let next: usize;
        match comment_at(s, k) {
            PStep::Done(j, _) => {
                next = j;
            },
            _ => match middleware_at(s, k) {
                PStep::Done(j, m) => {
                    if j <= k || j > s.len() {
                        return PStep::Fail(k, ErrorKind::Many0);
                    }
                    acc.push(m);
                    next = j;
                },
                PStep::Fail(_, _) => {
                    assert(mws_view(acc@) + Seq::<crate::types::MiddlewareV>::empty() =~= mws_view(acc@));
                    return PStep::Done(k, acc);
                },
                PStep::Abort => {
                    return PStep::Abort;
                },
            },
        }
        if next <= k || next > s.len() {
            return PStep::Fail(k, ErrorKind::Many0);
        }
        proof {
            assert(mws_view(acc@) =~= mws_view(old_acc) + (if acc@.len() > old_acc.len() {
                seq![acc@.last()@]
            } else {
                Seq::empty()
            }));
            let g = spec_middlewares(s@, next as int);
            if let Step::Done(kk, rest) = g {
                assert(mws_view(old_acc) + (if acc@.len() > old_acc.len() {
                    seq![acc@.last()@] + rest
                } else {
                    rest
                }) =~= mws_view(acc@) + rest);
            }
        }
        k = next;
    }
}


// ---------------------------------------------------------------------------
// Handlers
// ---------------------------------------------------------------------------

pub open spec fn fields_view(x: (Option<String>, Option<u64>, Option<u64>)) -> (
    Option<Seq<char>>,
    Option<u64>,
    Option<u64>,
) {
    (crate::uri::opt_view(x.0), x.1, x.2)
}

/// Reads a number of seconds after a field keyword that ends at `k`.
fn seconds_after(s: &Vec<char>, k: usize) -> (r: PStep<Option<u64>>)
    requires
        k <= s.len(),
    ensures
        match (r, spec_run1(s@, k as int, CharClass::MultiSpace, ErrorKind::MultiSpace)) {
            (PStep::Done(d, v), Step::Done(sp, _)) => match spec_run1(
                s@,
                sp,
                CharClass::Digit,
                ErrorKind::Digit,
            ) {
                Step::Done(sd, digits) => d == sd && v == (if crate::text::digits_value(digits)
                    <= u64::MAX {
                    Some(crate::text::digits_value(digits) as u64)
                } else {
                    None
                }),
                _ => false,
            },
            (PStep::Fail(p, e), Step::Done(sp, _)) => spec_run1(
                s@,
                sp,
                CharClass::Digit,
                ErrorKind::Digit,
            ) == Step::<Seq<char>>::Fail(p as int, e),
            (PStep::Fail(p, e), Step::Fail(q, d)) => p == q && e == d,
            _ => false,
        },
        within(r, k as int, s.len() as int),
{
    let sp = span(s, k, CharClass::MultiSpace);
    if sp == k {
        return PStep::Fail(k, ErrorKind::MultiSpace);
    }
    let d = span(s, sp, CharClass::Digit);
    if d == sp {
        return PStep::Fail(sp, ErrorKind::Digit);
    }
    proof {
        lemma_span(s@, sp as int, CharClass::Digit);
        assert(crate::text::all_digits(s@.subrange(sp as int, d as int)));
    }
    PStep::Done(d, digits_upto(s, sp, d, 18446744073709551615u64))
}

/// The optional fields of a proxy block from `r`.
#[verifier::spinoff_prover]
#[verifier::rlimit(50)]
fn proxy_fields_at(s: &Vec<char>, r0: usize) -> (r: PStep<(Option<String>, Option<u64>, Option<u64>)>)
    requires
        r0 <= s.len(),
    ensures
        agrees(
            r,
            spec_proxy_fields(s@, r0 as int, None, None, None),
            |x: (Option<String>, Option<u64>, Option<u64>)| fields_view(x),
        ),
        within(r, r0 as int, s.len() as int),
{
    let mut lb: Option<String> = None;
    let mut rt: Option<u64> = None;
    let mut ct: Option<u64> = None;
    let mut pos = r0;
    proof {
        reveal_strlit("lb_policy");
        reveal_strlit("request_timeout");
        reveal_strlit("connection_timeout");
    }
    loop
        invariant
            r0 <= pos <= s.len(),
            spec_proxy_fields(s@, r0 as int, None, None, None) == spec_proxy_fields(
                s@,
                pos as int,
                crate::uri::opt_view(lb),
                rt,
                ct,
            ),
        decreases s.len() - pos,
    {
        proof {
            reveal_strlit("lb_policy");
            reveal_strlit("request_timeout");
            reveal_strlit("connection_timeout");
        }
        let q = gap_exec(s, pos);
        if q >= s.len() || char_at_exec(s, q, '}') {
            return PStep::Done(q, (lb, rt, ct));
        }
        if lit_at(s, q, "lb_policy") && lb.is_none() {
            let k = q + 9;
            let sp = span(s, k, CharClass::MultiSpace);
            let v = span(s, sp, CharClass::PolicyValue);
            if sp > k && v > sp {
                lb = Some(string_of(s, sp, v));
                pos = v;
            } else {
                pos = k;
            }
        } else if lit_at(s, q, "request_timeout") && rt.is_none() {
            match seconds_after(s, q + 15) {
                PStep::Done(d, v) => {
                    rt = v;
                    pos = d;
                },
                PStep::Fail(p, e) => {
                    return PStep::Fail(p, e);
                },
                PStep::Abort => {
                    return PStep::Abort;
                },
            }
        } else if lit_at(s, q, "connection_timeout") && ct.is_none() {
            match seconds_after(s, q + 18) {
                PStep::Done(d, v) => {
                    ct = v;
                    pos = d;
                },
                PStep::Fail(p, e) => {
                    return PStep::Fail(p, e);
                },
                PStep::Abort => {
                    return PStep::Abort;
                },
            }
        } else {
            return PStep::Done(q, (lb, rt, ct));
        }
    }
}

pub open spec fn ups_view(v: Seq<Upstream>) -> Seq<crate::types::UpstreamV> {
    v.map_values(|u: Upstream| u@)
}

fn upstreams_end_at_exec(s: &Vec<char>, q: usize) -> (b: bool)
    ensures
        b == upstreams_end_at(s@, q as int),
{
    lit_at(s, q, "lb_policy") || lit_at(s, q, "request_timeout") || lit_at(s, q, "connection_timeout")
        || char_at_exec(s, q, '}') || q >= s.len()
}

/// Upstream addresses from `start`.
#[verifier::spinoff_prover]
#[verifier::rlimit(50)]
fn upstreams_at(s: &Vec<char>, start: usize) -> (r: PStep<Vec<Upstream>>)
    requires
        start <= s.len(),
    ensures
        agrees(r, spec_upstreams(s@, start as int, start as int, Seq::empty()), |x: Vec<Upstream>| ups_view(x@)),
        within(r, start as int, s.len() as int),
{
    let mut acc: Vec<Upstream> = Vec::new();
    let mut pos = start;
    assert(ups_view(acc@) =~= Seq::<crate::types::UpstreamV>::empty());
    loop
        invariant
            start <= pos <= s.len(),
            spec_upstreams(s@, start as int, start as int, Seq::empty()) == spec_upstreams(
                s@,
                start as int,
                pos as int,
                ups_view(acc@),
            ),
        decreases s.len() - pos,
    {
        let q = gap_exec(s, pos);
        if upstreams_end_at_exec(s, q) {
            if acc.len() == 0 {
                return PStep::Fail(start, ErrorKind::Alt);
            }
            return PStep::Done(q, acc);
        }
        match word_at(s, q) {
            PStep::Done(w, addr) => {
                let ghost a = addr@;
                match Upstream::new(addr) {
                    Ok(u) => {
                        let ghost old_acc = acc@;
                        acc.push(u);
                        assert(ups_view(acc@) =~= ups_view(old_acc).push(u@));
                        pos = w;
                    },
                    Err(_) => {
                        return PStep::Fail(q, ErrorKind::Alt);
                    },
                }
            },
            PStep::Fail(p, e) => {
                return PStep::Fail(p, e);
            },
            PStep::Abort => {
                return PStep::Abort;
            },
        }
    }
}

pub open spec fn contents_view(x: (Vec<Upstream>, Option<String>, Option<u64>, Option<u64>)) -> (
    Seq<crate::types::UpstreamV>,
    Option<Seq<char>>,
    Option<u64>,
    Option<u64>,
) {
    (ups_view(x.0@), crate::uri::opt_view(x.1), x.2, x.3)
}

fn proxy_contents_at(s: &Vec<char>, i: usize) -> (r: PStep<
    (Vec<Upstream>, Option<String>, Option<u64>, Option<u64>),
>)
    requires
        i <= s.len(),
    ensures
        agrees(
            r,
            spec_proxy_contents(s@, i as int),
            |x: (Vec<Upstream>, Option<String>, Option<u64>, Option<u64>)| contents_view(x),
        ),
        within(r, i as int, s.len() as int),
{
    let c = gap_exec(s, i);
    if !lit_at(s, c, "upstreams") {
        return PStep::Fail(c, ErrorKind::Tag);
    }
    proof {
        reveal_strlit("upstreams");
    }
    let k = c + 9;
    let e = span(s, k, CharClass::MultiSpace);
    if e == k {
        return PStep::Fail(k, ErrorKind::MultiSpace);
    }
    match upstreams_at(s, e) {
        PStep::Done(f, ups) => {
            let g = ms0_exec(s, f);
            match proxy_fields_at(s, g) {
                PStep::Done(h, (lb, rt, ct)) => PStep::Done(h, (ups, lb, rt, ct)),
                PStep::Fail(p, kk) => PStep::Fail(p, kk),
                PStep::Abort => PStep::Abort,
            }
        },
        PStep::Fail(p, kk) => PStep::Fail(p, kk),
        PStep::Abort => PStep::Abort,
    }
}

/// The load balancer for the upstreams.
pub fn balancer_of(ups: Vec<Upstream>) -> (b: LoadBalancer)
    ensures
        b@ == balancer_for(ups_view(ups@)),
{
    if ups.len() == 1 {
        let mut ups = ups;
        let u = ups.remove(0);
        LoadBalancer::NoBalancer(u)
    } else {
        let b = LoadBalancer::RoundRobin(ups);
        assert(b@ == balancer_for(ups_view(ups@)));
        b
    }
}

fn proxy_block_at(s: &Vec<char>, k: usize) -> (r: PStep<Handler>)
    requires
        k <= s.len(),
    ensures
        agrees(r, spec_proxy_block(s@, k as int), |x: Handler| x@),
        within(r, k as int, s.len() as int),
{
    if !char_at_exec(s, k, '{') {
        return PStep::Fail(k, ErrorKind::Char);
    }
    match proxy_contents_at(s, k + 1) {
        PStep::Done(m, (ups, lb, rt, ct)) => {
            if !char_at_exec(s, m, '}') {
                return PStep::Fail(m, ErrorKind::Char);
            }
            proof {
                reveal_strlit("");
                assert(""@ =~= Seq::<char>::empty());
            }
            let ok = match &lb {
                None => true,
                Some(p) => crate::text::string_eq_str(p, "round_robin") || crate::text::string_eq_str(
                    p,
                    "",
                ),
            };
            if ok {
                let h = Handler::Proxy(ProxyConfig::with_timeouts(balancer_of(ups), rt, ct));
                PStep::Done(m + 1, h)
            } else {
                PStep::Fail(m + 1, ErrorKind::Alt)
            }
        },
        PStep::Fail(p, e) => PStep::Fail(p, e),
        PStep::Abort => PStep::Abort,
    }
}

fn proxy_simple_at(s: &Vec<char>, k: usize) -> (r: PStep<Handler>)
    requires
        k <= s.len(),
    ensures
        agrees(r, spec_proxy_simple(s@, k as int), |x: Handler| x@),
        within(r, k as int, s.len() as int),
{
    match word_at(s, k) {
        PStep::Done(w, addr) => match Upstream::new(addr) {
            Ok(u) => PStep::Done(w, Handler::Proxy(ProxyConfig::new(LoadBalancer::NoBalancer(u)))),
            Err(_) => PStep::Fail(w, ErrorKind::Alt),
        },
        PStep::Fail(p, e) => PStep::Fail(p, e),
        PStep::Abort => PStep::Abort,
    }
}

fn proxy_handler_at(s: &Vec<char>, j: usize) -> (r: PStep<Handler>)
    requires
        j <= s.len(),
    ensures
        agrees(r, spec_proxy_handler(s@, j as int), |x: Handler| x@),
        within(r, j as int, s.len() as int),
{
    if !lit_at(s, j, "proxy") {
        return PStep::Fail(j, ErrorKind::Tag);
    }
    proof {
        reveal_strlit("proxy");
    }
    let k = ms0_exec(s, j + 5);
    match proxy_block_at(s, k) {
        PStep::Fail(_, _) => proxy_simple_at(s, k),
        r => r,
    }
}

fn keyword_value_at(s: &Vec<char>, j: usize, kw: &str) -> (r: PStep<String>)
    requires
        j <= s.len(),
    ensures
        agrees(r, spec_keyword_value(s@, j as int, kw@), |x: String| x@),
        within(r, j as int, s.len() as int),
{
    let k = to_chars(kw);
    if !tag_at(s, j, &k) {
        return PStep::Fail(j, ErrorKind::Tag);
    }
    value_at(s, j + k.len())
}

/// One handler at `i`.
pub fn handler_at(s: &Vec<char>, i: usize) -> (r: PStep<Handler>)
    requires
        i <= s.len(),
    ensures
        agrees(r, spec_handler(s@, i as int), |x: Handler| x@),
        within(r, i as int, s.len() as int),
{
    let j = ms0_exec(s, i);
    if let PStep::Done(k, v) = keyword_value_at(s, j, "file") {
        return PStep::Done(k, Handler::File(v));
    }
    if let PStep::Done(k, h) = proxy_handler_at(s, j) {
        return PStep::Done(k, h);
    }
    if let PStep::Done(k, v) = keyword_value_at(s, j, "dir") {
        return PStep::Done(k, Handler::Dir(v));
    }
    if let PStep::Done(k, v) = keyword_value_at(s, j, "browse") {
        return PStep::Done(k, Handler::Browse(v));
    }
    proof {
        reveal_strlit("respond");
        reveal_strlit("redirect");
    }
    if lit_at(s, j, "respond") {
        if let PStep::Done(k, (status, body)) = respond_args_at(s, j + 7) {
            return PStep::Done(k, Handler::Respond { status, body });
        }
    }
    if !lit_at(s, j, "redirect") {
        return PStep::Fail(j, ErrorKind::Tag);
    }
    match redirect_args_at(s, j + 8) {
        PStep::Done(k, (status_code, path)) => PStep::Done(k, Handler::Redirect { path, status_code }),
        PStep::Fail(p, e) => PStep::Fail(p, e),
        PStep::Abort => PStep::Abort,
    }
}


// ---------------------------------------------------------------------------
// Routes, virtual hosts, configuration
// ---------------------------------------------------------------------------

pub open spec fn contents2_view(x: (Handler, Vec<Middleware>)) -> (
    crate::types::HandlerV,
    Seq<crate::types::MiddlewareV>,
) {
    (x.0@, mws_view(x.1@))
}

/// The inside of a route block at `i`.
pub fn route_contents_at(s: &Vec<char>, i: usize) -> (r: PStep<(Handler, Vec<Middleware>)>)
    requires
        i <= s.len(),
    ensures
        agrees(r, spec_route_contents(s@, i as int), |x: (Handler, Vec<Middleware>)| contents2_view(x)),
        within(r, i as int, s.len() as int),
{
    let a = ms0_exec(s, i);
    let b = skip_comments_exec(s, a);
    match handler_at(s, b) {
        PStep::Done(c, h) => {
            let d = ms0_exec(s, c);
            match middlewares_at(s, d) {
                PStep::Done(e, ms) => PStep::Done(ms0_exec(s, e), (h, ms)),
                PStep::Fail(p, k) => PStep::Fail(p, k),
                PStep::Abort => PStep::Abort,
            }
        },
        PStep::Fail(p, k) => PStep::Fail(p, k),
        PStep::Abort => PStep::Abort,
    }
}

/// A route at `i`.
pub fn route_at(s: &Vec<char>, i: usize) -> (r: PStep<Route>)
    requires
        i <= s.len(),
    ensures
        agrees(r, spec_route(s@, i as int), |x: Route| x@),
        within(r, i as int, s.len() as int),
{
    let c = gap_exec(s, i);
    if !lit_at(s, c, "route") {
        return PStep::Fail(c, ErrorKind::Tag);
    }
    proof {
        reveal_strlit("route");
    }
    let d = c + 5;
    let e = span(s, d, CharClass::Space);
    if e == d {
        return PStep::Fail(d, ErrorKind::Space);
    }
    let f = span(s, e, CharClass::Word);
    if f == e {
        return PStep::Fail(e, ErrorKind::TakeWhile1);
    }
    let path = string_of(s, e, f);
    let g = ms0_exec(s, f);
    if !char_at_exec(s, g, '{') {
        return PStep::Fail(g, ErrorKind::Char);
    }
    match route_contents_at(s, g + 1) {
        PStep::Done(h, (handler, middlewares)) => {
            if !char_at_exec(s, h, '}') {
                return PStep::Fail(h, ErrorKind::Char);
            }
            let n = gap_exec(s, h + 1);
            PStep::Done(n, Route { path, handler, middlewares })
        },
        PStep::Fail(p, k) => PStep::Fail(p, k),
        PStep::Abort => PStep::Abort,
    }
}

pub open spec fn routes_v(v: Seq<Route>) -> Seq<crate::types::RouteV> {
    crate::types::routes_view(v)
}

/// Routes and comments from `i` until neither parses.
#[verifier::spinoff_prover]
#[verifier::rlimit(50)]
pub fn routes_at(s: &Vec<char>, i: usize) -> (r: PStep<Vec<Route>>)
    requires
        i <= s.len(),
    ensures
        agrees(r, spec_routes(s@, i as int), |x: Vec<Route>| routes_v(x@)),
        within(r, i as int, s.len() as int),
{
    let mut acc: Vec<Route> = Vec::new();
    let mut k = i;
    assert(routes_v(acc@) =~= Seq::<crate::types::RouteV>::empty());
    loop
        invariant
            i <= k <= s.len(),
            spec_routes(s@, i as int) == prepend(routes_v(acc@), spec_routes(s@, k as int)),
        decreases s.len() - k,
    {
        let ghost old_acc = acc@;
        let next: usize;
        match route_at(s, k) {
            PStep::Done(j, rt) => {
                if j <= k || j > s.len() {
                    return PStep::Fail(k, ErrorKind::Many0);
                }
                acc.push(rt);
                next = j;
            },
            PStep::Abort => {
                return PStep::Abort;
            },
            PStep::Fail(_, _) => match comment_at(s, k) {
                PStep::Done(j, _) => {
                    next = j;
                },
                _ => {
                    assert(routes_v(acc@) + Seq::<crate::types::RouteV>::empty() =~= routes_v(acc@));
                    return PStep::Done(k, acc);
                },
            },
        }
        if next <= k || next > s.len() {
            return PStep::Fail(k, ErrorKind::Many0);
        }
        proof {
            assert(routes_v(acc@) =~= routes_v(old_acc) + (if acc@.len() > old_acc.len() {
                seq![acc@.last()@]
            } else {
                Seq::empty()
            }));
            let g = spec_routes(s@, next as int);
            if let Step::Done(kk, rest) = g {
                assert(routes_v(old_acc) + (if acc@.len() > old_acc.len() {
                    seq![acc@.last()@] + rest
                } else {
                    rest
                }) =~= routes_v(acc@) + rest);
            }
        }
        k = next;
    }
}

/// A virtual host at `i`.
pub fn virtual_host_at(s: &Vec<char>, i: usize) -> (r: PStep<VirtualHost>)
    requires
        i <= s.len(),
    ensures
        agrees(r, spec_virtual_host(s@, i as int), |x: VirtualHost| x@),
        within(r, i as int, s.len() as int),
{
    let a = ms0_exec(s, i);
    let d = span(s, a, CharClass::Word);
    if d == a {
        return PStep::Fail(a, ErrorKind::TakeWhile1);
    }
    let domain = string_of(s, a, d);
    let k = ms0_exec(s, d);
    if !char_at_exec(s, k, '{') {
        return PStep::Fail(k, ErrorKind::Char);
    }
    match routes_at(s, k + 1) {
        PStep::Done(m, routes) => {
            if !char_at_exec(s, m, '}') {
                return PStep::Fail(m, ErrorKind::Char);
            }
            let p = skip_comments_exec(s, m + 1);
            PStep::Done(p, VirtualHost { domain, routes })
        },
        PStep::Fail(p, e) => PStep::Fail(p, e),
        PStep::Abort => PStep::Abort,
    }
}

pub open spec fn opt_host_view(x: Option<VirtualHost>) -> Option<crate::types::VirtualHostV> {
    match x {
        Some(h) => Some(h@),
        None => None,
    }
}

fn host_or_comment_at(s: &Vec<char>, i: usize) -> (r: PStep<Option<VirtualHost>>)
    requires
        i <= s.len(),
    ensures
        agrees(r, spec_host_or_comment(s@, i as int), |x: Option<VirtualHost>| opt_host_view(x)),
        within(r, i as int, s.len() as int),
{
    match virtual_host_at(s, i) {
        PStep::Done(j, h) => PStep::Done(j, Some(h)),
        PStep::Abort => PStep::Abort,
        PStep::Fail(_, _) => match comment_at(s, i) {
            PStep::Done(j, _) => PStep::Done(j, None),
            PStep::Fail(p, e) => PStep::Fail(p, e),
            PStep::Abort => PStep::Abort,
        },
    }
}

pub open spec fn hosts_v(v: Seq<VirtualHost>) -> Seq<crate::types::VirtualHostV> {
    crate::types::hosts_view(v)
}

/// Virtual hosts and comments from `k` until neither parses, after `acc`.
#[verifier::spinoff_prover]
#[verifier::rlimit(50)]
fn hosts_rest_at(s: &Vec<char>, k0: usize, acc0: Vec<VirtualHost>) -> (r: PStep<Vec<VirtualHost>>)
    requires
        k0 <= s.len(),
    ensures
        agrees(r, prepend(hosts_v(acc0@), spec_hosts_rest(s@, k0 as int)), |x: Vec<VirtualHost>| hosts_v(x@)),
        within(r, k0 as int, s.len() as int),
{
    let mut acc = acc0;
    let mut k = k0;
    loop
        invariant
            k0 <= k <= s.len(),
            prepend(hosts_v(acc0@), spec_hosts_rest(s@, k0 as int)) == prepend(hosts_v(acc@), spec_hosts_rest(s@, k as int)),
        decreases s.len() - k,
    {
        let ghost old_acc = acc@;
        match host_or_comment_at(s, k) {
            PStep::Fail(_, _) => {
                assert(hosts_v(acc@) + Seq::<crate::types::VirtualHostV>::empty() =~= hosts_v(acc@));
                return PStep::Done(k, acc);
            },
            PStep::Abort => {
                return PStep::Abort;
            },
            PStep::Done(j, item) => {
                if j <= k || j > s.len() {
                    return PStep::Fail(k, ErrorKind::Many1);
                }
                match item {
                    Some(h) => {
                        acc.push(h);
                    },
                    None => {},
                }
                proof {
                    assert(hosts_v(acc@) =~= hosts_v(old_acc) + (if acc@.len() > old_acc.len() {
                        seq![acc@.last()@]
                    } else {
                        Seq::empty()
                    }));
                    let g = spec_hosts_rest(s@, j as int);
                    if let Step::Done(kk, rest) = g {
                        assert(hosts_v(old_acc) + (if acc@.len() > old_acc.len() {
                            seq![acc@.last()@] + rest
                        } else {
                            rest
                        }) =~= hosts_v(acc@) + rest);
                    }
                }
                k = j;
            },
        }
    }
}

/// A configuration: one or more virtual hosts and comments.
pub fn config_at(s: &Vec<char>) -> (r: PStep<Config>)
    ensures
        agrees(r, spec_config(s@), |x: Config| x@),
        within(r, 0, s.len() as int),
{
    let mut acc: Vec<VirtualHost> = Vec::new();
    match host_or_comment_at(s, 0) {
        PStep::Fail(p, e) => PStep::Fail(p, e),
        PStep::Abort => PStep::Abort,
        PStep::Done(j, item) => {
            if j == 0 || j > s.len() {
                return PStep::Fail(0, ErrorKind::Many1);
            }
            let ghost item_v = opt_host_view(item);
            match item {
                Some(h) => {
                    acc.push(h);
                },
                None => {},
            }
            let ghost first = hosts_v(acc@);
            proof {
                match item_v {
                    Some(h) => assert(first =~= seq![h]),
                    None => assert(first =~= Seq::<crate::types::VirtualHostV>::empty()),
                }
            }
            match hosts_rest_at(s, j, acc) {
                PStep::Done(k, hs) => {
                    proof {
                        if let Step::Done(kk, rest) = spec_hosts_rest(s@, j as int) {
                            match item_v {
                                Some(h) => assert(seq![h] + rest =~= first + rest),
                                None => assert(rest =~= first + rest),
                            }
                        }
                    }
                    PStep::Done(k, Config { virtual_hosts: hs })
                },
                PStep::Fail(p, e) => PStep::Fail(p, e),
                PStep::Abort => PStep::Abort,
            }
        },
    }
}

} // verus!
