//! Word-level helpers and the fixed messages used to explain parse failures.
use crate::text::{
    concat, contains, contains_exec, ends_with, eq_chars, has_prefix, has_suffix, join_sp,
    join_words, normalize_ws, slice_vec, split_ws, starts_with, to_chars, views, words,
};
use vstd::prelude::*;

verus! {

broadcast use vstd::string::group_string_axioms;

/// Whether `c` has the Unicode `Alphabetic` property, as `char::is_alphabetic`
/// decides it.
pub uninterp spec fn unicode_alphabetic(c: char) -> bool;

/// `char::is_alphabetic` from std. The contract claims only that the answer
/// is a function of `c` (`unicode_alphabetic`); which characters are
/// alphabetic is not stated.
#[verifier::external_body]
pub(crate) fn is_alphabetic(c: char) -> (b: bool)
    ensures
        b == unicode_alphabetic(c),
{
    c.is_alphabetic()
}

/// Some character of `s` is alphabetic.
pub open spec fn any_alphabetic(s: Seq<char>) -> bool {
    exists|i: int| 0 <= i < s.len() && unicode_alphabetic(#[trigger] s[i])
}

pub fn any_alphabetic_exec(s: &Vec<char>) -> (b: bool)
    ensures
        b == any_alphabetic(s@),
{
    let mut i: usize = 0;
    while i < s.len()
        invariant
            i <= s.len(),
            forall|j: int| 0 <= j < i ==> !unicode_alphabetic(#[trigger] s@[j]),
        decreases s.len() - i,
    {
        if is_alphabetic(s[i]) {
            return true;
        }
        i = i + 1;
    }
    false
}

/// A copy of `v`.
pub fn copy_chars(v: &Vec<char>) -> (r: Vec<char>)
    ensures
        r@ == v@,
{
    let r = slice_vec(v, 0, v.len());
    assert(v@.subrange(0, v@.len() as int) =~= v@);
    r
}

/// Literal helpers on character vectors.
pub fn lit(t: &str) -> (v: Vec<char>)
    ensures
        v@ == t@,
{
    to_chars(t)
}

pub fn has_text(v: &Vec<char>, t: &str) -> (b: bool)
    ensures
        b == contains(v@, t@),
{
    contains_exec(v, &lit(t))
}

pub fn begins(v: &Vec<char>, t: &str) -> (b: bool)
    ensures
        b == has_prefix(v@, t@),
{
    starts_with(v, &lit(t))
}

pub fn finishes(v: &Vec<char>, t: &str) -> (b: bool)
    ensures
        b == has_suffix(v@, t@),
{
    ends_with(v, &lit(t))
}

pub fn is_lit(v: &Vec<char>, t: &str) -> (b: bool)
    ensures
        b == (v@ == t@),
{
    eq_chars(v, &lit(t))
}

// ---------------------------------------------------------------------------
// Tokens
// ---------------------------------------------------------------------------

/// The last `n` items of `ws` (all of them when there are fewer).
pub open spec fn tail_words(ws: Seq<Seq<char>>, n: int) -> Seq<Seq<char>> {
    if ws.len() <= n {
        ws
    } else {
        ws.skip(ws.len() - n)
    }
}

/// The last `n` words of `s` after its white space is normalized.
pub open spec fn last_tokens(s: Seq<char>, n: int) -> Seq<Seq<char>> {
    tail_words(words(normalize_ws(s)), n)
}

/// `s` ends with the words of `pat`.
pub open spec fn ends_with_words(s: Seq<char>, pat: Seq<Seq<char>>) -> bool {
    let lt = last_tokens(s, pat.len() as int);
    lt.len() >= pat.len() && lt == pat
}

/// The normalized `s` contains the words of `pat` joined by spaces.
pub open spec fn contains_words(s: Seq<char>, pat: Seq<Seq<char>>) -> bool {
    contains(normalize_ws(s), join_sp(pat))
}

pub fn normalize_exec(s: &Vec<char>) -> (r: Vec<char>)
    ensures
        r@ == normalize_ws(s@),
{
    let ws = split_ws(s);
    join_words(&ws)
}

pub fn tail_exec(ws: Vec<Vec<char>>, n: usize) -> (r: Vec<Vec<char>>)
    ensures
        views(r@) == tail_words(views(ws@), n as int),
{
    if ws.len() <= n {
        ws
    } else {
        let mut r: Vec<Vec<char>> = Vec::new();
        let mut i = ws.len() - n;
        let ghost start = i;
        while i < ws.len()
            invariant
                start == ws.len() - n,
                start <= i <= ws.len(),
                views(r@) == views(ws@).subrange(start as int, i as int),
            decreases ws.len() - i,
        {
            let ghost old_r = r@;
            let c = copy_chars(&ws[i]);
            r.push(c);
            assert(views(r@) =~= views(old_r).push(ws@[i as int]@));
            i = i + 1;
            assert(views(r@) =~= views(ws@).subrange(start as int, i as int));
        }
        assert(views(ws@).subrange(start as int, ws.len() as int) =~= views(ws@).skip(start as int));
        r
    }
}

pub fn last_tokens_exec(s: &Vec<char>, n: usize) -> (r: Vec<Vec<char>>)
    ensures
        views(r@) == last_tokens(s@, n as int),
{
    let norm = normalize_exec(s);
    let ws = split_ws(&norm);
    tail_exec(ws, n)
}

/// Whether two word lists are equal.
pub fn words_eq(a: &Vec<Vec<char>>, b: &Vec<Vec<char>>) -> (r: bool)
    ensures
        r == (views(a@) == views(b@)),
{
    if a.len() != b.len() {
        assert(views(a@).len() != views(b@).len());
        return false;
    }
    let mut i: usize = 0;
    while i < a.len()
        invariant
            a.len() == b.len(),
            i <= a.len(),
            forall|j: int| 0 <= j < i ==> views(a@)[j] == views(b@)[j],
        decreases a.len() - i,
    {
        if !eq_chars(&a[i], &b[i]) {
            assert(views(a@)[i as int] != views(b@)[i as int]);
            return false;
        }
        i = i + 1;
    }
    assert(views(a@) =~= views(b@));
    true
}

pub fn ends_with_words_exec(s: &Vec<char>, pat: &Vec<Vec<char>>) -> (r: bool)
    ensures
        r == ends_with_words(s@, views(pat@)),
{
    let lt = last_tokens_exec(s, pat.len());
    if lt.len() < pat.len() {
        return false;
    }
    words_eq(&lt, pat)
}

pub fn contains_words_exec(s: &Vec<char>, pat: &Vec<Vec<char>>) -> (r: bool)
    ensures
        r == contains_words(s@, views(pat@)),
{
    let n = normalize_exec(s);
    let j = join_words(pat);
    contains_exec(&n, &j)
}

pub fn pat1(a: &str) -> (r: Vec<Vec<char>>)
    ensures
        views(r@) == seq![a@],
{
    let mut r: Vec<Vec<char>> = Vec::new();
    r.push(lit(a));
    assert(views(r@) =~= seq![a@]);
    r
}

pub fn pat2(a: &str, b: &str) -> (r: Vec<Vec<char>>)
    ensures
        views(r@) == seq![a@, b@],
{
    let mut r: Vec<Vec<char>> = Vec::new();
    r.push(lit(a));
    r.push(lit(b));
    assert(views(r@) =~= seq![a@, b@]);
    r
}

/// `s` ends with the words `a`.
pub open spec fn ends1(s: Seq<char>, a: Seq<char>) -> bool {
    ends_with_words(s, seq![a])
}

/// `s` ends with the words `a b`.
pub open spec fn ends2(s: Seq<char>, a: Seq<char>, b: Seq<char>) -> bool {
    ends_with_words(s, seq![a, b])
}

pub fn ends1_exec(s: &Vec<char>, a: &str) -> (r: bool)
    ensures
        r == ends1(s@, a@),
{
    ends_with_words_exec(s, &pat1(a))
}

pub fn ends2_exec(s: &Vec<char>, a: &str, b: &str) -> (r: bool)
    ensures
        r == ends2(s@, a@, b@),
{
    ends_with_words_exec(s, &pat2(a, b))
}

pub fn contains1_exec(s: &Vec<char>, a: &str) -> (r: bool)
    ensures
        r == contains_words(s@, seq![a@]),
{
    contains_words_exec(s, &pat1(a))
}

pub fn contains2_exec(s: &Vec<char>, a: &str, b: &str) -> (r: bool)
    ensures
        r == contains_words(s@, seq![a@, b@]),
{
    contains_words_exec(s, &pat2(a, b))
}

/// The first word of `ws`, or nothing.
pub open spec fn first_word(ws: Seq<Seq<char>>) -> Seq<char> {
    if ws.len() > 0 {
        ws[0]
    } else {
        Seq::empty()
    }
}

/// The last word of `ws`, or nothing.
pub open spec fn last_word(ws: Seq<Seq<char>>) -> Seq<char> {
    if ws.len() > 0 {
        ws.last()
    } else {
        Seq::empty()
    }
}

pub fn first_word_exec(ws: &Vec<Vec<char>>) -> (r: Vec<char>)
    ensures
        r@ == first_word(views(ws@)),
{
    if ws.len() > 0 {
        copy_chars(&ws[0])
    } else {
        Vec::new()
    }
}

pub fn last_word_exec(ws: &Vec<Vec<char>>) -> (r: Vec<char>)
    ensures
        r@ == last_word(views(ws@)),
{
    if ws.len() > 0 {
        copy_chars(&ws[ws.len() - 1])
    } else {
        Vec::new()
    }
}

/// Whether `x` is one of the words of `ws`.
pub open spec fn has_word(ws: Seq<Seq<char>>, x: Seq<char>) -> bool {
    exists|i: int| 0 <= i < ws.len() && ws[i] == x
}

pub fn has_word_exec(ws: &Vec<Vec<char>>, x: &str) -> (r: bool)
    ensures
        r == has_word(views(ws@), x@),
{
    let xv = lit(x);
    let mut i: usize = 0;
    while i < ws.len()
        invariant
            i <= ws.len(),
            xv@ == x@,
            forall|j: int| 0 <= j < i ==> views(ws@)[j] != x@,
        decreases ws.len() - i,
    {
        if eq_chars(&ws[i], &xv) {
            assert(views(ws@)[i as int] == x@);
            return true;
        }
        i = i + 1;
    }
    false
}

// ---------------------------------------------------------------------------
// Messages
// ---------------------------------------------------------------------------

pub open spec fn msg_empty() -> Seq<char> {
    "Configuration file appears to be empty or contains only whitespace."@
}

pub open spec fn msg_file() -> Seq<char> {
    "File handler requires a file path. Example: 'file index.html'."@
}

pub open spec fn msg_proxy() -> Seq<char> {
    "Proxy handler requires a URL or configuration block. Example: 'proxy http://localhost:3000' or 'proxy { upstreams ... }'."@
}

pub open spec fn msg_respond() -> Seq<char> {
    "Respond handler requires status code and/or body. Example: 'respond 200' or 'respond \"Hello\" 200'."@
}

pub open spec fn msg_redirect() -> Seq<char> {
    "Redirect handler requires a target path. Example: 'redirect /new-path' or 'redirect /new-path 301'."@
}

pub open spec fn msg_dir() -> Seq<char> {
    "Directory handler requires a directory path. Example: 'dir /static'."@
}

pub open spec fn msg_browse() -> Seq<char> {
    "Browse handler requires a directory path. Example: 'browse /files'."@
}

pub open spec fn msg_rate() -> Seq<char> {
    "Rate limit middleware requires a number. Example: 'rate_limit 10'."@
}

pub open spec fn msg_cache() -> Seq<char> {
    "Cache middleware requires a duration. Example: 'cache 5m'."@
}

pub open spec fn msg_header() -> Seq<char> {
    "Header middleware requires operator and name. Example: 'header +Content-Type text/html'."@
}

pub open spec fn msg_auth() -> Seq<char> {
    "Auth middleware requires username and password. Example: 'auth admin password123'."@
}

pub open spec fn msg_proxy_block() -> Seq<char> {
    "Proxy blocks must contain 'upstreams' directive. Example: 'proxy { upstreams http://localhost:3000 }'."@
}

pub open spec fn msg_upstreams() -> Seq<char> {
    "Proxy upstreams require at least one URL. Example: 'upstreams http://localhost:3000'."@
}

pub open spec fn msg_route_def() -> Seq<char> {
    "Route definitions require a path and configuration block. Example: 'route /api { ... }'."@
}

pub open spec fn msg_domain() -> Seq<char> {
    "Domain definitions should be followed by a block enclosed in braces { }. Example: 'example.com { ... }'."@
}

pub open spec fn msg_braces() -> Seq<char> {
    "Missing closing braces. Each '{' must have a corresponding '}'."@
}

pub open spec fn msg_generic() -> Seq<char> {
    "Check the configuration syntax. Ensure proper structure: 'domain { route /path { handler [middleware...] } }'."@
}

pub open spec fn msg_route_block() -> Seq<char> {
    "Route definitions should be followed by a block enclosed in braces { }. Example: 'route /api { ... }'."@
}

pub open spec fn msg_route_level() -> Seq<char> {
    "Unknown handler or middleware 'route'. Route definitions must be at virtual host level."@
}

pub open spec fn msg_route_conf() -> Seq<char> {
    "Route definitions require a configuration block. Example: 'route /api { file index.html }'."@
}

pub open spec fn msg_route_start() -> Seq<char> {
    "Route block must start with a handler (file, proxy, respond, redirect, dir, browse) followed by optional middleware."@
}

pub open spec fn msg_route_inside() -> Seq<char> {
    "Route definitions must be inside a virtual host block."@
}

pub open spec fn msg_handler_inside() -> Seq<char> {
    "Handler definitions must be inside a route block within a virtual host."@
}

pub open spec fn msg_close_brace() -> Seq<char> {
    "Check for missing closing brace '}'."@
}

/// The message for an unknown handler or middleware `w`.
pub open spec fn msg_unknown(w: Seq<char>) -> Seq<char> {
    "Unknown handler or middleware '"@ + w
        + "'. Valid handlers: file, proxy, respond, redirect, dir, browse. Valid middleware: gzip, cors, log, rate_limit, auth, cache, header."@
}

pub fn unknown_exec(w: &Vec<char>) -> (r: Vec<char>)
    ensures
        r@ == msg_unknown(w@),
{
    let a = lit("Unknown handler or middleware '");
    let b = lit(
        "'. Valid handlers: file, proxy, respond, redirect, dir, browse. Valid middleware: gzip, cors, log, rate_limit, auth, cache, header.",
    );
    let ab = concat(&a, w);
    concat(&ab, &b)
}

} // verus!
