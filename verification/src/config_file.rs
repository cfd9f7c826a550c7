//! The parsing entry points on text: each reads a `&str` from its start and
//! yields the unconsumed rest with the parsed value, or where and why it
//! failed.
use crate::grammar::{
    spec_auth, spec_cache, spec_comment, spec_handler, spec_header, spec_literal_u16,
    spec_middleware, spec_rate_limit, spec_redirect_args, spec_respond_args, spec_route,
    spec_route_contents, spec_string_literal, spec_string_u16, spec_u16, spec_value,
    spec_virtual_host, ErrorKind, Step,
};
use crate::parser::{
    comment_at, handler_at, literal_u16_at, middleware_at, redirect_args_at, respond_args_at,
    route_at, route_contents_at, string_literal_at, string_u16_at, u16_at, virtual_host_at, PStep,
    args_view, contents2_view,
};
use crate::text::{string_of, to_chars};
use crate::types::{Handler, Middleware, Route, VirtualHost};

use vstd::prelude::*;

verus! {

/// Where (a character index into the input) and why parsing failed.
#[derive(Clone, Copy, PartialEq, Eq, Debug)]
pub struct ParseError {
    pub pos: usize,
    pub kind: ErrorKind,
}

/// The text result `r` of parsing `input` is the specified outcome `g`: on
/// success the rest of the input after the consumed part and the value (seen
/// through `f`); on failure the same position and kind.
pub open spec fn text_agrees<T, V>(
    input: Seq<char>,
    r: Result<(String, T), ParseError>,
    g: Step<V>,
    f: spec_fn(T) -> V,
) -> bool {
    match (r, g) {
        (Ok((rest, x)), Step::Done(j, y)) => rest@ == input.skip(j) && f(x) == y,
        (Err(e), Step::Fail(p, k)) => e.pos == p && e.kind == k,
        _ => false,
    }
}

fn finish<T>(s: &Vec<char>, r: PStep<T>) -> (out: Result<(String, T), ParseError>)
    requires
        !(r is Abort),
        r matches PStep::Done(j, _) ==> j <= s.len(),
    ensures
        match (r, out) {
            (PStep::Done(j, x), Ok((rest, y))) => rest@ == s@.skip(j as int) && y == x,
            (PStep::Fail(p, k), Err(e)) => e.pos == p && e.kind == k,
            _ => false,
        },
{
    match r {
        PStep::Done(j, x) => {
            let rest = string_of(s, j, s.len());
            Ok((rest, x))
        },
        PStep::Fail(p, k) => Err(ParseError { pos: p, kind: k }),
        PStep::Abort => Err(ParseError { pos: 0, kind: ErrorKind::Tag }),
    }
}

/// A comment: optional white space, `#`, and the rest of the line.
pub fn parse_comment(input: &str) -> (r: Result<(String, ()), ParseError>)
    ensures
        text_agrees(input@, r, spec_comment(input@, 0), |x: ()| x),
{
    let s = to_chars(input);
    finish(&s, comment_at(&s, 0))
}

/// Spaces or tabs, then a word.
pub fn parse_value(input: &str) -> (r: Result<(String, String), ParseError>)
    ensures
        text_agrees(input@, r, spec_value(input@, 0), |x: String| x@),
{
    let s = to_chars(input);
    let e = crate::text::span(&s, 0, crate::text::CharClass::Space);
    if e == 0 {
        return Err(ParseError { pos: 0, kind: ErrorKind::Space });
    }
    let w = crate::text::span(&s, e, crate::text::CharClass::NotWs);
    if w == e {
        return Err(ParseError { pos: e, kind: ErrorKind::TakeWhile1 });
    }
    Ok((string_of(&s, w, s.len()), string_of(&s, e, w)))
}

/// A double-quoted string.
pub fn string_literal(input: &str) -> (r: Result<(String, String), ParseError>)
    ensures
        text_agrees(input@, r, spec_string_literal(input@, 0), |x: String| x@),
{
    let s = to_chars(input);
    finish(&s, string_literal_at(&s, 0))
}

/// White space then a `u16` written in decimal.
pub fn parse_u16(input: &str) -> (r: Result<(String, u16), ParseError>)
    ensures
        text_agrees(input@, r, spec_u16(input@, 0), |x: u16| x),
{
    let s = to_chars(input);
    finish(&s, u16_at(&s, 0))
}

/// A string literal, spaces or tabs, and a `u16`.
pub fn parse_literal_u16(input: &str) -> (r: Result<(String, (String, u16)), ParseError>)
    ensures
        text_agrees(input@, r, spec_literal_u16(input@, 0), |x: (String, u16)| (x.0@, x.1)),
{
    let s = to_chars(input);
    finish(&s, literal_u16_at(&s, 0))
}

/// A word, spaces or tabs, and a `u16`.
pub fn parse_string_u16(input: &str) -> (r: Result<(String, (String, u16)), ParseError>)
    ensures
        text_agrees(input@, r, spec_string_u16(input@, 0), |x: (String, u16)| (x.0@, x.1)),
{
    let s = to_chars(input);
    finish(&s, string_u16_at(&s, 0))
}

/// The arguments of `respond`, as `(status, body)`.
pub fn parse_respond_handler_args(input: &str) -> (r: Result<
    (String, (Option<u16>, Option<String>)),
    ParseError,
>)
    ensures
        text_agrees(
            input@,
            r,
            spec_respond_args(input@, 0),
            |x: (Option<u16>, Option<String>)| args_view(x),
        ),
{
    let s = to_chars(input);
    finish(&s, respond_args_at(&s, 0))
}

/// The arguments of `redirect`, as `(status, path)`.
pub fn parse_redirect_handler_args(input: &str) -> (r: Result<
    (String, (Option<u16>, Option<String>)),
    ParseError,
>)
    ensures
        text_agrees(
            input@,
            r,
            spec_redirect_args(input@, 0),
            |x: (Option<u16>, Option<String>)| args_view(x),
        ),
{
    let s = to_chars(input);
    finish(&s, redirect_args_at(&s, 0))
}

/// A handler: `file`, `proxy`, `dir`, `browse`, `respond` or `redirect` with
/// its arguments.
pub fn parse_handler(input: &str) -> (r: Result<(String, Handler), ParseError>)
    ensures
        text_agrees(input@, r, spec_handler(input@, 0), |x: Handler| x@),
{
    let s = to_chars(input);
    finish(&s, handler_at(&s, 0))
}

/// `cache <duration>`.
pub fn parse_cache(input: &str) -> (r: Result<(String, Middleware), ParseError>)
    ensures
        text_agrees(input@, r, spec_cache(input@, 0), |x: Middleware| x@),
{
    let s = to_chars(input);
    finish(&s, middleware_cache(&s))
}

fn middleware_cache(s: &Vec<char>) -> (r: PStep<Middleware>)
    ensures
        crate::parser::agrees(r, spec_cache(s@, 0), |x: Middleware| x@),
        crate::parser::within(r, 0, s.len() as int),
{
    crate::parser::cache_at(s, 0)
}

/// `auth <username> <password>`.
pub fn parse_auth(input: &str) -> (r: Result<(String, Middleware), ParseError>)
    ensures
        text_agrees(input@, r, spec_auth(input@, 0), |x: Middleware| x@),
{
    let s = to_chars(input);
    finish(&s, crate::parser::auth_at(&s, 0))
}

/// `header <op><name> [value [replacement]]`.
pub fn parse_header(input: &str) -> (r: Result<(String, Middleware), ParseError>)
    ensures
        text_agrees(input@, r, spec_header(input@, 0), |x: Middleware| x@),
{
    let s = to_chars(input);
    finish(&s, crate::parser::header_at(&s, 0))
}

/// `rate_limit <n>`. The server stops on a limit that does not fit in `u32`;
/// such input is excluded.
pub fn parse_rate_limit(input: &str) -> (r: Result<(String, Middleware), ParseError>)
    requires
        !(spec_rate_limit(input@, 0) is Abort),
    ensures
        text_agrees(input@, r, spec_rate_limit(input@, 0), |x: Middleware| x@),
{
    let s = to_chars(input);
    finish(&s, crate::parser::rate_limit_at(&s, 0))
}

/// A middleware. The server stops on a rate limit that does not fit in
/// `u32`; such input is excluded.
pub fn parse_middleware(input: &str) -> (r: Result<(String, Middleware), ParseError>)
    requires
        !(spec_middleware(input@, 0) is Abort),
    ensures
        text_agrees(input@, r, spec_middleware(input@, 0), |x: Middleware| x@),
{
    let s = to_chars(input);
    finish(&s, middleware_at(&s, 0))
}

/// The inside of a route block: a handler then middleware, with comments.
/// Input on which the server stops (a rate limit beyond `u32`) is excluded.
pub fn parse_route_contents(input: &str) -> (r: Result<(String, (Handler, Vec<Middleware>)), ParseError>)
    requires
        !(spec_route_contents(input@, 0) is Abort),
    ensures
        text_agrees(
            input@,
            r,
            spec_route_contents(input@, 0),
            |x: (Handler, Vec<Middleware>)| contents2_view(x),
        ),
{
    let s = to_chars(input);
    finish(&s, route_contents_at(&s, 0))
}

/// `parse_route_contents`, or `None` on input where the server stops.
pub fn try_parse_route_contents(input: &str) -> (r: Option<
    Result<(String, (Handler, Vec<Middleware>)), ParseError>,
>)
    ensures
        r is None <==> spec_route_contents(input@, 0) is Abort,
        r matches Some(res) ==> text_agrees(
            input@,
            res,
            spec_route_contents(input@, 0),
            |x: (Handler, Vec<Middleware>)| contents2_view(x),
        ),
{
    let s = to_chars(input);
    match route_contents_at(&s, 0) {
        PStep::Abort => None,
        _ => Some(parse_route_contents(input)),
    }
}

pub open spec fn opt_route_view(x: Option<Route>) -> Option<crate::types::RouteV> {
    match x {
        Some(r) => Some(r@),
        None => None,
    }
}

/// `route <path> { ... }` with surrounding comments; the value is always
/// `Some`. Input on which the server stops (a rate limit beyond `u32`) is
/// excluded.
pub fn parse_route(input: &str) -> (r: Result<(String, Option<Route>), ParseError>)
    requires
        !(spec_route(input@, 0) is Abort),
    ensures
        text_agrees(input@, r, spec_route(input@, 0), |x: Option<Route>| opt_route_view(x).unwrap()),
        r matches Ok((_, x)) ==> x is Some,
{
    let s = to_chars(input);
    match route_at(&s, 0) {
        PStep::Done(j, x) => Ok((string_of(&s, j, s.len()), Some(x))),
        PStep::Fail(p, k) => Err(ParseError { pos: p, kind: k }),
        PStep::Abort => Err(ParseError { pos: 0, kind: ErrorKind::Tag }),
    }
}

/// `parse_route`, or `None` on input where the server stops.
pub fn try_parse_route(input: &str) -> (r: Option<Result<(String, Option<Route>), ParseError>>)
    ensures
        r is None <==> spec_route(input@, 0) is Abort,
        r matches Some(res) ==> text_agrees(
            input@,
            res,
            spec_route(input@, 0),
            |x: Option<Route>| opt_route_view(x).unwrap(),
        ),
{
    let s = to_chars(input);
    match route_at(&s, 0) {
        PStep::Abort => None,
        _ => Some(parse_route(input)),
    }
}

/// `<domain> { routes }` followed by comments. Input on which the server
/// stops (a rate limit beyond `u32`) is excluded.
pub fn parse_virtual_host(input: &str) -> (r: Result<(String, VirtualHost), ParseError>)
    requires
        !(spec_virtual_host(input@, 0) is Abort),
    ensures
        text_agrees(input@, r, spec_virtual_host(input@, 0), |x: VirtualHost| x@),
{
    let s = to_chars(input);
    finish(&s, virtual_host_at(&s, 0))
}

/// `parse_virtual_host`, or `None` on input where the server stops.
pub fn try_parse_virtual_host(input: &str) -> (r: Option<Result<(String, VirtualHost), ParseError>>)
    ensures
        r is None <==> spec_virtual_host(input@, 0) is Abort,
        r matches Some(res) ==> text_agrees(input@, res, spec_virtual_host(input@, 0), |x: VirtualHost| x@),
{
    let s = to_chars(input);
    match virtual_host_at(&s, 0) {
        PStep::Abort => None,
        _ => Some(parse_virtual_host(input)),
    }
}

} // verus!
