//! Turning a parse failure into the message shown to the user, and the
//! parsing entry point for whole configuration files.
use crate::config_file::ParseError;
use crate::diagnostics::{
    analyze_eof_context_chars, full_hint, spec_content_hint, spec_eof_hint, spec_full_hint,
    suggest_fix_for_content_chars,
};
use crate::grammar::{spec_config, ErrorKind, Step};
use crate::hints::{
    contains_words, copy_chars, ends_with_words, ends_with_words_exec, contains_words_exec,
    has_text, last_tokens, last_tokens_exec, lit, normalize_exec,
};
use crate::parser::{config_at, PStep};
use crate::text::{
    concat, contains, decimal, normalize_ws, push_decimal, slice_vec, span, span_end, string_of,
    string_of_all, to_chars, utf8_len, utf8_len_exec, views, CharClass,
};
use crate::types::Config;
use vstd::prelude::*;

verus! {

broadcast use vstd::string::group_string_axioms;

// ---------------------------------------------------------------------------
// Positions
// ---------------------------------------------------------------------------

/// Line and column (both from 1) after the characters `t`.
pub open spec fn line_col(t: Seq<char>) -> (nat, nat)
    decreases t.len(),
{
    if t.len() == 0 {
        (1, 1)
    } else {
        let (l, c) = line_col(t.drop_last());
        if t.last() == '\n' {
            (l + 1, 1)
        } else {
            (l, c + 1)
        }
    }
}

/// `" line L, column C"` for the first `min(n, len)` characters of `full`.
/// Callers pass a failure position counted in bytes; it is taken as a count
/// of characters, so on text outside ASCII the location can lie past the
/// failure.
pub open spec fn spec_location(full: Seq<char>, n: int) -> Seq<char> {
    let m = if n < full.len() {
        n
    } else {
        full.len() as int
    };
    let (l, c) = line_col(full.take(m));
    " line "@ + decimal(l) + ", column "@ + decimal(c)
}

pub(crate) fn location(full: &Vec<char>, n: u128) -> (r: Vec<char>)
    ensures
        r@ == spec_location(full@, n as int),
{
    let m: usize = if n < full.len() as u128 {
        n as usize
    } else {
        full.len()
    };
    let mut line: u128 = 1;
    let mut col: u128 = 1;
    let mut i: usize = 0;
    while i < m
        invariant
            i <= m <= full.len(),
            (line as nat, col as nat) == line_col(full@.take(i as int)),
            line <= i + 1,
            col <= i + 1,
        decreases m - i,
    {
        assert(full@.take(i + 1).drop_last() =~= full@.take(i as int));
        if full[i] == '\n' {
            line = line + 1;
            col = 1;
        } else {
            col = col + 1;
        }
        i = i + 1;
    }
    let mut r = lit(" line ");
    push_decimal(&mut r, line);
    let sep = lit(", column ");
    r = concat(&r, &sep);
    push_decimal(&mut r, col);
    r
}

/// The approximate line and column of a failure: `error_input` is the rest of
/// `full_input` from the failure on, and the failure is where the byte
/// lengths of the two differ.
pub fn find_error_location(full_input: &str, error_input: &str) -> (r: String)
    requires
        utf8_len(error_input@) <= utf8_len(full_input@),
    ensures
        r@ == spec_location(full_input@, utf8_len(full_input@) - utf8_len(error_input@)),
{
    let full = to_chars(full_input);
    let err = to_chars(error_input);
    let a = utf8_len_exec(&full, full.len());
    let b = utf8_len_exec(&err, err.len());
    proof {
        assert(full@.take(full@.len() as int) =~= full@);
        assert(err@.take(err@.len() as int) =~= err@);
    }
    string_of_all(&location(&full, a - b))
}

/// Up to the first 30 characters of `e`, stopping at a line break, with
/// `"..."` when that is shorter (in bytes) than `e`.
pub open spec fn spec_error_context(e: Seq<char>) -> Seq<char> {
    let nl = span_end(e, 0, CharClass::NotNewline);
    let k = if nl < 30 {
        nl
    } else {
        if e.len() < 30 {
            e.len() as int
        } else {
            30
        }
    };
    let ctx = e.take(k);
    if utf8_len(ctx) < utf8_len(e) {
        ctx + "..."@
    } else {
        ctx
    }
}

pub(crate) fn error_context(e: &Vec<char>) -> (r: Vec<char>)
    ensures
        r@ == spec_error_context(e@),
{
    let nl = span(e, 0, CharClass::NotNewline);
    let k = if nl < 30 {
        nl
    } else {
        if e.len() < 30 {
            e.len()
        } else {
            30
        }
    };
    let ctx = slice_vec(e, 0, k);
    assert(ctx@ =~= e@.take(k as int));
    if utf8_len_exec(&ctx, ctx.len()) < utf8_len_exec(e, e.len()) {
        proof {
            assert(ctx@.take(ctx@.len() as int) =~= ctx@);
            assert(e@.take(e@.len() as int) =~= e@);
        }
        let dots = lit("...");
        concat(&ctx, &dots)
    } else {
        proof {
            assert(ctx@.take(ctx@.len() as int) =~= ctx@);
            assert(e@.take(e@.len() as int) =~= e@);
        }
        ctx
    }
}

/// A short excerpt of the failing text for display.
pub fn get_error_context(error_input: &str) -> (r: String)
    ensures
        r@ == spec_error_context(error_input@),
{
    let e = to_chars(error_input);
    string_of_all(&error_context(&e))
}

/// The last 30 characters of the input, with `"..."` in front when there are
/// more.
pub open spec fn spec_snippet(s: Seq<char>) -> Seq<char> {
    if s.len() > 30 {
        "..."@ + s.skip(s.len() - 30)
    } else {
        s
    }
}

fn snippet(s: &Vec<char>) -> (r: Vec<char>)
    ensures
        r@ == spec_snippet(s@),
{
    if s.len() > 30 {
        let dots = lit("...");
        let tail = slice_vec(s, s.len() - 30, s.len());
        assert(tail@ =~= s@.skip(s.len() - 30));
        concat(&dots, &tail)
    } else {
        copy_chars(s)
    }
}

/// The end of the input, for display.
pub fn get_parsing_context_snippet(input: &str) -> (r: String)
    ensures
        r@ == spec_snippet(input@),
{
    let s = to_chars(input);
    string_of_all(&snippet(&s))
}

// ---------------------------------------------------------------------------
// Byte positions
// ---------------------------------------------------------------------------

/// The first `k >= from` whose prefix `s[..k]` is at least `b` bytes long
/// (or the length of `s`).
pub open spec fn char_index_from(s: Seq<char>, b: int, k: int) -> int
    decreases s.len() - k,
{
    if k < 0 || k >= s.len() || utf8_len(s.take(k)) >= b {
        k
    } else {
        char_index_from(s, b, k + 1)
    }
}

/// The number of characters of `s` that make up its first `b` bytes.
pub open spec fn char_index(s: Seq<char>, b: int) -> int {
    char_index_from(s, b, 0)
}

/// Byte position `b` of `s` falls between two characters.
pub open spec fn is_char_boundary(s: Seq<char>, b: int) -> bool {
    utf8_len(s.take(char_index(s, b))) == b
}

pub proof fn lemma_char_index_from(s: Seq<char>, b: int, k: int)
    requires
        0 <= k <= s.len(),
    ensures
        k <= char_index_from(s, b, k) <= s.len(),
    decreases s.len() - k,
{
    if k < s.len() && utf8_len(s.take(k)) < b {
        lemma_char_index_from(s, b, k + 1);
    }
}

/// The prefix of `full` before byte position `b`.
fn prefix_before_byte(full: &Vec<char>, b: u128) -> (r: Vec<char>)
    ensures
        r@ == full@.take(char_index(full@, b as int)),
{
    let mut k: usize = 0;
    let mut acc: u128 = 0;
    proof {
        lemma_char_index_from(full@, b as int, 0);
    }
    while k < full.len() && acc < b
        invariant
            k <= full.len(),
            acc == utf8_len(full@.take(k as int)),
            acc <= 4 * k,
            char_index_from(full@, b as int, k as int) == char_index(full@, b as int),
        decreases full.len() - k,
    {
        assert(full@.take(k + 1).drop_last() =~= full@.take(k as int));
        acc = acc + crate::text::len_utf8(full[k]);
        k = k + 1;
    }
    let r = slice_vec(full, 0, k);
    assert(r@ =~= full@.take(k as int));
    r
}

/// Suggests a fix for a failure, from the whole input and the text from the
/// failure on (`error_input`); the text before the failure is the part of
/// `full_input` before their difference in bytes.
pub fn suggest_fix_for_content_with_full_context(full_input: &str, error_input: &str) -> (r: String)
    requires
        utf8_len(error_input@) <= utf8_len(full_input@),
        is_char_boundary(full_input@, utf8_len(full_input@) - utf8_len(error_input@)),
    ensures
        r@ == spec_full_hint(
            full_input@,
            error_input@,
            full_input@.take(
                char_index(full_input@, utf8_len(full_input@) - utf8_len(error_input@)),
            ),
        ),
{
    let full = to_chars(full_input);
    let err = to_chars(error_input);
    let a = utf8_len_exec(&full, full.len());
    let b = utf8_len_exec(&err, err.len());
    proof {
        assert(full@.take(full@.len() as int) =~= full@);
        assert(err@.take(err@.len() as int) =~= err@);
    }
    let before = prefix_before_byte(&full, a - b);
    string_of_all(&full_hint(&full, &err, &before))
}

/// Suggests a fix from the failing text alone.
pub fn suggest_fix_for_content(error_input: &str) -> (r: String)
    ensures
        r@ == spec_content_hint(error_input@),
{
    let e = to_chars(error_input);
    string_of_all(&suggest_fix_for_content_chars(&e))
}

/// Suggests a fix when the input ended too early.
pub fn analyze_eof_context(full_input: &str) -> (r: String)
    ensures
        r@ == spec_eof_hint(full_input@),
{
    let f = to_chars(full_input);
    string_of_all(&analyze_eof_context_chars(&f))
}

/// The suggestion for a failure: from the whole input when nothing is left
/// after it, else from the context.
pub open spec fn spec_parsing_hint(full: Seq<char>, err: Seq<char>, before: Seq<char>) -> Seq<char> {
    if err.len() == 0 {
        spec_eof_hint(full)
    } else {
        spec_full_hint(full, err, before)
    }
}

/// Suggests a fix for a failure (see `suggest_fix_for_content_with_full_context`).
pub fn analyze_parsing_context(full_input: &str, error_input: &str) -> (r: String)
    requires
        error_input@.len() == 0 || (utf8_len(error_input@) <= utf8_len(full_input@)
            && is_char_boundary(full_input@, utf8_len(full_input@) - utf8_len(error_input@))),
    ensures
        r@ == spec_parsing_hint(
            full_input@,
            error_input@,
            full_input@.take(
                char_index(full_input@, utf8_len(full_input@) - utf8_len(error_input@)),
            ),
        ),
{
    if error_input.is_empty() {
        analyze_eof_context(full_input)
    } else {
        suggest_fix_for_content_with_full_context(full_input, error_input)
    }
}

// ---------------------------------------------------------------------------
// Word helpers on text
// ---------------------------------------------------------------------------

/// The words of `input` joined by single spaces.
pub fn normalize_whitespace(input: &str) -> (r: String)
    ensures
        r@ == normalize_ws(input@),
{
    let s = to_chars(input);
    string_of_all(&normalize_exec(&s))
}

/// The last `count` words of `input`.
pub fn extract_last_tokens(input: &str, count: usize) -> (r: Vec<String>)
    ensures
        r@.map_values(|w: String| w@) == last_tokens(input@, count as int),
{
    let s = to_chars(input);
    let ws = last_tokens_exec(&s, count);
    let mut r: Vec<String> = Vec::new();
    let mut i: usize = 0;
    while i < ws.len()
        invariant
            i <= ws.len(),
            r@.map_values(|w: String| w@) == views(ws@).take(i as int),
        decreases ws.len() - i,
    {
        let w = string_of_all(&ws[i]);
        let ghost old_r = r@;
        r.push(w);
        assert(r@.map_values(|w: String| w@) =~= old_r.map_values(|w: String| w@).push(ws@[i as int]@));
        i = i + 1;
        assert(views(ws@).take(i as int) =~= views(ws@).take(i - 1).push(ws@[i - 1]@));
    }
    assert(views(ws@).take(ws.len() as int) =~= views(ws@));
    r
}

pub open spec fn strs_view(p: Seq<&str>) -> Seq<Seq<char>> {
    p.map_values(|x: &str| x@)
}

fn pattern_chars(pattern: &[&str]) -> (r: Vec<Vec<char>>)
    ensures
        views(r@) == strs_view(pattern@),
{
    let mut r: Vec<Vec<char>> = Vec::new();
    let mut i: usize = 0;
    while i < pattern.len()
        invariant
            i <= pattern@.len(),
            views(r@) == strs_view(pattern@).take(i as int),
        decreases pattern@.len() - i,
    {
        let w = to_chars(pattern[i]);
        let ghost old_r = r@;
        r.push(w);
        assert(views(r@) =~= views(old_r).push(pattern@[i as int]@));
        i = i + 1;
        assert(strs_view(pattern@).take(i as int) =~= strs_view(pattern@).take(i - 1).push(
            pattern@[i - 1]@,
        ));
    }
    assert(strs_view(pattern@).take(pattern@.len() as int) =~= strs_view(pattern@));
    r
}

/// Whether `input` ends with the words of `pattern`.
pub fn ends_with_pattern(input: &str, pattern: &[&str]) -> (r: bool)
    ensures
        r == ends_with_words(input@, strs_view(pattern@)),
{
    let s = to_chars(input);
    let p = pattern_chars(pattern);
    ends_with_words_exec(&s, &p)
}

/// Whether `input`, normalized, contains the words of `pattern` in a row.
pub fn contains_pattern(input: &str, pattern: &[&str]) -> (r: bool)
    ensures
        r == contains_words(input@, strs_view(pattern@)),
{
    let s = to_chars(input);
    let p = pattern_chars(pattern);
    contains_words_exec(&s, &p)
}

// ---------------------------------------------------------------------------
// Failure messages
// ---------------------------------------------------------------------------

/// The message for a parse failure of `s` at character `p` of kind `kind`.
pub open spec fn spec_failure_message(s: Seq<char>, p: int, kind: ErrorKind) -> Seq<char> {
    let e = s.skip(p);
    let loc = spec_location(s, utf8_len(s.take(p)) as int);
    let ctx = spec_error_context(e);
    let sug = spec_parsing_hint(s, e, s.take(p));
    match kind {
        ErrorKind::Tag => if e.len() == 0 {
            if contains(sug, "Configuration file appears to be empty"@) {
                "Unexpected end of file. The configuration appears to be incomplete."@
            } else {
                "Failed to parse config file. Syntax error near"@ + loc + ": '"@ + spec_snippet(s)
                    + "'. "@ + sug
            }
        } else {
            "Syntax error near"@ + loc + ": '"@ + ctx + "'. "@ + sug
        },
        ErrorKind::Char => "Expected a specific character near"@ + loc + ": '"@ + ctx + "'. "@
            + sug,
        ErrorKind::Alt => "Invalid syntax near"@ + loc + ": '"@ + ctx + "'. "@ + sug,
        ErrorKind::Many1 => "Expected at least one virtual host definition in the configuration file."@,
        _ => "Parse error near"@ + loc + ": '"@ + ctx + "'. "@ + sug,
    }
}

fn join5(a: &str, b: &Vec<char>, c: &Vec<char>, d: &Vec<char>) -> (r: Vec<char>)
    ensures
        r@ == a@ + b@ + ": '"@ + c@ + "'. "@ + d@,
{
    let mut r = lit(a);
    r = concat(&r, b);
    r = concat(&r, &lit(": '"));
    r = concat(&r, c);
    r = concat(&r, &lit("'. "));
    concat(&r, d)
}

fn failure_message(s: &Vec<char>, p: usize, kind: ErrorKind) -> (r: Vec<char>)
    requires
        p <= s.len(),
    ensures
        r@ == spec_failure_message(s@, p as int, kind),
{
    let e = slice_vec(s, p, s.len());
    assert(e@ =~= s@.skip(p as int));
    let loc = location(s, utf8_len_exec(s, p));
    let ctx = error_context(&e);
    let before = slice_vec(s, 0, p);
    assert(before@ =~= s@.take(p as int));
    let sug = if e.len() == 0 {
        analyze_eof_context_chars(s)
    } else {
        full_hint(s, &e, &before)
    };
    match kind {
        ErrorKind::Tag => if e.len() == 0 {
            if has_text(&sug, "Configuration file appears to be empty") {
                lit("Unexpected end of file. The configuration appears to be incomplete.")
            } else {
                join5("Failed to parse config file. Syntax error near", &loc, &snippet(s), &sug)
            }
        } else {
            join5("Syntax error near", &loc, &ctx, &sug)
        },
        ErrorKind::Char => join5("Expected a specific character near", &loc, &ctx, &sug),
        ErrorKind::Alt => join5("Invalid syntax near", &loc, &ctx, &sug),
        ErrorKind::Many1 => lit(
            "Expected at least one virtual host definition in the configuration file.",
        ),
        _ => join5("Parse error near", &loc, &ctx, &sug),
    }
}

/// The user-facing message for a parse failure of `input`.
pub fn format_parse_error(input: &str, error: ParseError) -> (r: String)
    requires
        error.pos <= input@.len(),
    ensures
        r@ == spec_failure_message(input@, error.pos as int, error.kind),
{
    let s = to_chars(input);
    string_of_all(&failure_message(&s, error.pos, error.kind))
}

// ---------------------------------------------------------------------------
// Whole configurations
// ---------------------------------------------------------------------------

/// What parsing a configuration file yields: the rest of the input after the
/// last virtual host and the configuration, or the message for the failure.
/// `None` for input on which the server stops (a rate limit beyond `u32`).
pub open spec fn spec_parse_config(s: Seq<char>) -> Option<Result<(Seq<char>, crate::types::ConfigV), Seq<char>>> {
    match spec_config(s) {
        Step::Done(j, c) => Some(Ok((s.skip(j), c))),
        Step::Fail(p, k) => Some(Err(spec_failure_message(s, p, k))),
        Step::Abort => None,
    }
}

pub open spec fn config_result_view(r: Result<(String, Config), String>) -> Result<(Seq<char>, crate::types::ConfigV), Seq<char>> {
    match r {
        Ok((rest, c)) => Ok((rest@, c@)),
        Err(e) => Err(e@),
    }
}

/// Parses a configuration file: one or more virtual hosts, with comments.
/// Input on which the server stops (a rate limit beyond `u32`) is excluded.
pub fn parse_config(input: &str) -> (r: Result<(String, Config), String>)
    requires
        spec_parse_config(input@) is Some,
    ensures
        Some(config_result_view(r)) == spec_parse_config(input@),
{
    let s = to_chars(input);
    match config_at(&s) {
        PStep::Done(j, c) => Ok((string_of(&s, j, s.len()), c)),
        PStep::Fail(p, k) => {
            Err(string_of_all(&failure_message(&s, p, k)))
        },
        PStep::Abort => Err(String::new()),
    }
}

/// `parse_config`, or `None` on input where the server stops.
pub fn try_parse_config(input: &str) -> (r: Option<Result<(String, Config), String>>)
    ensures
        match r {
            Some(res) => Some(config_result_view(res)) == spec_parse_config(input@),
            None => spec_parse_config(input@) is None,
        },
{
    let s = to_chars(input);
    match config_at(&s) {
        PStep::Abort => None,
        _ => Some(parse_config(input)),
    }
}

} // verus!
