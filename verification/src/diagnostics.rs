//! Explanations of parse failures: where the failure is, what text is near
//! it, and a suggestion derived from what surrounds it.
use crate::hints::{
    any_alphabetic, any_alphabetic_exec, begins, contains1_exec, contains2_exec, contains_words,
    ends1, ends1_exec, ends2, ends2_exec, finishes, first_word, first_word_exec, has_text, has_word,
    has_word_exec, is_alphabetic, is_lit, last_tokens, last_tokens_exec, last_word, last_word_exec,
    lit, msg_auth, msg_braces, msg_browse, msg_cache, msg_close_brace, msg_dir, msg_domain,
    msg_empty, msg_file, msg_generic, msg_handler_inside, msg_header, msg_proxy, msg_rate,
    msg_proxy_block, msg_redirect, msg_respond, msg_route_block, msg_route_conf, msg_route_def,
    msg_route_inside, msg_route_level, msg_route_start, msg_unknown, msg_upstreams,
    unicode_alphabetic, unknown_exec,
};
use crate::text::{
    contains, count_char, count_char_exec, count_matches, has_char, has_char_exec, has_prefix,
    has_suffix, lemma_trim_idempotent, matches_from, normalize_ws, slice_vec, split_ws, trim,
    trim_exec, utf8_len, utf8_len_exec, views, words,
};
use vstd::prelude::*;

verus! {

broadcast use vstd::string::group_string_axioms;

/// What to suggest when the input ended before the parser was done, from the
/// trimmed input. A handler keyword is reported as incomplete when the input
/// ends right after it, or when it occurs after a `{` and its argument is
/// missing somewhere: for `file`, when fewer `file ` occurrences than
/// `{ file` occurrences are present.
pub open spec fn spec_eof_hint(full: Seq<char>) -> Seq<char> {
    let t = trim(full);
    if t.len() == 0 {
        msg_empty()
    } else if has_suffix(t, "{ file"@) || (contains(t, "{ file"@) && matches_from(t, "file "@, 0)
        < matches_from(t, "{ file"@, 0)) {
        msg_file()
    } else if has_suffix(t, "{ proxy"@) || (contains(t, "{ proxy"@) && !contains(t, "proxy "@)
        && !contains(t, "proxy {"@)) {
        msg_proxy()
    } else if has_suffix(t, "{ respond"@) || (contains(t, "{ respond"@) && !contains(
        t,
        "respond "@,
    )) {
        msg_respond()
    } else if has_suffix(t, "{ redirect"@) || (contains(t, "{ redirect"@) && !contains(
        t,
        "redirect "@,
    )) {
        msg_redirect()
    } else if has_suffix(t, "{ dir"@) || (contains(t, "{ dir"@) && !contains(t, "dir "@)) {
        msg_dir()
    } else if has_suffix(t, "{ browse"@) || (contains(t, "{ browse"@) && !contains(t, "browse "@)) {
        msg_browse()
    } else if has_suffix(t, "rate_limit"@) && !has_suffix(t, "rate_limit "@) {
        msg_rate()
    } else if has_suffix(t, "cache"@) && !has_suffix(t, "cache "@) {
        msg_cache()
    } else if has_suffix(t, "header"@) && !has_suffix(t, "header "@) {
        msg_header()
    } else if has_suffix(t, "auth"@) && !has_suffix(t, "auth "@) {
        msg_auth()
    } else if contains(t, "proxy {"@) && !contains(t, "upstreams"@) {
        msg_proxy_block()
    } else if has_suffix(t, "upstreams"@) && !has_suffix(t, "upstreams "@) {
        msg_upstreams()
    } else if has_suffix(t, "route"@) && !has_suffix(t, "route "@) {
        msg_route_def()
    } else if !has_char(t, '{') && any_alphabetic(t) {
        msg_domain()
    } else if count_char(t, '{') > count_char(t, '}') {
        msg_braces()
    } else {
        msg_generic()
    }
}

/// Analyzes the whole input when the failure is at its end.
pub fn analyze_eof_context_chars(full: &Vec<char>) -> (r: Vec<char>)
    ensures
        r@ == spec_eof_hint(full@),
{
    let t = trim_exec(full);
    if t.len() == 0 {
        return lit("Configuration file appears to be empty or contains only whitespace.");
    }
    if finishes(&t, "{ file") || (has_text(&t, "{ file") && count_matches(&t, &lit("file "))
        < count_matches(&t, &lit("{ file"))) {
        return lit("File handler requires a file path. Example: 'file index.html'.");
    }
    if finishes(&t, "{ proxy") || (has_text(&t, "{ proxy") && !has_text(&t, "proxy ") && !has_text(&t, "proxy {")) {
        return lit(
            "Proxy handler requires a URL or configuration block. Example: 'proxy http://localhost:3000' or 'proxy { upstreams ... }'.",
        );
    }
    if finishes(&t, "{ respond") || (has_text(&t, "{ respond") && !has_text(&t, "respond ")) {
        return lit(
            "Respond handler requires status code and/or body. Example: 'respond 200' or 'respond \"Hello\" 200'.",
        );
    }
    if finishes(&t, "{ redirect") || (has_text(&t, "{ redirect") && !has_text(&t, "redirect ")) {
        return lit(
            "Redirect handler requires a target path. Example: 'redirect /new-path' or 'redirect /new-path 301'.",
        );
    }
    if finishes(&t, "{ dir") || (has_text(&t, "{ dir") && !has_text(&t, "dir ")) {
        return lit("Directory handler requires a directory path. Example: 'dir /static'.");
    }
    if finishes(&t, "{ browse") || (has_text(&t, "{ browse") && !has_text(&t, "browse ")) {
        return lit("Browse handler requires a directory path. Example: 'browse /files'.");
    }
    if finishes(&t, "rate_limit") && !finishes(&t, "rate_limit ") {
        return lit("Rate limit middleware requires a number. Example: 'rate_limit 10'.");
    }
    if finishes(&t, "cache") && !finishes(&t, "cache ") {
        return lit("Cache middleware requires a duration. Example: 'cache 5m'.");
    }
    if finishes(&t, "header") && !finishes(&t, "header ") {
        return lit(
            "Header middleware requires operator and name. Example: 'header +Content-Type text/html'.",
        );
    }
    if finishes(&t, "auth") && !finishes(&t, "auth ") {
        return lit(
            "Auth middleware requires username and password. Example: 'auth admin password123'.",
        );
    }
    if has_text(&t, "proxy {") && !has_text(&t, "upstreams") {
        return lit(
            "Proxy blocks must contain 'upstreams' directive. Example: 'proxy { upstreams http://localhost:3000 }'.",
        );
    }
    if finishes(&t, "upstreams") && !finishes(&t, "upstreams ") {
        return lit(
            "Proxy upstreams require at least one URL. Example: 'upstreams http://localhost:3000'.",
        );
    }
    if finishes(&t, "route") && !finishes(&t, "route ") {
        return lit(
            "Route definitions require a path and configuration block. Example: 'route /api { ... }'.",
        );
    }
    if !has_char_exec(&t, '{') && any_alphabetic_exec(&t) {
        return lit(
            "Domain definitions should be followed by a block enclosed in braces { }. Example: 'example.com { ... }'.",
        );
    }
    if count_char_exec(&t, '{') > count_char_exec(&t, '}') {
        return lit("Missing closing braces. Each '{' must have a corresponding '}'.");
    }
    lit(
        "Check the configuration syntax. Ensure proper structure: 'domain { route /path { handler [middleware...] } }'.",
    )
}

/// The index of the last `c` in `t`, or -1.
pub open spec fn last_index(t: Seq<char>, c: char) -> int
    decreases t.len(),
{
    if t.len() == 0 {
        -1
    } else if t.last() == c {
        t.len() - 1
    } else {
        last_index(t.drop_last(), c)
    }
}

pub proof fn lemma_last_index(t: Seq<char>, c: char)
    ensures
        -1 <= last_index(t, c) < t.len(),
    decreases t.len(),
{
    if t.len() > 0 && t.last() != c {
        lemma_last_index(t.drop_last(), c);
    }
}

/// What follows the last `{` of `t` (all of `t` when there is none).
pub open spec fn after_last_brace(t: Seq<char>) -> Seq<char> {
    t.skip(last_index(t, '{') + 1)
}

pub fn after_last_brace_exec(t: &Vec<char>) -> (r: Vec<char>)
    ensures
        r@ == after_last_brace(t@),
{
    proof {
        lemma_last_index(t@, '{');
        assert(t@.take(t.len() as int) =~= t@);
    }
    let mut j = t.len();
    while j > 0 && t[j - 1] != '{'
        invariant
            j <= t.len(),
            last_index(t@.take(j as int), '{') == last_index(t@, '{'),
        decreases j,
    {
        assert(t@.take(j as int).drop_last() =~= t@.take(j - 1));
        j = j - 1;
    }
    proof {
        assert(t@.take(t.len() as int) =~= t@);
        if j > 0 {
            assert(t@.take(j as int).last() == '{');
        } else {
            assert(t@.take(0) =~= Seq::<char>::empty());
        }
    }
    slice_vec(t, j, t.len())
}

/// All characters are alphabetic or `_`.
pub open spec fn all_word_chars(w: Seq<char>) -> bool {
    forall|i: int| 0 <= i < w.len() ==> unicode_alphabetic(#[trigger] w[i]) || w[i] == '_'
}

pub fn all_word_chars_exec(w: &Vec<char>) -> (b: bool)
    ensures
        b == all_word_chars(w@),
{
    let mut i: usize = 0;
    while i < w.len()
        invariant
            i <= w.len(),
            forall|j: int| 0 <= j < i ==> unicode_alphabetic(#[trigger] w@[j]) || w@[j] == '_',
        decreases w.len() - i,
    {
        if !(is_alphabetic(w[i]) || w[i] == '_') {
            return false;
        }
        i = i + 1;
    }
    true
}

/// A handler or middleware keyword.
pub open spec fn is_directive(w: Seq<char>) -> bool {
    w == "file"@ || w == "proxy"@ || w == "respond"@ || w == "redirect"@ || w == "dir"@ || w
        == "browse"@ || w == "gzip"@ || w == "cors"@ || w == "log"@ || w == "rate_limit"@ || w
        == "auth"@ || w == "cache"@ || w == "header"@
}

pub fn is_directive_exec(w: &Vec<char>) -> (b: bool)
    ensures
        b == is_directive(w@),
{
    is_lit(w, "file") || is_lit(w, "proxy") || is_lit(w, "respond") || is_lit(w, "redirect")
        || is_lit(w, "dir") || is_lit(w, "browse") || is_lit(w, "gzip") || is_lit(w, "cors")
        || is_lit(w, "log") || is_lit(w, "rate_limit") || is_lit(w, "auth") || is_lit(w, "cache")
        || is_lit(w, "header")
}

/// The hint from what is inside an unclosed block, if any.
pub open spec fn spec_block_hint(t: Seq<char>) -> Option<Seq<char>> {
    let ib = after_last_brace(t);
    let ibt = trim(ib);
    let ws = words(ib);
    let fw = first_word(ws);
    if ibt == "file"@ {
        Some(msg_file())
    } else if ibt == "proxy"@ {
        Some(msg_proxy())
    } else if ibt == "respond"@ {
        Some(msg_respond())
    } else if ibt == "redirect"@ {
        Some(msg_redirect())
    } else if ibt == "dir"@ {
        Some(msg_dir())
    } else if ibt == "browse"@ {
        Some(msg_browse())
    } else if ws.len() > 0 && !is_directive(fw) && utf8_len(fw) > 2 && all_word_chars(fw) {
        Some(msg_unknown(fw))
    } else if contains(ib, "rate_limit"@) && has_suffix(ibt, "rate_limit"@) {
        Some(msg_rate())
    } else if contains(ib, "auth"@) && ws.len() < 3 {
        Some(msg_auth())
    } else if contains(ib, "cache"@) && has_suffix(ibt, "cache"@) {
        Some(msg_cache())
    } else if contains(ib, "header"@) && has_suffix(ibt, "header"@) {
        Some(msg_header())
    } else if ws.len() > 0 && fw.len() > 0 && !has_prefix(fw, "#"@) {
        Some(msg_route_start())
    } else {
        None
    }
}

fn block_hint_exec(t: &Vec<char>) -> (r: Option<Vec<char>>)
    ensures
        match (r, spec_block_hint(t@)) {
            (Some(m), Some(sm)) => m@ == sm,
            (None, None) => true,
            _ => false,
        },
{
    let ib = after_last_brace_exec(t);
    let ibt = trim_exec(&ib);
    let ws = split_ws(&ib);
    let fw = first_word_exec(&ws);
    if is_lit(&ibt, "file") {
        return Some(lit("File handler requires a file path. Example: 'file index.html'."));
    }
    if is_lit(&ibt, "proxy") {
        return Some(
            lit(
                "Proxy handler requires a URL or configuration block. Example: 'proxy http://localhost:3000' or 'proxy { upstreams ... }'.",
            ),
        );
    }
    if is_lit(&ibt, "respond") {
        return Some(
            lit(
                "Respond handler requires status code and/or body. Example: 'respond 200' or 'respond \"Hello\" 200'.",
            ),
        );
    }
    if is_lit(&ibt, "redirect") {
        return Some(
            lit(
                "Redirect handler requires a target path. Example: 'redirect /new-path' or 'redirect /new-path 301'.",
            ),
        );
    }
    if is_lit(&ibt, "dir") {
        return Some(lit("Directory handler requires a directory path. Example: 'dir /static'."));
    }
    if is_lit(&ibt, "browse") {
        return Some(lit("Browse handler requires a directory path. Example: 'browse /files'."));
    }
    if ws.len() > 0 && !is_directive_exec(&fw) && utf8_len_exec(&fw, fw.len()) > 2
        && all_word_chars_exec(&fw) {
        proof {
            assert(fw@.take(fw@.len() as int) =~= fw@);
        }
        return Some(unknown_exec(&fw));
    }
    proof {
        assert(fw@.take(fw@.len() as int) =~= fw@);
    }
    if has_text(&ib, "rate_limit") && finishes(&ibt, "rate_limit") {
        return Some(lit("Rate limit middleware requires a number. Example: 'rate_limit 10'."));
    }
    if has_text(&ib, "auth") && ws.len() < 3 {
        return Some(
            lit(
                "Auth middleware requires username and password. Example: 'auth admin password123'.",
            ),
        );
    }
    if has_text(&ib, "cache") && finishes(&ibt, "cache") {
        return Some(lit("Cache middleware requires a duration. Example: 'cache 5m'."));
    }
    if has_text(&ib, "header") && finishes(&ibt, "header") {
        return Some(
            lit(
                "Header middleware requires operator and name. Example: 'header +Content-Type text/html'.",
            ),
        );
    }
    if ws.len() > 0 && fw.len() > 0 && !begins(&fw, "#") {
        return Some(
            lit(
                "Route block must start with a handler (file, proxy, respond, redirect, dir, browse) followed by optional middleware.",
            ),
        );
    }
    None
}

/// The suggestion for the text where parsing failed, from that text alone.
pub open spec fn spec_content_hint(e: Seq<char>) -> Seq<char> {
    let t = trim(e);
    if t.len() == 0 {
        msg_empty()
    } else if contains(t, "route"@) && has_prefix(t, "route"@) && !has_char(t, '{') {
        msg_route_block()
    } else if contains(t, "route"@) && !has_char(t, '{') {
        msg_route_conf()
    } else if has_char(t, '{') && !has_char(t, '}') && !has_prefix(t, "{"@) && spec_block_hint(
        t,
    ) is Some {
        spec_block_hint(t).unwrap()
    } else if contains(t, "proxy"@) && contains(t, "upstreams"@) && has_suffix(t, "upstreams"@) {
        msg_upstreams()
    } else if contains(t, "proxy"@) && contains(t, "proxy {"@) && !contains(t, "upstreams"@) {
        msg_proxy_block()
    } else if !has_char(t, '{') && !has_char(t, '}') && any_alphabetic(t) && !has_char(t, ' ') {
        msg_domain()
    } else if !has_char(t, '{') && !has_char(t, '}') && contains(t, "route"@) {
        msg_route_inside()
    } else if !has_char(t, '{') && !has_char(t, '}') && (has_prefix(t, "proxy"@) || has_prefix(
        t,
        "file"@,
    ) || has_prefix(t, "respond"@)) {
        msg_handler_inside()
    } else if has_prefix(t, "{"@) && !has_char(t, '}') {
        msg_close_brace()
    } else if count_char(t, '{') > count_char(t, '}') {
        msg_braces()
    } else {
        msg_generic()
    }
}

/// The suggestion for the failing text depends only on that text with its
/// leading and trailing white space removed.
pub proof fn lemma_content_hint_trimmed(e: Seq<char>)
    ensures
        spec_content_hint(trim(e)) == spec_content_hint(e),
{
    lemma_trim_idempotent(e);
}

/// The suggestion for an input that ended too early depends only on that
/// input with its leading and trailing white space removed.
pub proof fn lemma_eof_hint_trimmed(full: Seq<char>)
    ensures
        spec_eof_hint(trim(full)) == spec_eof_hint(full),
{
    lemma_trim_idempotent(full);
}

/// The suggestion for the text where parsing failed, from that text alone.
pub fn suggest_fix_for_content_chars(e: &Vec<char>) -> (r: Vec<char>)
    ensures
        r@ == spec_content_hint(e@),
{
    let t = trim_exec(e);
    if t.len() == 0 {
        return lit("Configuration file appears to be empty or contains only whitespace.");
    }
    if has_text(&t, "route") {
        if begins(&t, "route") && !has_char_exec(&t, '{') {
            return lit(
                "Route definitions should be followed by a block enclosed in braces { }. Example: 'route /api { ... }'.",
            );
        }
        if !has_char_exec(&t, '{') {
            return lit(
                "Route definitions require a configuration block. Example: 'route /api { file index.html }'.",
            );
        }
    }
    if has_char_exec(&t, '{') && !has_char_exec(&t, '}') && !begins(&t, "{") {
        if let Some(m) = block_hint_exec(&t) {
            return m;
        }
    }
    if has_text(&t, "proxy") {
        if has_text(&t, "upstreams") && finishes(&t, "upstreams") {
            return lit(
                "Proxy upstreams require at least one URL. Example: 'upstreams http://localhost:3000'.",
            );
        }
        if has_text(&t, "proxy {") && !has_text(&t, "upstreams") {
            return lit(
                "Proxy blocks must contain 'upstreams' directive. Example: 'proxy { upstreams http://localhost:3000 }'.",
            );
        }
    }
    if !has_char_exec(&t, '{') && !has_char_exec(&t, '}') {
        if any_alphabetic_exec(&t) && !has_char_exec(&t, ' ') {
            return lit(
                "Domain definitions should be followed by a block enclosed in braces { }. Example: 'example.com { ... }'.",
            );
        }
        if has_text(&t, "route") {
            return lit("Route definitions must be inside a virtual host block.");
        }
        if begins(&t, "proxy") || begins(&t, "file") || begins(&t, "respond") {
            return lit("Handler definitions must be inside a route block within a virtual host.");
        }
    }
    if begins(&t, "{") && !has_char_exec(&t, '}') {
        return lit("Check for missing closing brace '}'.");
    }
    if count_char_exec(&t, '{') > count_char_exec(&t, '}') {
        return lit("Missing closing braces. Each '{' must have a corresponding '}'.");
    }
    lit(
        "Check the configuration syntax. Ensure proper structure: 'domain { route /path { handler [middleware...] } }'.",
    )
}


// ---------------------------------------------------------------------------
// Suggestions from the whole input and the failing text
// ---------------------------------------------------------------------------

pub open spec fn opt_chars(r: Option<Vec<char>>) -> Option<Seq<char>> {
    match r {
        Some(v) => Some(v@),
        None => None,
    }
}

/// When nothing of the input was parsed: hints from how the trimmed input ends.
pub open spec fn spec_hint_unparsed(ft: Seq<char>) -> Option<Seq<char>> {
    let lt = last_word(last_tokens(ft, 3));
    let tokens = last_tokens(ft, 3);
    if ends2(ft, "{"@, "file"@) {
        Some(msg_file())
    } else if ends2(ft, "{"@, "proxy"@) {
        Some(msg_proxy())
    } else if ends2(ft, "{"@, "respond"@) {
        Some(msg_respond())
    } else if ends2(ft, "{"@, "redirect"@) {
        Some(msg_redirect())
    } else if ends2(ft, "{"@, "dir"@) {
        Some(msg_dir())
    } else if ends2(ft, "{"@, "browse"@) {
        Some(msg_browse())
    } else if lt == "rate_limit"@ {
        Some(msg_rate())
    } else if lt == "cache"@ {
        Some(msg_cache())
    } else if lt == "header"@ {
        Some(msg_header())
    } else if lt == "auth"@ {
        Some(msg_auth())
    } else if contains_words(ft, seq!["proxy"@, "{"@]) && !contains_words(ft, seq!["upstreams"@]) {
        Some(msg_proxy_block())
    } else if ends1(ft, "upstreams"@) {
        Some(msg_upstreams())
    } else if ends1(ft, "route"@) {
        Some(msg_route_def())
    } else if tokens.len() > 0 && !contains_words(ft, seq!["{"@]) && any_alphabetic(tokens[0]) {
        Some(msg_domain())
    } else {
        None
    }
}

fn hint_unparsed(ft: &Vec<char>) -> (r: Option<Vec<char>>)
    ensures
        opt_chars(r) == spec_hint_unparsed(ft@),
{
    let tokens = last_tokens_exec(ft, 3);
    let lt = last_word_exec(&tokens);
    if ends2_exec(ft, "{", "file") {
        return Some(lit("File handler requires a file path. Example: 'file index.html'."));
    }
    if ends2_exec(ft, "{", "proxy") {
        return Some(
            lit(
                "Proxy handler requires a URL or configuration block. Example: 'proxy http://localhost:3000' or 'proxy { upstreams ... }'.",
            ),
        );
    }
    if ends2_exec(ft, "{", "respond") {
        return Some(
            lit(
                "Respond handler requires status code and/or body. Example: 'respond 200' or 'respond \"Hello\" 200'.",
            ),
        );
    }
    if ends2_exec(ft, "{", "redirect") {
        return Some(
            lit(
                "Redirect handler requires a target path. Example: 'redirect /new-path' or 'redirect /new-path 301'.",
            ),
        );
    }
    if ends2_exec(ft, "{", "dir") {
        return Some(lit("Directory handler requires a directory path. Example: 'dir /static'."));
    }
    if ends2_exec(ft, "{", "browse") {
        return Some(lit("Browse handler requires a directory path. Example: 'browse /files'."));
    }
    if is_lit(&lt, "rate_limit") {
        return Some(lit("Rate limit middleware requires a number. Example: 'rate_limit 10'."));
    }
    if is_lit(&lt, "cache") {
        return Some(lit("Cache middleware requires a duration. Example: 'cache 5m'."));
    }
    if is_lit(&lt, "header") {
        return Some(
            lit(
                "Header middleware requires operator and name. Example: 'header +Content-Type text/html'.",
            ),
        );
    }
    if is_lit(&lt, "auth") {
        return Some(
            lit(
                "Auth middleware requires username and password. Example: 'auth admin password123'.",
            ),
        );
    }
    if contains2_exec(ft, "proxy", "{") && !contains1_exec(ft, "upstreams") {
        return Some(
            lit(
                "Proxy blocks must contain 'upstreams' directive. Example: 'proxy { upstreams http://localhost:3000 }'.",
            ),
        );
    }
    if ends1_exec(ft, "upstreams") {
        return Some(
            lit(
                "Proxy upstreams require at least one URL. Example: 'upstreams http://localhost:3000'.",
            ),
        );
    }
    if ends1_exec(ft, "route") {
        return Some(
            lit(
                "Route definitions require a path and configuration block. Example: 'route /api { ... }'.",
            ),
        );
    }
    if tokens.len() > 0 && !contains1_exec(ft, "{") && any_alphabetic_exec(&tokens[0]) {
        return Some(
            lit(
                "Domain definitions should be followed by a block enclosed in braces { }. Example: 'example.com { ... }'.",
            ),
        );
    }
    None
}

/// Hints from the last ten words of the trimmed input.
pub open spec fn spec_scan_tokens(l: Seq<Seq<char>>, i: int) -> Option<Seq<char>>
    decreases l.len() - i,
{
    if i < 0 || i >= l.len() {
        None
    } else if l[i] == "rate_limit"@ && (i + 1 >= l.len() || !crate::text::all_digits(l[i + 1])) {
        Some(msg_rate())
    } else if l[i] == "cache"@ && (i + 1 >= l.len() || (!has_char(l[i + 1], 'm') && !has_char(
        l[i + 1],
        's',
    ))) {
        Some(msg_cache())
    } else if l[i] == "header"@ && i + 2 >= l.len() {
        Some(msg_header())
    } else if l[i] == "auth"@ && i + 2 >= l.len() {
        Some(msg_auth())
    } else {
        spec_scan_tokens(l, i + 1)
    }
}

fn all_ascii_digits(w: &Vec<char>) -> (b: bool)
    ensures
        b == crate::text::all_digits(w@),
{
    let mut i: usize = 0;
    while i < w.len()
        invariant
            i <= w.len(),
            forall|j: int| 0 <= j < i ==> crate::text::is_digit(#[trigger] w@[j]),
        decreases w.len() - i,
    {
        if !('0' <= w[i] && w[i] <= '9') {
            assert(!crate::text::is_digit(w@[i as int]));
            return false;
        }
        i = i + 1;
    }
    true
}

fn scan_tokens(l: &Vec<Vec<char>>) -> (r: Option<Vec<char>>)
    ensures
        opt_chars(r) == spec_scan_tokens(views(l@), 0),
{
    let mut i: usize = 0;
    while i < l.len()
        invariant
            i <= l.len(),
            spec_scan_tokens(views(l@), i as int) == spec_scan_tokens(views(l@), 0),
        decreases l.len() - i,
    {
        let n = l.len();
        if is_lit(&l[i], "rate_limit") && (i + 1 >= n || !all_ascii_digits(&l[i + 1])) {
            return Some(lit("Rate limit middleware requires a number. Example: 'rate_limit 10'."));
        }
        if is_lit(&l[i], "cache") && (i + 1 >= n || (!has_char_exec(&l[i + 1], 'm')
            && !has_char_exec(&l[i + 1], 's'))) {
            return Some(lit("Cache middleware requires a duration. Example: 'cache 5m'."));
        }
        if is_lit(&l[i], "header") && i + 1 >= n - 1 {
            return Some(
                lit(
                    "Header middleware requires operator and name. Example: 'header +Content-Type text/html'.",
                ),
            );
        }
        if is_lit(&l[i], "auth") && i + 1 >= n - 1 {
            return Some(
                lit(
                    "Auth middleware requires username and password. Example: 'auth admin password123'.",
                ),
            );
        }
        i = i + 1;
    }
    None
}

/// Hints from anywhere in the trimmed input once it has a block.
pub open spec fn spec_hint_anywhere(ft: Seq<char>) -> Option<Seq<char>> {
    let ni = normalize_ws(ft);
    if !contains_words(ft, seq!["{"@]) {
        None
    } else if (ends1(ft, "proxy"@) || contains_words(ft, seq!["proxy"@])) && contains(ni, "proxy"@)
        && !contains(ni, "proxy http"@) && !contains(ni, "upstreams"@) {
        Some(msg_proxy())
    } else {
        spec_scan_tokens(last_tokens(ft, 10), 0)
    }
}

fn hint_anywhere(ft: &Vec<char>) -> (r: Option<Vec<char>>)
    ensures
        opt_chars(r) == spec_hint_anywhere(ft@),
{
    if !contains1_exec(ft, "{") {
        return None;
    }
    let ni = crate::hints::normalize_exec(ft);
    if (ends1_exec(ft, "proxy") || contains1_exec(ft, "proxy")) && has_text(&ni, "proxy")
        && !has_text(&ni, "proxy http") && !has_text(&ni, "upstreams") {
        return Some(
            lit(
                "Proxy handler requires a URL or configuration block. Example: 'proxy http://localhost:3000' or 'proxy { upstreams ... }'.",
            ),
        );
    }
    let l = last_tokens_exec(ft, 10);
    scan_tokens(&l)
}

/// Hints from the directive the failing text starts with.
pub open spec fn spec_hint_started(err: Seq<char>, ft: Seq<char>) -> Option<Seq<char>> {
    if has_prefix(err, "file"@) && ends2(ft, "{"@, "file"@) {
        Some(msg_file())
    } else if has_prefix(err, "proxy"@) && ends2(ft, "{"@, "proxy"@) && !contains_words(
        ft,
        seq!["proxy"@, "{"@],
    ) {
        Some(msg_proxy())
    } else if has_prefix(err, "respond"@) && ends2(ft, "{"@, "respond"@) {
        Some(msg_respond())
    } else if has_prefix(err, "redirect"@) && ends2(ft, "{"@, "redirect"@) {
        Some(msg_redirect())
    } else if has_prefix(err, "dir"@) && ends2(ft, "{"@, "dir"@) {
        Some(msg_dir())
    } else if has_prefix(err, "browse"@) && ends2(ft, "{"@, "browse"@) {
        Some(msg_browse())
    } else if has_prefix(err, "rate_limit"@) && ends1(ft, "rate_limit"@) {
        Some(msg_rate())
    } else if has_prefix(err, "cache"@) && ends1(ft, "cache"@) {
        Some(msg_cache())
    } else if has_prefix(err, "header"@) && ends1(ft, "header"@) {
        Some(msg_header())
    } else if has_prefix(err, "auth"@) && ends1(ft, "auth"@) {
        Some(msg_auth())
    } else {
        None
    }
}

fn hint_started(err: &Vec<char>, ft: &Vec<char>) -> (r: Option<Vec<char>>)
    ensures
        opt_chars(r) == spec_hint_started(err@, ft@),
{
    if begins(err, "file") && ends2_exec(ft, "{", "file") {
        return Some(lit("File handler requires a file path. Example: 'file index.html'."));
    }
    if begins(err, "proxy") && ends2_exec(ft, "{", "proxy") && !contains2_exec(ft, "proxy", "{") {
        return Some(
            lit(
                "Proxy handler requires a URL or configuration block. Example: 'proxy http://localhost:3000' or 'proxy { upstreams ... }'.",
            ),
        );
    }
    if begins(err, "respond") && ends2_exec(ft, "{", "respond") {
        return Some(
            lit(
                "Respond handler requires status code and/or body. Example: 'respond 200' or 'respond \"Hello\" 200'.",
            ),
        );
    }
    if begins(err, "redirect") && ends2_exec(ft, "{", "redirect") {
        return Some(
            lit(
                "Redirect handler requires a target path. Example: 'redirect /new-path' or 'redirect /new-path 301'.",
            ),
        );
    }
    if begins(err, "dir") && ends2_exec(ft, "{", "dir") {
        return Some(lit("Directory handler requires a directory path. Example: 'dir /static'."));
    }
    if begins(err, "browse") && ends2_exec(ft, "{", "browse") {
        return Some(lit("Browse handler requires a directory path. Example: 'browse /files'."));
    }
    if begins(err, "rate_limit") && ends1_exec(ft, "rate_limit") {
        return Some(lit("Rate limit middleware requires a number. Example: 'rate_limit 10'."));
    }
    if begins(err, "cache") && ends1_exec(ft, "cache") {
        return Some(lit("Cache middleware requires a duration. Example: 'cache 5m'."));
    }
    if begins(err, "header") && ends1_exec(ft, "header") {
        return Some(
            lit(
                "Header middleware requires operator and name. Example: 'header +Content-Type text/html'.",
            ),
        );
    }
    if begins(err, "auth") && ends1_exec(ft, "auth") {
        return Some(
            lit(
                "Auth middleware requires username and password. Example: 'auth admin password123'.",
            ),
        );
    }
    None
}

/// Hints from the text before the failure.
pub open spec fn spec_hint_before(before: Seq<char>, te: Seq<char>) -> Option<Seq<char>> {
    if contains(before, "route "@) && contains(before, "{ file"@) && !contains(before, "file "@) {
        Some(msg_file())
    } else if contains(before, "route "@) && contains(before, "{ proxy"@) && te == "proxy"@ {
        Some(msg_proxy())
    } else if contains(before, "route "@) && contains(before, "{ respond"@) && !contains(
        before,
        "respond "@,
    ) {
        Some(msg_respond())
    } else if contains(before, "route "@) && contains(before, "{ redirect"@) && !contains(
        before,
        "redirect "@,
    ) {
        Some(msg_redirect())
    } else if contains(before, "route "@) && contains(before, "{ dir"@) && !contains(
        before,
        "dir "@,
    ) {
        Some(msg_dir())
    } else if contains(before, "route "@) && contains(before, "{ browse"@) && !contains(
        before,
        "browse "@,
    ) {
        Some(msg_browse())
    } else if contains(before, "route "@) && contains(before, "}"@) && (has_suffix(
        before,
        "rate_limit"@,
    ) || has_prefix(te, "rate_limit"@)) {
        Some(msg_rate())
    } else if contains(before, "route "@) && contains(before, "}"@) && (has_suffix(
        before,
        "cache"@,
    ) || has_prefix(te, "cache"@)) {
        Some(msg_cache())
    } else if contains(before, "route "@) && contains(before, "}"@) && (has_suffix(
        before,
        "header"@,
    ) || has_prefix(te, "header"@)) {
        Some(msg_header())
    } else if contains(before, "route "@) && contains(before, "}"@) && (has_suffix(before, "auth"@)
        || has_prefix(te, "auth"@)) && !contains(before, "auth "@) {
        Some(msg_auth())
    } else {
        None
    }
}

fn hint_before(before: &Vec<char>, te: &Vec<char>) -> (r: Option<Vec<char>>)
    ensures
        opt_chars(r) == spec_hint_before(before@, te@),
{
    if has_text(before, "route ") {
        if has_text(before, "{ file") && !has_text(before, "file ") {
            return Some(lit("File handler requires a file path. Example: 'file index.html'."));
        }
        if has_text(before, "{ proxy") && is_lit(te, "proxy") {
            return Some(
                lit(
                    "Proxy handler requires a URL or configuration block. Example: 'proxy http://localhost:3000' or 'proxy { upstreams ... }'.",
                ),
            );
        }
        if has_text(before, "{ respond") && !has_text(before, "respond ") {
            return Some(
                lit(
                    "Respond handler requires status code and/or body. Example: 'respond 200' or 'respond \"Hello\" 200'.",
                ),
            );
        }
        if has_text(before, "{ redirect") && !has_text(before, "redirect ") {
            return Some(
                lit(
                    "Redirect handler requires a target path. Example: 'redirect /new-path' or 'redirect /new-path 301'.",
                ),
            );
        }
        if has_text(before, "{ dir") && !has_text(before, "dir ") {
            return Some(
                lit("Directory handler requires a directory path. Example: 'dir /static'."),
            );
        }
        if has_text(before, "{ browse") && !has_text(before, "browse ") {
            return Some(lit("Browse handler requires a directory path. Example: 'browse /files'."));
        }
    }
    if has_text(before, "route ") && has_text(before, "}") {
        if finishes(before, "rate_limit") || begins(te, "rate_limit") {
            return Some(lit("Rate limit middleware requires a number. Example: 'rate_limit 10'."));
        }
        if finishes(before, "cache") || begins(te, "cache") {
            return Some(lit("Cache middleware requires a duration. Example: 'cache 5m'."));
        }
        if finishes(before, "header") || begins(te, "header") {
            return Some(
                lit(
                    "Header middleware requires operator and name. Example: 'header +Content-Type text/html'.",
                ),
            );
        }
        if (finishes(before, "auth") || begins(te, "auth")) && !has_text(before, "auth ") {
            return Some(
                lit(
                    "Auth middleware requires username and password. Example: 'auth admin password123'.",
                ),
            );
        }
    }
    None
}


/// The `i`-th word from the end (0 is the last), among the last ten.
pub open spec fn recent_word_is(cw: Seq<Seq<char>>, i: int, w: Seq<char>) -> bool {
    0 <= i < cw.len() && i < 10 && cw[cw.len() - 1 - i] == w
}

/// How the text before the failure is nested and what it recently said.
pub struct Context {
    pub depth: nat,
    pub in_virtual_host: bool,
    pub in_route: bool,
    pub in_proxy_block: bool,
    pub expecting_handler: bool,
    pub route_just_opened: bool,
    pub recent_proxy: bool,
    pub recent_route: bool,
}

pub open spec fn spec_context(before: Seq<char>) -> Context {
    let open = count_char(before, '{');
    let close = count_char(before, '}');
    let depth: nat = if open >= close {
        (open - close) as nat
    } else {
        0
    };
    let cw = words(before);
    let route_recent = recent_word_is(cw, 0, "route"@) || recent_word_is(cw, 1, "route"@)
        || recent_word_is(cw, 2, "route"@) || recent_word_is(cw, 3, "route"@);
    Context {
        depth,
        in_virtual_host: depth >= 1,
        in_route: route_recent || depth >= 2,
        in_proxy_block: recent_word_is(cw, 0, "proxy"@) || recent_word_is(cw, 1, "proxy"@)
            || recent_word_is(cw, 2, "proxy"@),
        expecting_handler: recent_word_is(cw, 0, "{"@),
        route_just_opened: recent_word_is(cw, 0, "route"@) || recent_word_is(cw, 1, "route"@),
        recent_proxy: has_word(crate::hints::tail_words(cw, 10), "proxy"@),
        recent_route: has_word(crate::hints::tail_words(cw, 10), "route"@),
    }
}

/// A word that the handler position accepts without comment.
pub open spec fn is_known_word(w: Seq<char>) -> bool {
    w == "gzip"@ || w == "cors"@ || w == "log"@ || w == "rate_limit"@ || w == "auth"@ || w
        == "cache"@ || w == "header"@ || w == "file"@ || w == "proxy"@ || w == "respond"@ || w
        == "redirect"@ || w == "dir"@ || w == "browse"@ || w == "upstreams"@ || w == "route"@ || w
        == "}"@
}

/// All characters are white space or `}`.
pub open spec fn all_ws_or_close(w: Seq<char>) -> bool {
    forall|i: int| 0 <= i < w.len() ==> crate::text::is_ws(#[trigger] w[i]) || w[i] == '}'
}

/// Hints from the nesting and recent words, then from the failing text.
pub open spec fn spec_hint_context(full: Seq<char>, before: Seq<char>, te: Seq<char>) -> Seq<char> {
    let c = spec_context(before);
    let ew = words(te);
    let first = first_word(ew);
    let handler_position = (c.in_route && c.expecting_handler) || c.depth >= 2
        || c.route_just_opened;
    let proxy_context = c.in_proxy_block || c.recent_proxy || contains(before, "proxy {"@);
    if handler_position && first == "file"@ && ew.len() > 1 && !all_ws_or_close(ew[1]) {
        msg_file()
    } else if handler_position && first == "proxy"@ && ew.len() == 1 {
        msg_proxy()
    } else if handler_position && first == "respond"@ && ew.len() == 1 {
        msg_respond()
    } else if handler_position && first == "redirect"@ && ew.len() == 1 {
        msg_redirect()
    } else if handler_position && first == "dir"@ && ew.len() == 1 {
        msg_dir()
    } else if handler_position && first == "browse"@ && ew.len() == 1 {
        msg_browse()
    } else if handler_position && first.len() > 0 && !is_known_word(first) {
        msg_unknown(first)
    } else if c.in_route && first == "rate_limit"@ && ew.len() == 1 {
        msg_rate()
    } else if c.in_route && first == "auth"@ && ew.len() < 3 {
        msg_auth()
    } else if c.in_route && first == "cache"@ && ew.len() == 1 {
        msg_cache()
    } else if c.in_route && first == "header"@ && ew.len() == 1 {
        msg_header()
    } else if proxy_context && contains(te, "proxy {"@) && !contains(full, "upstreams"@) {
        msg_proxy_block()
    } else if proxy_context && contains(te, "upstreams"@) && ew.len() == 1 {
        msg_upstreams()
    } else if proxy_context && first == "upstreams"@ {
        msg_upstreams()
    } else if c.recent_route && c.in_virtual_host && !c.in_route && c.depth == 1 && has_prefix(
        te,
        "route"@,
    ) && !has_char(te, '{') {
        msg_route_block()
    } else if c.recent_route && first == "route"@ && c.depth >= 2 {
        msg_route_level()
    } else if !c.in_virtual_host && any_alphabetic(te) && !has_char(te, '{') {
        msg_domain()
    } else if count_char(te, '{') > count_char(te, '}') {
        msg_braces()
    } else {
        spec_content_hint(te)
    }
}

fn recent_word_is_exec(cw: &Vec<Vec<char>>, i: usize, w: &str) -> (b: bool)
    ensures
        b == recent_word_is(views(cw@), i as int, w@),
{
    i < cw.len() && i < 10 && is_lit(&cw[cw.len() - 1 - i], w)
}

fn all_ws_or_close_exec(w: &Vec<char>) -> (b: bool)
    ensures
        b == all_ws_or_close(w@),
{
    let mut i: usize = 0;
    while i < w.len()
        invariant
            i <= w.len(),
            forall|j: int| 0 <= j < i ==> crate::text::is_ws(#[trigger] w@[j]) || w@[j] == '}',
        decreases w.len() - i,
    {
        if !(crate::text::is_whitespace(w[i]) || w[i] == '}') {
            return false;
        }
        i = i + 1;
    }
    true
}

fn is_known_word_exec(w: &Vec<char>) -> (b: bool)
    ensures
        b == is_known_word(w@),
{
    is_lit(w, "gzip") || is_lit(w, "cors") || is_lit(w, "log") || is_lit(w, "rate_limit") || is_lit(
        w,
        "auth",
    ) || is_lit(w, "cache") || is_lit(w, "header") || is_lit(w, "file") || is_lit(w, "proxy")
        || is_lit(w, "respond") || is_lit(w, "redirect") || is_lit(w, "dir") || is_lit(w, "browse")
        || is_lit(w, "upstreams") || is_lit(w, "route") || is_lit(w, "}")
}

#[verifier::rlimit(60)]
fn hint_context(full: &Vec<char>, before: &Vec<char>, te: &Vec<char>) -> (r: Vec<char>)
    ensures
        r@ == spec_hint_context(full@, before@, te@),
{
    let open = count_char_exec(before, '{');
    let close = count_char_exec(before, '}');
    let depth: usize = if open >= close {
        open - close
    } else {
        0
    };
    let cw = split_ws(before);
    let route_recent = recent_word_is_exec(&cw, 0, "route") || recent_word_is_exec(&cw, 1, "route")
        || recent_word_is_exec(&cw, 2, "route") || recent_word_is_exec(&cw, 3, "route");
    let in_virtual_host = depth >= 1;
    let in_route = route_recent || depth >= 2;
    let in_proxy_block = recent_word_is_exec(&cw, 0, "proxy") || recent_word_is_exec(&cw, 1, "proxy")
        || recent_word_is_exec(&cw, 2, "proxy");
    let expecting_handler = recent_word_is_exec(&cw, 0, "{");
    let route_just_opened = recent_word_is_exec(&cw, 0, "route") || recent_word_is_exec(
        &cw,
        1,
        "route",
    );
    let last10 = crate::hints::tail_exec(cw, 10);
    let recent_proxy = has_word_exec(&last10, "proxy");
    let recent_route = has_word_exec(&last10, "route");
    let ghost c = spec_context(before@);
    assert(depth == c.depth && in_route == c.in_route && in_proxy_block == c.in_proxy_block
        && expecting_handler == c.expecting_handler && route_just_opened == c.route_just_opened
        && recent_proxy == c.recent_proxy && recent_route == c.recent_route);
    let ew = split_ws(te);
    let first = first_word_exec(&ew);
    let handler_position = (in_route && expecting_handler) || depth >= 2 || route_just_opened;
    let proxy_context = in_proxy_block || recent_proxy || has_text(before, "proxy {");
    if handler_position {
        if is_lit(&first, "file") && ew.len() > 1 && !all_ws_or_close_exec(&ew[1]) {
            return lit("File handler requires a file path. Example: 'file index.html'.");
        }
        if is_lit(&first, "proxy") && ew.len() == 1 {
            return lit(
                "Proxy handler requires a URL or configuration block. Example: 'proxy http://localhost:3000' or 'proxy { upstreams ... }'.",
            );
        }
        if is_lit(&first, "respond") && ew.len() == 1 {
            return lit(
                "Respond handler requires status code and/or body. Example: 'respond 200' or 'respond \"Hello\" 200'.",
            );
        }
        if is_lit(&first, "redirect") && ew.len() == 1 {
            return lit(
                "Redirect handler requires a target path. Example: 'redirect /new-path' or 'redirect /new-path 301'.",
            );
        }
        if is_lit(&first, "dir") && ew.len() == 1 {
            return lit("Directory handler requires a directory path. Example: 'dir /static'.");
        }
        if is_lit(&first, "browse") && ew.len() == 1 {
            return lit("Browse handler requires a directory path. Example: 'browse /files'.");
        }
        if first.len() > 0 && !is_known_word_exec(&first) {
            return unknown_exec(&first);
        }
    }
    if in_route {
        if is_lit(&first, "rate_limit") && ew.len() == 1 {
            return lit("Rate limit middleware requires a number. Example: 'rate_limit 10'.");
        }
        if is_lit(&first, "auth") && ew.len() < 3 {
            return lit(
                "Auth middleware requires username and password. Example: 'auth admin password123'.",
            );
        }
        if is_lit(&first, "cache") && ew.len() == 1 {
            return lit("Cache middleware requires a duration. Example: 'cache 5m'.");
        }
        if is_lit(&first, "header") && ew.len() == 1 {
            return lit(
                "Header middleware requires operator and name. Example: 'header +Content-Type text/html'.",
            );
        }
    }
    if proxy_context {
        if has_text(te, "proxy {") && !has_text(full, "upstreams") {
            return lit(
                "Proxy blocks must contain 'upstreams' directive. Example: 'proxy { upstreams http://localhost:3000 }'.",
            );
        }
        if has_text(te, "upstreams") && ew.len() == 1 {
            return lit(
                "Proxy upstreams require at least one URL. Example: 'upstreams http://localhost:3000'.",
            );
        }
        if is_lit(&first, "upstreams") {
            return lit(
                "Proxy upstreams require at least one URL. Example: 'upstreams http://localhost:3000'.",
            );
        }
    }
    if recent_route {
        if in_virtual_host && !in_route && depth == 1 && begins(te, "route") && !has_char_exec(
            te,
            '{',
        ) {
            return lit(
                "Route definitions should be followed by a block enclosed in braces { }. Example: 'route /api { ... }'.",
            );
        }
        if is_lit(&first, "route") && depth >= 2 {
            return lit(
                "Unknown handler or middleware 'route'. Route definitions must be at virtual host level.",
            );
        }
    }
    if !in_virtual_host && any_alphabetic_exec(te) && !has_char_exec(te, '{') {
        return lit(
            "Domain definitions should be followed by a block enclosed in braces { }. Example: 'example.com { ... }'.",
        );
    }
    if count_char_exec(te, '{') > count_char_exec(te, '}') {
        return lit("Missing closing braces. Each '{' must have a corresponding '}'.");
    }
    suggest_fix_for_content_chars(te)
}

/// The suggestion for a failure, from the whole input `full`, the failing
/// text `err` and the text `before` it.
pub open spec fn spec_full_hint(full: Seq<char>, err: Seq<char>, before: Seq<char>) -> Seq<char> {
    let te = trim(err);
    let ft = trim(full);
    let unparsed = if te == ft {
        spec_hint_unparsed(ft)
    } else {
        None
    };
    if te.len() == 0 {
        msg_empty()
    } else if unparsed is Some {
        unparsed.unwrap()
    } else if spec_hint_anywhere(ft) is Some {
        spec_hint_anywhere(ft).unwrap()
    } else if spec_hint_started(err, ft) is Some {
        spec_hint_started(err, ft).unwrap()
    } else if spec_hint_before(before, te) is Some {
        spec_hint_before(before, te).unwrap()
    } else {
        spec_hint_context(full, before, te)
    }
}

pub fn full_hint(full: &Vec<char>, err: &Vec<char>, before: &Vec<char>) -> (r: Vec<char>)
    ensures
        r@ == spec_full_hint(full@, err@, before@),
{
    let te = trim_exec(err);
    if te.len() == 0 {
        return lit("Configuration file appears to be empty or contains only whitespace.");
    }
    let ft = trim_exec(full);
    if crate::text::eq_chars(&te, &ft) {
        if let Some(m) = hint_unparsed(&ft) {
            return m;
        }
    }
    if let Some(m) = hint_anywhere(&ft) {
        return m;
    }
    if let Some(m) = hint_started(err, &ft) {
        return m;
    }
    if let Some(m) = hint_before(before, &te) {
        return m;
    }
    hint_context(full, before, &te)
}

} // verus!
