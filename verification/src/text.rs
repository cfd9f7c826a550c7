//! Character-sequence utilities: conversions between `str`/`String` and
//! `Vec<char>`, character classes, scanning, searching, splitting and number
//! formatting, each with a specification over `Seq<char>`.
use vstd::prelude::*;

verus! {

broadcast use vstd::string::group_string_axioms;

// ---------------------------------------------------------------------------
// Conversions
// ---------------------------------------------------------------------------

/// Appends one character to a `String` (std `String::push`): the result is the
/// old contents followed by `c`.
#[verifier::external_body]
fn string_push(s: &mut String, c: char)
    ensures
        final(s)@ == old(s)@.push(c),
{
    s.push(c);
}

/// The characters of `s`, in order.
pub fn to_chars(s: &str) -> (v: Vec<char>)
    ensures
        v@ == s@,
{
    let mut v: Vec<char> = Vec::new();
    for c in it: s.chars()
        invariant
            v@ == it.seq().take(it.index() as int),
            it.seq() == s@,
    {
        v.push(c);
    }
    v
}

/// A `String` holding the characters of `v[from..to]`.
pub fn string_of(v: &Vec<char>, from: usize, to: usize) -> (s: String)
    requires
        from <= to <= v.len(),
    ensures
        s@ == v@.subrange(from as int, to as int),
{
    let mut s = String::new();
    let mut i = from;
    while i < to
        invariant
            from <= i <= to <= v.len(),
            s@ == v@.subrange(from as int, i as int),
        decreases to - i,
    {
        string_push(&mut s, v[i]);
        i = i + 1;
    }
    s
}

/// A `String` holding all characters of `v`.
pub fn string_of_all(v: &Vec<char>) -> (s: String)
    ensures
        s@ == v@,
{
    let s = string_of(v, 0, v.len());
    assert(v@.subrange(0, v@.len() as int) =~= v@);
    s
}

/// The characters of `v[from..to]` as a new vector.
pub fn slice_vec(v: &Vec<char>, from: usize, to: usize) -> (r: Vec<char>)
    requires
        from <= to <= v.len(),
    ensures
        r@ == v@.subrange(from as int, to as int),
{
    let mut r: Vec<char> = Vec::new();
    let mut i = from;
    while i < to
        invariant
            from <= i <= to <= v.len(),
            r@ == v@.subrange(from as int, i as int),
        decreases to - i,
    {
        r.push(v[i]);
        i = i + 1;
        assert(r@ =~= v@.subrange(from as int, i as int));
    }
    r
}

/// `a` followed by `b`.
pub fn concat(a: &Vec<char>, b: &Vec<char>) -> (r: Vec<char>)
    ensures
        r@ == a@ + b@,
{
    let mut r = slice_vec(a, 0, a.len());
    let mut i: usize = 0;
    while i < b.len()
        invariant
            i <= b.len(),
            r@ == a@ + b@.take(i as int),
        decreases b.len() - i,
    {
        r.push(b[i]);
        i = i + 1;
        assert(r@ =~= a@ + b@.take(i as int));
    }
    assert(b@.take(b.len() as int) =~= b@);
    assert(a@.subrange(0, a@.len() as int) =~= a@);
    r
}

// ---------------------------------------------------------------------------
// Character classes
// ---------------------------------------------------------------------------

/// Unicode `White_Space`, the property that `char::is_whitespace` tests.
pub open spec fn is_ws(c: char) -> bool {
    let u = c as u32;
    (9 <= u <= 13) || u == 32 || u == 0x85 || u == 0xA0 || u == 0x1680 || (0x2000 <= u
        <= 0x200A) || u == 0x2028 || u == 0x2029 || u == 0x202F || u == 0x205F || u == 0x3000
}

/// `char::is_whitespace`.
pub fn is_whitespace(c: char) -> (b: bool)
    ensures
        b == is_ws(c),
{
    let u = c as u32;
    (9 <= u && u <= 13) || u == 32 || u == 0x85 || u == 0xA0 || u == 0x1680 || (0x2000 <= u && u
        <= 0x200A) || u == 0x2028 || u == 0x2029 || u == 0x202F || u == 0x205F || u == 0x3000
}

pub open spec fn is_digit(c: char) -> bool {
    '0' <= c <= '9'
}

/// The classes of characters that the scanners of this crate take runs of.
#[derive(Clone, Copy, PartialEq, Eq, Debug)]
pub enum CharClass {
    /// `' '`, `'\t'`, `'\r'`, `'\n'`.
    MultiSpace,
    /// `' '`, `'\t'`.
    Space,
    /// Unicode white space.
    Ws,
    /// Anything but Unicode white space.
    NotWs,
    /// Anything but Unicode white space and `'{'`.
    Word,
    /// ASCII digits.
    Digit,
    /// Anything but Unicode white space, `'}'` and `'\n'`.
    PolicyValue,
    /// Anything but `'"'`.
    NotQuote,
    /// Anything but `'\r'` and `'\n'`.
    NotLineEnd,
    /// Anything but `'\n'`.
    NotNewline,
}

pub open spec fn in_class(k: CharClass, c: char) -> bool {
    match k {
        CharClass::MultiSpace => c == ' ' || c == '\t' || c == '\r' || c == '\n',
        CharClass::Space => c == ' ' || c == '\t',
        CharClass::Ws => is_ws(c),
        CharClass::NotWs => !is_ws(c),
        CharClass::Word => !is_ws(c) && c != '{',
        CharClass::Digit => is_digit(c),
        CharClass::PolicyValue => !is_ws(c) && c != '}' && c != '\n',
        CharClass::NotQuote => c != '"',
        CharClass::NotLineEnd => c != '\r' && c != '\n',
        CharClass::NotNewline => c != '\n',
    }
}

pub fn class_has(k: CharClass, c: char) -> (b: bool)
    ensures
        b == in_class(k, c),
{
    match k {
        CharClass::MultiSpace => c == ' ' || c == '\t' || c == '\r' || c == '\n',
        CharClass::Space => c == ' ' || c == '\t',
        CharClass::Ws => is_whitespace(c),
        CharClass::NotWs => !is_whitespace(c),
        CharClass::Word => !is_whitespace(c) && c != '{',
        CharClass::Digit => '0' <= c && c <= '9',
        CharClass::PolicyValue => !is_whitespace(c) && c != '}' && c != '\n',
        CharClass::NotQuote => c != '"',
        CharClass::NotLineEnd => c != '\r' && c != '\n',
        CharClass::NotNewline => c != '\n',
    }
}

// ---------------------------------------------------------------------------
// Scanning
// ---------------------------------------------------------------------------

/// The end of the longest run of characters of class `k` that starts at `i`.
pub open spec fn span_end(s: Seq<char>, i: int, k: CharClass) -> int
    decreases s.len() - i,
{
    if 0 <= i < s.len() && in_class(k, s[i]) {
        span_end(s, i + 1, k)
    } else {
        i
    }
}

pub proof fn lemma_span(s: Seq<char>, i: int, k: CharClass)
    requires
        0 <= i <= s.len(),
    ensures
        i <= span_end(s, i, k) <= s.len(),
        forall|j: int| i <= j < span_end(s, i, k) ==> in_class(k, #[trigger] s[j]),
        span_end(s, i, k) < s.len() ==> !in_class(k, s[span_end(s, i, k)]),
    decreases s.len() - i,
{
    if i < s.len() && in_class(k, s[i]) {
        lemma_span(s, i + 1, k);
    }
}

/// The end of the run of class `k` starting at `i`.
pub fn span(s: &Vec<char>, i: usize, k: CharClass) -> (j: usize)
    requires
        i <= s.len(),
    ensures
        j == span_end(s@, i as int, k),
        i <= j <= s.len(),
{
    proof {
        lemma_span(s@, i as int, k);
    }
    let mut j = i;
    while j < s.len() && class_has(k, s[j])
        invariant
            i <= j <= s.len(),
            span_end(s@, j as int, k) == span_end(s@, i as int, k),
        decreases s.len() - j,
    {
        j = j + 1;
    }
    j
}

/// `t` occurs in `s` at position `i`.
pub open spec fn starts_at(s: Seq<char>, i: int, t: Seq<char>) -> bool {
    0 <= i && i + t.len() <= s.len() && s.subrange(i, i + t.len()) == t
}

/// Whether `t` occurs in `s` at position `i`.
pub fn tag_at(s: &Vec<char>, i: usize, t: &Vec<char>) -> (b: bool)
    ensures
        b == starts_at(s@, i as int, t@),
{
    if i > s.len() || t.len() > s.len() - i {
        return false;
    }
    let mut j: usize = 0;
    while j < t.len()
        invariant
            j <= t.len(),
            i + t.len() <= s.len(),
            s@.subrange(i as int, i + j) == t@.take(j as int),
        decreases t.len() - j,
    {
        if s[i + j] != t[j] {
            assert(s@.subrange(i as int, i + t.len())[j as int] != t@[j as int]);
            return false;
        }
        j = j + 1;
        assert(s@.subrange(i as int, i + j) =~= t@.take(j as int));
    }
    assert(t@.take(t.len() as int) =~= t@);
    true
}

/// `s` starts with `t`.
pub open spec fn has_prefix(s: Seq<char>, t: Seq<char>) -> bool {
    starts_at(s, 0, t)
}

/// `s` ends with `t`.
pub open spec fn has_suffix(s: Seq<char>, t: Seq<char>) -> bool {
    t.len() <= s.len() && starts_at(s, s.len() - t.len(), t)
}

pub fn starts_with(s: &Vec<char>, t: &Vec<char>) -> (b: bool)
    ensures
        b == has_prefix(s@, t@),
{
    tag_at(s, 0, t)
}

pub fn ends_with(s: &Vec<char>, t: &Vec<char>) -> (b: bool)
    ensures
        b == has_suffix(s@, t@),
{
    if t.len() > s.len() {
        false
    } else {
        tag_at(s, s.len() - t.len(), t)
    }
}

/// The first position at or after `i` where `t` occurs in `s`.
pub open spec fn find_from(s: Seq<char>, t: Seq<char>, i: int) -> Option<int>
    decreases s.len() + 1 - i,
{
    if i < 0 || i + t.len() > s.len() {
        None
    } else if starts_at(s, i, t) {
        Some(i)
    } else {
        find_from(s, t, i + 1)
    }
}

/// `s` contains `t` (`str::contains`).
pub open spec fn contains(s: Seq<char>, t: Seq<char>) -> bool {
    find_from(s, t, 0) is Some
}

pub proof fn lemma_find_from(s: Seq<char>, t: Seq<char>, i: int)
    requires
        0 <= i,
    ensures
        find_from(s, t, i) matches Some(p) ==> i <= p && starts_at(s, p, t) && forall|q: int|
            i <= q < p ==> !starts_at(s, q, t),
        find_from(s, t, i) is None ==> forall|q: int| i <= q ==> !starts_at(s, q, t),
    decreases s.len() + 1 - i,
{
    if i + t.len() <= s.len() && !starts_at(s, i, t) {
        lemma_find_from(s, t, i + 1);
    }
}

/// The first position of `t` in `s` (`str::find`).
pub fn find(s: &Vec<char>, t: &Vec<char>) -> (r: Option<usize>)
    ensures
        r matches Some(p) ==> find_from(s@, t@, 0) == Some(p as int),
        r is None ==> find_from(s@, t@, 0) is None,
{
    if t.len() == 0 {
        assert(s@.subrange(0, 0) =~= t@);
        return Some(0);
    }
    let mut i: usize = 0;
    while i <= s.len() && t.len() <= s.len() - i
        invariant
            t.len() > 0,
            find_from(s@, t@, i as int) == find_from(s@, t@, 0),
        decreases s.len() + 1 - i,
    {
        if tag_at(s, i, t) {
            return Some(i);
        }
        i = i + 1;
    }
    None
}

pub fn contains_exec(s: &Vec<char>, t: &Vec<char>) -> (b: bool)
    ensures
        b == contains(s@, t@),
{
    find(s, t).is_some()
}

/// Whether the character `c` occurs in `s`.
pub open spec fn has_char(s: Seq<char>, c: char) -> bool {
    exists|i: int| 0 <= i < s.len() && s[i] == c
}

pub fn has_char_exec(s: &Vec<char>, c: char) -> (b: bool)
    ensures
        b == has_char(s@, c),
{
    let mut i: usize = 0;
    while i < s.len()
        invariant
            i <= s.len(),
            forall|j: int| 0 <= j < i ==> s@[j] != c,
        decreases s.len() - i,
    {
        if s[i] == c {
            return true;
        }
        i = i + 1;
    }
    false
}

/// The number of occurrences of `c` in `s`.
pub open spec fn count_char(s: Seq<char>, c: char) -> nat
    decreases s.len(),
{
    if s.len() == 0 {
        0
    } else {
        count_char(s.drop_last(), c) + if s.last() == c {
            1nat
        } else {
            0nat
        }
    }
}

pub fn count_char_exec(s: &Vec<char>, c: char) -> (n: usize)
    ensures
        n == count_char(s@, c),
{
    let mut n: usize = 0;
    let mut i: usize = 0;
    while i < s.len()
        invariant
            i <= s.len(),
            n == count_char(s@.take(i as int), c),
            n <= i,
        decreases s.len() - i,
    {
        assert(s@.take(i + 1).drop_last() =~= s@.take(i as int));
        if s[i] == c {
            n = n + 1;
        }
        i = i + 1;
    }
    assert(s@.take(s.len() as int) =~= s@);
    n
}

/// The number of non-overlapping occurrences of `t` in `s` from position `i`,
/// searching left to right (`str::matches(..).count()`).
pub open spec fn matches_from(s: Seq<char>, t: Seq<char>, i: int) -> nat
    decreases s.len() + 1 - i,
{
    if i < 0 || t.len() == 0 || i + t.len() > s.len() {
        0
    } else if starts_at(s, i, t) {
        1 + matches_from(s, t, i + t.len())
    } else {
        matches_from(s, t, i + 1)
    }
}

pub fn count_matches(s: &Vec<char>, t: &Vec<char>) -> (n: usize)
    ensures
        n == matches_from(s@, t@, 0),
{
    if t.len() == 0 {
        return 0;
    }
    let mut n: usize = 0;
    let mut i: usize = 0;
    while i <= s.len() && t.len() <= s.len() - i
        invariant
            t.len() > 0,
            n + matches_from(s@, t@, i as int) == matches_from(s@, t@, 0),
            n <= i,
        decreases s.len() + 1 - i,
    {
        if tag_at(s, i, t) {
            n = n + 1;
            i = i + t.len();
        } else {
            i = i + 1;
        }
    }
    n
}

// ---------------------------------------------------------------------------
// Trimming and splitting
// ---------------------------------------------------------------------------

/// The start of the trailing run of white space that ends at `j`.
pub open spec fn rtrim_end(s: Seq<char>, j: int) -> int
    decreases j,
{
    if 0 < j <= s.len() && is_ws(s[j - 1]) {
        rtrim_end(s, j - 1)
    } else {
        j
    }
}

pub proof fn lemma_rtrim_end(s: Seq<char>, j: int)
    requires
        0 <= j <= s.len(),
    ensures
        0 <= rtrim_end(s, j) <= j,
        forall|q: int| rtrim_end(s, j) <= q < j ==> is_ws(#[trigger] s[q]),
        rtrim_end(s, j) > 0 ==> !is_ws(s[rtrim_end(s, j) - 1]),
    decreases j,
{
    if 0 < j && is_ws(s[j - 1]) {
        lemma_rtrim_end(s, j - 1);
    }
}

/// `str::trim_start`.
pub open spec fn trim_start(s: Seq<char>) -> Seq<char> {
    s.skip(span_end(s, 0, CharClass::Ws))
}

/// `str::trim_end`.
pub open spec fn trim_end(s: Seq<char>) -> Seq<char> {
    s.take(rtrim_end(s, s.len() as int))
}

/// `str::trim`.
pub open spec fn trim(s: Seq<char>) -> Seq<char> {
    trim_end(trim_start(s))
}

/// What `trim` leaves neither starts nor ends with white space.
pub proof fn lemma_trim_bounds(s: Seq<char>)
    ensures
        trim(s).len() > 0 ==> !is_ws(trim(s)[0]) && !is_ws(trim(s)[trim(s).len() - 1]),
{
    lemma_span(s, 0, CharClass::Ws);
    let t = trim_start(s);
    lemma_rtrim_end(t, t.len() as int);
    let e = rtrim_end(t, t.len() as int);
    if e > 0 {
        assert(trim(s)[0] == t[0]);
        assert(t[0] == s[span_end(s, 0, CharClass::Ws)]);
        assert(trim(s)[trim(s).len() - 1] == t[e - 1]);
    }
}

/// Trimming twice is trimming once.
pub proof fn lemma_trim_idempotent(s: Seq<char>)
    ensures
        trim(trim(s)) == trim(s),
{
    let u = trim(s);
    lemma_trim_bounds(s);
    assert(span_end(u, 0, CharClass::Ws) == 0);
    assert(trim_start(u) =~= u);
    if u.len() > 0 {
        assert(rtrim_end(u, u.len() as int) == u.len());
    }
    assert(trim_end(u) =~= u);
}

pub fn trim_exec(s: &Vec<char>) -> (r: Vec<char>)
    ensures
        r@ == trim(s@),
{
    let a = span(s, 0, CharClass::Ws);
    let t = slice_vec(s, a, s.len());
    assert(t@ =~= trim_start(s@));
    let mut j = t.len();
    while j > 0 && is_whitespace(t[j - 1])
        invariant
            j <= t.len(),
            rtrim_end(t@, j as int) == rtrim_end(t@, t.len() as int),
        decreases j,
    {
        j = j - 1;
    }
    let r = slice_vec(&t, 0, j);
    assert(r@ =~= trim_end(t@));
    r
}

/// The words of `s` from position `i`: the maximal runs of non-white-space
/// characters, in order (`str::split_whitespace`).
pub open spec fn words_from(s: Seq<char>, i: int) -> Seq<Seq<char>>
    decreases s.len() - i,
{
    let a = span_end(s, i, CharClass::Ws);
    if i < 0 || i > s.len() || a >= s.len() {
        Seq::empty()
    } else {
        let b = span_end(s, a, CharClass::NotWs);
        if b <= i || b > s.len() {
            Seq::empty()
        } else {
            seq![s.subrange(a, b)] + words_from(s, b)
        }
    }
}

pub open spec fn words(s: Seq<char>) -> Seq<Seq<char>> {
    words_from(s, 0)
}

pub open spec fn views(v: Seq<Vec<char>>) -> Seq<Seq<char>> {
    v.map_values(|x: Vec<char>| x@)
}

pub fn split_ws(s: &Vec<char>) -> (r: Vec<Vec<char>>)
    ensures
        views(r@) == words(s@),
{
    let mut r: Vec<Vec<char>> = Vec::new();
    let mut i: usize = 0;
    loop
        invariant
            i <= s.len(),
            views(r@) + words_from(s@, i as int) == words(s@),
        decreases s.len() - i,
    {
        let a = span(s, i, CharClass::Ws);
        if a >= s.len() {
            assert(words_from(s@, i as int) =~= Seq::<Seq<char>>::empty());
            assert(views(r@) + Seq::<Seq<char>>::empty() =~= views(r@));
            return r;
        }
        proof {
            lemma_span(s@, a as int, CharClass::Ws);
            lemma_span(s@, a as int, CharClass::NotWs);
        }
        let b = span(s, a, CharClass::NotWs);
        let w = slice_vec(s, a, b);
        let ghost old_r = r@;
        r.push(w);
        assert(views(r@) =~= views(old_r) + seq![s@.subrange(a as int, b as int)]);
        assert(views(r@) + words_from(s@, b as int) =~= views(old_r) + words_from(s@, i as int));
        i = b;
    }
}

/// The words of `ws` joined by single spaces (`[..].join(" ")`).
pub open spec fn join_sp(ws: Seq<Seq<char>>) -> Seq<char>
    decreases ws.len(),
{
    if ws.len() == 0 {
        Seq::empty()
    } else if ws.len() == 1 {
        ws[0]
    } else {
        join_sp(ws.drop_last()) + seq![' '] + ws.last()
    }
}

pub fn join_words(ws: &Vec<Vec<char>>) -> (r: Vec<char>)
    ensures
        r@ == join_sp(views(ws@)),
{
    let mut r: Vec<char> = Vec::new();
    let mut i: usize = 0;
    while i < ws.len()
        invariant
            i <= ws.len(),
            r@ == join_sp(views(ws@).take(i as int)),
        decreases ws.len() - i,
    {
        assert(views(ws@).take(i + 1).drop_last() =~= views(ws@).take(i as int));
        if i == 0 {
            r = concat(&r, &ws[i]);
            assert(r@ =~= join_sp(views(ws@).take(1)));
        } else {
            r.push(' ');
            r = concat(&r, &ws[i]);
        }
        i = i + 1;
    }
    assert(views(ws@).take(ws.len() as int) =~= views(ws@));
    r
}

/// `s.split_whitespace().collect::<Vec<_>>().join(" ")`.
pub open spec fn normalize_ws(s: Seq<char>) -> Seq<char> {
    join_sp(words(s))
}

// ---------------------------------------------------------------------------
// Lengths in UTF-8 bytes
// ---------------------------------------------------------------------------

/// The number of bytes of the UTF-8 encoding of `c` (`char::len_utf8`).
pub open spec fn char_len_utf8(c: char) -> nat {
    let u = c as u32;
    if u < 0x80 {
        1
    } else if u < 0x800 {
        2
    } else if u < 0x10000 {
        3
    } else {
        4
    }
}

/// The number of bytes of the UTF-8 encoding of `s` (`str::len`).
pub open spec fn utf8_len(s: Seq<char>) -> nat
    decreases s.len(),
{
    if s.len() == 0 {
        0
    } else {
        utf8_len(s.drop_last()) + char_len_utf8(s.last())
    }
}

pub proof fn lemma_utf8_len_bound(s: Seq<char>)
    ensures
        s.len() <= utf8_len(s) <= 4 * s.len(),
    decreases s.len(),
{
    if s.len() > 0 {
        lemma_utf8_len_bound(s.drop_last());
    }
}

pub proof fn lemma_utf8_len_take_mono(s: Seq<char>, i: int, j: int)
    requires
        0 <= i <= j <= s.len(),
    ensures
        utf8_len(s.take(i)) <= utf8_len(s.take(j)),
    decreases j - i,
{
    if i < j {
        lemma_utf8_len_take_mono(s, i, j - 1);
        assert(s.take(j).drop_last() =~= s.take(j - 1));
    }
}

pub fn len_utf8(c: char) -> (n: u128)
    ensures
        n == char_len_utf8(c),
{
    let u = c as u32;
    if u < 0x80 {
        1
    } else if u < 0x800 {
        2
    } else if u < 0x10000 {
        3
    } else {
        4
    }
}

/// The byte length of the UTF-8 encoding of `s[..n]`.
pub fn utf8_len_exec(s: &Vec<char>, n: usize) -> (r: u128)
    requires
        n <= s.len(),
    ensures
        r == utf8_len(s@.take(n as int)),
{
    let mut r: u128 = 0;
    let mut i: usize = 0;
    while i < n
        invariant
            i <= n <= s.len(),
            r == utf8_len(s@.take(i as int)),
            r <= 4 * i,
        decreases n - i,
    {
        assert(s@.take(i + 1).drop_last() =~= s@.take(i as int));
        r = r + len_utf8(s[i]);
        i = i + 1;
    }
    r
}

// ---------------------------------------------------------------------------
// Decimal numbers
// ---------------------------------------------------------------------------

pub open spec fn digit_char(d: nat) -> char {
    ((d + 48) as u32) as char
}

/// The decimal representation of `n`, without leading zeros.
pub open spec fn decimal(n: nat) -> Seq<char>
    decreases n,
{
    if n < 10 {
        seq![digit_char(n)]
    } else {
        decimal(n / 10).push(digit_char(n % 10))
    }
}

fn digit_of(d: u128) -> (c: char)
    requires
        d < 10,
    ensures
        c == digit_char(d as nat),
{
    if d == 0 {
        '0'
    } else if d == 1 {
        '1'
    } else if d == 2 {
        '2'
    } else if d == 3 {
        '3'
    } else if d == 4 {
        '4'
    } else if d == 5 {
        '5'
    } else if d == 6 {
        '6'
    } else if d == 7 {
        '7'
    } else if d == 8 {
        '8'
    } else {
        '9'
    }
}

/// Appends the decimal representation of `n` to `v`.
pub fn push_decimal(v: &mut Vec<char>, n: u128)
    ensures
        final(v)@ == old(v)@ + decimal(n as nat),
    decreases n,
{
    if n < 10 {
        v.push(digit_of(n));
        assert(decimal(n as nat) =~= seq![digit_char(n as nat)]);
    } else {
        push_decimal(v, n / 10);
        v.push(digit_of(n % 10));
        assert(decimal(n as nat) =~= decimal((n / 10) as nat).push(digit_char((n % 10) as nat)));
    }
}

/// The value of a sequence of ASCII digits.
pub open spec fn digits_value(s: Seq<char>) -> nat
    decreases s.len(),
{
    if s.len() == 0 {
        0
    } else {
        digits_value(s.drop_last()) * 10 + (s.last() as u32 - 48) as nat
    }
}

pub open spec fn all_digits(s: Seq<char>) -> bool {
    forall|i: int| 0 <= i < s.len() ==> is_digit(#[trigger] s[i])
}

pub proof fn lemma_digits_value_mono(s: Seq<char>, i: int)
    requires
        0 <= i <= s.len(),
        all_digits(s),
    ensures
        digits_value(s.take(i)) <= digits_value(s),
    decreases s.len() - i,
{
    if i < s.len() {
        lemma_digits_value_mono(s, i + 1);
        assert(s.take(i + 1).drop_last() =~= s.take(i));
    } else {
        assert(s.take(i) =~= s);
    }
}

/// The decimal representation of `n` is a nonempty run of ASCII digits
/// whose value is `n`.
pub proof fn lemma_decimal_digits(n: nat)
    ensures
        decimal(n).len() > 0,
        all_digits(decimal(n)),
        digits_value(decimal(n)) == n,
    decreases n,
{
    if n >= 10 {
        lemma_decimal_digits(n / 10);
        let d = decimal(n);
        let c = digit_char(n % 10);
        assert(d.drop_last() =~= decimal(n / 10));
        assert(c as u32 - 48 == n % 10);
        assert(forall|i: int| 0 <= i < d.len() ==> is_digit(#[trigger] d[i])) by {
            assert forall|i: int| 0 <= i < d.len() implies is_digit(#[trigger] d[i]) by {
                if i < d.len() - 1 {
                    assert(d[i] == decimal(n / 10)[i]);
                }
            }
        }
        assert(d.last() == c);
        assert((n / 10) * 10 + n % 10 == n) by (nonlinear_arith);
        assert(digits_value(d) == digits_value(decimal(n / 10)) * 10 + (c as u32 - 48) as nat);
    } else {
        let d = decimal(n);
        assert(d.drop_last() =~= Seq::<char>::empty());
        assert(d.last() as u32 - 48 == n);
        assert(digits_value(d) == digits_value(d.drop_last()) * 10 + (d.last() as u32 - 48) as nat);
    }
}

/// The value of the digits `s[from..to]`, or `None` when it exceeds `max`.
pub fn digits_upto(s: &Vec<char>, from: usize, to: usize, max: u64) -> (r: Option<u64>)
    requires
        from <= to <= s.len(),
        all_digits(s@.subrange(from as int, to as int)),
        max >= 9,
    ensures
        r matches Some(v) ==> v == digits_value(s@.subrange(from as int, to as int)) && v <= max,
        r is None ==> digits_value(s@.subrange(from as int, to as int)) > max,
{
    let ghost d = s@.subrange(from as int, to as int);
    let mut v: u64 = 0;
    let mut i = from;
    while i < to
        invariant
            from <= i <= to <= s.len(),
            d == s@.subrange(from as int, to as int),
            all_digits(d),
            v == digits_value(d.take(i - from)),
            v <= max,
            max >= 9,
        decreases to - i,
    {
        let c = s[i];
        assert(d[i - from] == c);
        let dv = (c as u32 - 48) as u64;
        assert(d.take(i + 1 - from).drop_last() =~= d.take(i - from));
        if v > (max - dv) / 10 {
            proof {
                assert(v * 10 + dv > max) by (nonlinear_arith)
                    requires
                        v > (max - dv) / 10,
                        dv <= 9,
                ;
                lemma_digits_value_mono(d, i + 1 - from);
            }
            return None;
        }
        proof {
            assert(v * 10 + dv <= max) by (nonlinear_arith)
                requires
                    v <= (max - dv) / 10,
                    dv <= max,
            ;
        }
        v = v * 10 + dv;
        i = i + 1;
    }
    assert(d.take(to - from) =~= d);
    Some(v)
}

} // verus!

verus! {

/// Whether two character vectors are equal.
pub fn eq_chars(a: &Vec<char>, b: &Vec<char>) -> (r: bool)
    ensures
        r == (a@ == b@),
{
    if a.len() != b.len() {
        return false;
    }
    let r = tag_at(a, 0, b);
    proof {
        if r {
            assert(a@ =~= a@.subrange(0, b@.len() as int));
        } else {
            assert(a@.subrange(0, b@.len() as int) =~= a@);
        }
    }
    r
}

/// Whether the `String` `s` holds exactly the characters of `t`.
pub fn string_eq_str(s: &String, t: &str) -> (r: bool)
    ensures
        r == (s@ == t@),
{
    let a = to_chars(s.as_str());
    let b = to_chars(t);
    eq_chars(&a, &b)
}

/// What `from_str` of an unsigned integer type with largest value `max`
/// accepts: an optional `+`, then one or more ASCII digits whose value is at
/// most `max`.
pub open spec fn spec_parse_unsigned(s: Seq<char>, max: u64) -> Option<u64> {
    let t = if s.len() > 0 && s[0] == '+' {
        s.drop_first()
    } else {
        s
    };
    if t.len() > 0 && all_digits(t) && digits_value(t) <= max {
        Some(digits_value(t) as u64)
    } else {
        None
    }
}

/// The unsigned integer written in `s[from..to]` (see `spec_parse_unsigned`).
pub fn parse_unsigned(s: &Vec<char>, from: usize, to: usize, max: u64) -> (r: Option<u64>)
    requires
        from <= to <= s.len(),
        max >= 9,
    ensures
        r == spec_parse_unsigned(s@.subrange(from as int, to as int), max),
{
    let ghost w = s@.subrange(from as int, to as int);
    let mut a = from;
    if a < to && s[a] == '+' {
        a = a + 1;
    }
    let ghost t = if w.len() > 0 && w[0] == '+' {
        w.drop_first()
    } else {
        w
    };
    assert(s@.subrange(a as int, to as int) =~= t);
    if a == to {
        return None;
    }
    let mut i = a;
    while i < to
        invariant
            from <= a <= i <= to <= s.len(),
            s@.subrange(a as int, to as int) == t,
            t.len() > 0,
            w == s@.subrange(from as int, to as int),
            t == if w.len() > 0 && w[0] == '+' {
                w.drop_first()
            } else {
                w
            },
            forall|q: int| a <= q < i ==> is_digit(#[trigger] s@[q]),
        decreases to - i,
    {
        if !('0' <= s[i] && s[i] <= '9') {
            assert(!is_digit(s@.subrange(a as int, to as int)[i - a]));
            return None;
        }
        i = i + 1;
    }
    assert(all_digits(s@.subrange(a as int, to as int)));
    digits_upto(s, a, to, max)
}

} // verus!
