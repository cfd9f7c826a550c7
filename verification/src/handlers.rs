//! The decisions of the static-file and redirect handlers: which file a
//! request path names, which byte ranges a `Range` header asks for, which
//! response answers a file error, and which status a redirect uses.
use crate::respond::{html_error_handler, plain_handler, RespondHandler, RespondHandlerV};
use crate::text::{
    all_digits, concat, decimal, digits_value, find, find_from, has_char, has_prefix, has_suffix,
    is_digit, is_ws, lemma_decimal_digits, lemma_find_from, parse_unsigned, push_decimal,
    rtrim_end, slice_vec, span_end, spec_parse_unsigned, starts_at, string_of, string_of_all,
    tag_at, to_chars, trim, trim_end, trim_start, trim_exec, CharClass,
};
use crate::hints::{finishes, lit};
use crate::uri::opt_view;
use vstd::prelude::*;

verus! {

broadcast use vstd::string::group_string_axioms;

// ---------------------------------------------------------------------------
// File handler
// ---------------------------------------------------------------------------

/// Serves a file, or the files under a directory when `path` ends with `/`.
#[derive(PartialEq, Debug)]
pub struct FileHandler {
    pub path: String,
    pub is_dir: bool,
    pub route: String,
}

impl FileHandler {
    /// A handler serving `path` for the route `route`.
    pub fn new(path: String, route: String) -> (r: FileHandler)
        ensures
            r.path@ == path@,
            r.route@ == route@,
            r.is_dir == has_suffix(path@, "/"@),
    {
        let v = to_chars(path.as_str());
        let is_dir = finishes(&v, "/");
        FileHandler { is_dir, path, route }
    }
}

/// The last position where `t` occurs in `s` at or before `i`.
pub open spec fn rfind_upto(s: Seq<char>, t: Seq<char>, i: int) -> Option<int>
    decreases i + 1,
{
    if i < 0 {
        None
    } else if starts_at(s, i, t) {
        Some(i)
    } else {
        rfind_upto(s, t, i - 1)
    }
}

/// The last position where `t` occurs in `s` (`str::rfind`).
pub open spec fn rfind(s: Seq<char>, t: Seq<char>) -> Option<int> {
    rfind_upto(s, t, s.len() - t.len())
}

/// The part of `req_path` after the route's prefix: the route up to its last
/// `"/*"`, with the `/`, is looked up in `req_path` and what follows its first
/// occurrence is the ending. `None` when the route has no `"/*"` or the
/// prefix does not occur.
pub open spec fn spec_extract_ending(req_path: Seq<char>, route: Seq<char>) -> Option<Seq<char>> {
    match rfind(route, "/*"@) {
        None => None,
        Some(k) => {
            let prefix = route.take(k + 1);
            match find_from(req_path, prefix, 0) {
                None => None,
                Some(i) => Some(req_path.skip(i + prefix.len())),
            }
        },
    }
}

pub proof fn lemma_rfind_upto(s: Seq<char>, t: Seq<char>, i: int)
    ensures
        rfind_upto(s, t, i) matches Some(p) ==> 0 <= p <= i && starts_at(s, p, t),
    decreases i + 1,
{
    if i >= 0 && !starts_at(s, i, t) {
        lemma_rfind_upto(s, t, i - 1);
    }
}

fn rfind_exec(s: &Vec<char>, t: &Vec<char>) -> (r: Option<usize>)
    ensures
        r matches Some(p) ==> rfind(s@, t@) == Some(p as int),
        r is None ==> rfind(s@, t@) is None,
{
    if t.len() > s.len() {
        return None;
    }
    let mut i: usize = s.len() - t.len();
    loop
        invariant
            t.len() <= s.len(),
            i <= s.len() - t.len(),
            rfind_upto(s@, t@, i as int) == rfind(s@, t@),
        decreases i,
    {
        if tag_at(s, i, t) {
            return Some(i);
        }
        if i == 0 {
            assert(rfind_upto(s@, t@, -1) is None);
            return None;
        }
        i = i - 1;
    }
}

/// The file path below a directory route that a request path names.
pub fn extract_ending_from_req_path(req_path: &str, route: &str) -> (r: Option<String>)
    ensures
        match r {
            Some(e) => spec_extract_ending(req_path@, route@) == Some(e@),
            None => spec_extract_ending(req_path@, route@) is None,
        },
{
    let rv = to_chars(route);
    let req = to_chars(req_path);
    let k = match rfind_exec(&rv, &lit("/*")) {
        Some(k) => k,
        None => return None,
    };
    proof {
        reveal_strlit("/*");
        lemma_rfind_upto(rv@, "/*"@, rv@.len() - 2);
        assert(starts_at(rv@, k as int, "/*"@));
        assert(k + 2 <= rv.len());
    }
    let prefix = slice_vec(&rv, 0, k + 1);
    assert(prefix@ =~= rv@.take(k + 1));
    match find(&req, &prefix) {
        None => None,
        Some(i) => {
            proof {
                lemma_find_from(req@, prefix@, 0);
                assert(starts_at(req@, i as int, prefix@));
                assert(i + prefix.len() <= req.len());
            }
            Some(string_of(&req, i + prefix.len(), req.len()))
        },
    }
}

// ---------------------------------------------------------------------------
// Range header
// ---------------------------------------------------------------------------

/// What one comma-separated part of a `Range` header contributes.
pub enum RangePart {
    /// Nothing: the part is blank or has no `-`.
    Skip,
    /// The byte range from the first to the last position, both included.
    Range(u64, u64),
    /// The part makes the header invalid.
    Invalid,
}

/// The first position of `c` in `s` at or after `i`, or the length of `s`.
pub open spec fn next_char(s: Seq<char>, c: char, i: int) -> int
    decreases s.len() - i,
{
    if i < 0 || i >= s.len() || s[i] == c {
        i
    } else {
        next_char(s, c, i + 1)
    }
}

pub proof fn lemma_next_char(s: Seq<char>, c: char, i: int)
    requires
        0 <= i <= s.len(),
    ensures
        i <= next_char(s, c, i) <= s.len(),
        next_char(s, c, i) < s.len() ==> s[next_char(s, c, i)] == c,
        forall|q: int| i <= q < next_char(s, c, i) ==> s[q] != c,
    decreases s.len() - i,
{
    if i < s.len() && s[i] != c {
        lemma_next_char(s, c, i + 1);
    }
}

/// One part, trimmed, split at its first `-` into a first and a last
/// position, each parsed as `u64` when present.
pub open spec fn spec_range_part(part: Seq<char>, size: u64) -> RangePart {
    let p = trim(part);
    let k = next_char(p, '-', 0);
    if p.len() == 0 || k >= p.len() {
        RangePart::Skip
    } else {
        let a = spec_parse_unsigned(p.take(k), u64::MAX);
        let b = spec_parse_unsigned(p.skip(k + 1), u64::MAX);
        if a is Some && b is Some && a.unwrap() <= b.unwrap() && b.unwrap() < size {
            RangePart::Range(a.unwrap(), b.unwrap())
        } else if a is Some && b is None && a.unwrap() < size {
            RangePart::Range(a.unwrap(), (size - 1) as u64)
        } else if a is None && b is Some && b.unwrap() > 0 && size > 0 {
            RangePart::Range(
                if size >= b.unwrap() {
                    (size - b.unwrap()) as u64
                } else {
                    0
                },
                (size - 1) as u64,
            )
        } else {
            RangePart::Invalid
        }
    }
}

/// The outcome of reading the parts of a `Range` header.
pub enum RangeScan {
    Done(Seq<(u64, u64)>),
    Invalid,
}

/// The ranges of the comma-separated parts of `s` from the part that starts
/// at `i` on, read in order; the first invalid part ends the reading.
pub open spec fn scan_ranges(s: Seq<char>, i: int, size: u64) -> RangeScan
    decreases s.len() + 1 - i,
{
    if i < 0 || i > s.len() {
        RangeScan::Done(Seq::empty())
    } else {
        let j = next_char(s, ',', i);
        proof {
            lemma_next_char(s, ',', i);
        }
        match spec_range_part(s.subrange(i, j), size) {
            RangePart::Skip => scan_ranges(s, j + 1, size),
            RangePart::Invalid => RangeScan::Invalid,
            RangePart::Range(a, b) => match scan_ranges(s, j + 1, size) {
                RangeScan::Done(rest) => RangeScan::Done(seq![(a, b)] + rest),
                other => other,
            },
        }
    }
}

/// What `parse_range` makes of a `Range` header for a file of `size` bytes:
/// the byte ranges it asks for, or `None` when it is invalid or asks for
/// nothing. No range of an empty file can be satisfied.
pub open spec fn spec_parse_range(range: Seq<char>, size: u64) -> Option<Seq<(u64, u64)>> {
    if !has_prefix(range, "bytes="@) {
        None
    } else {
        match scan_ranges(range.skip(6), 0, size) {
            RangeScan::Done(rs) => if rs.len() == 0 {
                None
            } else {
                Some(rs)
            },
            RangeScan::Invalid => None,
        }
    }
}

/// `acc` followed by what the reading yields.
pub open spec fn prepend(acc: Seq<(u64, u64)>, r: RangeScan) -> RangeScan {
    match r {
        RangeScan::Done(rest) => RangeScan::Done(acc + rest),
        other => other,
    }
}

fn range_part(s: &Vec<char>, from: usize, to: usize, size: u64) -> (r: RangePart)
    requires
        from <= to <= s.len(),
    ensures
        r == spec_range_part(s@.subrange(from as int, to as int), size),
{
    let part = slice_vec(s, from, to);
    let p = trim_exec(&part);
    let mut k: usize = 0;
    while k < p.len() && p[k] != '-'
        invariant
            k <= p.len(),
            next_char(p@, '-', k as int) == next_char(p@, '-', 0),
        decreases p.len() - k,
    {
        k = k + 1;
    }
    if p.len() == 0 || k >= p.len() {
        return RangePart::Skip;
    }
    let a = parse_unsigned(&p, 0, k, u64::MAX);
    let b = parse_unsigned(&p, k + 1, p.len(), u64::MAX);
    assert(p@.subrange(0, k as int) =~= p@.take(k as int));
    assert(p@.subrange(k + 1, p@.len() as int) =~= p@.skip(k + 1));
    match (a, b) {
        (Some(x), Some(y)) if x <= y && y < size => RangePart::Range(x, y),
        (Some(x), None) if x < size => RangePart::Range(x, size - 1),
        (None, Some(y)) if y > 0 && size > 0 => RangePart::Range(size.saturating_sub(y), size - 1),
        _ => RangePart::Invalid,
    }
}

/// The byte ranges of a `Range` header for a file of `file_size` bytes, in
/// the order given; `None` when the header does not start with `bytes=`,
/// when a part is malformed or out of the file (on an empty file, every
/// part that asks for bytes is), or when it asks for nothing.
pub fn parse_range(range: &str, file_size: u64) -> (r: Option<Vec<(u64, u64)>>)
    ensures
        spec_parse_range(range@, file_size) == match r {
            Some(v) => Some(v@),
            None => None,
        },
{
    let all = to_chars(range);
    if !tag_at(&all, 0, &lit("bytes=")) {
        proof {
            reveal_strlit("bytes=");
            assert(!has_prefix(range@, "bytes="@));
        }
        return None;
    }
    proof {
        reveal_strlit("bytes=");
    }
    let s = slice_vec(&all, 6, all.len());
    assert(s@ =~= range@.skip(6));
    let mut ranges: Vec<(u64, u64)> = Vec::new();
    let mut i: usize = 0;
    loop
        invariant_except_break
            prepend(ranges@, scan_ranges(s@, i as int, file_size)) == scan_ranges(
                s@,
                0,
                file_size,
            ),
        invariant
            i <= s.len(),
            s@ == range@.skip(6),
            has_prefix(range@, "bytes="@),
        ensures
            scan_ranges(s@, 0, file_size) == RangeScan::Done(ranges@),
        decreases s.len() + 1 - i,
    {
        let mut j = i;
        while j < s.len() && s[j] != ','
            invariant
                i <= j <= s.len(),
                next_char(s@, ',', j as int) == next_char(s@, ',', i as int),
            decreases s.len() - j,
        {
            j = j + 1;
        }
        proof {
            lemma_next_char(s@, ',', i as int);
            assert(next_char(s@, ',', j as int) == j);
        }
        match range_part(&s, i, j, file_size) {
            RangePart::Skip => {},
            RangePart::Invalid => {
                return None;
            },
            RangePart::Range(a, b) => {
                let ghost old_ranges = ranges@;
                ranges.push((a, b));
                assert(old_ranges + (seq![(a, b)] + Seq::empty()) =~= ranges@);
                proof {
                    match scan_ranges(s@, j + 1, file_size) {
                        RangeScan::Done(rest) => {
                            assert(old_ranges + (seq![(a, b)] + rest) =~= ranges@ + rest);
                        },
                        _ => {},
                    }
                }
            },
        }
        if j >= s.len() {
            assert(scan_ranges(s@, j + 1, file_size) == RangeScan::Done(Seq::<(u64, u64)>::empty()));
            assert(ranges@ + Seq::<(u64, u64)>::empty() =~= ranges@);
            break;
        }
        i = j + 1;
    }
    assert(ranges@ + Seq::<(u64, u64)>::empty() =~= ranges@);
    if ranges.len() == 0 {
        None
    } else {
        Some(ranges)
    }
}

/// Every range that a `Range` header yields lies within the file: its first
/// position is at most its last, and its last is before the end.
pub proof fn lemma_ranges_within_file(range: Seq<char>, size: u64)
    requires
        spec_parse_range(range, size) is Some,
    ensures
        forall|k: int|
            0 <= k < spec_parse_range(range, size).unwrap().len() ==> {
                let (a, b) = #[trigger] spec_parse_range(range, size).unwrap()[k];
                a <= b < size
            },
{
    lemma_scan_within(range.skip(6), 0, size);
}

proof fn lemma_scan_within(s: Seq<char>, i: int, size: u64)
    ensures
        scan_ranges(s, i, size) matches RangeScan::Done(rs) ==> forall|k: int|
            0 <= k < rs.len() ==> {
                let (a, b) = #[trigger] rs[k];
                a <= b < size
            },
    decreases s.len() + 1 - i,
{
    if 0 <= i <= s.len() {
        lemma_next_char(s, ',', i);
        let j = next_char(s, ',', i);
        lemma_scan_within(s, j + 1, size);
        match scan_ranges(s, j + 1, size) {
            RangeScan::Done(rest) => {
                match spec_range_part(s.subrange(i, j), size) {
                    RangePart::Range(a, b) => {
                        assert(a <= b < size);
                        let rs = seq![(a, b)] + rest;
                        assert forall|k: int| 0 <= k < rs.len() implies {
                            let (x, y) = #[trigger] rs[k];
                            x <= y < size
                        } by {
                            if k > 0 {
                                assert(rs[k] == rest[k - 1]);
                            }
                        }
                    },
                    _ => {},
                }
            },
            _ => {},
        }
    }
}

// ---------------------------------------------------------------------------
// File errors and redirects
// ---------------------------------------------------------------------------

/// The kinds of failure of a file operation that the file handler tells
/// apart.
#[derive(PartialEq, Eq, Debug, Clone, Copy)]
pub enum FileErrorKind {
    NotFound,
    PermissionDenied,
    IsADirectory,
    Other,
}

/// The response to a failed file operation: `404` without a body when the
/// file does not exist, `403` without a body when access is denied or the
/// path is a directory, and the HTML page of `500` otherwise.
pub fn file_error_response(error: FileErrorKind) -> (r: RespondHandler)
    ensures
        r@ == match error {
            FileErrorKind::NotFound => plain_handler(404, None),
            FileErrorKind::PermissionDenied | FileErrorKind::IsADirectory => plain_handler(
                403,
                None,
            ),
            FileErrorKind::Other => html_error_handler(
                500,
                "Internal Server Error"@,
                "The server encountered an internal error and was unable to complete your request."@,
            ),
        },
{
    match error {
        FileErrorKind::NotFound => RespondHandler::new(404, None),
        FileErrorKind::PermissionDenied => RespondHandler::new(403, None),
        FileErrorKind::IsADirectory => RespondHandler::new(403, None),
        FileErrorKind::Other => RespondHandler::internal_server_error(),
    }
}

/// `302 Found` as a number (`http::StatusCode::FOUND`, whose `as_u16` the
/// `http` crate defines as 302).
#[verifier::external_body]
fn found_status() -> (r: u16)
    ensures
        r == 302,
{
    http::StatusCode::FOUND.as_u16()
}

/// Redirects every request to a fixed location.
#[derive(PartialEq, Debug)]
pub struct RedirectHandler {
    path: String,
    status_code: Option<u16>,
}

/// A `RedirectHandler` as plain values: the target and the configured status.
pub struct RedirectHandlerV {
    pub path: Seq<char>,
    pub status_code: Option<u16>,
}

impl View for RedirectHandler {
    type V = RedirectHandlerV;

    closed spec fn view(&self) -> RedirectHandlerV {
        RedirectHandlerV { path: self.path@, status_code: self.status_code }
    }
}

impl RedirectHandler {
    /// A redirect to `path` with `status_code` (302 when `None`).
    pub fn new(path: String, status_code: Option<u16>) -> (r: Self)
        ensures
            r@ == (RedirectHandlerV { path: path@, status_code }),
    {
        Self { path, status_code }
    }

    /// The target path, for the `Location` header.
    pub fn path(&self) -> (r: &str)
        ensures
            r@ == self@.path,
    {
        self.path.as_str()
    }

    /// The status of the response: the configured one, else `302 Found`.
    pub fn status(&self) -> (r: u16)
        ensures
            r == match self@.status_code {
                Some(c) => c,
                None => 302,
            },
    {
        match self.status_code {
            Some(c) => c,
            None => found_status(),
        }
    }
}

// ---------------------------------------------------------------------------
// Serving a file
// ---------------------------------------------------------------------------

/// The request methods that the file handler tells apart.
#[derive(PartialEq, Eq, Debug, Clone, Copy)]
pub enum RequestMethod {
    Get,
    Head,
    Other,
}

/// The name of the `Allow` header field as the `http` crate writes it
/// (`http::header::ALLOW`, `"allow"` in the crate's table of standard
/// headers).
#[verifier::external_body]
fn allow_name() -> (r: String)
    ensures
        r@ == "allow"@,
{
    http::header::ALLOW.to_string()
}

/// The content type that `mimee` gives a file path (by its extension).
pub uninterp spec fn mime_type_of(path: Seq<char>) -> Option<Seq<char>>;

/// The content type of the file at `path`: `mimee::MimeDict::get_content_type`
/// on a dictionary made by `MimeDict::new`. The contract claims that the
/// answer is a function of the path (`mime_type_of`) and, as the crate's
/// source shows, that a path without a `.` has none; which extensions are
/// known is not stated.
#[verifier::external_body]
fn content_type_of(path: &str) -> (r: Option<String>)
    ensures
        match r {
            Some(t) => mime_type_of(path@) == Some(t@),
            None => mime_type_of(path@) is None,
        },
        !has_char(path@, '.') ==> r is None,
{
    mimee::MimeDict::new().get_content_type(path)
}

impl FileHandler {
    /// The file handler answers `GET` and `HEAD` only.
    pub fn accepts(method: RequestMethod) -> (b: bool)
        ensures
            b == (method == RequestMethod::Get || method == RequestMethod::Head),
    {
        match method {
            RequestMethod::Get => true,
            RequestMethod::Head => true,
            RequestMethod::Other => false,
        }
    }

    /// The answer to another method: `405` with `Allow: GET, HEAD` and no
    /// body.
    pub fn method_not_allowed() -> (r: RespondHandler)
        ensures
            r@ == (RespondHandlerV {
                status: 405,
                body: None,
                headers: seq![("allow"@, "GET, HEAD"@)],
            }),
    {
        let mut h: Vec<(String, String)> = Vec::new();
        h.push((allow_name(), "GET, HEAD".to_string()));
        let r = RespondHandler::with_headers(405, None, h);
        assert(r@.headers =~= seq![("allow"@, "GET, HEAD"@)]);
        r
    }

    /// What to open once the configured path was found: `None` for the path
    /// itself; for a directory handler, the ending of the request path below
    /// the route (see `extract_ending_from_req_path`), or `NotFound` when there
    /// is none; `IsADirectory` when the path is a directory and the handler is
    /// not a directory handler.
    pub fn target(&self, path_is_dir: bool, req_path: &str) -> (r: Result<Option<String>, FileErrorKind>)
        ensures
            path_is_dir && !self.is_dir ==> r == Err::<Option<String>, FileErrorKind>(
                FileErrorKind::IsADirectory,
            ),
            !(path_is_dir && !self.is_dir) && !self.is_dir ==> r is Ok && r->Ok_0 is None,
            !(path_is_dir && !self.is_dir) && self.is_dir ==> match spec_extract_ending(
                req_path@,
                self.route@,
            ) {
                Some(e) => r matches Ok(Some(t)) && t@ == e,
                None => r == Err::<Option<String>, FileErrorKind>(FileErrorKind::NotFound),
            },
    {
        if path_is_dir && !self.is_dir {
            return Err(FileErrorKind::IsADirectory);
        }
        if self.is_dir {
            match extract_ending_from_req_path(req_path, self.route.as_str()) {
                None => Err(FileErrorKind::NotFound),
                Some(e) => Ok(Some(e)),
            }
        } else {
            Ok(None)
        }
    }
}

/// A header field of a file response.
#[derive(PartialEq, Eq, Debug, Clone)]
pub enum FileHeader {
    ContentType(String),
    ContentLength(u64),
    AcceptRanges(String),
    ContentRange(String),
}

/// What a file response sends of the file.
#[derive(PartialEq, Eq, Debug, Clone, Copy)]
pub enum FileBody {
    /// The whole file.
    Whole,
    /// `length` bytes from position `start`.
    Slice { start: u64, length: u64 },
    /// Nothing.
    Empty,
}

/// The response to a request for a file.
#[derive(PartialEq, Eq, Debug)]
pub struct FileResponse {
    pub status: u16,
    pub headers: Vec<FileHeader>,
    pub body: FileBody,
}

/// A header field as plain values.
pub enum FileHeaderV {
    ContentType(Seq<char>),
    ContentLength(u64),
    AcceptRanges(Seq<char>),
    ContentRange(Seq<char>),
}

impl View for FileHeader {
    type V = FileHeaderV;

    open spec fn view(&self) -> FileHeaderV {
        match self {
            FileHeader::ContentType(t) => FileHeaderV::ContentType(t@),
            FileHeader::ContentLength(n) => FileHeaderV::ContentLength(*n),
            FileHeader::AcceptRanges(t) => FileHeaderV::AcceptRanges(t@),
            FileHeader::ContentRange(t) => FileHeaderV::ContentRange(t@),
        }
    }
}

pub open spec fn file_headers_view(h: Seq<FileHeader>) -> Seq<FileHeaderV> {
    h.map_values(|x: FileHeader| x@)
}

/// The header fields every file response starts with: its content type when
/// known, its length for `HEAD`, and that byte ranges are accepted.
pub open spec fn base_file_headers(is_head: bool, content_type: Option<Seq<char>>, size: u64) -> Seq<
    FileHeaderV,
> {
    (match content_type {
        Some(t) => seq![FileHeaderV::ContentType(t)],
        None => Seq::empty(),
    }) + (if is_head {
        seq![FileHeaderV::ContentLength(size)]
    } else {
        Seq::empty()
    }) + seq![FileHeaderV::AcceptRanges("bytes"@)]
}

/// The response to a request for the file `name` of `size` bytes, with the
/// `Range` header `range` (absent, not text, or its text); its content type
/// is the one its name gives (see `mime_type_of`): `200` with the whole file when
/// there is no `Range` header; `416` with `Content-Range: bytes */size` and
/// nothing else when it is not text or asks for no valid range; else `206`
/// with the first range asked for, its length and its `Content-Range`.
pub open spec fn spec_file_response(
    is_head: bool,
    range: Option<Option<Seq<char>>>,
    name: Seq<char>,
    size: u64,
) -> (u16, Seq<FileHeaderV>, FileBody) {
    let base = base_file_headers(is_head, mime_type_of(name), size);
    let unsatisfiable = (
        416u16,
        seq![FileHeaderV::ContentRange("bytes */"@ + decimal(size as nat))],
        FileBody::Empty,
    );
    match range {
        None => (200u16, base, FileBody::Whole),
        Some(None) => unsatisfiable,
        Some(Some(t)) => match spec_parse_range(t, size) {
            Some(rs) => {
                let (a, b) = rs[0];
                (
                    206u16,
                    base + seq![
                        FileHeaderV::ContentLength((b - a + 1) as u64),
                        FileHeaderV::ContentRange(
                            "bytes "@ + decimal(a as nat) + "-"@ + decimal(b as nat) + "/"@
                                + decimal(size as nat),
                        ),
                    ],
                    FileBody::Slice { start: a, length: (b - a + 1) as u64 },
                )
            },
            None => unsatisfiable,
        },
    }
}

pub open spec fn opt_str_view(o: Option<Option<&str>>) -> Option<Option<Seq<char>>> {
    match o {
        None => None,
        Some(None) => Some(None),
        Some(Some(t)) => Some(Some(t@)),
    }
}

/// The response to a file request (see `spec_file_response`).
pub fn file_response(
    is_head: bool,
    range: Option<Option<&str>>,
    file_name: &str,
    file_size: u64,
) -> (r: FileResponse)
    ensures
        (r.status, file_headers_view(r.headers@), r.body) == spec_file_response(
            is_head,
            opt_str_view(range),
            file_name@,
            file_size,
        ),
{
    let content_type = content_type_of(file_name);
    let ghost ct = opt_view(content_type);
    let mut headers: Vec<FileHeader> = Vec::new();
    match content_type {
        Some(t) => headers.push(FileHeader::ContentType(t)),
        None => {},
    }
    if is_head {
        headers.push(FileHeader::ContentLength(file_size));
    }
    headers.push(FileHeader::AcceptRanges("bytes".to_string()));
    assert(file_headers_view(headers@) =~= base_file_headers(is_head, ct, file_size));
    let mut unsat = to_chars("bytes */");
    push_decimal(&mut unsat, file_size as u128);
    let text = match range {
        None => {
            return FileResponse { status: 200, headers, body: FileBody::Whole };
        },
        Some(None) => {
            let mut h: Vec<FileHeader> = Vec::new();
            h.push(FileHeader::ContentRange(string_of_all(&unsat)));
            assert(file_headers_view(h@) =~= seq![
                FileHeaderV::ContentRange("bytes */"@ + decimal(file_size as nat)),
            ]);
            return FileResponse { status: 416, headers: h, body: FileBody::Empty };
        },
        Some(Some(t)) => t,
    };
    match parse_range(text, file_size) {
        Some(rs) => {
            proof {
                lemma_ranges_within_file(text@, file_size);
                let first = spec_parse_range(text@, file_size).unwrap()[0];
                assert(first == rs@[0]);
            }
            let (a, b) = rs[0];
            assert(a <= b < file_size);
            let length = b - a + 1;
            let mut cr = to_chars("bytes ");
            push_decimal(&mut cr, a as u128);
            cr = concat(&cr, &to_chars("-"));
            push_decimal(&mut cr, b as u128);
            cr = concat(&cr, &to_chars("/"));
            push_decimal(&mut cr, file_size as u128);
            let ghost base = headers@;
            headers.push(FileHeader::ContentLength(length));
            headers.push(FileHeader::ContentRange(string_of_all(&cr)));
            assert(file_headers_view(headers@) =~= file_headers_view(base) + seq![
                FileHeaderV::ContentLength((b - a + 1) as u64),
                FileHeaderV::ContentRange(
                    "bytes "@ + decimal(a as nat) + "-"@ + decimal(b as nat) + "/"@ + decimal(
                        file_size as nat,
                    ),
                ),
            ]);
            FileResponse { status: 206, headers, body: FileBody::Slice { start: a, length } }
        },
        None => {
            let mut h: Vec<FileHeader> = Vec::new();
            h.push(FileHeader::ContentRange(string_of_all(&unsat)));
            assert(file_headers_view(h@) =~= seq![
                FileHeaderV::ContentRange("bytes */"@ + decimal(file_size as nat)),
            ]);
            FileResponse { status: 416, headers: h, body: FileBody::Empty }
        },
    }
}

/// Whatever `Range` header a file request carries, a `206` answer sends
/// exactly the first range it asks for: the body starts at that range's
/// first byte and ends at its last byte, which lies in the file, and the
/// last two header fields give that length and that range.
pub proof fn lemma_partial_body_is_first_range(is_head: bool, t: Seq<char>, name: Seq<char>, size: u64)
    ensures
        ({
            let r = spec_file_response(is_head, Some(Some(t)), name, size);
            match r.2 {
                FileBody::Slice { start, length } => {
                    let (a, b) = spec_parse_range(t, size).unwrap()[0];
                    &&& r.0 == 206
                    &&& spec_parse_range(t, size) is Some
                    &&& start == a && start + length == b + 1 && b < size
                    &&& r.1[r.1.len() - 2] == FileHeaderV::ContentLength(length)
                    &&& r.1[r.1.len() - 1] == FileHeaderV::ContentRange(
                        "bytes "@ + decimal(a as nat) + "-"@ + decimal(b as nat) + "/"@ + decimal(
                            size as nat,
                        ),
                    )
                },
                FileBody::Empty => r.0 == 416 && spec_parse_range(t, size) is None,
                FileBody::Whole => false,
            }
        }),
{
    if spec_parse_range(t, size) is Some {
        lemma_ranges_within_file(t, size);
        assert(spec_parse_range(t, size).unwrap().len() > 0);
    }
}

/// A request for the bytes `a` to `b` of a file (both included, both within
/// the file), written `bytes=a-b`, is answered `206` with exactly those
/// bytes: `b - a + 1` of them from position `a`, with that `Content-Length`
/// and the `Content-Range` `bytes a-b/size`.
pub proof fn lemma_range_request_served(is_head: bool, name: Seq<char>, a: u64, b: u64, size: u64)
    requires
        a <= b < size,
    ensures
        ({
            let t = "bytes="@ + decimal(a as nat) + "-"@ + decimal(b as nat);
            let r = spec_file_response(is_head, Some(Some(t)), name, size);
            &&& spec_parse_range(t, size) == Some(seq![(a, b)])
            &&& r.0 == 206
            &&& r.2 == FileBody::Slice { start: a, length: (b - a + 1) as u64 }
            &&& r.1[r.1.len() - 2] == FileHeaderV::ContentLength((b - a + 1) as u64)
            &&& r.1[r.1.len() - 1] == FileHeaderV::ContentRange(
                "bytes "@ + decimal(a as nat) + "-"@ + decimal(b as nat) + "/"@ + decimal(
                    size as nat,
                ),
            )
        }),
{
    reveal_strlit("bytes=");
    reveal_strlit("-");
    let da = decimal(a as nat);
    let db = decimal(b as nat);
    lemma_decimal_digits(a as nat);
    lemma_decimal_digits(b as nat);
    let t = "bytes="@ + da + "-"@ + db;
    assert(t.subrange(0, 6) =~= "bytes="@);
    assert(has_prefix(t, "bytes="@));
    let s = t.skip(6);
    assert(s =~= da + "-"@ + db);
    let n = da.len() as int;
    assert(s.len() == n + 1 + db.len());
    assert forall|q: int| 0 <= q < n implies #[trigger] s[q] == da[q] && is_digit(s[q]) by {
        assert(is_digit(da[q]));
    }
    assert(s[n] == '-');
    assert forall|q: int| n < q < s.len() implies #[trigger] s[q] == db[q - n - 1] && is_digit(s[q]) by {
        assert(is_digit(db[q - n - 1]));
    }
    // No comma: the header has one part.
    lemma_next_char(s, ',', 0);
    let j = next_char(s, ',', 0);
    if j < s.len() {
        assert(s[j] == ',');
        if j < n {
            assert(is_digit(s[j]));
        } else if j > n {
            assert(is_digit(s[j]));
        }
        assert(false);
    }
    assert(j == s.len());
    assert(s.subrange(0, j) =~= s);
    // The part has no surrounding white space.
    assert(!is_ws(s[0]));
    assert(span_end(s, 0, CharClass::Ws) == 0);
    assert(trim_start(s) =~= s);
    assert(!is_ws(s[s.len() - 1]));
    assert(rtrim_end(s, s.len() as int) == s.len());
    assert(trim_end(s) =~= s);
    assert(trim(s) == s);
    // The part splits at its `-`.
    lemma_next_char(s, '-', 0);
    let k = next_char(s, '-', 0);
    if k < n {
        assert(is_digit(s[k]));
        assert(false);
    }
    if k > n {
        assert(s[n] != '-');
    }
    assert(k == n);
    assert(s.take(k) =~= da);
    assert(s.skip(k + 1) =~= db);
    assert(spec_parse_unsigned(da, u64::MAX) == Some(a));
    assert(spec_parse_unsigned(db, u64::MAX) == Some(b));
    assert(spec_range_part(s.subrange(0, j), size) == RangePart::Range(a, b));
    assert(scan_ranges(s, j + 1, size) == RangeScan::Done(Seq::<(u64, u64)>::empty()));
    assert(seq![(a, b)] + Seq::<(u64, u64)>::empty() =~= seq![(a, b)]);
    assert(scan_ranges(s, 0, size) == RangeScan::Done(seq![(a, b)]));
    assert(spec_parse_range(t, size) == Some(seq![(a, b)]));
}

} // verus!
