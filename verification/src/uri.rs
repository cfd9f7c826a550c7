//! URIs as plain values: the parts of a parsed URI that this crate reads, and
//! the port that a URI designates.
use crate::text::string_eq_str;
use vstd::prelude::*;

verus! {

/// The parts of a URI that this crate reads.
#[derive(Clone, Debug, PartialEq, Eq)]
pub struct UriParts {
    /// The host of the authority, if there is an authority.
    pub host: Option<String>,
    /// The explicit port of the authority, if any.
    pub port: Option<u16>,
    /// The scheme, if any (`"http"`, `"https"` or another).
    pub scheme: Option<String>,
}

pub open spec fn opt_view(o: Option<String>) -> Option<Seq<char>> {
    match o {
        Some(s) => Some(s@),
        None => None,
    }
}

/// `UriParts` as plain values: host, port, scheme.
pub type UriPartsV = (Option<Seq<char>>, Option<u16>, Option<Seq<char>>);

impl View for UriParts {
    type V = UriPartsV;

    open spec fn view(&self) -> UriPartsV {
        (opt_view(self.host), self.port, opt_view(self.scheme))
    }
}

/// What the `http` crate's URI parser makes of `s`: its parts, or the text of
/// its error.
pub uninterp spec fn http_uri_parse(s: Seq<char>) -> Result<UriPartsV, Seq<char>>;

pub open spec fn parse_result_view(r: Result<UriParts, String>) -> Result<UriPartsV, Seq<char>> {
    match r {
        Ok(p) => Ok(p@),
        Err(e) => Err(e@),
    }
}

/// Parses `s` with `<http::Uri as FromStr>::from_str` and reads its host
/// (`Uri::host`), explicit port (`Uri::port_u16`) and scheme
/// (`Uri::scheme_str`); on failure, the `Display` text of `http::uri::InvalidUri`.
/// The contract claims only that the outcome is a function of `s`
/// (`http_uri_parse`); nothing is stated of which strings parse.
#[verifier::external_body]
pub(crate) fn parse_uri(s: &str) -> (r: Result<UriParts, String>)
    ensures
        parse_result_view(r) == http_uri_parse(s@),
{
    match s.parse::<http::Uri>() {
        Ok(u) => Ok(
            UriParts {
                host: u.host().map(|h| h.to_string()),
                port: u.port_u16(),
                scheme: u.scheme_str().map(|x| x.to_string()),
            },
        ),
        Err(e) => Err(e.to_string()),
    }
}

/// The port a URI designates: its explicit port, else 443 for the `https`
/// scheme and 80 for any other scheme or none.
pub open spec fn designated_port(port: Option<u16>, scheme: Option<Seq<char>>) -> u16 {
    match port {
        Some(p) => p,
        None => if scheme == Some("https"@) {
            443
        } else {
            80
        },
    }
}

/// The port of a URI (explicit, or the default of its scheme).
pub trait UriExt {
    spec fn spec_port(&self) -> u16;

    fn get_port(&self) -> (p: u16)
        ensures
            p == self.spec_port(),
    ;
}

impl UriExt for UriParts {
    open spec fn spec_port(&self) -> u16 {
        designated_port(self.port, opt_view(self.scheme))
    }

    fn get_port(&self) -> (p: u16) {
        match self.port {
            Some(p) => p,
            None => match &self.scheme {
                Some(s) => if string_eq_str(s, "https") {
                    443
                } else {
                    80
                },
                None => 80,
            },
        }
    }
}

} // verus!
