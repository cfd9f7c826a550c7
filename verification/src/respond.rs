//! Fixed responses: a status, an optional body and header fields to set,
//! with the HTML error pages the server answers with.
use crate::text::{concat, decimal, push_decimal, string_of_all, to_chars};
use vstd::prelude::*;

verus! {

broadcast use vstd::string::group_string_axioms;

/// A response with a fixed status, body and header fields.
#[derive(PartialEq, Debug)]
pub struct RespondHandler {
    status: u16,
    body: Option<String>,
    set_headers: Vec<(String, String)>,
}

/// A `RespondHandler` as plain values.
pub struct RespondHandlerV {
    pub status: u16,
    pub body: Option<Seq<char>>,
    pub headers: Seq<(Seq<char>, Seq<char>)>,
}

pub open spec fn headers_view(h: Seq<(String, String)>) -> Seq<(Seq<char>, Seq<char>)> {
    h.map_values(|p: (String, String)| (p.0@, p.1@))
}

/// No header name occurs twice.
pub open spec fn distinct_names(h: Seq<(Seq<char>, Seq<char>)>) -> bool {
    forall|i: int, j: int| 0 <= i < j < h.len() ==> h[i].0 != h[j].0
}

impl RespondHandler {
    /// A header name occurs at most once.
    #[verifier::type_invariant]
    spec fn names_unique(self) -> bool {
        distinct_names(headers_view(self.set_headers@))
    }
}

impl View for RespondHandler {
    type V = RespondHandlerV;

    closed spec fn view(&self) -> RespondHandlerV {
        RespondHandlerV {
            status: self.status,
            body: match self.body {
                Some(b) => Some(b@),
                None => None,
            },
            headers: headers_view(self.set_headers@),
        }
    }
}

/// The name of the `Content-Type` header field as the `http` crate writes it
/// (`hyper::header::CONTENT_TYPE`, a re-export of `http::header::CONTENT_TYPE`,
/// whose text is `"content-type"` in the crate's table of standard headers).
#[verifier::external_body]
fn content_type_name() -> (r: String)
    ensures
        r@ == "content-type"@,
{
    hyper::header::CONTENT_TYPE.to_string()
}

/// The HTML page of an error response.
pub open spec fn html_error_page(code: u16, title: Seq<char>, message: Seq<char>) -> Seq<char> {
    "<!DOCTYPE html>\n<html>\n<head>\n    <title>"@ + decimal(code as nat) + " "@ + title
        + "</title>\n</head>\n<body>\n    <h1>"@ + decimal(code as nat) + " "@ + title
        + "</h1>\n    <p>"@ + message + "</p>\n</body>\n</html>"@
}

/// An error response: its status, the HTML page and the HTML content type.
pub open spec fn html_error_handler(code: u16, title: Seq<char>, message: Seq<char>) -> RespondHandlerV {
    RespondHandlerV {
        status: code,
        body: Some(html_error_page(code, title, message)),
        headers: seq![("content-type"@, "text/html; charset=utf-8"@)],
    }
}

/// A plain response without header fields.
pub open spec fn plain_handler(status: u16, body: Option<Seq<char>>) -> RespondHandlerV {
    RespondHandlerV { status, body, headers: Seq::empty() }
}

fn html_error_page_exec(code: u16, title: &str, message: &str) -> (r: String)
    ensures
        r@ == html_error_page(code, title@, message@),
{
    let mut v = to_chars("<!DOCTYPE html>\n<html>\n<head>\n    <title>");
    push_decimal(&mut v, code as u128);
    v = concat(&v, &to_chars(" "));
    v = concat(&v, &to_chars(title));
    v = concat(&v, &to_chars("</title>\n</head>\n<body>\n    <h1>"));
    push_decimal(&mut v, code as u128);
    v = concat(&v, &to_chars(" "));
    v = concat(&v, &to_chars(title));
    v = concat(&v, &to_chars("</h1>\n    <p>"));
    v = concat(&v, &to_chars(message));
    v = concat(&v, &to_chars("</p>\n</body>\n</html>"));
    string_of_all(&v)
}

/// An HTML error response with the `Content-Type` of HTML.
pub(crate) fn create_html_error_response(
    status_code: u16,
    error_title: &str,
    error_message: &str,
) -> (r: RespondHandler)
    ensures
        r@ == html_error_handler(status_code, error_title@, error_message@),
{
    let body = html_error_page_exec(status_code, error_title, error_message);
    let mut set_headers: Vec<(String, String)> = Vec::new();
    set_headers.push((content_type_name(), "text/html; charset=utf-8".to_string()));
    let r = RespondHandler { status: status_code, body: Some(body), set_headers };
    assert(r@.headers =~= seq![("content-type"@, "text/html; charset=utf-8"@)]);
    r
}

impl RespondHandler {
    /// A response with `status` and `body` and no header fields.
    pub fn new(status: u16, body: Option<String>) -> (r: RespondHandler)
        ensures
            r@ == plain_handler(
                status,
                match body {
                    Some(b) => Some(b@),
                    None => None,
                },
            ),
    {
        let r = RespondHandler { status, body, set_headers: Vec::new() };
        assert(r@.headers =~= Seq::<(Seq<char>, Seq<char>)>::empty());
        r
    }

    /// A response with `status`, `body` and the header fields `set_headers`
    /// (a name occurs once).
    pub fn with_headers(status: u16, body: Option<String>, set_headers: Vec<(String, String)>) -> (r:
        RespondHandler)
        requires
            distinct_names(headers_view(set_headers@)),
        ensures
            r@ == (RespondHandlerV {
                status,
                body: match body {
                    Some(b) => Some(b@),
                    None => None,
                },
                headers: headers_view(set_headers@),
            }),
    {
        RespondHandler { status, body, set_headers }
    }

    /// The status code.
    pub fn status(&self) -> (r: u16)
        ensures
            r == self@.status,
    {
        self.status
    }

    /// The body to send: the body, or nothing.
    pub fn body_text(&self) -> (r: String)
        ensures
            r@ == match self@.body {
                Some(b) => b,
                None => Seq::empty(),
            },
    {
        match &self.body {
            Some(b) => b.clone(),
            None => String::new(),
        }
    }

    /// The header fields to set, as name and value; a name occurs once.
    pub fn headers(&self) -> (r: &Vec<(String, String)>)
        ensures
            headers_view(r@) == self@.headers,
            distinct_names(self@.headers),
    {
        proof {
            use_type_invariant(self);
        }
        &self.set_headers
    }

    /// `200` without a body.
    pub fn ok() -> (r: RespondHandler)
        ensures
            r@ == plain_handler(200, None),
    {
        RespondHandler::new(200, None)
    }

    /// `200` with `body`.
    pub fn ok_with_body(body: String) -> (r: RespondHandler)
        ensures
            r@ == plain_handler(200, Some(body@)),
    {
        RespondHandler::new(200, Some(body))
    }

    /// The HTML page of `400 Bad Request`.
    pub fn bad_request() -> (r: RespondHandler)
        ensures
            r@ == html_error_handler(
                400,
                "Bad Request"@,
                "The request could not be understood by the server."@,
            ),
    {
        create_html_error_response(
            400,
            "Bad Request",
            "The request could not be understood by the server.",
        )
    }

    /// The HTML page of `400 Bad Request` with the message `body`.
    pub fn bad_request_with_body(body: String) -> (r: RespondHandler)
        ensures
            r@ == html_error_handler(400, "Bad Request"@, body@),
    {
        create_html_error_response(400, "Bad Request", body.as_str())
    }

    /// The HTML page of `404 Not Found`.
    pub fn not_found() -> (r: RespondHandler)
        ensures
            r@ == html_error_handler(
                404,
                "Not Found"@,
                "The requested resource could not be found on this server."@,
            ),
    {
        create_html_error_response(
            404,
            "Not Found",
            "The requested resource could not be found on this server.",
        )
    }

    /// The HTML page of `404 Not Found` with the message `body`.
    pub fn not_found_with_body(body: String) -> (r: RespondHandler)
        ensures
            r@ == html_error_handler(404, "Not Found"@, body@),
    {
        create_html_error_response(404, "Not Found", body.as_str())
    }

    /// The HTML page of `403 Forbidden`.
    pub fn forbidden() -> (r: RespondHandler)
        ensures
            r@ == html_error_handler(
                403,
                "Forbidden"@,
                "You don't have permission to access this resource."@,
            ),
    {
        create_html_error_response(
            403,
            "Forbidden",
            "You don't have permission to access this resource.",
        )
    }

    /// The HTML page of `403 Forbidden` with the message `body`.
    pub fn forbidden_with_body(body: String) -> (r: RespondHandler)
        ensures
            r@ == html_error_handler(403, "Forbidden"@, body@),
    {
        create_html_error_response(403, "Forbidden", body.as_str())
    }

    /// The HTML page of `500 Internal Server Error`.
    pub fn internal_server_error() -> (r: RespondHandler)
        ensures
            r@ == html_error_handler(
                500,
                "Internal Server Error"@,
                "The server encountered an internal error and was unable to complete your request."@,
            ),
    {
        create_html_error_response(
            500,
            "Internal Server Error",
            "The server encountered an internal error and was unable to complete your request.",
        )
    }

    /// The HTML page of `500 Internal Server Error` with the message `body`.
    pub fn internal_server_error_with_body(body: String) -> (r: RespondHandler)
        ensures
            r@ == html_error_handler(500, "Internal Server Error"@, body@),
    {
        create_html_error_response(500, "Internal Server Error", body.as_str())
    }

    /// The HTML page of `416 Range Not Satisfiable`.
    pub fn range_not_satisfiable() -> (r: RespondHandler)
        ensures
            r@ == html_error_handler(
                416,
                "Range Not Satisfiable"@,
                "The requested range cannot be satisfied."@,
            ),
    {
        create_html_error_response(
            416,
            "Range Not Satisfiable",
            "The requested range cannot be satisfied.",
        )
    }

    /// The HTML page of `502 Bad Gateway`.
    pub fn bad_gateway() -> (r: RespondHandler)
        ensures
            r@ == html_error_handler(
                502,
                "Bad Gateway"@,
                "The server received an invalid response from an upstream server."@,
            ),
    {
        create_html_error_response(
            502,
            "Bad Gateway",
            "The server received an invalid response from an upstream server.",
        )
    }

    /// The HTML page of `502 Bad Gateway` with the message `body`.
    pub fn bad_gateway_with_body(body: String) -> (r: RespondHandler)
        ensures
            r@ == html_error_handler(502, "Bad Gateway"@, body@),
    {
        create_html_error_response(502, "Bad Gateway", body.as_str())
    }
}

/// The responses the server gives before a route is chosen.
pub struct UtilitiesResponses;

impl UtilitiesResponses {
    /// No virtual host or route matches the request.
    pub fn not_found_respond_handler() -> (r: RespondHandler)
        ensures
            r@ == html_error_handler(
                404,
                "Not Found"@,
                "The requested resource could not be found on this server."@,
            ),
    {
        create_html_error_response(
            404,
            "Not Found",
            "The requested resource could not be found on this server.",
        )
    }

    /// The request has no `Host` header.
    pub fn bad_request_host_header_not_found_respond_handler() -> (r: RespondHandler)
        ensures
            r@ == html_error_handler(400, "Bad Request"@, "Host header is missing in the request."@),
    {
        create_html_error_response(400, "Bad Request", "Host header is missing in the request.")
    }

    /// The `Host` header is not text or not a URI with a host.
    pub fn bad_request_invalid_host_header_respond_handler() -> (r: RespondHandler)
        ensures
            r@ == html_error_handler(400, "Bad Request"@, "Invalid Host header."@),
    {
        create_html_error_response(400, "Bad Request", "Invalid Host header.")
    }
}

} // verus!
