use chico::respond::{RespondHandler, UtilitiesResponses};

fn html_headers() -> Vec<(String, String)> {
    vec![(
        "content-type".to_string(),
        "text/html; charset=utf-8".to_string(),
    )]
}

#[test]
fn test_respond_handler_new_without_body() {
    let handler = RespondHandler::new(200, None);
    assert_eq!(handler.status(), 200);
    assert_eq!(handler.body_text(), "");
    assert!(handler.headers().is_empty());
}

#[test]
fn test_respond_handler_new_with_body() {
    let handler = RespondHandler::new(200, Some("OK".to_string()));
    assert_eq!(RespondHandler::with_headers(200, Some("OK".to_string()), vec![]), handler);
    assert_eq!(handler.body_text(), "OK");
}

#[test]
fn test_respond_handler_ok() {
    let handler = RespondHandler::ok();
    assert_eq!(RespondHandler::new(200, None), handler);
}

#[test]
fn test_respond_handler_ok_with_body() {
    let handler = RespondHandler::ok_with_body("Ok".to_string());
    assert_eq!(RespondHandler::new(200, Some("Ok".to_string())), handler);
}

#[test]
fn test_respond_handler_bad_request() {
    let handler = RespondHandler::bad_request();
    let expected_body = "<!DOCTYPE html>
<html>
<head>
    <title>400 Bad Request</title>
</head>
<body>
    <h1>400 Bad Request</h1>
    <p>The request could not be understood by the server.</p>
</body>
</html>";
    let expected =
        RespondHandler::with_headers(400, Some(expected_body.to_string()), html_headers());
    assert_eq!(expected, handler);
}

#[test]
fn test_respond_handler_bad_request_with_body() {
    let handler = RespondHandler::bad_request_with_body("Bad Request".to_string());
    let expected_body = "<!DOCTYPE html>
<html>
<head>
    <title>400 Bad Request</title>
</head>
<body>
    <h1>400 Bad Request</h1>
    <p>Bad Request</p>
</body>
</html>";
    let expected =
        RespondHandler::with_headers(400, Some(expected_body.to_string()), html_headers());
    assert_eq!(expected, handler);
}

#[test]
fn test_respond_handler_forbidden() {
    let handler = RespondHandler::forbidden();
    let expected_body = "<!DOCTYPE html>
<html>
<head>
    <title>403 Forbidden</title>
</head>
<body>
    <h1>403 Forbidden</h1>
    <p>You don't have permission to access this resource.</p>
</body>
</html>";
    let expected =
        RespondHandler::with_headers(403, Some(expected_body.to_string()), html_headers());
    assert_eq!(expected, handler);
}

#[test]
fn test_respond_handler_forbidden_with_body() {
    let handler = RespondHandler::forbidden_with_body("Forbidden".to_string());
    let expected_body = "<!DOCTYPE html>
<html>
<head>
    <title>403 Forbidden</title>
</head>
<body>
    <h1>403 Forbidden</h1>
    <p>Forbidden</p>
</body>
</html>";
    let expected =
        RespondHandler::with_headers(403, Some(expected_body.to_string()), html_headers());
    assert_eq!(expected, handler);
}

#[test]
fn test_respond_handler_not_found() {
    let handler = RespondHandler::not_found();
    let expected_body = "<!DOCTYPE html>
<html>
<head>
    <title>404 Not Found</title>
</head>
<body>
    <h1>404 Not Found</h1>
    <p>The requested resource could not be found on this server.</p>
</body>
</html>";
    let expected =
        RespondHandler::with_headers(404, Some(expected_body.to_string()), html_headers());
    assert_eq!(expected, handler);
}

#[test]
fn test_respond_handler_not_found_with_body() {
    let handler = RespondHandler::not_found_with_body("Not Found".to_string());
    let expected_body = "<!DOCTYPE html>
<html>
<head>
    <title>404 Not Found</title>
</head>
<body>
    <h1>404 Not Found</h1>
    <p>Not Found</p>
</body>
</html>";
    let expected =
        RespondHandler::with_headers(404, Some(expected_body.to_string()), html_headers());
    assert_eq!(expected, handler);
}

#[test]
fn test_respond_handler_internal_server_error() {
    let handler = RespondHandler::internal_server_error();
    let expected_body = "<!DOCTYPE html>
<html>
<head>
    <title>500 Internal Server Error</title>
</head>
<body>
    <h1>500 Internal Server Error</h1>
    <p>The server encountered an internal error and was unable to complete your request.</p>
</body>
</html>";
    let expected =
        RespondHandler::with_headers(500, Some(expected_body.to_string()), html_headers());
    assert_eq!(expected, handler);
}

#[test]
fn test_respond_handler_internal_server_error_with_body() {
    let handler = RespondHandler::internal_server_error_with_body("Internal Server Error".to_string());
    let expected_body = "<!DOCTYPE html>
<html>
<head>
    <title>500 Internal Server Error</title>
</head>
<body>
    <h1>500 Internal Server Error</h1>
    <p>Internal Server Error</p>
</body>
</html>";
    let expected =
        RespondHandler::with_headers(500, Some(expected_body.to_string()), html_headers());
    assert_eq!(expected, handler);
}

#[test]
fn test_respond_handler_with_headers() {
    let set_headers = vec![
        ("Header-Key-1".to_string(), "value-1".to_string()),
        ("Header-Key-2".to_string(), "value-2".to_string()),
    ];
    let handler =
        RespondHandler::with_headers(200, Some(String::from("Everything is OK")), set_headers);
    assert_eq!(handler.status(), 200);
    assert_eq!(handler.body_text(), "Everything is OK");
    assert_eq!(handler.headers()[0], ("Header-Key-1".to_string(), "value-1".to_string()));
    assert_eq!(handler.headers()[1], ("Header-Key-2".to_string(), "value-2".to_string()));
}

#[test]
fn test_all_error_responses_have_html_content_type() {
    let error_handlers = vec![
        ("400 Bad Request", RespondHandler::bad_request()),
        ("403 Forbidden", RespondHandler::forbidden()),
        ("404 Not Found", RespondHandler::not_found()),
        ("500 Internal Server Error", RespondHandler::internal_server_error()),
        ("502 Bad Gateway", RespondHandler::bad_gateway()),
        ("416 Range Not Satisfiable", RespondHandler::range_not_satisfiable()),
    ];

    for (name, handler) in error_handlers {
        assert_eq!(handler.headers(), &html_headers(), "Failed for {}", name);
        let body = handler.body_text();
        assert!(body.contains("<!DOCTYPE html>"), "Missing DOCTYPE for {}", name);
        assert!(body.contains("<html>"), "Missing html tag for {}", name);
        assert!(body.contains("<head>"), "Missing head tag for {}", name);
        assert!(body.contains("<title>"), "Missing title tag for {}", name);
        assert!(body.contains("</title>"), "Missing closing title tag for {}", name);
        assert!(body.contains("</head>"), "Missing closing head tag for {}", name);
        assert!(body.contains("<body>"), "Missing body tag for {}", name);
        assert!(body.contains("</body>"), "Missing closing body tag for {}", name);
        assert!(body.contains("</html>"), "Missing closing html tag for {}", name);
    }
}

#[test]
fn test_error_responses_include_status_code_in_title() {
    let test_cases = vec![
        (RespondHandler::bad_request(), "400 Bad Request"),
        (RespondHandler::forbidden(), "403 Forbidden"),
        (RespondHandler::not_found(), "404 Not Found"),
        (RespondHandler::internal_server_error(), "500 Internal Server Error"),
        (RespondHandler::bad_gateway(), "502 Bad Gateway"),
    ];

    for (handler, expected_title) in test_cases {
        let body = handler.body_text();
        assert!(
            body.contains(&format!("<title>{}</title>", expected_title)),
            "Title should contain '{}' but got body: {}",
            expected_title,
            body
        );
        assert!(
            body.contains(&format!("<h1>{}</h1>", expected_title)),
            "H1 should contain '{}' but got body: {}",
            expected_title,
            body
        );
    }
}

#[test]
fn test_bad_gateway_with_body_and_range_not_satisfiable() {
    let h = RespondHandler::bad_gateway_with_body("502 Bad Gateway - could not connect to upstream server.".to_string());
    assert_eq!(h.status(), 502);
    assert!(h.body_text().contains("<p>502 Bad Gateway - could not connect to upstream server.</p>"));
    let r = RespondHandler::range_not_satisfiable();
    assert_eq!(r.status(), 416);
    assert!(r.body_text().contains("<p>The requested range cannot be satisfied.</p>"));
}

#[test]
fn test_utilities_responses() {
    let nf = UtilitiesResponses::not_found_respond_handler();
    assert_eq!(nf, RespondHandler::not_found());
    let missing = UtilitiesResponses::bad_request_host_header_not_found_respond_handler();
    assert_eq!(missing.status(), 400);
    assert_eq!(
        missing.body_text(),
        "<!DOCTYPE html>
<html>
<head>
    <title>400 Bad Request</title>
</head>
<body>
    <h1>400 Bad Request</h1>
    <p>Host header is missing in the request.</p>
</body>
</html>"
    );
    let invalid = UtilitiesResponses::bad_request_invalid_host_header_respond_handler();
    assert_eq!(
        invalid,
        RespondHandler::bad_request_with_body("Invalid Host header.".to_string())
    );
}
