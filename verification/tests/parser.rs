use chico::config_file::{
    parse_auth, parse_cache, parse_comment, parse_handler, parse_header, parse_literal_u16,
    parse_middleware, parse_rate_limit, parse_redirect_handler_args, parse_respond_handler_args,
    parse_route, parse_route_contents, parse_string_u16, parse_u16, parse_value, parse_virtual_host,
    string_literal,
};
use chico::config_file::{try_parse_route, try_parse_route_contents, try_parse_virtual_host};
use chico::types;
use chico::types::Upstream;

fn proxy_single(upstream_url: &str) -> types::Handler {
    types::Handler::Proxy(types::ProxyConfig::new(types::LoadBalancer::NoBalancer(
        types::Upstream::new(upstream_url.to_string()).unwrap(),
    )))
}

#[test]
fn test_parse_comment_success() {
    assert_eq!(parse_comment("# this is a comment"), Ok(("".to_string(), ())));
    assert_eq!(parse_comment("# this is a comment\n"), Ok(("\n".to_string(), ())));
    assert_eq!(parse_comment("# this is a comment\n\n"), Ok(("\n\n".to_string(), ())));
    assert_eq!(
        parse_comment("# this is a comment\n\n\n"),
        Ok(("\n\n\n".to_string(), ()))
    );
    // 1 space before comment
    assert_eq!(parse_comment(" # this is a comment"), Ok(("".to_string(), ())));
    // 2 spaces before comment
    assert_eq!(parse_comment("  # this is a comment"), Ok(("".to_string(), ())));
    // 3 spaces before comment
    assert_eq!(parse_comment("   # this is a comment"), Ok(("".to_string(), ())));
    // 4 spaces before comment
    assert_eq!(parse_comment("    # this is a comment"), Ok(("".to_string(), ())));
    assert_eq!(parse_comment("\t# this is a comment"), Ok(("".to_string(), ())));
    assert_eq!(parse_comment("\t # this is a comment"), Ok(("".to_string(), ())));
    assert_eq!(parse_comment("\t\t # this is a comment"), Ok(("".to_string(), ())));
    assert_eq!(parse_comment("\t\t  # this is a comment"), Ok(("".to_string(), ())));
}

#[test]
fn test_parse_comment_fail() {
    assert!(parse_comment("this is not a comment").is_err());
    assert!(parse_comment("this is not a comment\n").is_err());
    assert!(parse_comment("this is not a comment\n\n").is_err());
    assert!(parse_comment("this is not a comment\n\n\n").is_err());
    assert!(parse_comment("this is not a comment\n\n\n\n").is_err());
    assert!(parse_comment("this is not a comment\n\n\n\n\n").is_err());
    assert!(parse_comment("this is not a comment\n\n\n\n\n\n").is_err());
    assert!(parse_comment("this is not a comment\n\n\n\n\n\n\n").is_err());
}

#[test]
fn test_parse_route_respond_handler_with_no_middleware_inline() {
    assert_eq!(
        parse_route("route /example { respond \"<h1>Example</h1>\" 200 }"),
        Ok(("".to_string(),
            Some(types::Route {
                path: "/example".to_string(),
                handler: types::Handler::Respond {
                    status: Some(200),
                    body: Some("<h1>Example</h1>".to_string()),
                },
                middlewares: vec![]
            }),
        ))
    );

    assert_eq!(
        parse_route("route /example { respond 200 }"),
        Ok(("".to_string(),
            Some(types::Route {
                path: "/example".to_string(),
                handler: types::Handler::Respond {
                    status: Some(200),
                    body: None,
                },
                middlewares: vec![]
            }),
        ))
    );

    assert_eq!(
        parse_route("route /example { respond \"<h1>Example</h1>\" }"),
        Ok(("".to_string(),
            Some(types::Route {
                path: "/example".to_string(),
                handler: types::Handler::Respond {
                    status: None,
                    body: Some("<h1>Example</h1>".to_string()),
                },
                middlewares: vec![]
            }),
        ))
    );
}

#[test]
fn test_parse_route_respond_handler_with_no_middleware_expanded() {
    let route = r#"
            route /example {
                respond "<h1>Example</h1>" 200
            }
            "#;

    assert_eq!(
        parse_route(route),
        Ok(("".to_string(),
            Some(types::Route {
                path: "/example".to_string(),
                handler: types::Handler::Respond {
                    status: Some(200),
                    body: Some("<h1>Example</h1>".to_string()),
                },
                middlewares: vec![]
            }),
        ))
    );

    let route = r#"
            route /example {
                respond 200
            }
            "#;

    assert_eq!(
        parse_route(route),
        Ok(("".to_string(),
            Some(types::Route {
                path: "/example".to_string(),
                handler: types::Handler::Respond {
                    status: Some(200),
                    body: None,
                },
                middlewares: vec![]
            }),
        ))
    );

    let route = r#"
            route /example {
                respond "<h1>Example</h1>"
            }
            "#;

    assert_eq!(
        parse_route(route),
        Ok(("".to_string(),
            Some(types::Route {
                path: "/example".to_string(),
                handler: types::Handler::Respond {
                    status: None,
                    body: Some("<h1>Example</h1>".to_string()),
                },
                middlewares: vec![]
            }),
        ))
    );
}

#[test]
fn test_parse_route_file_handler_with_no_middleware_inline() {
    assert_eq!(
        parse_route("route / { file index.html }"),
        Ok(("".to_string(),
            Some(types::Route {
                handler: types::Handler::File("index.html".to_string()),
                middlewares: vec![],
                path: "/".to_string(),
            }),
        ))
    )
}

#[test]
fn test_parse_route_file_handler_with_no_middleware_expanded() {
    let route = r#"
            route / {
                file index.html
            }
            "#;
    assert_eq!(
        parse_route(route),
        Ok(("".to_string(),
            Some(types::Route {
                handler: types::Handler::File("index.html".to_string()),
                middlewares: vec![],
                path: "/".to_string(),
            }),
        ))
    )
}

#[test]
fn test_parse_route_with_middleware() {
    let route = r#"
            route /example {
            respond "<h1>Example</h1>" 200
            gzip
            cors
            }
            "#;

    assert_eq!(
        parse_route(route),
        Ok(("".to_string(),
            Some(types::Route {
                path: "/example".to_string(),
                handler: types::Handler::Respond {
                    status: Some(200),
                    body: Some("<h1>Example</h1>".to_string()),
                },
                middlewares: vec![types::Middleware::Gzip, types::Middleware::Cors,]
            }),
        ))
    );
}

#[test]
fn test_parse_route_with_comments() {
    let route = r#"
            # This is a comment
            route /example {
            # Another comment
            respond "<h1>Example</h1>" 200
            # Middleware comment
            gzip
            }
            "#;

    assert_eq!(
        parse_route(route),
        Ok(("".to_string(),
            Some(types::Route {
                path: "/example".to_string(),
                handler: types::Handler::Respond {
                    status: Some(200),
                    body: Some("<h1>Example</h1>".to_string()),
                },
                middlewares: vec![types::Middleware::Gzip,]
            }),
        ))
    );
}

#[test]
fn test_parse_route_contents_with_middleware() {
    let contents = r#"
            respond "<h1>Example</h1>" 200
            gzip
            cors
            "#;

    assert_eq!(
        parse_route_contents(contents),
        Ok(("".to_string(),
            (
                types::Handler::Respond {
                    status: Some(200),
                    body: Some("<h1>Example</h1>".to_string()),
                },
                vec![types::Middleware::Gzip, types::Middleware::Cors,]
            )
        ))
    );
}

#[test]
fn test_parse_route_contents_with_comments() {
    let contents = r#"
            # This is a comment
            respond "<h1>Example</h1>" 200
            # Middleware comment
            gzip
            "#;

    assert_eq!(
        parse_route_contents(contents),
        Ok(("".to_string(),
            (
                types::Handler::Respond {
                    status: Some(200),
                    body: Some("<h1>Example</h1>".to_string()),
                },
                vec![types::Middleware::Gzip,]
            )
        ))
    );
}

#[test]
fn test_parse_handler_file() {
    assert_eq!(
        parse_handler("file index.html"),
        Ok(("".to_string(), types::Handler::File("index.html".to_string())))
    );
}

#[test]
fn test_parse_handler_proxy() {
    assert_eq!(
        parse_handler("proxy http://localhost:3000"),
        Ok(("".to_string(), proxy_single("http://localhost:3000")))
    );
}

#[test]
fn test_parse_handler_proxy_block_single_upstream() {
    let input = "proxy { upstreams http://localhost:3000 }";
    assert_eq!(
        parse_handler(input),
        Ok(("".to_string(), proxy_single("http://localhost:3000")))
    );
}

#[test]
fn test_parse_handler_proxy_block_multiple_upstreams_no_policy() {
    let input = "proxy { upstreams http://host1:8080 http://host2:8080 }";
    assert_eq!(
        parse_handler(input),
        Ok(("".to_string(),
            types::Handler::Proxy(types::ProxyConfig::new(
                types::LoadBalancer::RoundRobin(vec![
                    Upstream::new("http://host1:8080".to_string()).unwrap(),
                    Upstream::new("http://host2:8080".to_string()).unwrap(),
                ])
            ))
        ))
    );
}

#[test]
fn test_parse_handler_proxy_block_multiple_upstreams_round_robin() {
    let input = "proxy { upstreams http://host1:8080 http://host2:8080 http://host3:8080\n lb_policy round_robin }";
    assert_eq!(
        parse_handler(input),
        Ok(("".to_string(),
            types::Handler::Proxy(types::ProxyConfig::new(
                types::LoadBalancer::RoundRobin(vec![
                    Upstream::new("http://host1:8080".to_string()).unwrap(),
                    Upstream::new("http://host2:8080".to_string()).unwrap(),
                    Upstream::new("http://host3:8080".to_string()).unwrap(),
                ])
            ))
        ))
    );
}

#[test]
fn test_parse_handler_proxy_block_single_upstream_round_robin() {
    let input = "proxy { upstreams http://localhost:3000\n lb_policy round_robin }";
    assert_eq!(
        parse_handler(input),
        Ok(("".to_string(),
            types::Handler::Proxy(types::ProxyConfig::new(
                types::LoadBalancer::NoBalancer(
                    Upstream::new("http://localhost:3000".to_string()).unwrap()
                )
            ))
        ))
    );
}

#[test]
fn test_parse_handler_proxy_block_empty_lb_policy() {
    let input = "proxy { upstreams http://host1:8080 http://host2:8080\n lb_policy }";
    assert_eq!(
        parse_handler(input),
        Ok(("".to_string(),
            types::Handler::Proxy(types::ProxyConfig::new(
                types::LoadBalancer::RoundRobin(vec![
                    Upstream::new("http://host1:8080".to_string()).unwrap(),
                    Upstream::new("http://host2:8080".to_string()).unwrap(),
                ])
            ))
        ))
    );
}

#[test]
fn test_parse_handler_proxy_block_whitespace_handling() {
    let input = "proxy {\n  upstreams  http://host1:8080   http://host2:8080  \n  lb_policy   round_robin  \n}";
    assert_eq!(
        parse_handler(input),
        Ok(("".to_string(),
            types::Handler::Proxy(types::ProxyConfig::new(
                types::LoadBalancer::RoundRobin(vec![
                    Upstream::new("http://host1:8080".to_string()).unwrap(),
                    Upstream::new("http://host2:8080".to_string()).unwrap(),
                ])
            ))
        ))
    );
}

#[test]
fn test_parse_handler_proxy_block_with_comments() {
    let input = "proxy {\n  # Comment before upstreams\n  upstreams http://host1:8080 http://host2:8080\n  # Comment before lb_policy\n  lb_policy round_robin\n  # Comment after lb_policy\n}";
    assert_eq!(
        parse_handler(input),
        Ok(("".to_string(),
            types::Handler::Proxy(types::ProxyConfig::new(
                types::LoadBalancer::RoundRobin(vec![
                    Upstream::new("http://host1:8080".to_string()).unwrap(),
                    Upstream::new("http://host2:8080".to_string()).unwrap(),
                ])
            ))
        ))
    );
}

#[test]
fn test_parse_handler_proxy_block_single_upstream_with_comments() {
    let input = "proxy {\n  # This is a comment\n  upstreams http://localhost:3000\n  # Another comment\n}";
    assert_eq!(
        parse_handler(input),
        Ok(("".to_string(),
            types::Handler::Proxy(types::ProxyConfig::new(
                types::LoadBalancer::NoBalancer(
                    Upstream::new("http://localhost:3000".to_string()).unwrap()
                )
            ))
        ))
    );
}

#[test]
fn test_parse_handler_proxy_block_with_timeouts() {
    let input =
        "proxy { upstreams http://localhost:3000 request_timeout 20 connection_timeout 5 }";
    let result = parse_handler(input);
    assert!(result.is_ok());

    let (remaining, handler) = result.unwrap();
    assert_eq!(remaining, "");

    if let types::Handler::Proxy(proxy_config) = handler {
        assert_eq!(proxy_config.request_timeout, Some(20));
        assert_eq!(proxy_config.connection_timeout, Some(5));
        match proxy_config.load_balancer {
            types::LoadBalancer::NoBalancer(upstream) => {
                assert_eq!(upstream.get_host_port(), "localhost:3000");
            }
            _ => panic!("Expected NoBalancer"),
        }
    } else {
        panic!("Expected Proxy handler");
    }
}

#[test]
fn test_parse_handler_proxy_block_with_only_request_timeout() {
    let input = "proxy { upstreams http://localhost:3000 request_timeout 15 }";
    let result = parse_handler(input);
    assert!(result.is_ok());

    let (remaining, handler) = result.unwrap();
    assert_eq!(remaining, "");

    if let types::Handler::Proxy(proxy_config) = handler {
        assert_eq!(proxy_config.request_timeout, Some(15));
        assert_eq!(proxy_config.connection_timeout, None);
    } else {
        panic!("Expected Proxy handler");
    }
}

#[test]
fn test_parse_handler_proxy_block_round_robin_with_timeouts() {
    let input = "proxy { upstreams http://host1:8080 http://host2:8080 lb_policy round_robin request_timeout 25 connection_timeout 8 }";
    let result = parse_handler(input);
    assert!(result.is_ok());

    let (remaining, handler) = result.unwrap();
    assert_eq!(remaining, "");

    if let types::Handler::Proxy(proxy_config) = handler {
        assert_eq!(proxy_config.request_timeout, Some(25));
        assert_eq!(proxy_config.connection_timeout, Some(8));
        match proxy_config.load_balancer {
            types::LoadBalancer::RoundRobin(upstreams) => {
                assert_eq!(upstreams.len(), 2);
            }
            _ => panic!("Expected RoundRobin"),
        }
    } else {
        panic!("Expected Proxy handler");
    }
}

#[test]
fn test_parse_handler_browse() {
    assert_eq!(
        parse_handler("browse /path/to/dir"),
        Ok(("".to_string(), types::Handler::Browse("/path/to/dir".to_string())))
    );
}

#[test]
fn test_parse_handler_dir() {
    assert_eq!(
        parse_handler("dir /path/to/dir"),
        Ok(("".to_string(), types::Handler::Dir("/path/to/dir".to_string())))
    );
}

#[test]
fn test_parse_handler_respond() {
    assert_eq!(
        parse_handler("respond \"<h1>Example</h1>\" 200"),
        Ok(("".to_string(),
            types::Handler::Respond {
                status: Some(200),
                body: Some("<h1>Example</h1>".to_string()),
            }
        ))
    );

    assert_eq!(
        parse_handler("respond \"<h1>Example</h1>\""),
        Ok(("".to_string(),
            types::Handler::Respond {
                status: None,
                body: Some("<h1>Example</h1>".to_string()),
            }
        ))
    );

    assert_eq!(
        parse_handler("respond 200"),
        Ok(("".to_string(),
            types::Handler::Respond {
                status: Some(200),
                body: None,
            }
        ))
    );
}

#[test]
fn test_parse_handler_redirect() {
    assert_eq!(
        parse_handler("redirect /new-path 301"),
        Ok(("".to_string(),
            types::Handler::Redirect {
                status_code: Some(301),
                path: Some("/new-path".to_string())
            }
        ))
    );

    assert_eq!(
        parse_handler("redirect /new-path"),
        Ok(("".to_string(),
            types::Handler::Redirect {
                status_code: None,
                path: Some("/new-path".to_string())
            }
        ))
    );
}

#[test]
fn test_parse_respond_handler_args() {
    // test with body
    assert_eq!(
        parse_respond_handler_args(" \"<h1>Example</h1>\""),
        Ok(("".to_string(), (None, Some("<h1>Example</h1>".to_string()))))
    );
    // test with body and status code
    assert_eq!(
        parse_respond_handler_args(" \"<h1>Example</h1>\" 200"),
        Ok(("".to_string(), (Some(200), Some("<h1>Example</h1>".to_string()))))
    );

    // test with status code
    assert_eq!(
        parse_respond_handler_args(" 200"),
        Ok(("".to_string(), (Some(200), None)))
    );
}

#[test]
fn test_parse_redirect_handler_args() {
    // test with path
    assert_eq!(
        parse_redirect_handler_args(" /path/to/redirect"),
        Ok(("".to_string(), (None, Some("/path/to/redirect".to_string()))))
    );

    // test with path and status code
    assert_eq!(
        parse_redirect_handler_args(" /path/to/redirect 301"),
        Ok(("".to_string(), (Some(301), Some("/path/to/redirect".to_string()))))
    );
}

#[test]
fn test_parse_middleware_gzip() {
    assert_eq!(parse_middleware("gzip"), Ok(("".to_string(), types::Middleware::Gzip)));
}

#[test]
fn test_parse_middleware_cors() {
    assert_eq!(parse_middleware("cors"), Ok(("".to_string(), types::Middleware::Cors)));
}

#[test]
fn test_parse_middleware_log() {
    assert_eq!(parse_middleware("log"), Ok(("".to_string(), types::Middleware::Log)));
}

#[test]
fn test_parse_middleware_rate_limit() {
    assert_eq!(
        parse_middleware("rate_limit 10"),
        Ok(("".to_string(), types::Middleware::RateLimit(10)))
    );
}

#[test]
fn test_parse_middleware_auth() {
    assert_eq!(
        parse_middleware("auth admin pass"),
        Ok(("".to_string(),
            types::Middleware::Auth {
                username: "admin".to_string(),
                password: "pass".to_string()
            }
        ))
    );
}

#[test]
fn test_parse_middleware_cache() {
    assert_eq!(
        parse_middleware("cache 5m"),
        Ok(("".to_string(), types::Middleware::Cache("5m".to_string())))
    );
}

fn check_header_middleware(
    input: &str,
    operator: types::HeaderOperator,
    name: &str,
    value: Option<&str>,
    replace_with: Option<&str>,
) {
    assert_eq!(
parse_middleware(input),
Ok((
    "".to_string(),
    types::Middleware::Header {
        operator: operator.clone(),
        name: name.to_string(),
        value: value.map(|s| s.to_string()),
        replace_with: replace_with.map(|s| s.to_string()),
    }
))
    );

    assert_eq!(
parse_header(input),
Ok((
    "".to_string(),
    types::Middleware::Header {
        operator,
        name: name.to_string(),
        value: value.map(|s| s.to_string()),
        replace_with: replace_with.map(|s| s.to_string()),
    }
))
    );
}

#[test]
fn test_parse_middleware_header_add() {
    check_header_middleware("header +X-Cache HIT", types::HeaderOperator::Add, "X-Cache", Some("HIT"), None);
}

#[test]
fn test_parse_middleware_header_delete() {
    check_header_middleware("header -Server", types::HeaderOperator::Delete, "Server", None, None);
}

#[test]
fn test_parse_middleware_header_set() {
    check_header_middleware("header =Content-Type text/html", types::HeaderOperator::SetValue, "Content-Type", Some("text/html"), None);
}

#[test]
fn test_parse_middleware_header_defer_set() {
    check_header_middleware("header >Content-Type text/html", types::HeaderOperator::DeferSet, "Content-Type", Some("text/html"), None);
}

#[test]
fn test_parse_middleware_header_replace() {
    check_header_middleware("header ~Location http:// https://", types::HeaderOperator::Replace, "Location", Some("http://"), Some("https://"));
}

#[test]
fn test_parse_middleware_header_defer_replace() {
    check_header_middleware("header ~>Location http:// https://", types::HeaderOperator::DeferReplace, "Location", Some("http://"), Some("https://"));
}

#[test]
fn test_parse_middleware_header_default() {
    check_header_middleware("header ?Cache-Control max-age=3600", types::HeaderOperator::Default, "Cache-Control", Some("max-age=3600"), None);
}

#[test]
fn test_parse_cache() {
    assert_eq!(
        parse_cache("cache 5m"),
        Ok(("".to_string(), types::Middleware::Cache("5m".to_string())))
    );
}

#[test]
fn test_parse_auth() {
    assert_eq!(
        parse_auth("auth admin pass"),
        Ok(("".to_string(),
            types::Middleware::Auth {
                username: "admin".to_string(),
                password: "pass".to_string()
            }
        ))
    );
}

#[test]
fn test_parse_rate_limit() {
    assert_eq!(
        parse_rate_limit("rate_limit 10"),
        Ok(("".to_string(), types::Middleware::RateLimit(10)))
    );
}

#[test]
fn test_parse_string_u16_success() {
    assert_eq!(
        parse_string_u16("http://localhost:3000 200"),
        Ok(("".to_string(), ("http://localhost:3000".to_string(), 200)))
    );
    assert_eq!(parse_string_u16("/blog 403"), Ok(("".to_string(), ("/blog".to_string(), 403))));
    assert_eq!(parse_string_u16("** 101"), Ok(("".to_string(), ("**".to_string(), 101))));
    assert_eq!(parse_string_u16("{value} 404"), Ok(("".to_string(), ("{value}".to_string(), 404))));
    assert_eq!(
        parse_string_u16("about-us 301"),
        Ok(("".to_string(), ("about-us".to_string(), 301)))
    );
}

#[test]
fn test_parse_string_u16_failure() {
    assert!(parse_string_u16("").is_err());
    assert!(parse_string_u16(" ").is_err());
    assert!(parse_string_u16("http://localhost:3000").is_err());
    assert!(parse_string_u16("3000").is_err());
    assert!(parse_string_u16("http://localhost:3000 abc").is_err());
    assert!(parse_string_u16("http://localhost:3000 -200").is_err());
}

#[test]
fn test_string_literal_success() {
    assert_eq!(string_literal("\"hello\""), Ok(("".to_string(), "hello".to_string())));
    assert_eq!(string_literal("\"world\""), Ok(("".to_string(), "world".to_string())));
    assert_eq!(string_literal("\"12345\""), Ok(("".to_string(), "12345".to_string())));
    assert_eq!(string_literal("\"!@#$%\""), Ok(("".to_string(), "!@#$%".to_string())));
    assert_eq!(
        string_literal("\"with spaces\""),
        Ok(("".to_string(), "with spaces".to_string()))
    );
}

#[test]
fn test_string_literal_failure() {
    assert!(string_literal("hello").is_err());
    assert!(string_literal("\"unclosed").is_err());
    assert!(string_literal("unopened\"").is_err());
    assert!(string_literal("\"mismatched'").is_err());
    assert!(string_literal("").is_err());
}

#[test]
fn test_parse_literal_u16_success() {
    assert_eq!(
        parse_literal_u16("\"<h1>Example</h1>\" 200"),
        Ok(("".to_string(), ("<h1>Example</h1>".to_string(), 200)))
    );
    assert_eq!(
        parse_literal_u16("\"Hello, World!\" 404"),
        Ok(("".to_string(), ("Hello, World!".to_string(), 404)))
    );
    assert_eq!(
        parse_literal_u16("\"Test String\" 500"),
        Ok(("".to_string(), ("Test String".to_string(), 500)))
    );
}

#[test]
fn test_parse_literal_u16_failure() {
    assert!(parse_literal_u16("").is_err());
    assert!(parse_literal_u16(" ").is_err());
    assert!(parse_literal_u16("\"Unclosed").is_err());
    assert!(parse_literal_u16("Unopened\"").is_err());
    assert!(parse_literal_u16("\"Mismatched' 200").is_err());
    assert!(parse_literal_u16("\"Valid String\" -200").is_err());
    assert!(parse_literal_u16("\"Valid String\" abc").is_err());
}

#[test]
fn test_parse_u16_success() {
    assert_eq!(parse_u16("123"), Ok(("".to_string(), 123)));
    assert_eq!(parse_u16("0"), Ok(("".to_string(), 0)));
    assert_eq!(parse_u16("65535"), Ok(("".to_string(), 65535)));
    assert_eq!(parse_u16("  42"), Ok(("".to_string(), 42)));
    assert_eq!(parse_u16("\n99"), Ok(("".to_string(), 99)));
}

#[test]
fn test_parse_u16_failure() {
    assert!(parse_u16("").is_err());
    assert!(parse_u16(" ").is_err());
    assert!(parse_u16("abc").is_err());
    assert!(parse_u16("-123").is_err());
    assert!(parse_u16("123456").is_err()); // Out of range for u16
    assert!(parse_u16("12.34").is_err());
}

#[test]
fn test_parse_value_success() {
    assert_eq!(
        parse_value(" index.html"),
        Ok(("".to_string(), "index.html".to_string()))
    );
    assert_eq!(
        parse_value(" http://localhost:3000"),
        Ok(("".to_string(), "http://localhost:3000".to_string()))
    );
    assert_eq!(
        parse_value(" /path/to/file"),
        Ok(("".to_string(), "/path/to/file".to_string()))
    );
    assert_eq!(
        parse_value(" some_value"),
        Ok(("".to_string(), "some_value".to_string()))
    );
}

#[test]
fn test_parse_value_failure() {
    assert!(parse_value("").is_err());
    assert!(parse_value(" ").is_err());
    assert!(parse_value("\t").is_err());
    assert!(parse_value("\n").is_err());
}

#[test]
fn test_parse_virtual_host_success() {
    let input = r#"
                example.com {
                    route / {
                        file index.html
                    }
                }
                "#;

    assert_eq!(
        parse_virtual_host(input),
        Ok(("\n                ".to_string(),
            types::VirtualHost {
                domain: "example.com".to_string(),
                routes: vec![types::Route {
                    path: "/".to_string(),
                    handler: types::Handler::File("index.html".to_string()),
                    middlewares: vec![],
                }],
            }
        ))
    );
}

#[test]
fn test_parse_virtual_host_with_multiple_routes() {
    let input = r#"
                example.com {
                    route / {
                        file index.html
                    }
                    route /about {
                        file about.html
                    }
                }
                "#;

    assert_eq!(
        parse_virtual_host(input),
        Ok(("\n                ".to_string(),
            types::VirtualHost {
                domain: "example.com".to_string(),
                routes: vec![
                    types::Route {
                        path: "/".to_string(),
                        handler: types::Handler::File("index.html".to_string()),
                        middlewares: vec![],
                    },
                    types::Route {
                        path: "/about".to_string(),
                        handler: types::Handler::File("about.html".to_string()),
                        middlewares: vec![],
                    },
                ],
            }
        ))
    );
}

#[test]
fn test_parse_virtual_host_with_comments() {
    let input = r#"
                example.com {
                    # Another comment
                    route / {
                        file index.html
                    }
                    # Comment between routes
                    route /about {
                        file about.html
                    }
                }
                "#;

    assert_eq!(
        parse_virtual_host(input),
        Ok(("\n                ".to_string(),
            types::VirtualHost {
                domain: "example.com".to_string(),
                routes: vec![
                    types::Route {
                        path: "/".to_string(),
                        handler: types::Handler::File("index.html".to_string()),
                        middlewares: vec![],
                    },
                    types::Route {
                        path: "/about".to_string(),
                        handler: types::Handler::File("about.html".to_string()),
                        middlewares: vec![],
                    },
                ],
            }
        ))
    );
}

#[test]
fn test_parse_virtual_host_with_middleware() {
    let input = r#"
                example.com {
                    route / {
                        file index.html
                        gzip
                        cors
                    }
                }
                "#;

    assert_eq!(
        parse_virtual_host(input),
        Ok(("\n                ".to_string(),
            types::VirtualHost {
                domain: "example.com".to_string(),
                routes: vec![types::Route {
                    path: "/".to_string(),
                    handler: types::Handler::File("index.html".to_string()),
                    middlewares: vec![types::Middleware::Gzip, types::Middleware::Cors],
                }],
            }
        ))
    );
}

#[test]
fn test_parse_virtual_host_failure() {
    let input = r#"
                example.com {
                    route / {
                        file index.html
                    }
                "#; // Missing closing brace

    assert!(parse_virtual_host(input).is_err());
}

#[test]
fn test_try_parsers_stop_on_rate_limit_beyond_u32() {
    let contents = "file index.html\n rate_limit 4294967296";
    assert_eq!(try_parse_route_contents(contents), None);
    assert_eq!(try_parse_route("route / { file a rate_limit 4294967296 }"), None);
    assert_eq!(
        try_parse_virtual_host("localhost { route / { file a rate_limit 4294967296 } }"),
        None
    );
    assert_eq!(
        try_parse_route("route / { file a }"),
        Some(parse_route("route / { file a }"))
    );
    assert!(matches!(
        try_parse_virtual_host("localhost { route / { file a } }"),
        Some(Ok(_))
    ));
}

#[test]
fn test_parse_rate_limit_largest_u32() {
    assert_eq!(
        parse_rate_limit("rate_limit 4294967295"),
        Ok(("".to_string(), types::Middleware::RateLimit(4294967295)))
    );
}
