use chico::report::parse_config;
use chico::types::{Config, Handler, Route, VirtualHost};
use chico::validate::{
    config_failure, format_parse_error, parse_with_validate, suggest_fix_for_content,
    try_get_port, try_get_ports, try_parse_with_validate, ConfigExt, VirtualHostExt,
};

#[test]
fn test_parse_with_validate_empty_content() {
    let content = "";
    let result = parse_with_validate(content);
    assert!(result.is_err());
    assert_eq!(
        result.err().unwrap(),
        "Failed to parse content. reason: content is empty."
    );
}

fn check_duplicate_domain(content: &str, domain: &str) {
    let result = parse_with_validate(content);
    assert!(result.is_err());
    assert_eq!(
        result.err().unwrap(),
        format!(
            "Failed to parse config file. reason: duplicate domain found: {}",
            domain
        )
    );
}

#[test]
fn test_parse_with_validate_duplicate_virtual_hosts_localhost() {
    check_duplicate_domain(
        r#"
        localhost {
            route / {
                file index.html
            }
        }
        localhost {
            route / {
                file index.html
            }
        }
        "#,
        "localhost",
    );
}

#[test]
fn test_parse_with_validate_duplicate_virtual_hosts_first_repeat() {
    check_duplicate_domain(
        r#"
        localhost {
            route / {
                file index.html
            }
        }
        example.com {
            route / {
                file index.html
            }
        }

        example.com {
            route / {
                file index.html
            }
        }

        localhost {
            route / {
                file index.html
            }
        }
        "#,
        "example.com",
    );
}

fn check_duplicate_route(content: &str, domain: &str, route: &str) {
    let result = parse_with_validate(content);
    assert!(result.is_err());
    assert_eq!(
        result.err().unwrap(),
        format!(
            "Failed to parse config file. reason: duplicate in host {} route found: {}",
            domain, route
        )
    );
}

#[test]
fn test_parse_with_validate_duplicate_routes_single_host() {
    check_duplicate_route(
        r#"
        localhost {
            route / {
                file index.html
            }
            route /blog {
                file index.html
            }
            route /blog {
                proxy http://localhost:8080
            }
        }
        "#,
        "localhost",
        "/blog",
    );
}

#[test]
fn test_parse_with_validate_duplicate_routes_second_host() {
    check_duplicate_route(
        r#"
        localhost {
            route / {
                file index.html
            }
        }
        example.com {
            route / {
                file index.html
            }
            route /api {
                proxy http://localhost:8080
            }
            route /api {
                respond 404
            }
        }
        "#,
        "example.com",
        "/api",
    );
}

#[test]
fn test_parse_with_validate_valid_content() {
    let content = r#"
        localhost {
            route / {
                file index.html
            }
        }
        example.com {
            route / {
                file index.html
            }
        }
        "#;
    let result = parse_with_validate(content);
    assert!(result.is_ok());
}

#[test]
fn test_parse_with_validate_valid_content_value() {
    let content = r#"
        localhost {
            route / {
                file index.html
            }
        }
        example.com {
            route / {
                file index.html
            }
        }
        "#;
    let result = parse_with_validate(content);
    assert_eq!(
        result,
        Ok(Config {
            virtual_hosts: vec![
                VirtualHost {
                    domain: "localhost".to_string(),
                    routes: vec![Route {
                        path: "/".to_string(),
                        handler: Handler::File("index.html".to_string()),
                        middlewares: vec![],
                    }],
                },
                VirtualHost {
                    domain: "example.com".to_string(),
                    routes: vec![Route {
                        path: "/".to_string(),
                        handler: Handler::File("index.html".to_string()),
                        middlewares: vec![],
                    }],
                }
            ]
        })
    );
}

#[test]
fn test_parse_with_validate_only_comments_has_no_host() {
    let result = parse_with_validate("# only a comment\n");
    assert_eq!(
        result,
        Err("Failed to parse config file. reason: no virtual hosts found.".to_string())
    );
}

#[test]
fn test_try_parse_with_validate_stops_on_huge_rate_limit() {
    let content = "localhost { route / { file index.html rate_limit 99999999999 } }";
    assert_eq!(try_parse_with_validate(content), None);
    let ok = try_parse_with_validate("localhost { route / { file index.html } }");
    assert!(matches!(ok, Some(Ok(_))));
}

#[test]
fn test_get_ports_when_ports_specified() {
    let content = r#"
        localhost:3000 {
            route / {
                file index.html
            }
        }
        example.com:80 {
            route / {
                file index.html
            }
        }
        http://example2.com:8080 {
            route / {
                file index.html
            }
        }
        https://example3.com:443 {
            route / {
                file index.html
            }
        }
        "#;

    let (_, config) = parse_config(content).unwrap();
    let ports = config.get_ports();
    assert!(ports.contains(&3000));
    assert!(ports.contains(&80));
    assert!(ports.contains(&8080));
    assert!(ports.contains(&443));
    assert_eq!(ports, vec![3000, 80, 8080, 443]);
}

fn check_port_not_specified(content: &str, port: u16) {
    let (_, config) = parse_config(content).unwrap();
    let ports = config.get_ports();
    assert!(ports.contains(&port));
}

#[test]
fn test_get_ports_when_ports_not_specified_plain_host() {
    check_port_not_specified(
        r"
    localhost {
            route / {
                file index.html
            }
        }",
        80,
    );
}

#[test]
fn test_get_ports_when_ports_not_specified_http() {
    check_port_not_specified(
        r"
    http://example.com {
            route / {
                file index.html
            }
        }",
        80,
    );
}

#[test]
fn test_get_ports_when_ports_not_specified_https() {
    check_port_not_specified(
        r"
    https://example2.com {
            route / {
                file index.html
            }
        }",
        443,
    );
}

#[test]
fn test_try_get_ports_and_port() {
    let host = VirtualHost {
        domain: "https://example.com:8443".to_string(),
        routes: vec![],
    };
    assert_eq!(host.get_port(), 8443);
    assert_eq!(try_get_port(&host), Some(8443));
    let bad = VirtualHost {
        domain: "exa mple.com".to_string(),
        routes: vec![],
    };
    assert_eq!(try_get_port(&bad), None);
    let config = Config {
        virtual_hosts: vec![host, bad],
    };
    assert_eq!(try_get_ports(&config), None);
}

#[test]
fn test_parse_with_validate_improved_error_messages_invalid_syntax() {
    let content = "invalid syntax here";
    let result = parse_with_validate(content);
    assert!(result.is_err());
    let error_msg = result.err().unwrap();

    println!("Error message: {}", error_msg);

    // Check that error message contains helpful information
    assert!(error_msg.contains("Failed to parse config file"));
    assert!(error_msg.contains("line 1"));
    assert!(error_msg.contains("invalid syntax here"));
}

#[test]
fn test_parse_with_validate_improved_error_messages_missing_brace() {
    let content = "example.com { route / { file index.html ";
    let result = parse_with_validate(content);
    assert!(result.is_err());
    let error_msg = result.err().unwrap();

    // Check that error message suggests missing brace
    assert!(error_msg.contains("Failed to parse config file"));
    assert!(error_msg.contains("line 1"));
}

#[test]
fn test_parse_with_validate_improved_error_messages_multiline() {
    let content = r#"
example.com {
    route / {
        invalid_handler
    }
}
        "#;
    let result = parse_with_validate(content);
    assert!(result.is_err());
    let error_msg = result.err().unwrap();

    // Should provide line number information for multiline configs
    assert!(error_msg.contains("Failed to parse config file"));
    assert!(error_msg.contains("line"));
}

#[test]
fn test_format_parse_error_with_suggestions() {
    let test_cases = vec![
        ("", "Unexpected end of file"),
        ("example.com", "Domain definitions should be followed by a block"),
        ("example.com { route", "configuration syntax"),
    ];

    for (input, expected_part) in test_cases {
        if let Some(parse_err) = config_failure(input) {
            let formatted = format_parse_error(input, parse_err);
            assert!(
                formatted.contains(expected_part),
                "Expected '{}' to contain '{}' for input '{}'",
                formatted,
                expected_part,
                input
            );
        }
    }
}

#[test]
fn test_format_parse_error_exact_domain_message() {
    let input = "example.com";
    let err = config_failure(input).unwrap();
    assert_eq!(err.pos, 0);
    assert_eq!(
        format_parse_error(input, err),
        "Syntax error near line 1, column 1: 'example.com'. Domain definitions should be followed by a block enclosed in braces { }."
    );
}

#[test]
fn test_server_suggestion_depends_on_trimmed_input() {
    for s in ["  { route \n", " route /x\t", "\nexample.com ", "  file a  ", " 123 { "] {
        assert_eq!(suggest_fix_for_content(s), suggest_fix_for_content(s.trim()), "{:?}", s);
    }
}

#[test]
fn test_server_suggest_fix_for_content_branches() {
    assert_eq!(
        suggest_fix_for_content("{ route"),
        "Check for missing closing brace '}'."
    );
    assert_eq!(
        suggest_fix_for_content("route /x"),
        "Route definitions should be followed by a block enclosed in braces { }."
    );
    assert_eq!(
        suggest_fix_for_content("  example.com  "),
        "Domain definitions should be followed by a block enclosed in braces { }."
    );
    assert_eq!(
        suggest_fix_for_content("   "),
        "Configuration file appears to be empty or contains only whitespace."
    );
    assert_eq!(
        suggest_fix_for_content("123 {"),
        "Check the configuration syntax - ensure domains, routes, and handlers are properly defined."
    );
}
