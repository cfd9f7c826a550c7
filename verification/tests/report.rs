use chico::report::{
    analyze_eof_context, analyze_parsing_context, contains_pattern, ends_with_pattern,
    extract_last_tokens, find_error_location, get_error_context, get_parsing_context_snippet,
    normalize_whitespace, parse_config, suggest_fix_for_content, try_parse_config,
};

#[test]
fn test_find_error_location_counts_lines_and_columns() {
    let full = "a {\n  bc\n  d";
    assert_eq!(find_error_location(full, "d"), " line 3, column 3");
    assert_eq!(find_error_location(full, full), " line 1, column 1");
    assert_eq!(find_error_location(full, ""), " line 3, column 4");
}

#[test]
fn test_get_error_context_cuts_at_newline_and_thirty_chars() {
    assert_eq!(get_error_context("abc\ndef"), "abc...");
    assert_eq!(get_error_context("short"), "short");
    let long = "0123456789012345678901234567890123456789";
    assert_eq!(get_error_context(long), "012345678901234567890123456789...");
}

#[test]
fn test_get_parsing_context_snippet() {
    assert_eq!(get_parsing_context_snippet("short"), "short");
    let long = "0123456789012345678901234567890123456789";
    assert_eq!(get_parsing_context_snippet(long), "...0123456789012345678901234567890123456789"[..3].to_string() + &long[10..]);
}

#[test]
fn test_normalize_whitespace_and_tokens() {
    assert_eq!(normalize_whitespace("  a \n b\t c  "), "a b c");
    assert_eq!(
        extract_last_tokens("route /path { file", 2),
        vec!["{".to_string(), "file".to_string()]
    );
    assert_eq!(extract_last_tokens("a", 3), vec!["a".to_string()]);
}

#[test]
fn test_patterns() {
    assert!(ends_with_pattern("x { proxy\n {", &["proxy", "{"]));
    assert!(!ends_with_pattern("x { proxy", &["proxy", "{"]));
    assert!(contains_pattern("route  /a   {  file", &["/a", "{"]));
    assert!(!contains_pattern("route /a", &["/b"]));
}

#[test]
fn test_analyze_eof_context_file_handler() {
    assert_eq!(
        analyze_eof_context("example.com { route /path { file"),
        "File handler requires a file path. Example: 'file index.html'."
    );
    assert_eq!(
        analyze_eof_context("   "),
        "Configuration file appears to be empty or contains only whitespace."
    );
}

#[test]
fn test_analyze_eof_context_file_handler_with_path() {
    assert_eq!(
        analyze_eof_context("example.com { route / { file index.html"),
        "Missing closing braces. Each '{' must have a corresponding '}'."
    );
    assert_eq!(
        analyze_eof_context("example.com { route / { file\n}"),
        "File handler requires a file path. Example: 'file index.html'."
    );
}

#[test]
fn test_suggestions_depend_on_trimmed_input() {
    for s in [
        "  example.com \n",
        "\t route /api  ",
        "\n example.com { route /a { file\n",
        "  proxy {  ",
        "   ",
    ] {
        assert_eq!(suggest_fix_for_content(s), suggest_fix_for_content(s.trim()), "{:?}", s);
        assert_eq!(analyze_eof_context(s), analyze_eof_context(s.trim()), "{:?}", s);
    }
}

#[test]
fn test_analyze_parsing_context_dispatches_on_rest() {
    assert_eq!(
        analyze_parsing_context("example.com { route /path { file", ""),
        analyze_eof_context("example.com { route /path { file")
    );
}

#[test]
fn test_suggest_fix_for_content_from_text_alone() {
    assert_eq!(
        suggest_fix_for_content("example.com"),
        "Domain definitions should be followed by a block enclosed in braces { }. Example: 'example.com { ... }'."
    );
    assert_eq!(
        suggest_fix_for_content(""),
        "Configuration file appears to be empty or contains only whitespace."
    );
}

#[test]
fn test_parse_config_empty_input_message() {
    assert_eq!(
        parse_config(""),
        Err("Unexpected end of file. The configuration appears to be incomplete.".to_string())
    );
}

#[test]
fn test_try_parse_config_stops_on_huge_rate_limit() {
    assert_eq!(
        try_parse_config("localhost { route / { file a rate_limit 4294967296 } }"),
        None
    );
    assert!(matches!(
        try_parse_config("localhost { route / { file a rate_limit 4294967295 } }"),
        Some(Ok(_))
    ));
}
