use route_matcher::{
    CaptureOrExact, ExpectedToken, FieldType, ParserErrorReason, PrettyParseError,
    RefCaptureVariant, RouteParserToken,
};

// Call all tests to parse with the Unnamed variant.
fn parse(i: &str) -> Result<Vec<RouteParserToken>, PrettyParseError> {
    route_matcher::parse(i, FieldType::Unnamed)
}

#[test]
fn slash() {
    parse("/").expect("should parse");
}

#[test]
fn slash_exact() {
    parse("/hello").expect("should parse");
}

#[test]
fn multiple_exact() {
    parse("/lorem/ipsum").expect("should parse");
}

#[test]
fn capture_in_path() {
    parse("/lorem/{ipsum}").expect("should parse");
}

#[test]
fn capture_rest_in_path() {
    parse("/lorem/{*:ipsum}").expect("should parse");
}

#[test]
fn capture_numbered_in_path() {
    parse("/lorem/{5:ipsum}").expect("should parse");
}

#[test]
fn exact_query_after_path() {
    parse("/lorem?ipsum=dolor").expect("should parse");
}

#[test]
fn exact_query() {
    parse("?lorem=ipsum").expect("should parse");
}

#[test]
fn capture_query() {
    parse("?lorem={ipsum}").expect("should parse");
}

#[test]
fn multiple_queries() {
    parse("?lorem=ipsum&dolor=sit").expect("should parse");
}

#[test]
fn query_and_exact_fragment() {
    parse("?lorem=ipsum#dolor").expect("should parse");
}

#[test]
fn query_with_exact_and_capture_fragment() {
    parse("?lorem=ipsum#dolor{sit}").expect("should parse");
}

#[test]
fn query_with_capture_fragment() {
    parse("?lorem=ipsum#{dolor}").expect("should parse");
}

#[test]
fn empty() {
    parse("").expect_err("Should not parse");
}

#[test]
fn double_slash() {
    let x = parse("//").expect_err("Should not parse");
    assert_eq!(x.error.reason, Some(ParserErrorReason::DoubleSlash))
}

#[test]
fn slash_ampersand() {
    let x = parse("/&lorem=ipsum").expect_err("Should not parse");
    assert_eq!(x.error.reason, Some(ParserErrorReason::AndBeforeQuestion))
}

#[test]
fn non_ident_capture() {
    let x = parse("/{lor#m}").expect_err("Should not parse");
    assert_eq!(x.error.reason, Some(ParserErrorReason::BadRustIdent('#')));
    assert_eq!(
        x.error.expected,
        vec![ExpectedToken::CloseBracket, ExpectedToken::Ident]
    )
}

#[test]
fn leading_ampersand_query() {
    let x = parse("&query=thing").expect_err("Should not parse");
    assert_eq!(x.error.reason, Some(ParserErrorReason::AndBeforeQuestion));
}

#[test]
fn after_end() {
    let x = parse("/lorem/ipsum!/dolor").expect_err("Should not parse");
    assert_eq!(x.error.reason, Some(ParserErrorReason::TokensAfterEndToken));
}

#[test]
fn double_end() {
    let x = parse("/hello!!").expect_err("Should not parse");
    assert_eq!(x.error.reason, Some(ParserErrorReason::TokensAfterEndToken));
}

#[test]
fn starting_literal() {
    let parsed = parse("lorem").unwrap();
    let expected = vec![RouteParserToken::Exact("lorem".to_string())];
    assert_eq!(parsed, expected);
}

#[test]
fn minimal_path() {
    let parsed = parse("/lorem").unwrap();
    let expected = vec![
        RouteParserToken::Separator,
        RouteParserToken::Exact("lorem".to_string()),
    ];
    assert_eq!(parsed, expected);
}

#[test]
fn multiple_path() {
    let parsed = parse("/lorem/ipsum/dolor/sit").unwrap();
    let expected = vec![
        RouteParserToken::Separator,
        RouteParserToken::Exact("lorem".to_string()),
        RouteParserToken::Separator,
        RouteParserToken::Exact("ipsum".to_string()),
        RouteParserToken::Separator,
        RouteParserToken::Exact("dolor".to_string()),
        RouteParserToken::Separator,
        RouteParserToken::Exact("sit".to_string()),
    ];
    assert_eq!(parsed, expected);
}

#[test]
fn capture_path() {
    let parsed = parse("/{lorem}/{ipsum}").unwrap();
    let expected = vec![
        RouteParserToken::Separator,
        RouteParserToken::Capture(RefCaptureVariant::Named("lorem".to_string())),
        RouteParserToken::Separator,
        RouteParserToken::Capture(RefCaptureVariant::Named("ipsum".to_string())),
    ];
    assert_eq!(parsed, expected);
}

#[test]
fn query() {
    let parsed = parse("?query=this").unwrap();
    let expected = vec![
        RouteParserToken::QueryBegin,
        RouteParserToken::Query {
            ident: "query".to_string(),
            capture_or_exact: CaptureOrExact::Exact("this".to_string()),
        },
    ];
    assert_eq!(parsed, expected);
}

#[test]
fn query_2_part() {
    let parsed = parse("?lorem=ipsum&dolor=sit").unwrap();
    let expected = vec![
        RouteParserToken::QueryBegin,
        RouteParserToken::Query {
            ident: "lorem".to_string(),
            capture_or_exact: CaptureOrExact::Exact("ipsum".to_string()),
        },
        RouteParserToken::QuerySeparator,
        RouteParserToken::Query {
            ident: "dolor".to_string(),
            capture_or_exact: CaptureOrExact::Exact("sit".to_string()),
        },
    ];
    assert_eq!(parsed, expected);
}

#[test]
fn query_3_part() {
    let parsed = parse("?lorem=ipsum&dolor=sit&amet=consectetur").unwrap();
    let expected = vec![
        RouteParserToken::QueryBegin,
        RouteParserToken::Query {
            ident: "lorem".to_string(),
            capture_or_exact: CaptureOrExact::Exact("ipsum".to_string()),
        },
        RouteParserToken::QuerySeparator,
        RouteParserToken::Query {
            ident: "dolor".to_string(),
            capture_or_exact: CaptureOrExact::Exact("sit".to_string()),
        },
        RouteParserToken::QuerySeparator,
        RouteParserToken::Query {
            ident: "amet".to_string(),
            capture_or_exact: CaptureOrExact::Exact("consectetur".to_string()),
        },
    ];
    assert_eq!(parsed, expected);
}

#[test]
fn exact_fragment() {
    let parsed = parse("#lorem").unwrap();
    let expected = vec![
        RouteParserToken::FragmentBegin,
        RouteParserToken::Exact("lorem".to_string()),
    ];
    assert_eq!(parsed, expected);
}

#[test]
fn capture_fragment() {
    let parsed = parse("#{lorem}").unwrap();
    let expected = vec![
        RouteParserToken::FragmentBegin,
        RouteParserToken::Capture(RefCaptureVariant::Named("lorem".to_string())),
    ];
    assert_eq!(parsed, expected);
}

#[test]
fn mixed_fragment() {
    let parsed = parse("#{lorem}ipsum{dolor}").unwrap();
    let expected = vec![
        RouteParserToken::FragmentBegin,
        RouteParserToken::Capture(RefCaptureVariant::Named("lorem".to_string())),
        RouteParserToken::Exact("ipsum".to_string()),
        RouteParserToken::Capture(RefCaptureVariant::Named("dolor".to_string())),
    ];
    assert_eq!(parsed, expected);
}

#[test]
fn end_after_path() {
    let parsed = parse("/lorem!").unwrap();
    let expected = vec![
        RouteParserToken::Separator,
        RouteParserToken::Exact("lorem".to_string()),
        RouteParserToken::End,
    ];
    assert_eq!(parsed, expected);
}

#[test]
fn end_after_path_separator() {
    let parsed = parse("/lorem/!").unwrap();
    let expected = vec![
        RouteParserToken::Separator,
        RouteParserToken::Exact("lorem".to_string()),
        RouteParserToken::Separator,
        RouteParserToken::End,
    ];
    assert_eq!(parsed, expected);
}

#[test]
fn end_after_path_capture() {
    let parsed = parse("/lorem/{cap}!").unwrap();
    let expected = vec![
        RouteParserToken::Separator,
        RouteParserToken::Exact("lorem".to_string()),
        RouteParserToken::Separator,
        RouteParserToken::Capture(RefCaptureVariant::Named("cap".to_string())),
        RouteParserToken::End,
    ];
    assert_eq!(parsed, expected);
}

#[test]
fn end_after_query_capture() {
    let parsed = parse("?lorem={cap}!").unwrap();
    let expected = vec![
        RouteParserToken::QueryBegin,
        RouteParserToken::Query {
            ident: "lorem".to_string(),
            capture_or_exact: CaptureOrExact::Capture(RefCaptureVariant::Named("cap".to_string())),
        },
        RouteParserToken::End,
    ];
    assert_eq!(parsed, expected);
}

#[test]
fn end_after_frag_capture() {
    let parsed = parse("#{cap}!").unwrap();
    let expected = vec![
        RouteParserToken::FragmentBegin,
        RouteParserToken::Capture(RefCaptureVariant::Named("cap".to_string())),
        RouteParserToken::End,
    ];
    assert_eq!(parsed, expected);
}

#[test]
fn just_end() {
    let parsed = parse("!").unwrap();
    assert_eq!(parsed, vec![RouteParserToken::End]);
}
