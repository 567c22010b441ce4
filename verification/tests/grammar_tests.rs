use route_matcher::parser::ParserState;
use route_matcher::{
    format_route_string, ExpectedToken, FieldType, ParserErrorReason, PrettyParseError,
    RefCaptureVariant, Route, RouteParserToken,
};

fn parse(i: &str) -> Result<Vec<RouteParserToken>, PrettyParseError> {
    route_matcher::parse(i, FieldType::Unnamed)
}

fn parse_named(i: &str) -> Result<Vec<RouteParserToken>, PrettyParseError> {
    route_matcher::parse(i, FieldType::Named)
}

#[test]
fn single_separator_token() {
    assert_eq!(parse("/").unwrap(), vec![RouteParserToken::Separator]);
}

#[test]
fn all_capture_forms_parse() {
    assert_eq!(
        parse("/{}").unwrap()[1],
        RouteParserToken::Capture(RefCaptureVariant::Unnamed)
    );
    assert_eq!(
        parse("/{*}").unwrap()[1],
        RouteParserToken::Capture(RefCaptureVariant::ManyUnnamed)
    );
    assert_eq!(
        parse("/{12}").unwrap()[1],
        RouteParserToken::Capture(RefCaptureVariant::NumberedUnnamed { sections: 12 })
    );
    assert_eq!(
        parse("/{name}").unwrap()[1],
        RouteParserToken::Capture(RefCaptureVariant::Named("name".to_string()))
    );
    assert_eq!(
        parse("/{*:name}").unwrap()[1],
        RouteParserToken::Capture(RefCaptureVariant::ManyNamed("name".to_string()))
    );
    assert_eq!(
        parse("/{5:name}").unwrap()[1],
        RouteParserToken::Capture(RefCaptureVariant::NumberedNamed {
            sections: 5,
            name: "name".to_string(),
        })
    );
}

#[test]
fn named_mode_requires_names() {
    assert!(parse_named("/{name}").is_ok());
    assert!(parse_named("/{*:name}").is_ok());
    assert!(parse_named("/{3:name}").is_ok());
    assert!(parse_named("/{}").is_err());
    assert!(parse_named("/{*}").is_err());
    assert!(parse_named("/{3}").is_err());
}

#[test]
fn fragment_captures_are_single_section() {
    assert!(parse("#{name}").is_ok());
    assert!(parse("#{}").is_ok());
    assert!(parse("#{*}").is_err());
    assert!(parse("#{2}").is_err());
    assert!(parse("#{*:name}").is_err());
}

#[test]
fn adjacent_captures_are_rejected() {
    let e = parse("/{a}{b}").expect_err("Should not parse");
    assert_eq!(e.error.reason, Some(ParserErrorReason::AdjacentCaptures));
}

#[test]
fn second_question_mark_is_rejected() {
    let e = parse("??").expect_err("Should not parse");
    assert_eq!(e.error.reason, Some(ParserErrorReason::MultipleQuestions));
    let e = parse("?a=b?c=d").expect_err("Should not parse");
    assert_eq!(e.error.reason, Some(ParserErrorReason::MultipleQuestions));
}

#[test]
fn bad_query_key_character_is_named() {
    let e = parse("?lo#rem=ipsum").expect_err("Should not parse");
    assert_eq!(e.error.reason, Some(ParserErrorReason::BadRustIdent('#')));
    assert_eq!(
        e.error.expected,
        vec![ExpectedToken::Equals, ExpectedToken::Ident]
    );
}

#[test]
fn error_carries_input_remainder_and_offset() {
    let e = parse("/lorem/{ips#m}").expect_err("Should not parse");
    assert_eq!(e.input, "/lorem/{ips#m}");
    assert_eq!(e.remaining, "{ips#m}");
    assert_eq!(e.error.offset, 11);
    assert_eq!(e.error.reason, Some(ParserErrorReason::BadRustIdent('#')));
}

#[test]
fn section_count_must_be_canonical_and_fit() {
    assert!(parse("/{05}").is_err());
    assert!(parse("/{0}").is_ok());
    assert!(parse("/{99999999999999999999999:x}").is_err());
}

#[test]
fn query_value_must_not_be_empty() {
    let e = parse("?a=").expect_err("Should not parse");
    assert_eq!(
        e.error.expected,
        vec![ExpectedToken::Literal, ExpectedToken::CaptureBegin]
    );
}

#[test]
fn fragment_rejects_double_literal_boundary() {
    // a literal run in the fragment is maximal, so a second one can only be
    // produced by an interleaved capture
    assert!(parse("#ab{c}de").is_ok());
    let e = parse("#ab?x").expect_err("Should not parse");
    assert_eq!(e.error.reason, None);
}

#[test]
fn literal_rendering_of_simple_tokens() {
    assert_eq!(RouteParserToken::Separator.as_str(), "/");
    assert_eq!(RouteParserToken::QueryBegin.as_str(), "?");
    assert_eq!(RouteParserToken::QuerySeparator.as_str(), "&");
    assert_eq!(RouteParserToken::FragmentBegin.as_str(), "#");
    assert_eq!(RouteParserToken::Exact("abc".to_string()).as_str(), "abc");
}

#[test]
fn format_route_string_concatenates_sections() {
    assert_eq!(
        format_route_string("/path", "?query=yes", "#fragment"),
        "/path?query=yes#fragment"
    );
    assert_eq!(format_route_string("", "", ""), "");
}

#[test]
fn current_route_wraps_the_route_string() {
    let route: Route<u32> = Route::current_route("/where/to?go=here".to_string());
    assert_eq!(route.route, "/where/to?go=here");
    assert_eq!(route.state, None);
    assert_eq!(route.as_route_string().as_str(), "/where/to?go=here");
}

#[test]
fn route_from_str_wraps_the_string() {
    let route: Route<u32> = Route::from("/over/there");
    assert_eq!(route.route, "/over/there");
    assert_eq!(route.state, None);
}

#[test]
fn fragment_transition_rejects_literal_after_literal() {
    let state = ParserState::Fragment {
        prev_token: RouteParserToken::Exact("a".to_string()),
    };
    let r = state.transition(RouteParserToken::Exact("b".to_string()));
    assert!(matches!(r, Err(ParserErrorReason::NotAllowedStateTransition)));
    let state = ParserState::Fragment {
        prev_token: RouteParserToken::Exact("a".to_string()),
    };
    assert!(state.transition(RouteParserToken::End).is_ok());
}

#[test]
fn default_route_is_empty() {
    let route: Route<u32> = Route::default();
    assert_eq!(route.route, "");
    assert_eq!(route.state, None);
}
