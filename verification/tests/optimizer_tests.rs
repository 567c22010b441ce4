use route_matcher::{
    convert_tokens, parse_str_and_optimize_tokens, CaptureVariant, FieldType, MatcherToken,
    ParserErrorReason, PrettyParseError, RefCaptureVariant, RouteParserToken,
};

fn optimize(i: &str) -> Result<Vec<MatcherToken>, PrettyParseError> {
    parse_str_and_optimize_tokens(i, FieldType::Unnamed)
}

#[test]
fn optimize_single_slash() {
    assert_eq!(
        optimize("/").unwrap(),
        vec![MatcherToken::Exact("/".to_string())]
    );
}

#[test]
fn optimize_slash_exact() {
    assert_eq!(
        optimize("/hello").unwrap(),
        vec![MatcherToken::Exact("/hello".to_string())]
    );
}

#[test]
fn optimize_path_with_capture() {
    assert_eq!(
        optimize("/lorem/{ipsum}").unwrap(),
        vec![
            MatcherToken::Exact("/lorem/".to_string()),
            MatcherToken::Capture(CaptureVariant::Named("ipsum".to_string())),
        ]
    );
}

#[test]
fn optimize_all_literal_query() {
    assert_eq!(
        optimize("?lorem=ipsum&dolor=sit").unwrap(),
        vec![MatcherToken::Exact("?lorem=ipsum&dolor=sit".to_string())]
    );
}

#[test]
fn optimize_query_capture_then_end() {
    assert_eq!(
        optimize("?lorem={cap}!").unwrap(),
        vec![
            MatcherToken::Exact("?lorem=".to_string()),
            MatcherToken::Capture(CaptureVariant::Named("cap".to_string())),
            MatcherToken::Exact("".to_string()),
            MatcherToken::End,
        ]
    );
}

#[test]
fn optimize_just_end() {
    assert_eq!(
        optimize("!").unwrap(),
        vec![MatcherToken::Exact("".to_string()), MatcherToken::End]
    );
}

#[test]
fn optimize_fragment_mix() {
    assert_eq!(
        optimize("/a?b=c#d{e}").unwrap(),
        vec![
            MatcherToken::Exact("/a?b=c#d".to_string()),
            MatcherToken::Capture(CaptureVariant::Named("e".to_string())),
        ]
    );
}

#[test]
fn optimize_reports_parse_errors() {
    let e = optimize("//").expect_err("Should not parse");
    assert_eq!(e.error.reason, Some(ParserErrorReason::DoubleSlash));
}

#[test]
fn no_two_adjacent_exacts_in_output() {
    let cases = [
        "/lorem/{ipsum}/{dolor}",
        "?a={b}&c=d#e{f}g{h}!",
        "/{a}/{b}/{c}",
        "!",
        "#{x}",
    ];
    for case in cases {
        let out = optimize(case).unwrap();
        for pair in out.windows(2) {
            let both_exact = matches!(pair[0], MatcherToken::Exact(_))
                && matches!(pair[1], MatcherToken::Exact(_));
            assert!(!both_exact, "adjacent Exact tokens for {case}");
        }
    }
}

fn reembed(tokens: &[MatcherToken]) -> Vec<RouteParserToken> {
    tokens
        .iter()
        .map(|t| match t {
            MatcherToken::Exact(s) => RouteParserToken::Exact(s.clone()),
            MatcherToken::Capture(c) => RouteParserToken::Capture(match c {
                CaptureVariant::Unnamed => RefCaptureVariant::Unnamed,
                CaptureVariant::ManyUnnamed => RefCaptureVariant::ManyUnnamed,
                CaptureVariant::NumberedUnnamed { sections } => {
                    RefCaptureVariant::NumberedUnnamed { sections: *sections }
                }
                CaptureVariant::Named(n) => RefCaptureVariant::Named(n.clone()),
                CaptureVariant::ManyNamed(n) => RefCaptureVariant::ManyNamed(n.clone()),
                CaptureVariant::NumberedNamed { sections, name } => {
                    RefCaptureVariant::NumberedNamed {
                        sections: *sections,
                        name: name.clone(),
                    }
                }
            }),
            MatcherToken::End => RouteParserToken::End,
        })
        .collect()
}

#[test]
fn optimize_is_idempotent_on_its_output() {
    let cases = [
        "/lorem/{ipsum}",
        "?lorem={cap}!",
        "/a/b/c?d=e&f={g}#h{i}!",
        "!",
        "/",
        "#{x}y{z}",
    ];
    for case in cases {
        let once = optimize(case).unwrap();
        let twice = convert_tokens(&reembed(&once));
        assert_eq!(once, twice, "fold not idempotent for {case}");
    }
}

fn render_capture(c: &CaptureVariant) -> String {
    match c {
        CaptureVariant::Unnamed => "{}".to_string(),
        CaptureVariant::ManyUnnamed => "{*}".to_string(),
        CaptureVariant::NumberedUnnamed { sections } => format!("{{{sections}}}"),
        CaptureVariant::Named(n) => format!("{{{n}}}"),
        CaptureVariant::ManyNamed(n) => format!("{{*:{n}}}"),
        CaptureVariant::NumberedNamed { sections, name } => format!("{{{sections}:{name}}}"),
    }
}

#[test]
fn optimized_tokens_spell_out_the_input() {
    let cases = [
        "/lorem/{ipsum}",
        "?lorem={cap}!",
        "/a/{2:b}?c=d&e={*:f}#g{h}!",
        "/{*}/{5}/x",
        "!",
    ];
    for case in cases {
        let out = optimize(case).unwrap();
        let text: String = out
            .iter()
            .map(|t| match t {
                MatcherToken::Exact(s) => s.clone(),
                MatcherToken::Capture(c) => render_capture(c),
                MatcherToken::End => "!".to_string(),
            })
            .collect();
        assert_eq!(text, case, "renderings do not concatenate to the input");
    }
}

#[test]
fn end_is_final_and_unique_in_both_forms() {
    let raw = route_matcher::parse("/a/{b}?c={d}#e!", FieldType::Unnamed).unwrap();
    assert!(matches!(raw.last(), Some(RouteParserToken::End)));
    assert_eq!(
        raw.iter()
            .filter(|t| matches!(t, RouteParserToken::End))
            .count(),
        1
    );
    let out = optimize("/a/{b}?c={d}#e!").unwrap();
    assert!(matches!(out.last(), Some(MatcherToken::End)));
    assert_eq!(
        out.iter().filter(|t| matches!(t, MatcherToken::End)).count(),
        1
    );
}

#[test]
fn convert_tokens_flushes_trailing_run() {
    let tokens = vec![
        RouteParserToken::Separator,
        RouteParserToken::Exact("abc".to_string()),
    ];
    assert_eq!(
        convert_tokens(&tokens),
        vec![MatcherToken::Exact("/abc".to_string())]
    );
}

#[test]
fn convert_tokens_keeps_empty_exact_before_end() {
    let tokens = vec![RouteParserToken::End];
    assert_eq!(
        convert_tokens(&tokens),
        vec![MatcherToken::Exact("".to_string()), MatcherToken::End]
    );
}
