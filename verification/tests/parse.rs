use oxc_allocator::Allocator;
use oxc_formatter_json::options::JsonVariant;
use oxc_formatter_json::oxc_parse::ParseReport;
use oxc_formatter_json::parse::{
    finish_parse_json, parse_json, reject_comments_in_json_stringify, try_parse_comments_only,
    ParseJsonError,
};
use oxc_formatter_json::span::{Comment, SourceSpan};
use oxc_formatter_json::value::{JsonValue, JsonValueKind};

#[test]
fn object_is_parsed_inside_parentheses() {
    let allocator = Allocator::default();
    let parsed = parse_json(&allocator, "{\"a\": 1}", JsonVariant::Json).ok().unwrap();
    assert_eq!(parsed.wrapped_source, "({\"a\": 1}\n)");
    let value = parsed.expression.unwrap();
    assert_eq!(value.kind, JsonValueKind::Object);
    // Spans index into the wrapped source.
    assert_eq!(value.span, SourceSpan::new(1, 9));
    assert!(parsed.comments.is_empty());
}

#[test]
fn literals_are_recognised() {
    let allocator = Allocator::default();
    let kind = |source: &str| parse_json(&allocator, source, JsonVariant::Json).ok().unwrap().expression.unwrap().kind;
    assert_eq!(kind("null"), JsonValueKind::Null);
    assert_eq!(kind("true"), JsonValueKind::Boolean(true));
    assert_eq!(kind("false"), JsonValueKind::Boolean(false));
    assert_eq!(kind("1.5e3"), JsonValueKind::Number);
    assert_eq!(kind("\"s\""), JsonValueKind::String);
    assert_eq!(kind("[1, 2]"), JsonValueKind::Array);
    assert_eq!(kind("Infinity"), JsonValueKind::Other);
}

#[test]
fn unary_minus_keeps_its_argument() {
    let allocator = Allocator::default();
    let parsed = parse_json(&allocator, "-1", JsonVariant::Json).ok().unwrap();
    let value = parsed.expression.unwrap();
    assert_eq!(value.span, SourceSpan::new(1, 3));
    match value.kind {
        JsonValueKind::Unary(op, argument) => {
            assert_eq!(op, "-");
            assert_eq!(argument.kind, JsonValueKind::Number);
            assert_eq!(argument.span, SourceSpan::new(2, 3));
        }
        other => panic!("unexpected {other:?}"),
    }
}

#[test]
fn comments_are_collected_in_wrapped_coordinates() {
    let allocator = Allocator::default();
    let parsed = parse_json(&allocator, "// head\n[1, /* in */ 2] // tail", JsonVariant::Jsonc).ok().unwrap();
    assert_eq!(
        parsed.comments,
        vec![
            Comment::new(SourceSpan::new(1, 8), SourceSpan::new(3, 8)),
            Comment::new(SourceSpan::new(13, 21), SourceSpan::new(15, 19)),
            Comment::new(SourceSpan::new(25, 32), SourceSpan::new(27, 32)),
        ]
    );
}

#[test]
fn comments_only_source_round_trips() {
    let allocator = Allocator::default();
    let source = "// only a comment\n/* and another */\n";
    let parsed = parse_json(&allocator, source, JsonVariant::Json).ok().unwrap();
    assert!(parsed.expression.is_none());
    assert_eq!(parsed.wrapped_source, source);
    assert_eq!(parsed.comments.len(), 2);
    assert_eq!(parsed.comments[0].span, SourceSpan::new(0, 17));
}

#[test]
fn empty_source_parses_to_no_value() {
    let allocator = Allocator::default();
    let parsed = parse_json(&allocator, "", JsonVariant::Json).ok().unwrap();
    assert!(parsed.expression.is_none());
    assert!(parsed.comments.is_empty());
    assert_eq!(parsed.wrapped_source, "");
}

#[test]
fn trailing_line_comment_does_not_swallow_the_closing_paren() {
    let allocator = Allocator::default();
    let parsed = parse_json(&allocator, "1 // one", JsonVariant::Json).ok().unwrap();
    assert_eq!(parsed.expression.unwrap().kind, JsonValueKind::Number);
    assert_eq!(parsed.comments.len(), 1);
}

#[test]
fn syntax_errors_are_reported() {
    let allocator = Allocator::default();
    match parse_json(&allocator, "{\"a\": }", JsonVariant::Json) {
        Err(ParseJsonError::Syntax(error)) => {
            assert!(!error.message.is_empty());
            assert_eq!(error.message, error.diagnostic.message.to_string());
        }
        _ => panic!("expected a syntax error"),
    }
}

#[test]
fn json_stringify_refuses_comments() {
    let allocator = Allocator::default();
    assert!(matches!(
        parse_json(&allocator, "// c\n1", JsonVariant::JsonStringify),
        Err(ParseJsonError::CommentsInJsonStringify)
    ));
    assert!(matches!(
        parse_json(&allocator, "// only a comment", JsonVariant::JsonStringify),
        Err(ParseJsonError::CommentsInJsonStringify)
    ));
    assert!(parse_json(&allocator, "[1]", JsonVariant::JsonStringify).is_ok());
}

#[test]
fn reject_comments_only_in_json_stringify() {
    let comments = vec![Comment::new(SourceSpan::new(0, 4), SourceSpan::new(2, 4))];
    assert!(reject_comments_in_json_stringify(JsonVariant::Json, &comments).is_ok());
    assert!(reject_comments_in_json_stringify(JsonVariant::JsonStringify, &[]).is_ok());
    assert!(matches!(
        reject_comments_in_json_stringify(JsonVariant::JsonStringify, &comments),
        Err(ParseJsonError::CommentsInJsonStringify)
    ));
}

#[test]
fn comments_only_fallback_refuses_statements() {
    let allocator = Allocator::default();
    assert!(try_parse_comments_only(&allocator, "1").is_none());
    assert!(try_parse_comments_only(&allocator, "{").is_none());
    let parsed = try_parse_comments_only(&allocator, "  /* c */ ").unwrap();
    assert_eq!(parsed.wrapped_source, "  /* c */ ");
    assert_eq!(parsed.comments.len(), 1);
}

fn report(panicked: bool, statement_count: usize) -> ParseReport {
    ParseReport { errors: vec![], panicked, statement_count, first_value: None, comments: vec![] }
}

#[test]
fn finish_reports_each_error() {
    assert!(matches!(finish_parse_json(JsonVariant::Json, "()", report(true, 0), None), Err(ParseJsonError::Failed)));
    assert!(matches!(finish_parse_json(JsonVariant::Json, "()", report(false, 0), None), Err(ParseJsonError::Empty)));
    assert!(matches!(
        finish_parse_json(JsonVariant::Json, "()", report(false, 1), None),
        Err(ParseJsonError::NotSingleExpression)
    ));
}

#[test]
fn finish_takes_the_fallback_after_a_failed_parse() {
    let allocator = Allocator::default();
    let fallback = try_parse_comments_only(&allocator, "// c");
    let parsed = finish_parse_json(JsonVariant::Json, "(// c\n)", report(true, 0), fallback).ok().unwrap();
    assert_eq!(parsed.wrapped_source, "// c");
    assert_eq!(parsed.comments.len(), 1);
    let fallback = try_parse_comments_only(&allocator, "// c");
    assert!(matches!(
        finish_parse_json(JsonVariant::JsonStringify, "(// c\n)", report(true, 0), fallback),
        Err(ParseJsonError::CommentsInJsonStringify)
    ));
}

#[test]
fn finish_returns_the_first_value_and_the_first_error() {
    let value = JsonValue { span: SourceSpan::new(1, 5), kind: JsonValueKind::Null };
    let ok = ParseReport { errors: vec![], panicked: false, statement_count: 1, first_value: Some(value), comments: vec![] };
    let parsed = finish_parse_json(JsonVariant::Json, "(null\n)", ok, None).ok().unwrap();
    assert_eq!(parsed.expression, Some(JsonValue { span: SourceSpan::new(1, 5), kind: JsonValueKind::Null }));
    let allocator = Allocator::default();
    let first = match parse_json(&allocator, "{", JsonVariant::Json) {
        Err(ParseJsonError::Syntax(error)) => error,
        _ => panic!("expected a syntax error"),
    };
    let failing = ParseReport {
        errors: vec![first],
        panicked: false,
        statement_count: 0,
        first_value: None,
        comments: vec![],
    };
    match finish_parse_json(JsonVariant::Json, "({\n)", failing, None) {
        Err(ParseJsonError::Syntax(error)) => assert!(!error.message.is_empty()),
        _ => panic!("expected the reported error"),
    }
}
