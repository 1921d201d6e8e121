use oxc_formatter_json::context::JsonFormatContext;
use oxc_formatter_json::options::{JsonFormatOptions, JsonVariant};
use std::borrow::Cow;

use oxc_formatter_json::print::{arena_cow_str, write_source_slice, FmtJsonValue, FormatElement, JsonFormatter, JsonToken};
use oxc_formatter_json::span::{Comment, SourceSpan};
use oxc_formatter_json::value::{JsonValue, JsonValueKind};

fn options() -> JsonFormatOptions {
    JsonFormatOptions { variant: JsonVariant::Json }
}

fn value(start: u32, end: u32, kind: JsonValueKind) -> JsonValue {
    JsonValue { span: SourceSpan::new(start, end), kind }
}

fn line_comment(start: u32, end: u32) -> Comment {
    Comment::new(SourceSpan::new(start, end), SourceSpan::new(start + 2, end))
}

fn format(source: &str, comments: &[Comment], markers: &[bool], v: &JsonValue) -> (Vec<FormatElement>, usize) {
    let mut f = JsonFormatter::new(JsonFormatContext::new(options(), source, comments, markers));
    FmtJsonValue { expression: v }.fmt(&mut f);
    let cursor = f.context.comment_cursor();
    (f.elements, cursor)
}

#[test]
fn keywords_are_printed_as_tokens() {
    let none: Vec<Comment> = vec![];
    let no_markers: Vec<bool> = vec![];
    assert_eq!(format("null", &none, &no_markers, &value(0, 4, JsonValueKind::Null)).0, vec![FormatElement::Token(JsonToken::Null)]);
    assert_eq!(
        format("true", &none, &no_markers, &value(0, 4, JsonValueKind::Boolean(true))).0,
        vec![FormatElement::Token(JsonToken::True)]
    );
    assert_eq!(
        format("false", &none, &no_markers, &value(0, 5, JsonValueKind::Boolean(false))).0,
        vec![FormatElement::Token(JsonToken::False)]
    );
}

#[test]
fn literals_and_containers_go_to_their_printers() {
    let none: Vec<Comment> = vec![];
    let no_markers: Vec<bool> = vec![];
    let span = SourceSpan::new(0, 2);
    assert_eq!(format("12", &none, &no_markers, &value(0, 2, JsonValueKind::Number)).0, vec![FormatElement::Number(span)]);
    assert_eq!(format("\"\"", &none, &no_markers, &value(0, 2, JsonValueKind::String)).0, vec![FormatElement::StringLiteral(span)]);
    assert_eq!(format("[]", &none, &no_markers, &value(0, 2, JsonValueKind::Array)).0, vec![FormatElement::Array(span)]);
    assert_eq!(format("{}", &none, &no_markers, &value(0, 2, JsonValueKind::Object)).0, vec![FormatElement::Object(span)]);
}

#[test]
fn other_expressions_are_printed_verbatim() {
    let none: Vec<Comment> = vec![];
    let no_markers: Vec<bool> = vec![];
    let out = format("a + b", &none, &no_markers, &value(0, 5, JsonValueKind::Other));
    assert_eq!(out.0, vec![FormatElement::SourceText(SourceSpan::new(0, 5))]);
}

#[test]
fn unary_operators_are_kept_before_their_argument() {
    // `-Infinity` and `+ -1`.
    let none: Vec<Comment> = vec![];
    let no_markers: Vec<bool> = vec![];
    let negated = value(0, 9, JsonValueKind::Unary("-", Box::new(value(1, 9, JsonValueKind::Other))));
    assert_eq!(
        format("-Infinity", &none, &no_markers, &negated).0,
        vec![FormatElement::Operator("-"), FormatElement::SourceText(SourceSpan::new(1, 9))]
    );
    let nested = value(
        0,
        4,
        JsonValueKind::Unary("+", Box::new(value(2, 4, JsonValueKind::Unary("-", Box::new(value(3, 4, JsonValueKind::Number)))))),
    );
    assert_eq!(
        format("+ -1", &none, &no_markers, &nested).0,
        vec![FormatElement::Operator("+"), FormatElement::Operator("-"), FormatElement::Number(SourceSpan::new(3, 4))]
    );
}

#[test]
fn leading_comments_come_before_the_value() {
    let source = "// a\n1";
    let comments = vec![line_comment(0, 4)];
    let markers = vec![false];
    let (elements, cursor) = format(source, &comments, &markers, &value(5, 6, JsonValueKind::Number));
    assert_eq!(
        elements,
        vec![
            FormatElement::SourceText(SourceSpan::new(0, 4)),
            FormatElement::HardLineBreak,
            FormatElement::Number(SourceSpan::new(5, 6)),
        ]
    );
    assert_eq!(cursor, 1);
}

#[test]
fn ignore_marker_prints_the_value_verbatim_and_consumes_inner_comments() {
    // "// prettier-ignore\n[1, /* x */ 2]"
    let source = "// prettier-ignore\n[1, /* x */ 2]";
    let comments = vec![line_comment(0, 18), Comment::new(SourceSpan::new(23, 30), SourceSpan::new(25, 28))];
    let markers = vec![true, false];
    let (elements, cursor) = format(source, &comments, &markers, &value(19, 33, JsonValueKind::Array));
    assert_eq!(
        elements,
        vec![
            FormatElement::SourceText(SourceSpan::new(0, 18)),
            FormatElement::HardLineBreak,
            FormatElement::SourceText(SourceSpan::new(19, 33)),
        ]
    );
    assert_eq!(cursor, 2);
}

#[test]
fn write_source_slice_records_the_span() {
    let comments: Vec<Comment> = vec![];
    let markers: Vec<bool> = vec![];
    let mut f = JsonFormatter::new(JsonFormatContext::new(options(), "abc", &comments, &markers));
    write_source_slice(SourceSpan::new(1, 3), &mut f);
    assert_eq!(f.elements, vec![FormatElement::SourceText(SourceSpan::new(1, 3))]);
}

#[test]
fn arena_cow_str_keeps_the_text() {
    let allocator = oxc_allocator::Allocator::default();
    assert_eq!(arena_cow_str(Cow::Borrowed("abc"), &allocator), "abc");
    assert_eq!(arena_cow_str(Cow::Owned("de\u{e9}".to_string()), &allocator), "de\u{e9}");
}
