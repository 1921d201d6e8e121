use oxc_formatter_json::comments::{
    count_newlines, is_suppressed_before, write_dangling_comments, write_gap,
    write_leading_comments, write_single_comment, write_suppressed_node,
    write_trailing_inside_comments, FormatLeadingComments, FormatTrailingInsideComments,
};
use oxc_formatter_json::context::JsonFormatContext;
use oxc_formatter_json::options::{JsonFormatOptions, JsonVariant};
use oxc_formatter_json::print::{FormatElement, JsonFormatter};
use oxc_formatter_json::span::{Comment, SourceSpan};

fn options() -> JsonFormatOptions {
    JsonFormatOptions { variant: JsonVariant::Json }
}

fn line_comment(start: u32, end: u32) -> Comment {
    Comment::new(SourceSpan::new(start, end), SourceSpan::new(start + 2, end))
}

fn block_comment(start: u32, end: u32) -> Comment {
    Comment::new(SourceSpan::new(start, end), SourceSpan::new(start + 2, end - 2))
}

fn text(start: u32, end: u32) -> FormatElement {
    FormatElement::SourceText(SourceSpan::new(start, end))
}

#[test]
fn count_newlines_counts_line_feeds_only() {
    assert_eq!(count_newlines(b""), 0);
    assert_eq!(count_newlines(b"  \t "), 0);
    assert_eq!(count_newlines(b"\n"), 1);
    assert_eq!(count_newlines(b"a\r\nb\n\nc"), 3);
}

#[test]
fn write_gap_maps_newline_counts_to_spacing() {
    let source = "x";
    let comments: Vec<Comment> = vec![];
    let markers: Vec<bool> = vec![];
    let mut f = JsonFormatter::new(JsonFormatContext::new(options(), source, &comments, &markers));
    write_gap(b"  ", &mut f);
    write_gap(b" \n ", &mut f);
    write_gap(b"\n\n", &mut f);
    write_gap(b"\n \n\n", &mut f);
    assert_eq!(
        f.elements,
        vec![
            FormatElement::Space,
            FormatElement::HardLineBreak,
            FormatElement::EmptyLine,
            FormatElement::EmptyLine
        ]
    );
}

#[test]
fn single_comment_is_written_verbatim() {
    let source = "/* a */ 1";
    let comments = vec![block_comment(0, 7)];
    let markers = vec![false];
    let mut f = JsonFormatter::new(JsonFormatContext::new(options(), source, &comments, &markers));
    write_single_comment(&comments[0], &mut f);
    assert_eq!(f.elements, vec![text(0, 7)]);
}

#[test]
fn leading_comments_keep_vertical_spacing() {
    // "// a" then a blank line, "/* b */" then a space, "// c" then one line break, value.
    let source = "// a\n\n/* b */ // c\n1";
    let comments = vec![line_comment(0, 4), block_comment(6, 13), line_comment(14, 18)];
    let markers = vec![false, false, false];
    let mut f = JsonFormatter::new(JsonFormatContext::new(options(), source, &comments, &markers));
    write_leading_comments(&comments, 19, &mut f);
    assert_eq!(
        f.elements,
        vec![
            text(0, 4),
            FormatElement::EmptyLine,
            text(6, 13),
            FormatElement::Space,
            text(14, 18),
            FormatElement::HardLineBreak,
        ]
    );
}

#[test]
fn dangling_comments_are_separated_by_line_breaks() {
    let source = "[/* a */ /* b */ /* c */]";
    let comments = vec![block_comment(1, 8), block_comment(9, 16), block_comment(17, 24)];
    let markers = vec![false, false, false];
    let mut f = JsonFormatter::new(JsonFormatContext::new(options(), source, &comments, &markers));
    write_dangling_comments(&comments, &mut f);
    assert_eq!(
        f.elements,
        vec![
            text(1, 8),
            FormatElement::HardLineBreak,
            text(9, 16),
            FormatElement::HardLineBreak,
            text(17, 24),
        ]
    );
}

#[test]
fn dangling_comments_of_nothing_write_nothing() {
    let source = "[]";
    let comments: Vec<Comment> = vec![];
    let markers: Vec<bool> = vec![];
    let mut f = JsonFormatter::new(JsonFormatContext::new(options(), source, &comments, &markers));
    write_dangling_comments(&comments, &mut f);
    assert!(f.elements.is_empty());
}

#[test]
fn trailing_inside_comments_measure_gaps_from_lower_bound() {
    // `[1,` then a line break, "// a", a blank line, "// b", then `]`.
    let source = "[1,\n// a\n\n// b\n]";
    let comments = vec![line_comment(4, 8), line_comment(10, 14)];
    let markers = vec![false, false];
    let mut f = JsonFormatter::new(JsonFormatContext::new(options(), source, &comments, &markers));
    write_trailing_inside_comments(&comments, 2, &mut f);
    assert_eq!(
        f.elements,
        vec![FormatElement::HardLineBreak, text(4, 8), FormatElement::EmptyLine, text(10, 14)]
    );
}

#[test]
fn suppression_markers_are_found_among_pending_comments() {
    let source = "// prettier-ignore\n[1,   2]";
    let comments = vec![line_comment(0, 18)];
    let markers = vec![true];
    let mut f = JsonFormatter::new(JsonFormatContext::new(options(), source, &comments, &markers));
    assert!(is_suppressed_before(&f, 19));
    assert!(!is_suppressed_before(&f, 10));
    write_suppressed_node(SourceSpan::new(19, 27), &mut f);
    assert_eq!(f.elements, vec![text(19, 27)]);
    // The comment ends before the node's end, so it was consumed.
    assert_eq!(f.context.comment_cursor(), 1);
    assert!(!is_suppressed_before(&f, 27));
}

#[test]
fn non_marker_comments_do_not_suppress() {
    let source = "// note\n1";
    let comments = vec![line_comment(0, 7)];
    let markers = vec![false];
    let f = JsonFormatter::new(JsonFormatContext::new(options(), source, &comments, &markers));
    assert!(!is_suppressed_before(&f, 8));
}

#[test]
fn format_leading_comments_drains_comments_before_the_value() {
    let source = "/* a */\n1 /* b */";
    let comments = vec![block_comment(0, 7), block_comment(10, 17)];
    let markers = vec![false, false];
    let mut f = JsonFormatter::new(JsonFormatContext::new(options(), source, &comments, &markers));
    FormatLeadingComments(SourceSpan::new(8, 9)).fmt(&mut f);
    assert_eq!(f.elements, vec![text(0, 7), FormatElement::HardLineBreak]);
    assert_eq!(f.context.comment_cursor(), 1);
    // A second request for the same value finds nothing more.
    FormatLeadingComments(SourceSpan::new(8, 9)).fmt(&mut f);
    assert_eq!(f.elements.len(), 2);
}

#[test]
fn format_trailing_inside_comments_drains_up_to_the_delimiter() {
    let source = "{\"a\": 1 // x\n}";
    let comments = vec![line_comment(8, 12)];
    let markers = vec![false];
    let mut f = JsonFormatter::new(JsonFormatContext::new(options(), source, &comments, &markers));
    FormatTrailingInsideComments { lower_bound: 7, upper_bound: 13 }.fmt(&mut f);
    assert_eq!(f.elements, vec![FormatElement::Space, text(8, 12)]);
    assert_eq!(f.context.comment_cursor(), 1);
}

#[test]
fn newline_count_of_a_concatenation_is_the_sum() {
    let a: &[u8] = b"x\n\ny";
    let b: &[u8] = b"\r\n z\n";
    let joined = [a, b].concat();
    assert_eq!(count_newlines(&joined), count_newlines(a) + count_newlines(b));
    assert_eq!(count_newlines(&joined), 4);
}
