use oxc_formatter_json::context::JsonFormatContext;
use oxc_formatter_json::options::{JsonFormatOptions, JsonVariant};
use oxc_formatter_json::span::{Comment, SourceSpan};

fn comment(start: u32, end: u32) -> Comment {
    Comment::new(SourceSpan::new(start, end), SourceSpan::new(start + 2, end - 2))
}

fn sample() -> (&'static str, Vec<Comment>, Vec<bool>) {
    // Comments at [0, 5), [6, 11) and [14, 19).
    ("/*a*/ /*b*/ 1 /*c*/", vec![comment(0, 5), comment(6, 11), comment(14, 19)], vec![false, true, false])
}

#[test]
fn new_context_starts_before_the_first_comment() {
    let (source, comments, markers) = sample();
    let options = JsonFormatOptions { variant: JsonVariant::Json5 };
    let ctx = JsonFormatContext::new(options, source, &comments, &markers);
    assert_eq!(ctx.comment_cursor(), 0);
    assert_eq!(ctx.source(), source);
    assert_eq!(ctx.source_code(), source);
    assert_eq!(*ctx.options(), options);
    assert!(ctx.is_suppression_marker_at(1));
    assert!(!ctx.is_suppression_marker_at(0));
}

#[test]
fn take_comments_before_returns_pending_comments_once() {
    let (source, comments, markers) = sample();
    let mut ctx = JsonFormatContext::new(JsonFormatOptions { variant: JsonVariant::Json }, source, &comments, &markers);
    let taken = ctx.take_comments_before(12);
    assert_eq!(taken, &comments[0..2]);
    assert_eq!(ctx.comment_cursor(), 2);
    // Taking again with the same or a smaller bound finds nothing.
    assert!(ctx.take_comments_before(12).is_empty());
    assert!(ctx.take_comments_before(3).is_empty());
    assert_eq!(ctx.take_comments_before(19), &comments[2..3]);
    assert_eq!(ctx.comment_cursor(), 3);
}

#[test]
fn take_comments_before_stops_at_the_first_comment_ending_later() {
    let (source, comments, markers) = sample();
    let mut ctx = JsonFormatContext::new(JsonFormatOptions { variant: JsonVariant::Json }, source, &comments, &markers);
    // The first comment ends at 5, after the bound 4: nothing is pending.
    assert!(ctx.take_comments_before(4).is_empty());
    assert_eq!(ctx.comment_cursor(), 0);
    assert_eq!(ctx.take_comments_before(5), &comments[0..1]);
}

#[test]
fn comments_before_iter_does_not_advance() {
    let (source, comments, markers) = sample();
    let ctx = JsonFormatContext::new(JsonFormatOptions { variant: JsonVariant::Json }, source, &comments, &markers);
    assert_eq!(ctx.comments_before_iter(11), &comments[0..2]);
    assert_eq!(ctx.comments_before_iter(11), &comments[0..2]);
    assert_eq!(ctx.comment_cursor(), 0);
    assert!(ctx.has_comments_before(5));
    assert!(!ctx.has_comments_before(4));
}

#[test]
fn take_remaining_comments_drains_everything() {
    let (source, comments, markers) = sample();
    let mut ctx = JsonFormatContext::new(JsonFormatOptions { variant: JsonVariant::Json }, source, &comments, &markers);
    assert_eq!(ctx.take_comments_before(5), &comments[0..1]);
    assert_eq!(ctx.take_remaining_comments(), &comments[1..3]);
    assert_eq!(ctx.comment_cursor(), 3);
    assert!(ctx.take_remaining_comments().is_empty());
    assert!(ctx.take_comments_before(u32::MAX).is_empty());
    assert!(!ctx.has_comments_before(u32::MAX));
}

#[test]
fn context_without_comments_has_nothing_pending() {
    let comments: Vec<Comment> = vec![];
    let markers: Vec<bool> = vec![];
    let mut ctx = JsonFormatContext::new(JsonFormatOptions { variant: JsonVariant::Json }, "1", &comments, &markers);
    assert!(!ctx.has_comments_before(u32::MAX));
    assert!(ctx.take_comments_before(1).is_empty());
    assert!(ctx.take_remaining_comments().is_empty());
}

#[test]
fn a_run_of_takes_hands_out_every_comment_once_in_order() {
    let (source, comments, markers) = sample();
    let mut ctx = JsonFormatContext::new(JsonFormatOptions { variant: JsonVariant::Json }, source, &comments, &markers);
    let mut handed_out: Vec<Comment> = Vec::new();
    handed_out.extend_from_slice(ctx.take_comments_before(5));
    handed_out.extend_from_slice(ctx.take_comments_before(5));
    handed_out.extend_from_slice(ctx.take_comments_before(11));
    handed_out.extend_from_slice(ctx.take_remaining_comments());
    handed_out.extend_from_slice(ctx.take_comments_before(u32::MAX));
    assert_eq!(handed_out, comments);
}
