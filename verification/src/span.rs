//! Byte spans into a source text, and comments located by them.

use vstd::prelude::*;
use vstd::utf8::is_char_boundary;

verus! {

/// A half-open byte range `[start, end)` of a source text.
#[derive(Clone, Copy, Debug, PartialEq, Eq, Structural)]
pub struct SourceSpan {
    pub start: u32,
    pub end: u32,
}

impl SourceSpan {
    /// The span `[start, end)`.
    pub fn new(start: u32, end: u32) -> (r: SourceSpan)
        ensures
            r.start == start,
            r.end == end,
    {
        SourceSpan { start, end }
    }
}

/// A comment of the source: the span of its whole text, delimiters included, and the
/// span of its content, delimiters excluded.
#[derive(Clone, Copy, Debug, PartialEq, Eq, Structural)]
pub struct Comment {
    pub span: SourceSpan,
    pub content: SourceSpan,
}

impl Comment {
    /// A comment covering `span` whose content (without delimiters) is `content`.
    pub fn new(span: SourceSpan, content: SourceSpan) -> (r: Comment)
        ensures
            r.span == span,
            r.content == content,
    {
        Comment { span, content }
    }

    /// The comment covering `[start, end)` whose content is `[content_start, content_end)`.
    pub fn from_offsets(start: u32, end: u32, content_start: u32, content_end: u32) -> (r: Comment)
        ensures
            r.span == (SourceSpan { start, end }),
            r.content == (SourceSpan { start: content_start, end: content_end }),
    {
        Comment { span: SourceSpan { start, end }, content: SourceSpan { start: content_start, end: content_end } }
    }

    /// The span of the comment's text without its delimiters.
    pub fn content_span(&self) -> (r: SourceSpan)
        ensures
            r == self.content,
    {
        self.content
    }
}

/// `[start, end)` is a range of `bytes` that begins and ends on character boundaries, so
/// slicing the text there succeeds.
pub open spec fn span_in(bytes: Seq<u8>, span: SourceSpan) -> bool {
    &&& span.start <= span.end
    &&& span.end <= bytes.len()
    &&& is_char_boundary(bytes, span.start as int)
    &&& is_char_boundary(bytes, span.end as int)
}

/// Every comment lies within `bytes`, and each one ends before the next one starts.
pub open spec fn comments_in_order(bytes: Seq<u8>, comments: Seq<Comment>) -> bool {
    &&& forall|i: int| 0 <= i < comments.len() ==> span_in(bytes, #[trigger] comments[i].span)
    &&& forall|i: int, j: int|
        0 <= i < j < comments.len() ==> #[trigger] comments[i].span.end
            <= #[trigger] comments[j].span.start
}

} // verus!
