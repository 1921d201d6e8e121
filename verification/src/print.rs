//! The JSON printer: the formatter that collects format elements, and the printing of
//! values with their leading comments.

use oxc_allocator::Allocator;
use std::borrow::Cow;
use vstd::prelude::*;
use vstd::string::StringSliceAdditionalSpecFns;

use crate::comments::{
    is_suppressed_before, leading_elements, marker_in, write_suppressed_node, FormatLeadingComments,
};
use crate::context::{lemma_pending_end, pending_before, pending_end, JsonFormatContext};
use crate::options::JsonFormatOptions;
use crate::oxc_parse::arena_str;
use crate::parse::{spans_index_source, ParsedJson};
use crate::span::{comments_in_order, span_in, Comment, SourceSpan};
use crate::value::{value_spans_in, JsonValue, JsonValueKind};

verus! {

/// A keyword token of JSON.
#[derive(Clone, Copy, Debug, PartialEq, Eq, Structural)]
pub enum JsonToken {
    /// `null`
    Null,
    /// `true`
    True,
    /// `false`
    False,
}

/// One instruction of formatter output.
#[derive(Clone, Copy, Debug, PartialEq, Eq)]
pub enum FormatElement {
    /// The source text covered by the span, verbatim.
    SourceText(SourceSpan),
    /// A keyword token.
    Token(JsonToken),
    /// The source text of a unary operator.
    Operator(&'static str),
    /// A single space.
    Space,
    /// A line break.
    HardLineBreak,
    /// A blank line.
    EmptyLine,
    /// The numeric literal at the span, printed by the number printer.
    Number(SourceSpan),
    /// The string literal at the span, printed by the string printer.
    StringLiteral(SourceSpan),
    /// The array at the span, printed by the array printer.
    Array(SourceSpan),
    /// The object at the span, printed by the object printer.
    Object(SourceSpan),
}

/// The formatter: the context, and the elements written so far.
pub struct JsonFormatter<'a> {
    pub context: JsonFormatContext<'a>,
    pub elements: Vec<FormatElement>,
}

/// The bytes of the formatter's source text.
pub open spec fn source_bytes(f: &JsonFormatter) -> Seq<u8> {
    f.context.spec_source().spec_bytes()
}

impl<'a> JsonFormatter<'a> {
    /// A formatter over `context` that has written nothing yet.
    pub fn new(context: JsonFormatContext<'a>) -> (r: Self)
        ensures
            r.context == context,
            r.elements@ == Seq::<FormatElement>::empty(),
    {
        JsonFormatter { context, elements: Vec::new() }
    }

    /// The context.
    pub fn context(&self) -> (r: &JsonFormatContext<'a>)
        ensures
            *r == self.context,
    {
        &self.context
    }

    /// Appends `element` to the output.
    pub fn write(&mut self, element: FormatElement)
        ensures
            final(self).elements@ == old(self).elements@.push(element),
            final(self).context == old(self).context,
    {
        self.elements.push(element);
    }
}

/// Write the verbatim source slice covered by `span`.
pub fn write_source_slice(span: SourceSpan, f: &mut JsonFormatter)
    requires
        span_in(source_bytes(old(f)), span),
    ensures
        final(f).elements@ == old(f).elements@.push(FormatElement::SourceText(span)),
        final(f).context == old(f).context,
{
    f.write(FormatElement::SourceText(span));
}

/// Lifts a `Cow<'a, str>` to `&'a str`, allocating in the arena only for the owned case.
/// Borrowed Cows already point into arena-resident source, so they pass through unchanged.
pub fn arena_cow_str<'a>(cow: Cow<'a, str>, allocator: &'a Allocator) -> (r: &'a str)
    ensures
        r@ == cow@,
{
    match cow {
        Cow::Borrowed(s) => s,
        Cow::Owned(s) => arena_str(allocator, s.as_str()),
    }
}

/// The element that prints a value of one of the kinds that need no nested printing.
pub open spec fn value_element(value: JsonValue) -> FormatElement {
    match value.kind {
        JsonValueKind::Null => FormatElement::Token(JsonToken::Null),
        JsonValueKind::Boolean(b) => FormatElement::Token(
            if b {
                JsonToken::True
            } else {
                JsonToken::False
            },
        ),
        JsonValueKind::Number => FormatElement::Number(value.span),
        JsonValueKind::String => FormatElement::StringLiteral(value.span),
        JsonValueKind::Array => FormatElement::Array(value.span),
        JsonValueKind::Object => FormatElement::Object(value.span),
        _ => FormatElement::SourceText(value.span),
    }
}

/// What printing `value` writes, and where the comment cursor ends up, when it starts at
/// `cursor`: the pending comments before the value with their spacing, then either the
/// value's source text verbatim (when one of those comments is an ignore marker, which
/// also consumes the comments inside the value) or the value itself; a unary operator is
/// followed by its printed argument.
pub open spec fn value_output(
    bytes: Seq<u8>,
    comments: Seq<Comment>,
    markers: Seq<bool>,
    cursor: int,
    value: JsonValue,
) -> (Seq<FormatElement>, int)
    decreases value,
{
    let start = value.span.start;
    let after_leading = pending_end(comments, cursor, start);
    let leading = leading_elements(
        bytes,
        comments.subrange(cursor, after_leading),
        start,
        after_leading - cursor,
    );
    if marker_in(markers, cursor, after_leading) {
        (
            leading.push(FormatElement::SourceText(value.span)),
            pending_end(comments, after_leading, value.span.end),
        )
    } else {
        match value.kind {
            JsonValueKind::Unary(op, argument) => {
                let inner = value_output(bytes, comments, markers, after_leading, *argument);
                (leading.push(FormatElement::Operator(op)) + inner.0, inner.1)
            },
            _ => (leading.push(value_element(value)), after_leading),
        }
    }
}

/// Top-level printer of a JSON value. Dispatches by kind.
///
/// Drains any leading comments that precede the value's start and emits them before the
/// value itself.
pub struct FmtJsonValue<'b> {
    pub expression: &'b JsonValue,
}

impl<'b> FmtJsonValue<'b> {
    /// Writes the value with its leading comments.
    pub fn fmt(&self, f: &mut JsonFormatter)
        requires
            old(f).context.comments_valid(),
            value_spans_in(source_bytes(old(f)), *self.expression),
        ensures
            ({
                let out = value_output(
                    source_bytes(old(f)),
                    old(f).context.spec_comments(),
                    old(f).context.spec_markers(),
                    old(f).context.cursor(),
                    *self.expression,
                );
                &&& final(f).elements@ == old(f).elements@ + out.0
                &&& final(f).context.cursor() == out.1
            }),
            final(f).context.spec_comments() == old(f).context.spec_comments(),
            final(f).context.spec_markers() == old(f).context.spec_markers(),
            final(f).context.spec_source() == old(f).context.spec_source(),
            final(f).context.spec_options() == old(f).context.spec_options(),
        decreases *self.expression,
    {
        proof {
            use_type_invariant(&f.context);
        }
        let span = self.expression.span;
        let ghost elements0 = f.elements@;
        let ghost out = value_output(
            source_bytes(f),
            f.context.spec_comments(),
            f.context.spec_markers(),
            f.context.cursor(),
            *self.expression,
        );
        // `oxfmt-ignore` / `prettier-ignore` on the value: print leading comments
        // (including the marker) and then emit the value's source verbatim.
        proof {
            lemma_pending_end(f.context.spec_comments(), f.context.cursor(), span.start);
        }
        if is_suppressed_before(f, span.start) {
            FormatLeadingComments(span).fmt(f);
            write_suppressed_node(span, f);
            return;
        }
        let ghost comments = f.context.spec_comments();
        let ghost cursor = f.context.cursor();
        let ghost after = pending_end(comments, cursor, span.start);
        let ghost leading = leading_elements(
            source_bytes(f),
            comments.subrange(cursor, after),
            span.start,
            after - cursor,
        );
        proof {
            lemma_pending_end(comments, cursor, span.start);
        }
        FormatLeadingComments(span).fmt(f);
        let ghost elements1 = f.elements@;
        assert(elements1 == elements0 + leading);
        match &self.expression.kind {
            JsonValueKind::Null => f.write(FormatElement::Token(JsonToken::Null)),
            JsonValueKind::Boolean(value) => {
                if *value {
                    f.write(FormatElement::Token(JsonToken::True));
                } else {
                    f.write(FormatElement::Token(JsonToken::False));
                }
            },
            JsonValueKind::Number => f.write(FormatElement::Number(span)),
            JsonValueKind::String => f.write(FormatElement::StringLiteral(span)),
            JsonValueKind::Array => f.write(FormatElement::Array(span)),
            JsonValueKind::Object => f.write(FormatElement::Object(span)),
            // `-9876.54321`, `+123`, `-Infinity`, etc.: the operator is kept and the argument
            // is printed as a value of its own.
            JsonValueKind::Unary(op, argument) => {
                f.write(FormatElement::Operator(op));
                FmtJsonValue { expression: &**argument }.fmt(f);
                assert(f.elements@ =~= elements0 + out.0);
            },
            // Anything else is not valid JSON; emit the source slice verbatim as a fallback.
            JsonValueKind::Other => write_source_slice(span, f),
        }
        assert(f.elements@ =~= elements0 + out.0);
    }
}

/// Printing a value moves the cursor forward, past at least the comments that precede the
/// value, and no further than the last comment.
pub proof fn lemma_value_output_cursor(
    bytes: Seq<u8>,
    comments: Seq<Comment>,
    markers: Seq<bool>,
    cursor: int,
    value: JsonValue,
)
    requires
        0 <= cursor <= comments.len(),
    ensures
        pending_end(comments, cursor, value.span.start) <= value_output(
            bytes,
            comments,
            markers,
            cursor,
            value,
        ).1 <= comments.len(),
    decreases value,
{
    lemma_pending_end(comments, cursor, value.span.start);
    let after_leading = pending_end(comments, cursor, value.span.start);
    lemma_pending_end(comments, after_leading, value.span.end);
    if let JsonValueKind::Unary(_, argument) = value.kind {
        lemma_value_output_cursor(bytes, comments, markers, after_leading, *argument);
        lemma_pending_end(comments, after_leading, argument.span.start);
    }
}

/// Every comment that ends before a value is printed with it: once a value is printed, no
/// unprinted comment ends at or before the value's start.
pub proof fn law_value_takes_its_leading_comments(
    bytes: Seq<u8>,
    comments: Seq<Comment>,
    markers: Seq<bool>,
    cursor: int,
    value: JsonValue,
)
    requires
        comments_in_order(bytes, comments),
        0 <= cursor <= comments.len(),
    ensures
        pending_before(
            comments,
            value_output(bytes, comments, markers, cursor, value).1,
            value.span.start,
        ).len() == 0,
{
    let after = value_output(bytes, comments, markers, cursor, value).1;
    let first = pending_end(comments, cursor, value.span.start);
    lemma_value_output_cursor(bytes, comments, markers, cursor, value);
    lemma_pending_end(comments, cursor, value.span.start);
    lemma_pending_end(comments, after, value.span.start);
    if after < comments.len() {
        assert(first < comments.len());
        assert(comments[first].span.end > value.span.start);
        if first < after {
            assert(comments[first].span.end <= comments[after].span.start);
            assert(span_in(bytes, comments[after].span));
        }
        assert(comments[after].span.end > value.span.start);
    }
}

/// An ignore marker anywhere among the comments that precede a value suppresses its
/// formatting: whichever of those comments is a marker, and whatever comments come before
/// it, the value is printed as its source text, after its leading comments.
pub proof fn law_any_marker_before_a_value_suppresses_it(
    bytes: Seq<u8>,
    comments: Seq<Comment>,
    markers: Seq<bool>,
    cursor: int,
    value: JsonValue,
    k: int,
)
    requires
        cursor <= k < pending_end(comments, cursor, value.span.start),
        markers[k],
    ensures
        value_output(bytes, comments, markers, cursor, value).0.len() > 0,
        value_output(bytes, comments, markers, cursor, value).0.last() == FormatElement::SourceText(
            value.span,
        ),
{
    assert(markers[k]);
}

/// Without an ignore marker among the comments that precede it, a value that is not a
/// signed number is printed as itself, not as its source text: its own element ends the
/// output.
pub proof fn law_unmarked_value_is_formatted(
    bytes: Seq<u8>,
    comments: Seq<Comment>,
    markers: Seq<bool>,
    cursor: int,
    value: JsonValue,
)
    requires
        forall|k: int| cursor <= k < pending_end(comments, cursor, value.span.start) ==> !markers[k],
        !(value.kind is Unary),
    ensures
        value_output(bytes, comments, markers, cursor, value).0.len() > 0,
        value_output(bytes, comments, markers, cursor, value).0.last() == value_element(value),
{
}

/// The elements that print a parsed document's value with its leading comments, from a
/// context over the document in which no comment has been printed yet; `markers` tells,
/// for each comment, whether it is an ignore marker.
pub fn format_parsed_json(parsed: &ParsedJson, options: JsonFormatOptions, markers: &[bool]) -> (r:
    Vec<FormatElement>)
    requires
        spans_index_source(*parsed),
        markers@.len() == parsed.comments@.len(),
    ensures
        r@ == match parsed.expression {
            Some(value) => value_output(
                parsed.wrapped_source.spec_bytes(),
                parsed.comments@,
                markers@,
                0,
                value,
            ).0,
            None => Seq::<FormatElement>::empty(),
        },
{
    let context = JsonFormatContext::new(options, parsed.wrapped_source, parsed.comments.as_slice(), markers);
    let mut f = JsonFormatter::new(context);
    match &parsed.expression {
        Some(expression) => {
            FmtJsonValue { expression }.fmt(&mut f);
            assert(f.elements@ =~= Seq::<FormatElement>::empty() + value_output(
                parsed.wrapped_source.spec_bytes(),
                parsed.comments@,
                markers@,
                0,
                *expression,
            ).0);
        },
        None => {},
    }
    f.elements
}

} // verus!
