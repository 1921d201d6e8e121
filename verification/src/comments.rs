//! Comment hoisting for JSON.
//!
//! JSON has only line and block comments, so a simple span-range based assignment is
//! sufficient. The cursor of the context is advanced as comments are emitted, so each is
//! printed exactly once.

use vstd::prelude::*;
use vstd::string::StringSliceAdditionalSpecFns;

use crate::context::{lemma_pending_end, pending_before, pending_end};
use crate::print::{source_bytes, FormatElement, JsonFormatter};
use crate::span::{comments_in_order, span_in, Comment, SourceSpan};

verus! {

/// The number of `\n` bytes in `s`.
pub open spec fn newline_count(s: Seq<u8>) -> nat
    decreases s.len(),
{
    if s.len() == 0 {
        0
    } else {
        newline_count(s.drop_last()) + if s.last() == 10u8 {
            1nat
        } else {
            0nat
        }
    }
}

/// Counting newlines distributes over concatenation: the newlines of `a` followed by `b`
/// are those of `a` and those of `b`.
pub proof fn law_newline_count_of_concatenation(a: Seq<u8>, b: Seq<u8>)
    ensures
        newline_count(a + b) == newline_count(a) + newline_count(b),
    decreases b.len(),
{
    if b.len() == 0 {
        assert(a + b =~= a);
    } else {
        law_newline_count_of_concatenation(a, b.drop_last());
        assert((a + b).drop_last() =~= a + b.drop_last());
        assert((a + b).last() == b.last());
    }
}

/// The element that reproduces the vertical spacing of a gap with `newlines` line breaks:
/// a space for none, a line break for one, a blank line for two or more.
pub open spec fn gap_element(newlines: nat) -> FormatElement {
    if newlines == 0 {
        FormatElement::Space
    } else if newlines == 1 {
        FormatElement::HardLineBreak
    } else {
        FormatElement::EmptyLine
    }
}

/// The position that follows comment `i` of `comments`: the start of the next comment,
/// or `value_start` after the last one.
pub open spec fn next_position(comments: Seq<Comment>, i: int, value_start: u32) -> u32 {
    if i + 1 < comments.len() {
        comments[i + 1].span.start
    } else {
        value_start
    }
}

/// The position that precedes comment `i` of `comments`: the end of the previous comment,
/// or `lower_bound` before the first one.
pub open spec fn previous_position(comments: Seq<Comment>, i: int, lower_bound: u32) -> u32 {
    if i == 0 {
        lower_bound
    } else {
        comments[i - 1].span.end
    }
}

/// The elements for the first `n` leading comments: each comment, then the spacing of the
/// gap between it and the next position.
pub open spec fn leading_elements(
    bytes: Seq<u8>,
    comments: Seq<Comment>,
    value_start: u32,
    n: int,
) -> Seq<FormatElement>
    decreases n,
{
    if n <= 0 {
        seq![]
    } else {
        let i = n - 1;
        leading_elements(bytes, comments, value_start, i) + seq![
            FormatElement::SourceText(comments[i].span),
            gap_element(
                newline_count(
                    bytes.subrange(
                        comments[i].span.end as int,
                        next_position(comments, i, value_start) as int,
                    ),
                ),
            ),
        ]
    }
}

/// The spacing written after each leading comment depends only on the text between the
/// comment's end and the next position: two sources that agree there, whatever the
/// comments themselves hold (newlines inside a block comment among them), give the same
/// elements.
pub proof fn law_leading_spacing_ignores_comment_text(
    bytes: Seq<u8>,
    other: Seq<u8>,
    comments: Seq<Comment>,
    value_start: u32,
    n: int,
)
    requires
        leading_gaps_valid(bytes, comments, value_start),
        other.len() == bytes.len(),
        0 <= n <= comments.len(),
        forall|i: int, j: int|
            #![trigger comments[i], bytes[j]]
            0 <= i < n && comments[i].span.end <= j < next_position(comments, i, value_start)
                ==> bytes[j] == other[j],
    ensures
        leading_elements(bytes, comments, value_start, n) == leading_elements(
            other,
            comments,
            value_start,
            n,
        ),
    decreases n,
{
    if n > 0 {
        let i = n - 1;
        law_leading_spacing_ignores_comment_text(bytes, other, comments, value_start, i);
        let lo = comments[i].span.end as int;
        let hi = next_position(comments, i, value_start) as int;
        assert(span_in(bytes, comments[i].span));
        assert forall|x: int| 0 <= x < hi - lo implies bytes.subrange(lo, hi)[x] == other.subrange(
            lo,
            hi,
        )[x] by {
            assert(bytes[lo + x] == other[lo + x]);
        }
        assert(bytes.subrange(lo, hi) =~= other.subrange(lo, hi));
    }
}

/// The elements for the first `n` dangling comments: the comments, separated by line breaks.
pub open spec fn dangling_elements(comments: Seq<Comment>, n: int) -> Seq<FormatElement>
    decreases n,
{
    if n <= 0 {
        seq![]
    } else if n == 1 {
        seq![FormatElement::SourceText(comments[0].span)]
    } else {
        dangling_elements(comments, n - 1) + seq![
            FormatElement::HardLineBreak,
            FormatElement::SourceText(comments[n - 1].span),
        ]
    }
}

/// The elements for the first `n` trailing comments: the spacing of the gap before each
/// comment, then the comment.
pub open spec fn trailing_elements(
    bytes: Seq<u8>,
    comments: Seq<Comment>,
    lower_bound: u32,
    n: int,
) -> Seq<FormatElement>
    decreases n,
{
    if n <= 0 {
        seq![]
    } else {
        let i = n - 1;
        trailing_elements(bytes, comments, lower_bound, i) + seq![
            gap_element(
                newline_count(
                    bytes.subrange(
                        previous_position(comments, i, lower_bound) as int,
                        comments[i].span.start as int,
                    ),
                ),
            ),
            FormatElement::SourceText(comments[i].span),
        ]
    }
}

/// Each comment lies in `bytes`, and the gap after it, up to the next position, is a
/// range of `bytes`.
pub open spec fn leading_gaps_valid(bytes: Seq<u8>, comments: Seq<Comment>, value_start: u32) -> bool {
    forall|i: int|
        0 <= i < comments.len() ==> {
            &&& span_in(bytes, #[trigger] comments[i].span)
            &&& comments[i].span.end <= next_position(comments, i, value_start)
            &&& next_position(comments, i, value_start) <= bytes.len()
        }
}

/// Each comment lies in `bytes`, and the gap before it, from the previous position, is a
/// range of `bytes`.
pub open spec fn trailing_gaps_valid(bytes: Seq<u8>, comments: Seq<Comment>, lower_bound: u32) -> bool {
    forall|i: int|
        0 <= i < comments.len() ==> {
            &&& span_in(bytes, #[trigger] comments[i].span)
            &&& previous_position(comments, i, lower_bound) <= comments[i].span.start
        }
}

/// Counts `\n` bytes in `slice`.
pub fn count_newlines(slice: &[u8]) -> (n: usize)
    ensures
        n == newline_count(slice@),
{
    let mut n: usize = 0;
    let mut i: usize = 0;
    while i < slice.len()
        invariant
            i <= slice@.len(),
            n <= i,
            n == newline_count(slice@.subrange(0, i as int)),
        decreases slice@.len() - i,
    {
        assert(slice@.subrange(0, i + 1).drop_last() =~= slice@.subrange(0, i as int));
        if slice[i] == 10u8 {
            n = n + 1;
        }
        i = i + 1;
    }
    assert(slice@.subrange(0, i as int) =~= slice@);
    n
}

/// Emits the element that reproduces the vertical spacing implied by `gap`:
/// `Space` for 0 newlines, `HardLineBreak` for 1, `EmptyLine` for 2+ (blank line).
pub fn write_gap(gap: &[u8], f: &mut JsonFormatter)
    ensures
        final(f).elements@ == old(f).elements@.push(gap_element(newline_count(gap@))),
        final(f).context == old(f).context,
{
    let n: usize = count_newlines(gap);
    if n == 0 {
        f.write(FormatElement::Space);
    } else if n == 1 {
        f.write(FormatElement::HardLineBreak);
    } else {
        f.write(FormatElement::EmptyLine);
    }
}

/// Emit a single comment using the raw bytes from the source.
pub fn write_single_comment(comment: &Comment, f: &mut JsonFormatter)
    requires
        span_in(source_bytes(old(f)), comment.span),
    ensures
        final(f).elements@ == old(f).elements@.push(FormatElement::SourceText(comment.span)),
        final(f).context == old(f).context,
{
    f.write(FormatElement::SourceText(comment.span));
}

/// Emit comments that precede a value, preserving the source's vertical spacing (0/1/blank)
/// between each comment and the next position: another comment for in-group separators,
/// or `value_start` for the last comment's break to the value.
pub fn write_leading_comments(comments: &[Comment], value_start: u32, f: &mut JsonFormatter)
    requires
        leading_gaps_valid(source_bytes(old(f)), comments@, value_start),
    ensures
        final(f).elements@ == old(f).elements@ + leading_elements(
            source_bytes(old(f)),
            comments@,
            value_start,
            comments@.len() as int,
        ),
        final(f).context == old(f).context,
{
    let source = f.context.source();
    let bytes = source.as_bytes();
    let ghost start_elements = f.elements@;
    let mut i: usize = 0;
    while i < comments.len()
        invariant
            i <= comments@.len(),
            f.context == old(f).context,
            source@ == f.context.spec_source()@,
            bytes@ == source_bytes(old(f)),
            leading_gaps_valid(bytes@, comments@, value_start),
            start_elements == old(f).elements@,
            f.elements@ == start_elements + leading_elements(bytes@, comments@, value_start, i as int),
        decreases comments@.len() - i,
    {
        let comment = &comments[i];
        assert(span_in(bytes@, comments@[i as int].span));
        write_single_comment(comment, f);
        let next_pos: u32 = if i + 1 < comments.len() {
            comments[i + 1].span.start
        } else {
            value_start
        };
        let gap = &bytes[comment.span.end as usize..next_pos as usize];
        write_gap(gap, f);
        assert(f.elements@ =~= start_elements + leading_elements(
            bytes@,
            comments@,
            value_start,
            i + 1,
        ));
        i = i + 1;
    }
}

/// Emit dangling comments inside an empty container (the caller wraps the result in an
/// indented block or similar).
pub fn write_dangling_comments(comments: &[Comment], f: &mut JsonFormatter)
    requires
        forall|i: int|
            0 <= i < comments@.len() ==> span_in(source_bytes(old(f)), #[trigger] comments@[i].span),
    ensures
        final(f).elements@ == old(f).elements@ + dangling_elements(comments@, comments@.len() as int),
        final(f).context == old(f).context,
{
    let ghost start_elements = f.elements@;
    let mut i: usize = 0;
    while i < comments.len()
        invariant
            i <= comments@.len(),
            f.context == old(f).context,
            forall|k: int|
                0 <= k < comments@.len() ==> span_in(source_bytes(f), #[trigger] comments@[k].span),
            start_elements == old(f).elements@,
            f.elements@ == start_elements + dangling_elements(comments@, i as int),
        decreases comments@.len() - i,
    {
        if i > 0 {
            f.write(FormatElement::HardLineBreak);
        }
        assert(span_in(source_bytes(f), comments@[i as int].span));
        write_single_comment(&comments[i], f);
        assert(f.elements@ =~= start_elements + dangling_elements(comments@, i + 1));
        i = i + 1;
    }
}

/// Emit comments that sit between the last child of a container and its closing delimiter.
///
/// Like [`write_leading_comments`], preserves the source's vertical spacing (0/1/blank)
/// in front of each comment. `lower_bound` is the position immediately after the last
/// emitted content and seeds the gap measurement for the first comment.
pub fn write_trailing_inside_comments(comments: &[Comment], lower_bound: u32, f: &mut JsonFormatter)
    requires
        trailing_gaps_valid(source_bytes(old(f)), comments@, lower_bound),
    ensures
        final(f).elements@ == old(f).elements@ + trailing_elements(
            source_bytes(old(f)),
            comments@,
            lower_bound,
            comments@.len() as int,
        ),
        final(f).context == old(f).context,
{
    let source = f.context.source();
    let bytes = source.as_bytes();
    let ghost start_elements = f.elements@;
    let mut prev_end: u32 = lower_bound;
    let mut i: usize = 0;
    while i < comments.len()
        invariant
            i <= comments@.len(),
            f.context == old(f).context,
            bytes@ == source_bytes(old(f)),
            trailing_gaps_valid(bytes@, comments@, lower_bound),
            prev_end == previous_position(comments@, i as int, lower_bound),
            start_elements == old(f).elements@,
            f.elements@ == start_elements + trailing_elements(bytes@, comments@, lower_bound, i as int),
        decreases comments@.len() - i,
    {
        let comment = &comments[i];
        assert(span_in(bytes@, comments@[i as int].span));
        let gap = &bytes[prev_end as usize..comment.span.start as usize];
        write_gap(gap, f);
        write_single_comment(comment, f);
        prev_end = comment.span.end;
        assert(f.elements@ =~= start_elements + trailing_elements(
            bytes@,
            comments@,
            lower_bound,
            i + 1,
        ));
        i = i + 1;
    }
}

/// Whether any comment of `comments` from index `from` up to (not including) `to` is an
/// ignore marker.
pub open spec fn marker_in(markers: Seq<bool>, from: int, to: int) -> bool {
    exists|k: int| from <= k < to && #[trigger] markers[k]
}

/// Returns `true` if any pending comment ending at or before `before` is an ignore marker.
/// `before` is typically the next node's `span.start`.
pub fn is_suppressed_before(f: &JsonFormatter, before: u32) -> (r: bool)
    ensures
        r == marker_in(
            f.context.spec_markers(),
            f.context.cursor(),
            pending_end(f.context.spec_comments(), f.context.cursor(), before),
        ),
{
    proof {
        use_type_invariant(&f.context);
    }
    let pending = f.context.comments_before_iter(before);
    let start = f.context.comment_cursor();
    proof {
        lemma_pending_end(f.context.spec_comments(), f.context.cursor(), before);
    }
    let mut k: usize = 0;
    while k < pending.len()
        invariant
            start as int == f.context.cursor(),
            pending@ == f.context.spec_pending_before(before),
            start + pending@.len() == pending_end(f.context.spec_comments(), f.context.cursor(), before),
            pending_end(f.context.spec_comments(), f.context.cursor(), before)
                <= f.context.spec_comments().len(),
            k <= pending@.len(),
            forall|j: int| start <= j < start + k ==> !f.context.spec_markers()[j],
        decreases pending@.len() - k,
    {
        proof {
            use_type_invariant(&f.context);
        }
        if f.context.is_suppression_marker_at(start + k) {
            return true;
        }
        k = k + 1;
    }
    false
}

/// Emits a node's source slice verbatim and marks any comments inside it as printed, so
/// they aren't emitted again. Used for `oxfmt-ignore` / `prettier-ignore` blocks.
pub fn write_suppressed_node(span: SourceSpan, f: &mut JsonFormatter)
    requires
        span_in(source_bytes(old(f)), span),
    ensures
        final(f).elements@ == old(f).elements@.push(FormatElement::SourceText(span)),
        final(f).context.cursor() == pending_end(
            old(f).context.spec_comments(),
            old(f).context.cursor(),
            span.end,
        ),
        final(f).context.spec_comments() == old(f).context.spec_comments(),
        final(f).context.spec_markers() == old(f).context.spec_markers(),
        final(f).context.spec_source() == old(f).context.spec_source(),
        final(f).context.spec_options() == old(f).context.spec_options(),
{
    proof {
        use_type_invariant(&f.context);
    }
    f.write(FormatElement::SourceText(span));
    // The comments inside the span were printed as part of its verbatim text.
    let _ = f.context.take_comments_before(span.end);
}

/// The comments of a sorted, in-bounds list that end at or before `bound` leave valid
/// gaps up to `bound`.
pub proof fn lemma_pending_leading_gaps_valid(
    bytes: Seq<u8>,
    comments: Seq<Comment>,
    cursor: int,
    bound: u32,
)
    requires
        comments_in_order(bytes, comments),
        0 <= cursor <= comments.len(),
        bound <= bytes.len(),
    ensures
        leading_gaps_valid(bytes, pending_before(comments, cursor, bound), bound),
{
    lemma_pending_end(comments, cursor, bound);
    let pending = pending_before(comments, cursor, bound);
    assert forall|i: int| 0 <= i < pending.len() implies {
        &&& span_in(bytes, #[trigger] pending[i].span)
        &&& pending[i].span.end <= next_position(pending, i, bound)
        &&& next_position(pending, i, bound) <= bytes.len()
    } by {
        assert(pending[i] == comments[cursor + i]);
        assert(span_in(bytes, comments[cursor + i].span));
        if i + 1 < pending.len() {
            assert(pending[i + 1] == comments[cursor + i + 1]);
            assert(span_in(bytes, comments[cursor + i + 1].span));
            assert(comments[cursor + i].span.end <= comments[cursor + i + 1].span.start);
        } else {
            assert(comments[cursor + i].span.end <= bound);
        }
    }
}

/// The comments of a sorted, in-bounds list that end at or before `bound` leave valid
/// gaps from `lower_bound` when the first of them starts at or after `lower_bound`.
pub proof fn lemma_pending_trailing_gaps_valid(
    bytes: Seq<u8>,
    comments: Seq<Comment>,
    cursor: int,
    bound: u32,
    lower_bound: u32,
)
    requires
        comments_in_order(bytes, comments),
        0 <= cursor <= comments.len(),
        pending_before(comments, cursor, bound).len() > 0 ==> lower_bound
            <= pending_before(comments, cursor, bound)[0].span.start,
    ensures
        trailing_gaps_valid(bytes, pending_before(comments, cursor, bound), lower_bound),
{
    lemma_pending_end(comments, cursor, bound);
    let pending = pending_before(comments, cursor, bound);
    assert forall|i: int| 0 <= i < pending.len() implies {
        &&& span_in(bytes, #[trigger] pending[i].span)
        &&& previous_position(pending, i, lower_bound) <= pending[i].span.start
    } by {
        assert(pending[i] == comments[cursor + i]);
        assert(span_in(bytes, comments[cursor + i].span));
        if i > 0 {
            assert(pending[i - 1] == comments[cursor + i - 1]);
            assert(comments[cursor + i - 1].span.end <= comments[cursor + i].span.start);
        }
    }
}

/// Drains and prints all pending comments ending at or before the span's start, keeping
/// the source's vertical spacing between them and the value.
pub struct FormatLeadingComments(pub SourceSpan);

impl FormatLeadingComments {
    /// Writes the leading comments of the span.
    pub fn fmt(&self, f: &mut JsonFormatter)
        requires
            old(f).context.comments_valid(),
            self.0.start <= source_bytes(old(f)).len(),
        ensures
            final(f).elements@ == old(f).elements@ + leading_elements(
                source_bytes(old(f)),
                old(f).context.spec_pending_before(self.0.start),
                self.0.start,
                old(f).context.spec_pending_before(self.0.start).len() as int,
            ),
            final(f).context.cursor() == pending_end(
                old(f).context.spec_comments(),
                old(f).context.cursor(),
                self.0.start,
            ),
            final(f).context.spec_comments() == old(f).context.spec_comments(),
            final(f).context.spec_markers() == old(f).context.spec_markers(),
            final(f).context.spec_source() == old(f).context.spec_source(),
            final(f).context.spec_options() == old(f).context.spec_options(),
    {
        proof {
            use_type_invariant(&f.context);
        }
        proof {
            lemma_pending_leading_gaps_valid(
                source_bytes(f),
                f.context.spec_comments(),
                f.context.cursor(),
                self.0.start,
            );
        }
        let leading = f.context.take_comments_before(self.0.start);
        write_leading_comments(leading, self.0.start, f);
    }
}

/// Drains the comments before `upper_bound` (typically the container's closing delimiter)
/// and writes them. `lower_bound` is the position right after the last emitted child, so
/// the first comment's gap can be measured; it is `upper_bound` when there is no child.
pub struct FormatTrailingInsideComments {
    pub lower_bound: u32,
    pub upper_bound: u32,
}

impl FormatTrailingInsideComments {
    /// Writes the comments before the closing delimiter.
    pub fn fmt(&self, f: &mut JsonFormatter)
        requires
            old(f).context.comments_valid(),
            old(f).context.spec_pending_before(self.upper_bound).len() > 0 ==> self.lower_bound
                <= old(f).context.spec_pending_before(self.upper_bound)[0].span.start,
        ensures
            final(f).elements@ == old(f).elements@ + trailing_elements(
                source_bytes(old(f)),
                old(f).context.spec_pending_before(self.upper_bound),
                self.lower_bound,
                old(f).context.spec_pending_before(self.upper_bound).len() as int,
            ),
            final(f).context.cursor() == pending_end(
                old(f).context.spec_comments(),
                old(f).context.cursor(),
                self.upper_bound,
            ),
            final(f).context.spec_comments() == old(f).context.spec_comments(),
            final(f).context.spec_markers() == old(f).context.spec_markers(),
            final(f).context.spec_source() == old(f).context.spec_source(),
            final(f).context.spec_options() == old(f).context.spec_options(),
    {
        proof {
            use_type_invariant(&f.context);
        }
        proof {
            lemma_pending_trailing_gaps_valid(
                source_bytes(f),
                f.context.spec_comments(),
                f.context.cursor(),
                self.upper_bound,
                self.lower_bound,
            );
        }
        let trailing = f.context.take_comments_before(self.upper_bound);
        write_trailing_inside_comments(trailing, self.lower_bound, f);
    }
}

} // verus!
