//! The formatting context for JSON: options, the source text, its comments, and a cursor
//! over the comments that advances as comments are emitted, so each is printed once.

use vstd::prelude::*;
use vstd::slice::slice_subrange;
use vstd::string::StringSliceAdditionalSpecFns;

use crate::options::JsonFormatOptions;
use crate::span::{comments_in_order, Comment};

verus! {

/// The index just past the run of comments, starting at index `i`, whose spans end at or
/// before `bound`.
pub open spec fn pending_end(comments: Seq<Comment>, i: int, bound: u32) -> int
    decreases comments.len() - i,
{
    if 0 <= i < comments.len() && comments[i].span.end <= bound {
        pending_end(comments, i + 1, bound)
    } else {
        i
    }
}

/// The comments from index `i` on that end at or before `bound`, up to the first that does not.
pub open spec fn pending_before(comments: Seq<Comment>, i: int, bound: u32) -> Seq<Comment> {
    comments.subrange(i, pending_end(comments, i, bound))
}

/// `pending_end` stops at the first comment that ends after `bound`.
pub proof fn lemma_pending_end(comments: Seq<Comment>, i: int, bound: u32)
    requires
        0 <= i <= comments.len(),
    ensures
        i <= pending_end(comments, i, bound) <= comments.len(),
        forall|k: int|
            i <= k < pending_end(comments, i, bound) ==> #[trigger] comments[k].span.end <= bound,
        pending_end(comments, i, bound) < comments.len() ==> comments[pending_end(
            comments,
            i,
            bound,
        )].span.end > bound,
    decreases comments.len() - i,
{
    if i < comments.len() && comments[i].span.end <= bound {
        lemma_pending_end(comments, i + 1, bound);
    }
}

/// Comments taken from the context are never handed out again: once the cursor has moved
/// past the comments ending at or before `bound`, a later request with a bound no larger
/// than `bound` finds nothing.
pub proof fn law_taken_comments_are_not_returned_again(
    comments: Seq<Comment>,
    cursor: int,
    bound: u32,
    later_bound: u32,
)
    requires
        0 <= cursor <= comments.len(),
        later_bound <= bound,
    ensures
        pending_end(comments, pending_end(comments, cursor, bound), later_bound) == pending_end(
            comments,
            cursor,
            bound,
        ),
        pending_before(comments, pending_end(comments, cursor, bound), later_bound).len() == 0,
{
    lemma_pending_end(comments, cursor, bound);
}

/// Successive requests hand out consecutive runs of comments: what two requests return,
/// one after the other, is exactly the run from the first cursor to the second one, so
/// every comment is handed out at most once and none is skipped.
pub proof fn law_successive_takes_are_consecutive(
    comments: Seq<Comment>,
    cursor: int,
    first_bound: u32,
    second_bound: u32,
)
    requires
        0 <= cursor <= comments.len(),
    ensures
        ({
            let middle = pending_end(comments, cursor, first_bound);
            let last = pending_end(comments, middle, second_bound);
            pending_before(comments, cursor, first_bound) + pending_before(
                comments,
                middle,
                second_bound,
            ) == comments.subrange(cursor, last)
        }),
{
    lemma_pending_end(comments, cursor, first_bound);
    let middle = pending_end(comments, cursor, first_bound);
    lemma_pending_end(comments, middle, second_bound);
    let last = pending_end(comments, middle, second_bound);
    assert(comments.subrange(cursor, middle) + comments.subrange(middle, last)
        =~= comments.subrange(cursor, last));
}

/// After all remaining comments are drained, no request finds any comment.
pub proof fn law_nothing_pending_after_drain(comments: Seq<Comment>, bound: u32)
    ensures
        pending_end(comments, comments.len() as int, bound) == comments.len(),
        pending_before(comments, comments.len() as int, bound).len() == 0,
{
}

/// A request for comments made of the context: those not yet printed that end at or before
/// a bound, or all that remain.
pub enum TakeRequest {
    /// `take_comments_before` with this upper bound.
    Before(u32),
    /// `take_remaining_comments`.
    Remaining,
}

/// Where the cursor stands after `request`, made with the cursor at `cursor`.
pub open spec fn take_end(comments: Seq<Comment>, cursor: int, request: TakeRequest) -> int {
    match request {
        TakeRequest::Before(bound) => pending_end(comments, cursor, bound),
        TakeRequest::Remaining => comments.len() as int,
    }
}

/// The comments that `request` hands out, made with the cursor at `cursor`.
pub open spec fn taken(comments: Seq<Comment>, cursor: int, request: TakeRequest) -> Seq<Comment> {
    comments.subrange(cursor, take_end(comments, cursor, request))
}

/// The comments that `requests`, made one after the other from `cursor`, hand out, in the
/// order they are handed out, and where the cursor stands after the last of them.
pub open spec fn run_takes(comments: Seq<Comment>, cursor: int, requests: Seq<TakeRequest>) -> (
    Seq<Comment>,
    int,
)
    decreases requests.len(),
{
    if requests.len() == 0 {
        (Seq::empty(), cursor)
    } else {
        let end = take_end(comments, cursor, requests[0]);
        let (rest, last) = run_takes(comments, end, requests.drop_first());
        (taken(comments, cursor, requests[0]) + rest, last)
    }
}

/// Any sequence of requests hands out consecutive runs of comments: together, in the order
/// they were handed out, they are exactly the comments from the first cursor to the last,
/// so no comment is handed out twice and none in between is skipped; a sequence that ends
/// with a drain has handed out every comment from the first cursor on.
pub proof fn law_takes_hand_out_each_comment_once(
    comments: Seq<Comment>,
    cursor: int,
    requests: Seq<TakeRequest>,
)
    requires
        0 <= cursor <= comments.len(),
    ensures
        ({
            let (handed_out, last) = run_takes(comments, cursor, requests);
            &&& cursor <= last <= comments.len()
            &&& handed_out == comments.subrange(cursor, last)
            &&& requests.len() > 0 && requests.last() is Remaining ==> last == comments.len()
        }),
    decreases requests.len(),
{
    if requests.len() > 0 {
        let end = take_end(comments, cursor, requests[0]);
        match requests[0] {
            TakeRequest::Before(bound) => lemma_pending_end(comments, cursor, bound),
            TakeRequest::Remaining => {},
        }
        law_takes_hand_out_each_comment_once(comments, end, requests.drop_first());
        let (rest, last) = run_takes(comments, end, requests.drop_first());
        assert(comments.subrange(cursor, end) + comments.subrange(end, last)
            =~= comments.subrange(cursor, last));
        if requests.drop_first().len() == 0 {
            assert(last == end);
        } else {
            assert(requests.drop_first().last() == requests.last());
        }
    }
}

/// Formatting context for JSON.
///
/// `comment_cursor` advances as comments are emitted so each is printed exactly once.
/// `suppression_markers[i]` tells whether comment `i` is an ignore marker.
pub struct JsonFormatContext<'a> {
    options: JsonFormatOptions,
    source_code: &'a str,
    comments: &'a [Comment],
    suppression_markers: &'a [bool],
    comment_cursor: usize,
}

impl<'a> JsonFormatContext<'a> {
    /// The options.
    pub closed spec fn spec_options(&self) -> JsonFormatOptions {
        self.options
    }

    /// The source text.
    pub closed spec fn spec_source(&self) -> &'a str {
        self.source_code
    }

    /// All comments of the source, sorted.
    pub closed spec fn spec_comments(&self) -> Seq<Comment> {
        self.comments@
    }

    /// For each comment, whether it is an ignore marker.
    pub closed spec fn spec_markers(&self) -> Seq<bool> {
        self.suppression_markers@
    }

    /// The index of the first comment not yet printed.
    pub closed spec fn cursor(&self) -> int {
        self.comment_cursor as int
    }

    /// What holds of every context: the cursor lies within the comments, and there is one
    /// marker per comment.
    #[verifier::type_invariant]
    pub open spec fn well_formed(&self) -> bool {
        &&& 0 <= self.cursor() <= self.spec_comments().len()
        &&& self.spec_markers().len() == self.spec_comments().len()
        &&& self.spec_comments().len() <= usize::MAX
    }

    /// The comments lie within the source text, in order.
    pub open spec fn comments_valid(&self) -> bool {
        comments_in_order(self.spec_source().spec_bytes(), self.spec_comments())
    }

    /// The comments not yet printed that end at or before `upper_bound`.
    pub open spec fn spec_pending_before(&self, upper_bound: u32) -> Seq<Comment> {
        pending_before(self.spec_comments(), self.cursor(), upper_bound)
    }

    /// A context over `source_code` and its sorted `comments`, none printed yet;
    /// `suppression_markers` holds, for each comment, whether it is an ignore marker.
    pub fn new(
        options: JsonFormatOptions,
        source_code: &'a str,
        comments: &'a [Comment],
        suppression_markers: &'a [bool],
    ) -> (r: Self)
        requires
            suppression_markers@.len() == comments@.len(),
        ensures
            r.spec_options() == options,
            r.spec_source() == source_code,
            r.spec_comments() == comments@,
            r.spec_markers() == suppression_markers@,
            r.cursor() == 0,
    {
        proof {
            assert(comments@.len() == comments.len());
        }
        JsonFormatContext { options, source_code, comments, suppression_markers, comment_cursor: 0 }
    }

    /// Returns the source text with its full lifetime.
    pub fn source(&self) -> (r: &'a str)
        ensures
            r == self.spec_source(),
    {
        self.source_code
    }

    /// The source text.
    pub fn source_code(&self) -> (r: &str)
        ensures
            r == self.spec_source(),
    {
        self.source_code
    }

    /// The options.
    pub fn options(&self) -> (r: &JsonFormatOptions)
        ensures
            *r == self.spec_options(),
    {
        &self.options
    }

    /// The index just past the run of unprinted comments ending at or before `upper_bound`.
    fn pending_end_exec(&self, upper_bound: u32) -> (end: usize)
        ensures
            end as int == pending_end(self.spec_comments(), self.cursor(), upper_bound),
    {
        proof {
            use_type_invariant(&*self);
        }
        let start: usize = self.comment_cursor;
        let mut end: usize = start;
        while end < self.comments.len() && self.comments[end].span.end <= upper_bound
            invariant
                start <= end <= self.comments@.len(),
                pending_end(self.comments@, start as int, upper_bound) == pending_end(
                    self.comments@,
                    end as int,
                    upper_bound,
                ),
            decreases self.comments@.len() - end,
        {
            end += 1;
        }
        end
    }

    /// Returns comments yet to be printed whose `span.end <= upper_bound`.
    /// Advances the cursor past them so they won't be returned again.
    pub fn take_comments_before(&mut self, upper_bound: u32) -> (r: &'a [Comment])
        ensures
            r@ == old(self).spec_pending_before(upper_bound),
            final(self).cursor() == pending_end(old(self).spec_comments(), old(self).cursor(), upper_bound),
            r@ == taken(old(self).spec_comments(), old(self).cursor(), TakeRequest::Before(upper_bound)),
            final(self).cursor() == take_end(
                old(self).spec_comments(),
                old(self).cursor(),
                TakeRequest::Before(upper_bound),
            ),
            final(self).spec_comments() == old(self).spec_comments(),
            final(self).spec_markers() == old(self).spec_markers(),
            final(self).spec_source() == old(self).spec_source(),
            final(self).spec_options() == old(self).spec_options(),
    {
        proof {
            use_type_invariant(&*self);
        }
        proof {
            lemma_pending_end(self.comments@, self.comment_cursor as int, upper_bound);
        }
        let start: usize = self.comment_cursor;
        let end: usize = self.pending_end_exec(upper_bound);
        self.comment_cursor = end;
        slice_subrange(self.comments, start, end)
    }

    /// Drains all remaining unprinted comments and returns them.
    pub fn take_remaining_comments(&mut self) -> (r: &'a [Comment])
        ensures
            r@ == old(self).spec_comments().subrange(
                old(self).cursor(),
                old(self).spec_comments().len() as int,
            ),
            final(self).cursor() == old(self).spec_comments().len(),
            r@ == taken(old(self).spec_comments(), old(self).cursor(), TakeRequest::Remaining),
            final(self).cursor() == take_end(
                old(self).spec_comments(),
                old(self).cursor(),
                TakeRequest::Remaining,
            ),
            final(self).spec_comments() == old(self).spec_comments(),
            final(self).spec_markers() == old(self).spec_markers(),
            final(self).spec_source() == old(self).spec_source(),
            final(self).spec_options() == old(self).spec_options(),
    {
        proof {
            use_type_invariant(&*self);
        }
        let start: usize = self.comment_cursor;
        self.comment_cursor = self.comments.len();
        slice_subrange(self.comments, start, self.comments.len())
    }

    /// Unprinted comments whose `span.end <= upper_bound`, up to the first that ends later.
    /// Does **not** advance the cursor: callers that want to mark these as printed must
    /// call [`Self::take_comments_before`] instead.
    pub fn comments_before_iter(&self, upper_bound: u32) -> (r: &'a [Comment])
        ensures
            r@ == self.spec_pending_before(upper_bound),
    {
        proof {
            use_type_invariant(&*self);
        }
        proof {
            lemma_pending_end(self.comments@, self.comment_cursor as int, upper_bound);
        }
        let end: usize = self.pending_end_exec(upper_bound);
        slice_subrange(self.comments, self.comment_cursor, end)
    }

    /// Returns `true` if at least one unprinted comment satisfies `span.end <= upper_bound`.
    pub fn has_comments_before(&self, upper_bound: u32) -> (r: bool)
        ensures
            r == (self.spec_pending_before(upper_bound).len() > 0),
    {
        proof {
            use_type_invariant(&*self);
        }
        proof {
            lemma_pending_end(self.comments@, self.comment_cursor as int, upper_bound);
        }
        self.comment_cursor < self.comments.len() && self.comments[self.comment_cursor].span.end
            <= upper_bound
    }

    /// Whether the comment at `index` is an ignore marker.
    pub fn is_suppression_marker_at(&self, index: usize) -> (r: bool)
        requires
            index < self.spec_comments().len(),
        ensures
            r == self.spec_markers()[index as int],
    {
        proof {
            use_type_invariant(&*self);
        }
        self.suppression_markers[index]
    }

    /// The index of the first comment not yet printed.
    pub fn comment_cursor(&self) -> (r: usize)
        ensures
            r as int == self.cursor(),
    {
        self.comment_cursor
    }
}

} // verus!
