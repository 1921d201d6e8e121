//! Where the inline references section goes: among the doc comment lines that follow the
//! rule declaration's opening, and never past the first line that is neither a doc
//! comment nor blank, whatever text comes after that line.

use vstd::prelude::*;

use crate::attribution::{doc_marker, inline_references_block, inserted_references, macro_pattern, scan_doc_lines};
use crate::text::{
    find_from, lemma_find_from, lemma_find_from_common_prefix, lemma_find_from_exact, line_end,
    occurs_at, starts_with, trim_start,
};

verus! {

/// A newline at `j` is an occurrence of the one-character pattern `"\n"`.
proof fn lemma_newline_occurs(s: Seq<char>, j: int)
    ensures
        occurs_at(s, seq!['\n'], j) <==> (0 <= j < s.len() && s[j] == '\n'),
{
    assert(seq!['\n'].len() == 1);
    if 0 <= j < s.len() {
        assert(s.subrange(j, j + 1) =~= seq![s[j]]);
        assert(s.subrange(j, j + 1)[0] == s[j]);
    }
}

/// The line of `s + t` that starts at `c` is the line of `s` there, when a newline of `s`
/// at `q` follows `c`.
proof fn lemma_line_end_in_prefix(s: Seq<char>, t: Seq<char>, c: int, q: int)
    requires
        0 <= c <= q < s.len(),
        s[q] == '\n',
    ensures
        line_end(s + t, c) == line_end(s, c),
        c < line_end(s, c) <= q + 1,
        s[line_end(s, c) - 1] == '\n',
        forall|j: int| c <= j < line_end(s, c) - 1 ==> s[j] != '\n',
{
    let nl = seq!['\n'];
    lemma_newline_occurs(s, q);
    lemma_find_from(s, nl, c);
    let p = find_from(s, nl, c).unwrap();
    lemma_newline_occurs(s, p);
    assert forall|j: int| c <= j < p implies s[j] != '\n' by {
        lemma_newline_occurs(s, j);
    }
    assert((s + t).subrange(0, p + 1) =~= s.subrange(0, p + 1));
    lemma_find_from_common_prefix(s, s + t, nl, c, p + 1);
}

/// The scan of doc lines from a line start `c` of `s` up to a line at `a` that is neither a
/// doc line nor blank and ends with a newline of `s` at `q` stops at that line, and so it
/// scans `s + t` exactly as it scans `s`.
proof fn lemma_scan_stops_in_prefix(
    s: Seq<char>,
    t: Seq<char>,
    c: int,
    last: Option<int>,
    saw: bool,
    a: int,
    q: int,
)
    requires
        0 <= c <= a <= q < s.len(),
        s[q] == '\n',
        forall|j: int| a <= j < q ==> s[j] != '\n',
        c < a ==> s[a - 1] == '\n',
        trim_start(s.subrange(a, q + 1)).len() > 0,
        !starts_with(trim_start(s.subrange(a, q + 1)), doc_marker()),
        last matches Some(x) ==> 0 <= x <= s.len(),
    ensures
        scan_doc_lines(s + t, c, last, saw) == scan_doc_lines(s, c, last, saw),
        scan_doc_lines(s, c, last, saw).0 matches Some(x) ==> 0 <= x <= s.len(),
    decreases a - c,
{
    let u = s + t;
    if c < a {
        lemma_line_end_in_prefix(s, t, c, a - 1);
    } else {
        lemma_line_end_in_prefix(s, t, c, q);
        // No newline lies in `[a, q)`, so the line at `a` ends just past `q`.
        if line_end(s, c) < q + 1 {
            assert(s[line_end(s, c) - 1] != '\n');
        }
    }
    let end = line_end(s, c);
    assert(u.subrange(c, end) =~= s.subrange(c, end));
    if c < a {
        let trimmed = trim_start(s.subrange(c, end));
        if starts_with(trimmed, doc_marker()) {
            lemma_scan_stops_in_prefix(s, t, end, Some(end), saw || crate::text::contains(
                trimmed,
                crate::attribution::references_heading(),
            ), a, q);
        } else if trimmed.len() == 0 {
            lemma_scan_stops_in_prefix(s, t, end, last, saw, a, q);
        }
    }
}

/// The references section goes before the first line after the rule declaration's opening
/// that is neither a doc comment nor blank: when `s` holds such a line, ended by a newline,
/// the text that follows `s` is neither looked at nor moved, so inserting references into
/// `s + t` gives what inserting them into `s` gives, followed by `t`. Doc comments further
/// down, such as those of a helper after the declaration, never receive the section.
pub proof fn law_references_stay_in_the_declaration(
    s: Seq<char>,
    t: Seq<char>,
    url: Seq<char>,
    a: int,
    q: int,
)
    requires
        find_from(s, macro_pattern(), 0) matches Some(m) && {
            &&& m + macro_pattern().len() <= a
            &&& (a == m + macro_pattern().len() || s[a - 1] == '\n')
        },
        a <= q < s.len(),
        s[q] == '\n',
        forall|j: int| a <= j < q ==> s[j] != '\n',
        trim_start(s.subrange(a, q + 1)).len() > 0,
        !starts_with(trim_start(s.subrange(a, q + 1)), doc_marker()),
    ensures
        inserted_references(s + t, url) == match inserted_references(s, url) {
            Some(r) => Some(r + t),
            None => None,
        },
{
    let u = s + t;
    let m = find_from(s, macro_pattern(), 0).unwrap();
    lemma_find_from(s, macro_pattern(), 0);
    assert(u.subrange(0, s.len() as int) =~= s.subrange(0, s.len() as int));
    lemma_find_from_common_prefix(s, u, macro_pattern(), 0, s.len() as int);
    let c = m + macro_pattern().len();
    lemma_scan_stops_in_prefix(s, t, c, None, false, a, q);
    let scan = scan_doc_lines(s, c, None, false);
    if !scan.1 {
        if let Some(at) = scan.0 {
            assert(u.subrange(0, at) =~= s.subrange(0, at));
            assert(u.subrange(at, u.len() as int) =~= s.subrange(at, s.len() as int) + t);
            assert(s.subrange(0, at) + inline_references_block(url) + (s.subrange(
                at,
                s.len() as int,
            ) + t) =~= (s.subrange(0, at) + inline_references_block(url) + s.subrange(
                at,
                s.len() as int,
            )) + t);
        }
    }
}

} // verus!
