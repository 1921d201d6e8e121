//! The rewrites of rule documentation are idempotent: a text that one of them produced
//! already holds a `### References` section, and is left alone on a second run.

use vstd::prelude::*;

use crate::attribution::{
    appended_references, const_end_pattern, const_pattern, doc_marker, inline_references_block,
    inserted_references, macro_pattern, references_heading, scan_doc_lines,
    shared_references_block, updated_plugin_rule_of, updated_shared_rule_of, url_lines, Plugin,
};
use crate::text::{
    contains, find_from, lemma_contains_witness, lemma_find_from, lemma_find_from_common_prefix,
    lemma_find_from_exact, lemma_line_end, lemma_occurs_at_common_prefix,
    lemma_starts_with_append, lemma_trim_start_append, lemma_trim_start_skip, line_end, occurs_at,
    starts_with, trim_start, white_space,
};

verus! {

/// Appending references to shared documentation twice adds them once: whatever URLs the
/// second run would list, the text that the first run produced is left alone.
pub proof fn law_shared_references_are_added_once(
    s: Seq<char>,
    urls: Seq<Seq<char>>,
    other_urls: Seq<Seq<char>>,
)
    requires
        appended_references(s, urls) is Some,
    ensures
        appended_references(appended_references(s, urls).unwrap(), other_urls) is None,
{
    reveal_strlit("\";");
    reveal_strlit("### References");
    reveal_strlit("### References\n\n");
    reveal_strlit("\n");
    let p = const_pattern();
    let e = const_end_pattern();
    let h = references_heading();
    lemma_find_from(s, p, 0);
    let c = find_from(s, p, 0).unwrap();
    let body_start = c + p.len();
    lemma_find_from(s, e, body_start);
    let body_end = find_from(s, e, body_start).unwrap();
    let body = s.subrange(body_start, body_end);
    let block = shared_references_block(body, urls);
    let n = s.subrange(0, body_end) + block + s.subrange(body_end, s.len() as int);
    assert(appended_references(s, urls) == Some(n));
    assert(n.subrange(0, body_end) =~= s.subrange(0, body_end));
    // The constant still opens where it did.
    lemma_find_from_common_prefix(s, n, p, 0, body_end);
    assert(find_from(n, p, 0) == Some(c));
    // The heading now sits in the block, right after the optional newlines.
    let pre = (if !crate::text::ends_with(body, "\n"@) {
        "\n"@
    } else {
        seq![]
    }) + (if !crate::text::ends_with(body, "\n\n"@) && body.len() > 0 {
        "\n"@
    } else {
        seq![]
    });
    let k = pre.len() as int;
    assert(block =~= pre + "### References\n\n"@ + url_lines(urls, urls.len() as int));
    assert(forall|i: int| 0 <= i < k ==> pre[i] == '\n');
    assert(n.subrange(body_end + k, body_end + k + h.len()) =~= h);
    // No closing `";` before the end of the heading.
    assert forall|j: int| body_start <= j < body_end + k + h.len() implies !occurs_at(n, e, j) by {
        if j + e.len() <= body_end {
            lemma_occurs_at_common_prefix(s, n, e, j, body_end);
        } else if j == body_end - 1 {
            assert(n[j + 1] == block[0]);
            if occurs_at(n, e, j) {
                assert(n.subrange(j, j + 2)[1] == e[1]);
            }
        } else {
            assert(n[j] == block[j - body_end]);
            if occurs_at(n, e, j) {
                assert(n.subrange(j, j + 2)[0] == e[0]);
            }
        }
    }
    lemma_find_from(n, e, body_start);
    if let Some(new_end) = find_from(n, e, body_start) {
        let new_body = n.subrange(body_start, new_end);
        assert(occurs_at(new_body, h, body_end + k - body_start)) by {
            assert(new_body.subrange(body_end + k - body_start, body_end + k - body_start + h.len())
                =~= n.subrange(body_end + k, body_end + k + h.len()));
        }
        lemma_find_from(new_body, h, 0);
        assert(contains(new_body, h));
    }
}

/// The end of the last doc line that a scan reports is the one it started with, or the end
/// of a line past the cursor.
pub proof fn lemma_scan_last(s: Seq<char>, p: int, last: Option<int>, saw: bool)
    ensures
        ({
            let r = scan_doc_lines(s, p, last, saw);
            r.0 == last || (r.0 matches Some(e) && p < e)
        }),
    decreases s.len() - p,
{
    if 0 <= p < s.len() {
        let end = line_end(s, p);
        let trimmed = trim_start(s.subrange(p, end));
        if end <= p || end > s.len() {
        } else if starts_with(trimmed, doc_marker()) {
            lemma_scan_last(s, end, Some(end), saw || contains(trimmed, references_heading()));
        } else if trimmed.len() == 0 {
            lemma_scan_last(s, end, last, saw);
        }
    }
}

/// Once a scan has seen a references heading, it reports having seen one.
pub proof fn lemma_scan_saw_sticky(s: Seq<char>, p: int, last: Option<int>)
    ensures
        scan_doc_lines(s, p, last, true).1,
    decreases s.len() - p,
{
    if 0 <= p < s.len() {
        let end = line_end(s, p);
        let trimmed = trim_start(s.subrange(p, end));
        if end <= p || end > s.len() {
        } else if starts_with(trimmed, doc_marker()) {
            lemma_scan_saw_sticky(s, end, Some(end));
        } else if trimmed.len() == 0 {
            lemma_scan_saw_sticky(s, end, last);
        }
    }
}

/// The second line of an inserted references block is a doc line that holds the heading,
/// so a scan that reaches it reports a heading.
pub proof fn lemma_block_heading_line(n: Seq<char>, at: int, url: Seq<char>, last: Option<int>, saw: bool)
    requires
        0 <= at,
        at + inline_references_block(url).len() <= n.len(),
        n.subrange(at, at + inline_references_block(url).len()) == inline_references_block(url),
    ensures
        scan_doc_lines(n, at + 8, last, saw).1,
{
    let block = inline_references_block(url);
    let line = "    /// ### References\n"@;
    reveal_strlit("    ///\n");
    reveal_strlit("    /// ### References\n");
    reveal_strlit("    ///\n    /// - <");
    assert(block =~= "    ///\n"@ + line + ("    ///\n    /// - <"@ + url + ">\n"@));
    assert(n.subrange(at + 8, at + 31) =~= line) by {
        assert(n.subrange(at + 8, at + 31) =~= block.subrange(8, 31));
    }
    let c = at + 8;
    assert forall|j: int| c <= j < at + 30 implies !occurs_at(n, seq!['\n'], j) by {
        assert(n[j] == line[j - c]);
        assert(line[j - c] != '\n');
        if occurs_at(n, seq!['\n'], j) {
            assert(n.subrange(j, j + 1)[0] == n[j]);
        }
    }
    assert(occurs_at(n, seq!['\n'], at + 30)) by {
        assert(n[at + 30] == line[22]);
        assert(n.subrange(at + 30, at + 31) =~= seq!['\n']);
    }
    lemma_find_from_exact(n, seq!['\n'], c, at + 30);
    assert(line_end(n, c) == at + 31);
    let text = n.subrange(c, at + 31);
    assert(forall|i: int| 0 <= i < 4 ==> white_space(#[trigger] text[i]));
    assert(!white_space(text[4]));
    lemma_trim_start_skip(text, 4);
    let trimmed = text.subrange(4, 23);
    reveal_strlit("///");
    reveal_strlit("### References");
    assert(trimmed.subrange(0, 3) =~= doc_marker());
    assert(trimmed.subrange(4, 18) =~= references_heading());
    lemma_contains_witness(trimmed, references_heading(), 4);
    lemma_scan_saw_sticky(n, at + 31, Some(at + 31));
}

/// A scan that reaches an inserted references block reports a heading.
pub proof fn lemma_block_scan(n: Seq<char>, at: int, url: Seq<char>, last: Option<int>, saw: bool)
    requires
        0 <= at,
        at + inline_references_block(url).len() <= n.len(),
        n.subrange(at, at + inline_references_block(url).len()) == inline_references_block(url),
    ensures
        scan_doc_lines(n, at, last, saw).1,
{
    let block = inline_references_block(url);
    let first = "    ///\n"@;
    reveal_strlit("    ///\n");
    reveal_strlit("///");
    assert(n.subrange(at, at + 8) =~= first) by {
        assert(n.subrange(at, at + 8) =~= block.subrange(0, 8));
    }
    assert forall|j: int| at <= j < at + 7 implies !occurs_at(n, seq!['\n'], j) by {
        assert(n[j] == first[j - at]);
        if occurs_at(n, seq!['\n'], j) {
            assert(n.subrange(j, j + 1)[0] == n[j]);
        }
    }
    assert(occurs_at(n, seq!['\n'], at + 7)) by {
        assert(n[at + 7] == first[7]);
        assert(n.subrange(at + 7, at + 8) =~= seq!['\n']);
    }
    lemma_find_from_exact(n, seq!['\n'], at, at + 7);
    let text = n.subrange(at, at + 8);
    assert(forall|i: int| 0 <= i < 4 ==> white_space(#[trigger] text[i]));
    lemma_trim_start_skip(text, 4);
    assert(text.subrange(4, 8).subrange(0, 3) =~= doc_marker());
    lemma_block_heading_line(
        n,
        at,
        url,
        Some(at + 8),
        saw || contains(text.subrange(4, 8), references_heading()),
    );
}

/// Scanning the text with a references block inserted at `at`, from a line start `p`
/// before `at` from which the scan of the text without the block reports `at` as the end of the
/// last doc line and no heading, reports a heading.
pub proof fn lemma_scan_reaches_block(
    s: Seq<char>,
    url: Seq<char>,
    at: int,
    p: int,
    last: Option<int>,
    last2: Option<int>,
    saw2: bool,
)
    requires
        0 <= p < at <= s.len(),
        last matches Some(x) ==> x <= p,
        scan_doc_lines(s, p, last, false) == (Some(at), false),
    ensures
        scan_doc_lines(
            s.subrange(0, at) + inline_references_block(url) + s.subrange(at, s.len() as int),
            p,
            last2,
            saw2,
        ).1,
    decreases at - p,
{
    let block = inline_references_block(url);
    let n = s.subrange(0, at) + block + s.subrange(at, s.len() as int);
    assert(n.subrange(0, at) =~= s.subrange(0, at));
    assert(n.subrange(at, at + block.len()) =~= block);
    let nl = seq!['\n'];
    lemma_line_end(s, p);
    let end = line_end(s, p);
    let trimmed = trim_start(s.subrange(p, end));
    let heading = contains(trimmed, references_heading());
    if starts_with(trimmed, doc_marker()) {
        // A doc line.
        lemma_scan_last(s, end, Some(end), heading);
        if heading {
            lemma_scan_saw_sticky(s, end, Some(end));
        }
        if end < at || find_from(s, nl, p) is Some {
            // The line ends with a newline before `at`: it reads the same in the new text.
            lemma_find_from_common_prefix(s, n, nl, p, at);
            assert(n.subrange(p, end) =~= s.subrange(p, end)) by {
                assert(n.subrange(p, end) =~= n.subrange(0, at).subrange(p, end));
                assert(s.subrange(p, end) =~= s.subrange(0, at).subrange(p, end));
            }
            lemma_line_end(n, p);
            if end < at {
                lemma_scan_reaches_block(s, url, at, end, Some(end), Some(end), saw2 || heading);
            } else {
                lemma_block_scan(n, at, url, Some(end), saw2 || heading);
            }
        } else {
            // The last doc line ends the text without a newline: in the new text it runs on
            // into the first line of the block.
            assert(end == at && at == s.len());
            lemma_find_from(s, nl, p);
            reveal_strlit("    ///\n");
            let first = "    ///\n"@;
            assert(block.subrange(0, 8) =~= first);
            assert forall|j: int| p <= j < at + 7 implies !occurs_at(n, nl, j) by {
                if j < at {
                    lemma_occurs_at_common_prefix(s, n, nl, j, at);
                } else {
                    assert(n[j] == block[j - at]);
                    assert(block[j - at] == first[j - at]);
                    if occurs_at(n, nl, j) {
                        assert(n.subrange(j, j + 1)[0] == n[j]);
                    }
                }
            }
            assert(occurs_at(n, nl, at + 7)) by {
                assert(n[at + 7] == block[7]);
                assert(n.subrange(at + 7, at + 8) =~= nl);
            }
            lemma_find_from_exact(n, nl, p, at + 7);
            lemma_line_end(n, p);
            assert(n.subrange(p, at + 8) =~= s.subrange(p, at) + first) by {
                assert(n.subrange(p, at) =~= n.subrange(0, at).subrange(p, at));
                assert(s.subrange(p, at) =~= s.subrange(0, at).subrange(p, at));
            }
            assert(trimmed.len() > 0) by {
                reveal_strlit("///");
            }
            lemma_trim_start_append(s.subrange(p, at), first);
            lemma_starts_with_append(trimmed, first, doc_marker());
            lemma_block_heading_line(
                n,
                at,
                url,
                Some(at + 8),
                saw2 || contains(trim_start(n.subrange(p, at + 8)), references_heading()),
            );
        }
    } else if trimmed.len() == 0 {
        // A blank line: the doc line that ends at `at` comes later.
        lemma_scan_last(s, end, last, false);
        assert(end < at);
        lemma_find_from(s, nl, p);
        lemma_find_from_common_prefix(s, n, nl, p, at);
        assert(n.subrange(p, end) =~= s.subrange(p, end)) by {
            assert(n.subrange(p, end) =~= n.subrange(0, at).subrange(p, end));
            assert(s.subrange(p, end) =~= s.subrange(0, at).subrange(p, end));
        }
        lemma_line_end(n, p);
        lemma_scan_reaches_block(s, url, at, end, last, last2, saw2);
    } else {
    }
}

/// Inserting references into inline docs twice adds them once: whatever URL the second run
/// would link, the text that the first run produced is left alone.
pub proof fn law_inline_references_are_added_once(s: Seq<char>, url: Seq<char>, other_url: Seq<char>)
    requires
        inserted_references(s, url) is Some,
    ensures
        inserted_references(inserted_references(s, url).unwrap(), other_url) is None,
{
    let m_pat = macro_pattern();
    lemma_find_from(s, m_pat, 0);
    let m = find_from(s, m_pat, 0).unwrap();
    let body_start = m + m_pat.len();
    let scan = scan_doc_lines(s, body_start, None, false);
    lemma_scan_last(s, body_start, None, false);
    let at = scan.0.unwrap();
    let block = inline_references_block(url);
    let n = s.subrange(0, at) + block + s.subrange(at, s.len() as int);
    assert(inserted_references(s, url) == Some(n));
    assert(at <= s.len()) by {
        lemma_scan_end_bound(s, body_start, None, false);
    }
    assert(n.subrange(0, at) =~= s.subrange(0, at));
    lemma_find_from_common_prefix(s, n, m_pat, 0, at);
    lemma_scan_reaches_block(s, url, at, body_start, None, None, false);
}

/// The end of the last doc line that a scan reports lies within the text.
pub proof fn lemma_scan_end_bound(s: Seq<char>, p: int, last: Option<int>, saw: bool)
    requires
        last matches Some(x) ==> x <= s.len(),
    ensures
        scan_doc_lines(s, p, last, saw).0 matches Some(e) ==> e <= s.len(),
    decreases s.len() - p,
{
    if 0 <= p < s.len() {
        let end = line_end(s, p);
        let trimmed = trim_start(s.subrange(p, end));
        if end <= p || end > s.len() {
        } else if starts_with(trimmed, doc_marker()) {
            lemma_scan_end_bound(s, end, Some(end), saw || contains(trimmed, references_heading()));
        } else if trimmed.len() == 0 {
            lemma_scan_end_bound(s, end, last, saw);
        }
    }
}

/// The pass over a plugin rule file is idempotent: a re-run leaves the file it rewrote alone,
/// whatever names and plugin it is given.
pub proof fn law_plugin_rule_pass_is_idempotent(
    contents: Seq<char>,
    names: Option<(Seq<char>, Seq<char>)>,
    plugin: Plugin,
    other_names: Option<(Seq<char>, Seq<char>)>,
    other_plugin: Plugin,
)
    requires
        updated_plugin_rule_of(contents, names, plugin) is Some,
    ensures
        updated_plugin_rule_of(
            updated_plugin_rule_of(contents, names, plugin).unwrap(),
            other_names,
            other_plugin,
        ) is None,
{
    let n = names.unwrap();
    let updated = updated_plugin_rule_of(contents, names, plugin).unwrap();
    let url = crate::attribution::docs_url_of(plugin, n.0, n.1);
    if let Some(m) = other_names {
        law_inline_references_are_added_once(
            contents,
            url,
            crate::attribution::docs_url_of(other_plugin, m.0, m.1),
        );
    }
}

/// The pass over a shared documentation file is idempotent: a re-run leaves the file it
/// rewrote alone, whatever names and plugins it is given.
pub proof fn law_shared_rule_pass_is_idempotent(
    contents: Seq<char>,
    names: Option<(Seq<char>, Seq<char>)>,
    plugins: Seq<Plugin>,
    other_names: Option<(Seq<char>, Seq<char>)>,
    other_plugins: Seq<Plugin>,
)
    requires
        updated_shared_rule_of(contents, names, plugins) is Some,
    ensures
        updated_shared_rule_of(
            updated_shared_rule_of(contents, names, plugins).unwrap(),
            other_names,
            other_plugins,
        ) is None,
{
    let n = names.unwrap();
    if let Some(m) = other_names {
        law_shared_references_are_added_once(
            contents,
            crate::attribution::plugin_urls(plugins, n.0, n.1),
            crate::attribution::plugin_urls(other_plugins, m.0, m.1),
        );
    }
}

} // verus!
