//! Character-level text primitives: searching, prefix tests, line ends and
//! leading-whitespace trimming, each specified over `Seq<char>`.

use vstd::prelude::*;

verus! {

/// `pat` occurs in `s` starting at index `i`.
pub open spec fn occurs_at(s: Seq<char>, pat: Seq<char>, i: int) -> bool {
    &&& 0 <= i
    &&& i + pat.len() <= s.len()
    &&& s.subrange(i, i + pat.len()) == pat
}

/// Index of the first occurrence of `pat` in `s` at or after `from`.
pub open spec fn find_from(s: Seq<char>, pat: Seq<char>, from: int) -> Option<int>
    decreases s.len() + 1 - from,
{
    if from < 0 || from + pat.len() > s.len() {
        None
    } else if occurs_at(s, pat, from) {
        Some(from)
    } else {
        find_from(s, pat, from + 1)
    }
}

/// `s` begins with `pat`.
pub open spec fn starts_with(s: Seq<char>, pat: Seq<char>) -> bool {
    occurs_at(s, pat, 0)
}

/// `s` ends with `pat`.
pub open spec fn ends_with(s: Seq<char>, pat: Seq<char>) -> bool {
    occurs_at(s, pat, s.len() - pat.len())
}

/// `pat` occurs somewhere in `s`.
pub open spec fn contains(s: Seq<char>, pat: Seq<char>) -> bool {
    find_from(s, pat, 0) is Some
}

/// The index just past the end of the line that starts at `from`: one past the next
/// `'\n'`, or the end of `s` when no newline follows.
pub open spec fn line_end(s: Seq<char>, from: int) -> int {
    match find_from(s, seq!['\n'], from) {
        Some(p) => p + 1,
        None => s.len() as int,
    }
}

/// The characters of an optional string.
pub open spec fn opt_chars(o: Option<String>) -> Option<Seq<char>> {
    match o {
        Some(s) => Some(s@),
        None => None,
    }
}

/// Whether `c` has the Unicode `White_Space` property: the space, U+0009 through U+000D,
/// and outside ASCII U+0085, U+00A0, U+1680, U+2000 through U+200A, U+2028, U+2029,
/// U+202F, U+205F and U+3000.
pub open spec fn white_space(c: char) -> bool {
    ||| c == ' '
    ||| '\t' <= c && c <= '\r'
    ||| c == '\u{85}'
    ||| c == '\u{a0}'
    ||| c == '\u{1680}'
    ||| '\u{2000}' <= c && c <= '\u{200a}'
    ||| c == '\u{2028}'
    ||| c == '\u{2029}'
    ||| c == '\u{202f}'
    ||| c == '\u{205f}'
    ||| c == '\u{3000}'
}

/// `s` without its leading white space.
pub open spec fn trim_start(s: Seq<char>) -> Seq<char>
    decreases s.len(),
{
    if s.len() > 0 && white_space(s[0]) {
        trim_start(s.drop_first())
    } else {
        s
    }
}

/// `find_from` returns the least index at or after `from` where `pat` occurs.
pub proof fn lemma_find_from(s: Seq<char>, pat: Seq<char>, from: int)
    requires
        0 <= from,
    ensures
        find_from(s, pat, from) matches Some(i) ==> {
            &&& from <= i
            &&& occurs_at(s, pat, i)
            &&& forall|j: int| from <= j < i ==> !occurs_at(s, pat, j)
        },
        find_from(s, pat, from) is None ==> forall|j: int| from <= j ==> !occurs_at(s, pat, j),
    decreases s.len() + 1 - from,
{
    if from + pat.len() > s.len() {
    } else if occurs_at(s, pat, from) {
    } else {
        lemma_find_from(s, pat, from + 1);
    }
}

/// A witness pins down the result of `find_from`.
pub proof fn lemma_find_from_exact(s: Seq<char>, pat: Seq<char>, from: int, i: int)
    requires
        0 <= from <= i,
        occurs_at(s, pat, i),
        forall|j: int| from <= j < i ==> !occurs_at(s, pat, j),
    ensures
        find_from(s, pat, from) == Some(i),
{
    lemma_find_from(s, pat, from);
    match find_from(s, pat, from) {
        Some(k) => {
            if k < i {
                assert(!occurs_at(s, pat, k));
            } else if k > i {
                assert(!occurs_at(s, pat, i));
            }
        },
        None => {
            assert(!occurs_at(s, pat, i));
        },
    }
}

/// `true` when `pat` occurs in `s` at `i`.
pub fn occurs_at_exec(s: &[char], pat: &[char], i: usize) -> (r: bool)
    ensures
        r == occurs_at(s@, pat@, i as int),
{
    if pat.len() > s.len() || i > s.len() - pat.len() {
        return false;
    }
    let mut j: usize = 0;
    while j < pat.len()
        invariant
            i + pat@.len() <= s@.len(),
            j <= pat@.len(),
            pat@.len() == pat.len(),
            s@.len() == s.len(),
            forall|k: int| 0 <= k < j ==> s@[i + k] == pat@[k],
        decreases pat@.len() - j,
    {
        if s[i + j] != pat[j] {
            assert(s@.subrange(i as int, i + pat@.len())[j as int] != pat@[j as int]);
            return false;
        }
        j = j + 1;
    }
    assert(s@.subrange(i as int, i + pat@.len()) =~= pat@);
    true
}

/// The first occurrence of `pat` in `s` at or after `from`.
pub fn find_chars(s: &[char], pat: &[char], from: usize) -> (r: Option<usize>)
    ensures
        match r {
            Some(i) => find_from(s@, pat@, from as int) == Some(i as int),
            None => find_from(s@, pat@, from as int) is None,
        },
{
    if pat.len() > s.len() {
        return None;
    }
    let last: usize = s.len() - pat.len();
    let mut i: usize = from;
    while i <= last
        invariant
            last == s@.len() - pat@.len(),
            from <= i,
            find_from(s@, pat@, from as int) == find_from(s@, pat@, i as int),
        decreases last + 1 - i,
    {
        if occurs_at_exec(s, pat, i) {
            return Some(i);
        }
        if i == last {
            assert(find_from(s@, pat@, i + 1) is None);
            return None;
        }
        i = i + 1;
    }
    None
}

/// Whether `s` begins with `pat`.
pub fn starts_with_exec(s: &[char], pat: &[char]) -> (r: bool)
    ensures
        r == starts_with(s@, pat@),
{
    occurs_at_exec(s, pat, 0)
}

/// Whether `pat` occurs in `s`.
pub fn contains_exec(s: &[char], pat: &[char]) -> (r: bool)
    ensures
        r == contains(s@, pat@),
{
    find_chars(s, pat, 0).is_some()
}

/// The end of the line of `s` that starts at `from`.
pub fn line_end_exec(s: &[char], from: usize) -> (r: usize)
    requires
        from < s@.len(),
    ensures
        r as int == line_end(s@, from as int),
        from < r <= s@.len(),
{
    let newline = ['\n'];
    assert(newline@ == seq!['\n']);
    proof {
        lemma_find_from(s@, seq!['\n'], from as int);
    }
    match find_chars(s, newline.as_slice(), from) {
        Some(p) => {
            assert(occurs_at(s@, seq!['\n'], p as int));
            assert(seq!['\n'].len() == 1);
            assert(p as int + 1 <= s@.len());
            assert(s@.len() == s.len());
            p + 1
        },
        None => s.len(),
    }
}

/// Whether `c` is white space, as `char::is_whitespace` decides it.
pub(crate) fn is_whitespace(c: char) -> (r: bool)
    ensures
        r == white_space(c),
{
    c == ' ' || ('\t' <= c && c <= '\r') || c == '\u{85}' || c == '\u{a0}' || c == '\u{1680}'
        || ('\u{2000}' <= c && c <= '\u{200a}') || c == '\u{2028}' || c == '\u{2029}'
        || c == '\u{202f}' || c == '\u{205f}' || c == '\u{3000}'
}

/// The index of the first character of `s[lo..hi]` that is not white space (or `hi`).
pub fn skip_whitespace(s: &[char], lo: usize, hi: usize) -> (k: usize)
    requires
        lo <= hi <= s@.len(),
    ensures
        lo <= k <= hi,
        trim_start(s@.subrange(lo as int, hi as int)) == s@.subrange(k as int, hi as int),
{
    let mut k: usize = lo;
    while k < hi && is_whitespace(s[k])
        invariant
            lo <= k <= hi <= s@.len(),
            trim_start(s@.subrange(lo as int, hi as int)) == trim_start(
                s@.subrange(k as int, hi as int),
            ),
        decreases hi - k,
    {
        assert(s@.subrange(k as int, hi as int).drop_first() =~= s@.subrange(k + 1, hi as int));
        k = k + 1;
    }
    k
}

/// `str::chars`, collected: the characters of `s` in order.
#[verifier::external_body]
pub(crate) fn chars_of(s: &str) -> (v: Vec<char>)
    ensures
        v@ == s@,
{
    s.chars().collect()
}

/// `String::from_iter` over characters: the string made of `v` in order.
#[verifier::external_body]
pub(crate) fn string_of(v: &[char]) -> (s: String)
    ensures
        s@ == v@,
{
    v.iter().collect()
}

/// Whether `a` and `b` hold the same characters.
pub fn chars_eq(a: &[char], b: &[char]) -> (r: bool)
    ensures
        r == (a@ == b@),
{
    if a.len() != b.len() {
        return false;
    }
    let mut i: usize = 0;
    while i < a.len()
        invariant
            a@.len() == b@.len(),
            i <= a@.len(),
            forall|k: int| 0 <= k < i ==> a@[k] == b@[k],
        decreases a@.len() - i,
    {
        if a[i] != b[i] {
            return false;
        }
        i = i + 1;
    }
    assert(a@ =~= b@);
    true
}

/// Whether the strings `a` and `b` are equal.
pub fn str_eq(a: &str, b: &str) -> (r: bool)
    ensures
        r == (a@ == b@),
{
    let a_chars = chars_of(a);
    let b_chars = chars_of(b);
    chars_eq(a_chars.as_slice(), b_chars.as_slice())
}

/// Appends `src[lo..hi]` to `out`.
pub fn push_range(out: &mut Vec<char>, src: &[char], lo: usize, hi: usize)
    requires
        lo <= hi <= src@.len(),
    ensures
        final(out)@ == old(out)@ + src@.subrange(lo as int, hi as int),
{
    let mut i: usize = lo;
    while i < hi
        invariant
            lo <= i <= hi <= src@.len(),
            out@ == old(out)@ + src@.subrange(lo as int, i as int),
        decreases hi - i,
    {
        out.push(src[i]);
        assert(out@ =~= old(out)@ + src@.subrange(lo as int, i + 1));
        i = i + 1;
    }
}

/// Appends all of `src` to `out`.
pub fn push_all(out: &mut Vec<char>, src: &[char])
    ensures
        final(out)@ == old(out)@ + src@,
{
    push_range(out, src, 0, src.len());
    assert(src@.subrange(0, src@.len() as int) =~= src@);
}

/// Appends the characters of `s` to `out`.
pub fn push_str(out: &mut Vec<char>, s: &str)
    ensures
        final(out)@ == old(out)@ + s@,
{
    let chars = chars_of(s);
    push_all(out, chars.as_slice());
}

/// Whether `s` ends with `pat`.
pub fn ends_with_exec(s: &[char], pat: &[char]) -> (r: bool)
    ensures
        r == ends_with(s@, pat@),
{
    if pat.len() > s.len() {
        return false;
    }
    occurs_at_exec(s, pat, s.len() - pat.len())
}

/// Two texts that agree on their first `bound` characters agree on the occurrences of
/// `pat` that end within them.
pub proof fn lemma_occurs_at_common_prefix(s: Seq<char>, n: Seq<char>, pat: Seq<char>, j: int, bound: int)
    requires
        0 <= j,
        j + pat.len() <= bound,
        bound <= s.len(),
        bound <= n.len(),
        n.subrange(0, bound) == s.subrange(0, bound),
    ensures
        occurs_at(n, pat, j) == occurs_at(s, pat, j),
{
    assert(n.subrange(j, j + pat.len()) =~= n.subrange(0, bound).subrange(j, j + pat.len()));
    assert(s.subrange(j, j + pat.len()) =~= s.subrange(0, bound).subrange(j, j + pat.len()));
}

/// A text whose first occurrence of `pat` at or after `from` ends within a prefix that a
/// second text shares has its first occurrence there too.
pub proof fn lemma_find_from_common_prefix(s: Seq<char>, n: Seq<char>, pat: Seq<char>, from: int, bound: int)
    requires
        0 <= from,
        bound <= s.len(),
        bound <= n.len(),
        n.subrange(0, bound) == s.subrange(0, bound),
        find_from(s, pat, from) matches Some(i) && i + pat.len() <= bound,
    ensures
        find_from(n, pat, from) == find_from(s, pat, from),
{
    lemma_find_from(s, pat, from);
    let i = find_from(s, pat, from).unwrap();
    lemma_occurs_at_common_prefix(s, n, pat, i, bound);
    assert forall|j: int| from <= j < i implies !occurs_at(n, pat, j) by {
        lemma_occurs_at_common_prefix(s, n, pat, j, bound);
    }
    lemma_find_from_exact(n, pat, from, i);
}

/// `line_end` lies past `from` and within the text; it follows the next newline when
/// there is one.
pub proof fn lemma_line_end(s: Seq<char>, from: int)
    requires
        0 <= from < s.len(),
    ensures
        from < line_end(s, from) <= s.len(),
        find_from(s, seq!['\n'], from) matches Some(q) ==> line_end(s, from) == q + 1 && s[q]
            == '\n',
        find_from(s, seq!['\n'], from) is None ==> line_end(s, from) == s.len(),
{
    lemma_find_from(s, seq!['\n'], from);
    if let Some(q) = find_from(s, seq!['\n'], from) {
        assert(s.subrange(q, q + 1)[0] == s[q]);
    }
}

/// Leading characters that are all white space, followed by one that is not (or by the
/// end), are what `trim_start` removes.
pub proof fn lemma_trim_start_skip(s: Seq<char>, k: int)
    requires
        0 <= k <= s.len(),
        forall|i: int| 0 <= i < k ==> white_space(#[trigger] s[i]),
        k < s.len() ==> !white_space(s[k]),
    ensures
        trim_start(s) == s.subrange(k, s.len() as int),
    decreases k,
{
    if k == 0 {
        assert(s.subrange(0, s.len() as int) =~= s);
    } else {
        let rest = s.drop_first();
        assert forall|i: int| 0 <= i < k - 1 implies white_space(#[trigger] rest[i]) by {
            assert(rest[i] == s[i + 1]);
        }
        lemma_trim_start_skip(rest, k - 1);
        assert(rest.subrange(k - 1, rest.len() as int) =~= s.subrange(k, s.len() as int));
    }
}

/// Trimming a text whose trimmed start is not empty is unaffected by what follows it.
pub proof fn lemma_trim_start_append(a: Seq<char>, b: Seq<char>)
    requires
        trim_start(a).len() > 0,
    ensures
        trim_start(a + b) == trim_start(a) + b,
    decreases a.len(),
{
    if a.len() > 0 && white_space(a[0]) {
        assert((a + b).drop_first() =~= a.drop_first() + b);
        lemma_trim_start_append(a.drop_first(), b);
    } else {
        assert(a.len() > 0);
        assert((a + b)[0] == a[0]);
    }
}

/// A text that begins with `pat` still does after something is appended to it.
pub proof fn lemma_starts_with_append(a: Seq<char>, b: Seq<char>, pat: Seq<char>)
    requires
        starts_with(a, pat),
    ensures
        starts_with(a + b, pat),
{
    assert((a + b).subrange(0, pat.len() as int) =~= a.subrange(0, pat.len() as int));
}

/// A text in which `pat` occurs at `i` contains `pat`.
pub proof fn lemma_contains_witness(s: Seq<char>, pat: Seq<char>, i: int)
    requires
        occurs_at(s, pat, i),
    ensures
        contains(s, pat),
{
    lemma_find_from(s, pat, 0);
}

} // verus!
