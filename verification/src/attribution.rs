//! Adding an upstream-docs `### References` section to the documentation of each lint rule,
//! attributing the rule to its upstream ESLint plugin.
//!
//! Two cases are handled:
//!
//! 1. Rules with inline `///` doc comments inside `declare_oxc_lint!(...)`: the references
//!    section is inserted immediately before the rule's identifier line.
//! 2. Rules that take their docs from a shared `pub const DOCUMENTATION` constant: the
//!    references section is appended to the constant, listing the URL for each sharing
//!    plugin.
//!
//! Both rewrites are idempotent: a rewritten text already holds a `### References` section,
//! and a text that holds one is left alone.

use convert_case::{Case, Casing};
use std::path::Path;
use vstd::prelude::*;
use vstd::slice::slice_subrange;

use crate::text::{
    chars_of, contains, contains_exec, ends_with, ends_with_exec, find_chars, find_from,
    lemma_find_from, line_end, line_end_exec, opt_chars, push_all, push_range, push_str,
    skip_whitespace, starts_with, starts_with_exec, str_eq, string_of, trim_start,
};

verus! {

/// The ESLint plugin that a lint rule comes from.
#[derive(Clone, Copy, Debug, PartialEq, Eq, Structural)]
pub enum Plugin {
    ESLint,
    Typescript,
    Jest,
    Unicorn,
    Import,
    React,
    ReactPerf,
    JSXA11y,
    NextJS,
    JSDoc,
    Node,
    Promise,
    Vitest,
    Vue,
}

/// The plugin whose rules live in the directory named `name`.
pub open spec fn plugin_of_dir(name: Seq<char>) -> Option<Plugin> {
    if name == "eslint"@ {
        Some(Plugin::ESLint)
    } else if name == "typescript"@ {
        Some(Plugin::Typescript)
    } else if name == "jest"@ {
        Some(Plugin::Jest)
    } else if name == "unicorn"@ {
        Some(Plugin::Unicorn)
    } else if name == "import"@ {
        Some(Plugin::Import)
    } else if name == "react"@ {
        Some(Plugin::React)
    } else if name == "react_perf"@ {
        Some(Plugin::ReactPerf)
    } else if name == "jsx_a11y"@ {
        Some(Plugin::JSXA11y)
    } else if name == "nextjs"@ {
        Some(Plugin::NextJS)
    } else if name == "jsdoc"@ {
        Some(Plugin::JSDoc)
    } else if name == "node"@ {
        Some(Plugin::Node)
    } else if name == "promise"@ {
        Some(Plugin::Promise)
    } else if name == "vitest"@ {
        Some(Plugin::Vitest)
    } else if name == "vue"@ {
        Some(Plugin::Vue)
    } else {
        None
    }
}

/// The URL of the upstream documentation of a rule of `plugin`, given the rule's name in
/// kebab case and in camel case.
pub open spec fn docs_url_of(plugin: Plugin, kebab: Seq<char>, camel: Seq<char>) -> Seq<char> {
    match plugin {
        Plugin::ESLint => "https://eslint.org/docs/latest/rules/"@ + kebab,
        Plugin::Typescript => "https://typescript-eslint.io/rules/"@ + kebab + "/"@,
        Plugin::Jest => "https://github.com/jest-community/eslint-plugin-jest/blob/main/docs/rules/"@
            + kebab + ".md"@,
        Plugin::Unicorn => "https://github.com/sindresorhus/eslint-plugin-unicorn/blob/main/docs/rules/"@
            + kebab + ".md"@,
        Plugin::Import => "https://github.com/import-js/eslint-plugin-import/blob/main/docs/rules/"@
            + kebab + ".md"@,
        Plugin::React => "https://github.com/jsx-eslint/eslint-plugin-react/blob/master/docs/rules/"@
            + kebab + ".md"@,
        Plugin::ReactPerf => "https://github.com/cvazac/eslint-plugin-react-perf/blob/master/docs/rules/"@
            + kebab + ".md"@,
        Plugin::JSXA11y => "https://github.com/jsx-eslint/eslint-plugin-jsx-a11y/blob/main/docs/rules/"@
            + kebab + ".md"@,
        Plugin::NextJS => "https://nextjs.org/docs/messages/"@ + kebab,
        Plugin::JSDoc => "https://github.com/gajus/eslint-plugin-jsdoc/blob/main/docs/rules/"@ + camel
            + ".md"@,
        Plugin::Node => "https://github.com/eslint-community/eslint-plugin-n/blob/master/docs/rules/"@
            + kebab + ".md"@,
        Plugin::Promise => "https://github.com/eslint-community/eslint-plugin-promise/blob/main/docs/rules/"@
            + kebab + ".md"@,
        Plugin::Vitest => "https://github.com/vitest-dev/eslint-plugin-vitest/blob/main/docs/rules/"@
            + kebab + ".md"@,
        Plugin::Vue => "https://eslint.vuejs.org/rules/"@ + kebab + ".html"@,
    }
}

/// Every plugin but JSDoc links a rule by its kebab-case name: the URL does not depend on
/// the camel-case name. JSDoc links by the camel-case name, and its URL does not depend on
/// the kebab-case one.
pub proof fn law_docs_url_uses_one_name(plugin: Plugin, kebab: Seq<char>, camel: Seq<char>, other: Seq<char>)
    ensures
        plugin != Plugin::JSDoc ==> docs_url_of(plugin, kebab, camel) == docs_url_of(plugin, kebab, other),
        plugin == Plugin::JSDoc ==> docs_url_of(plugin, kebab, camel) == docs_url_of(plugin, other, camel),
{
}

/// The upstream documentation of a rule is a page named after the rule, under the
/// plugin's rule documentation: for the plugins whose documentation lives in Markdown files
/// of a repository, the URL ends with the rule's name (kebab case, camel case for JSDoc)
/// followed by `.md`; for Unicorn it is exactly its `docs/rules/` directory, the kebab-case
/// name and `.md`.
pub proof fn law_docs_url_names_the_rule_page(plugin: Plugin, kebab: Seq<char>, camel: Seq<char>)
    ensures
        docs_url_of(Plugin::Unicorn, kebab, camel)
            == "https://github.com/sindresorhus/eslint-plugin-unicorn/blob/main/docs/rules/"@
            + kebab + ".md"@,
        ({
            let url = docs_url_of(plugin, kebab, camel);
            let name = if plugin == Plugin::JSDoc { camel } else { kebab };
            let page = name + ".md"@;
            plugin != Plugin::ESLint && plugin != Plugin::Typescript && plugin != Plugin::NextJS
                && plugin != Plugin::Vue ==> url.len() >= page.len() && url.subrange(
                url.len() - page.len(),
                url.len() as int,
            ) == page
        }),
{
    let url = docs_url_of(plugin, kebab, camel);
    let name = if plugin == Plugin::JSDoc { camel } else { kebab };
    let page = name + ".md"@;
    if plugin != Plugin::ESLint && plugin != Plugin::Typescript && plugin != Plugin::NextJS
        && plugin != Plugin::Vue {
        assert(url.subrange(url.len() - page.len(), url.len() as int) =~= page);
    }
}

/// `prefix + name + suffix`.
fn join3(prefix: &str, name: &str, suffix: &str) -> (r: String)
    ensures
        r@ == prefix@ + name@ + suffix@,
{
    let mut out: Vec<char> = Vec::new();
    push_str(&mut out, prefix);
    push_str(&mut out, name);
    push_str(&mut out, suffix);
    string_of(out.as_slice())
}

/// `prefix + name`.
fn join2(prefix: &str, name: &str) -> (r: String)
    ensures
        r@ == prefix@ + name@,
{
    let mut out: Vec<char> = Vec::new();
    push_str(&mut out, prefix);
    push_str(&mut out, name);
    string_of(out.as_slice())
}

impl Plugin {
    /// The plugin whose rules live in the directory named `name`, if any.
    pub fn from_dir(name: &str) -> (r: Option<Self>)
        ensures
            r == plugin_of_dir(name@),
    {
        if str_eq(name, "eslint") {
            Some(Plugin::ESLint)
        } else if str_eq(name, "typescript") {
            Some(Plugin::Typescript)
        } else if str_eq(name, "jest") {
            Some(Plugin::Jest)
        } else if str_eq(name, "unicorn") {
            Some(Plugin::Unicorn)
        } else if str_eq(name, "import") {
            Some(Plugin::Import)
        } else if str_eq(name, "react") {
            Some(Plugin::React)
        } else if str_eq(name, "react_perf") {
            Some(Plugin::ReactPerf)
        } else if str_eq(name, "jsx_a11y") {
            Some(Plugin::JSXA11y)
        } else if str_eq(name, "nextjs") {
            Some(Plugin::NextJS)
        } else if str_eq(name, "jsdoc") {
            Some(Plugin::JSDoc)
        } else if str_eq(name, "node") {
            Some(Plugin::Node)
        } else if str_eq(name, "promise") {
            Some(Plugin::Promise)
        } else if str_eq(name, "vitest") {
            Some(Plugin::Vitest)
        } else if str_eq(name, "vue") {
            Some(Plugin::Vue)
        } else {
            None
        }
    }

    /// The URL of the upstream documentation of the rule named `kebab` (in kebab case) and
    /// `camel` (in camel case).
    pub fn docs_url(self, kebab: &str, camel: &str) -> (r: String)
        ensures
            r@ == docs_url_of(self, kebab@, camel@),
    {
        match self {
            Plugin::ESLint => join2("https://eslint.org/docs/latest/rules/", kebab),
            Plugin::Typescript => join3("https://typescript-eslint.io/rules/", kebab, "/"),
            Plugin::Jest => join3(
                "https://github.com/jest-community/eslint-plugin-jest/blob/main/docs/rules/",
                kebab,
                ".md",
            ),
            Plugin::Unicorn => join3(
                "https://github.com/sindresorhus/eslint-plugin-unicorn/blob/main/docs/rules/",
                kebab,
                ".md",
            ),
            Plugin::Import => join3(
                "https://github.com/import-js/eslint-plugin-import/blob/main/docs/rules/",
                kebab,
                ".md",
            ),
            Plugin::React => join3(
                "https://github.com/jsx-eslint/eslint-plugin-react/blob/master/docs/rules/",
                kebab,
                ".md",
            ),
            Plugin::ReactPerf => join3(
                "https://github.com/cvazac/eslint-plugin-react-perf/blob/master/docs/rules/",
                kebab,
                ".md",
            ),
            Plugin::JSXA11y => join3(
                "https://github.com/jsx-eslint/eslint-plugin-jsx-a11y/blob/main/docs/rules/",
                kebab,
                ".md",
            ),
            Plugin::NextJS => join2("https://nextjs.org/docs/messages/", kebab),
            Plugin::JSDoc => join3(
                "https://github.com/gajus/eslint-plugin-jsdoc/blob/main/docs/rules/",
                camel,
                ".md",
            ),
            Plugin::Node => join3(
                "https://github.com/eslint-community/eslint-plugin-n/blob/master/docs/rules/",
                kebab,
                ".md",
            ),
            Plugin::Promise => join3(
                "https://github.com/eslint-community/eslint-plugin-promise/blob/main/docs/rules/",
                kebab,
                ".md",
            ),
            Plugin::Vitest => join3(
                "https://github.com/vitest-dev/eslint-plugin-vitest/blob/main/docs/rules/",
                kebab,
                ".md",
            ),
            Plugin::Vue => join3("https://eslint.vuejs.org/rules/", kebab, ".html"),
        }
    }
}

/// The plugins that share the documentation constants of the group directory `group`.
pub open spec fn group_plugins(group: Seq<char>) -> Option<Seq<Plugin>> {
    if group == "jest_vitest"@ {
        Some(seq![Plugin::Jest, Plugin::Vitest])
    } else if group == "eslint_unicorn"@ {
        Some(seq![Plugin::ESLint, Plugin::Unicorn])
    } else {
        None
    }
}

/// Plugins that share docs via a constant under the shared group directory `group`.
pub fn shared_group_plugins(group: &str) -> (r: Option<&'static [Plugin]>)
    ensures
        match r {
            Some(plugins) => group_plugins(group@) == Some(plugins@),
            None => group_plugins(group@) is None,
        },
{
    if str_eq(group, "jest_vitest") {
        Some(&[Plugin::Jest, Plugin::Vitest])
    } else if str_eq(group, "eslint_unicorn") {
        Some(&[Plugin::ESLint, Plugin::Unicorn])
    } else {
        None
    }
}

/// A naming convention of identifiers.
#[derive(Clone, Copy, Debug, PartialEq, Eq, Structural)]
pub enum CaseStyle {
    /// `kebab-case`
    Kebab,
    /// `camelCase`
    Camel,
}

/// `s` converted to the case `style` by `convert_case`.
pub uninterp spec fn converted_case(s: Seq<char>, style: CaseStyle) -> Seq<char>;

/// `Casing::to_case` of `convert_case`, with `Case::Kebab` or `Case::Camel`: the words of
/// `s`, split at the crate's default boundaries, joined in that case.
#[verifier::external_body]
fn to_case(s: &str, style: CaseStyle) -> (r: String)
    ensures
        r@ == converted_case(s@, style),
{
    match style {
        CaseStyle::Kebab => s.to_case(Case::Kebab),
        CaseStyle::Camel => s.to_case(Case::Camel),
    }
}

/// The file stem of the path `p`, as `Path::file_stem` finds it.
pub uninterp spec fn path_file_stem(p: Seq<char>) -> Option<Seq<char>>;

/// The parent of the path `p`, as `Path::parent` finds it.
pub uninterp spec fn path_parent(p: Seq<char>) -> Option<Seq<char>>;

/// The final component of the path `p`, as `Path::file_name` finds it.
pub uninterp spec fn path_file_name(p: Seq<char>) -> Option<Seq<char>>;

/// `Path::file_stem` of `path`: the file name without its final extension. A path made
/// from a `str` has only UTF-8 components, so the stem converts to a `str`.
#[verifier::external_body]
fn file_stem(path: &str) -> (r: Option<String>)
    ensures
        opt_chars(r) == path_file_stem(path@),
{
    Path::new(path).file_stem().and_then(|stem| stem.to_str()).map(|stem| stem.to_owned())
}

/// `Path::parent` of `path`: the path without its final component.
#[verifier::external_body]
fn parent(path: &str) -> (r: Option<String>)
    ensures
        opt_chars(r) == path_parent(path@),
{
    Path::new(path).parent().and_then(|dir| dir.to_str()).map(|dir| dir.to_owned())
}

/// `Path::file_name` of `path`: its final component, unless that is `..`.
#[verifier::external_body]
fn file_name(path: &str) -> (r: Option<String>)
    ensures
        opt_chars(r) == path_file_name(path@),
{
    Path::new(path).file_name().and_then(|name| name.to_str()).map(|name| name.to_owned())
}

/// The rule's name, given the file stem of its path and the final component of the
/// path's parent: the stem, or the parent directory's name when the stem is `mod`.
pub open spec fn rule_name_of(stem: Option<Seq<char>>, parent_name: Option<Seq<char>>) -> Option<
    Seq<char>,
> {
    match stem {
        None => None,
        Some(stem) => if stem == "mod"@ {
            parent_name
        } else {
            Some(stem)
        },
    }
}

/// The final component of the parent of `p`.
pub open spec fn parent_file_name(p: Seq<char>) -> Option<Seq<char>> {
    match path_parent(p) {
        Some(dir) => path_file_name(dir),
        None => None,
    }
}

/// The rule's name from the file stem of its path and, for a `mod` stem, the name of the
/// directory that holds it.
pub fn rule_name_from_parts(stem: Option<String>, parent_name: Option<String>) -> (r: Option<String>)
    ensures
        opt_chars(r) == rule_name_of(opt_chars(stem), opt_chars(parent_name)),
{
    match stem {
        None => None,
        Some(stem) => if str_eq(stem.as_str(), "mod") {
            parent_name
        } else {
            Some(stem)
        },
    }
}

/// Derive the rule's kebab-case name from its file path.
///
/// - `.../<rule>.rs`        → uses the file stem
/// - `.../<rule>/mod.rs`    → uses the parent directory name
pub fn rule_name_from_path(path: &str) -> (r: Option<String>)
    ensures
        opt_chars(r) == rule_name_of(path_file_stem(path@), parent_file_name(path@)),
{
    let stem = file_stem(path);
    let parent_name = match parent(path) {
        Some(dir) => file_name(dir.as_str()),
        None => None,
    };
    rule_name_from_parts(stem, parent_name)
}


/// The text that opens a rule declaration.
pub open spec fn macro_pattern() -> Seq<char> {
    "declare_oxc_lint!("@
}

/// The opening of a doc comment line.
pub open spec fn doc_marker() -> Seq<char> {
    "///"@
}

/// The heading of the references section.
pub open spec fn references_heading() -> Seq<char> {
    "### References"@
}

/// An optional index, as an integer.
pub open spec fn opt_int(o: Option<usize>) -> Option<int> {
    match o {
        Some(i) => Some(i as int),
        None => None,
    }
}

/// Scans the lines of `s` from `cursor` on: doc comment lines (`///` after leading white
/// space) and blank lines are passed over, and the scan stops at the first other line or
/// at the end of `s`. The result is the end of the last doc line seen (or `last` if there
/// is none) and whether any doc line seen mentions `### References` (or `saw`).
pub open spec fn scan_doc_lines(s: Seq<char>, cursor: int, last: Option<int>, saw: bool) -> (
    Option<int>,
    bool,
)
    decreases s.len() - cursor,
{
    if cursor < 0 || cursor >= s.len() {
        (last, saw)
    } else {
        let end = line_end(s, cursor);
        let trimmed = trim_start(s.subrange(cursor, end));
        if end <= cursor || end > s.len() {
            (last, saw)
        } else if starts_with(trimmed, doc_marker()) {
            scan_doc_lines(s, end, Some(end), saw || contains(trimmed, references_heading()))
        } else if trimmed.len() == 0 {
            scan_doc_lines(s, end, last, saw)
        } else {
            (last, saw)
        }
    }
}

/// The references section inserted among the inline doc comments.
pub open spec fn inline_references_block(url: Seq<char>) -> Seq<char> {
    "    ///\n"@ + "    /// ### References\n"@ + "    ///\n    /// - <"@ + url + ">\n"@
}

/// The text with a references section linking `url` inserted after the last doc comment
/// line that follows the first `declare_oxc_lint!(`; `None` when there is no such macro,
/// no doc line after it, or its doc lines already mention `### References`.
pub open spec fn inserted_references(s: Seq<char>, url: Seq<char>) -> Option<Seq<char>> {
    match find_from(s, macro_pattern(), 0) {
        None => None,
        Some(m) => {
            let scan = scan_doc_lines(s, m + macro_pattern().len(), None, false);
            if scan.1 {
                None
            } else {
                match scan.0 {
                    None => None,
                    Some(at) => Some(
                        s.subrange(0, at) + inline_references_block(url) + s.subrange(
                            at,
                            s.len() as int,
                        ),
                    ),
                }
            }
        }
    }
}

/// `inserted_references` on characters.
fn insert_references_chars(s: &[char], url: &[char]) -> (r: Option<Vec<char>>)
    ensures
        match r {
            Some(v) => inserted_references(s@, url@) == Some(v@),
            None => inserted_references(s@, url@) is None,
        },
{
    let macro_pat = chars_of("declare_oxc_lint!(");
    let macro_start = match find_chars(s, macro_pat.as_slice(), 0) {
        Some(m) => m,
        None => return None,
    };
    proof {
        lemma_find_from(s@, macro_pat@, 0);
        assert(macro_start + macro_pat@.len() <= s@.len());
        assert(s@.len() == s.len());
    }
    let body_start: usize = macro_start + macro_pat.len();
    let doc = chars_of("///");
    let refs = chars_of("### References");
    let mut cursor: usize = body_start;
    let mut last: Option<usize> = None;
    let mut saw = false;
    let mut stop = false;
    while !stop && cursor < s.len()
        invariant
            body_start <= cursor <= s@.len(),
            doc@ == doc_marker(),
            refs@ == references_heading(),
            body_start == macro_start + macro_pattern().len(),
            last matches Some(at) ==> at <= s@.len(),
            stop ==> scan_doc_lines(s@, cursor as int, opt_int(last), saw) == (opt_int(last), saw),
            scan_doc_lines(s@, body_start as int, None, false) == scan_doc_lines(
                s@,
                cursor as int,
                opt_int(last),
                saw,
            ),
        decreases (s@.len() - cursor) * 2 + if stop {
            0int
        } else {
            1int
        },
    {
        let end: usize = line_end_exec(s, cursor);
        let start: usize = skip_whitespace(s, cursor, end);
        let trimmed = slice_subrange(s, start, end);
        if starts_with_exec(trimmed, doc.as_slice()) {
            if contains_exec(trimmed, refs.as_slice()) {
                saw = true;
            }
            last = Some(end);
            cursor = end;
        } else if start == end {
            assert(trimmed@.len() == 0);
            cursor = end;
        } else {
            stop = true;
        }
    }
    if saw {
        return None;
    }
    let at = match last {
        Some(at) => at,
        None => return None,
    };
    let mut out: Vec<char> = Vec::new();
    push_range(&mut out, s, 0, at);
    push_str(&mut out, "    ///\n");
    push_str(&mut out, "    /// ### References\n");
    push_str(&mut out, "    ///\n    /// - <");
    push_all(&mut out, url);
    push_str(&mut out, ">\n");
    push_range(&mut out, s, at, s.len());
    assert(out@ =~= s@.subrange(0, at as int) + inline_references_block(url@) + s@.subrange(
        at as int,
        s@.len() as int,
    ));
    Some(out)
}

/// Insert a `### References` block inside the `declare_oxc_lint!(...)` doc comments,
/// immediately after the last `///` line and before the rule's identifier. Returns `None`
/// if the file has no inline-doc macro block (e.g. uses `docs = CONSTANT`) or already
/// contains a references section.
pub fn insert_references_in_inline_docs(contents: &str, url: &str) -> (r: Option<String>)
    ensures
        opt_chars(r) == inserted_references(contents@, url@),
{
    let chars = chars_of(contents);
    let url_chars = chars_of(url);
    match insert_references_chars(chars.as_slice(), url_chars.as_slice()) {
        Some(v) => Some(string_of(v.as_slice())),
        None => None,
    }
}

/// The text that opens the shared documentation constant.
pub open spec fn const_pattern() -> Seq<char> {
    "pub const DOCUMENTATION: &str = r\""@
}

/// The text that closes the shared documentation constant.
pub open spec fn const_end_pattern() -> Seq<char> {
    "\";"@
}

/// The characters of each string.
pub open spec fn strings_chars(strings: Seq<String>) -> Seq<Seq<char>> {
    strings.map_values(|s: String| s@)
}

/// One line `- <url>` for each of the first `n` URLs.
pub open spec fn url_lines(urls: Seq<Seq<char>>, n: int) -> Seq<char>
    decreases n,
{
    if n <= 0 {
        seq![]
    } else {
        url_lines(urls, n - 1) + "- <"@ + urls[n - 1] + ">\n"@
    }
}

/// The references section appended to a shared documentation body: a newline when the
/// body does not end with one, another one to leave a blank line when the body is not
/// empty and does not already end with a blank line, the heading, and one line per URL.
pub open spec fn shared_references_block(body: Seq<char>, urls: Seq<Seq<char>>) -> Seq<char> {
    (if !ends_with(body, "\n"@) {
        "\n"@
    } else {
        seq![]
    }) + (if !ends_with(body, "\n\n"@) && body.len() > 0 {
        "\n"@
    } else {
        seq![]
    }) + "### References\n\n"@ + url_lines(urls, urls.len() as int)
}

/// The text with a references section listing `urls` appended to the body of the first
/// `pub const DOCUMENTATION: &str = r"` constant, before its closing `";`; `None` when
/// there is no such constant or its body already mentions `### References`.
pub open spec fn appended_references(s: Seq<char>, urls: Seq<Seq<char>>) -> Option<Seq<char>> {
    match find_from(s, const_pattern(), 0) {
        None => None,
        Some(c) => {
            let body_start = c + const_pattern().len();
            match find_from(s, const_end_pattern(), body_start) {
                None => None,
                Some(body_end) => {
                    let body = s.subrange(body_start, body_end);
                    if contains(body, references_heading()) {
                        None
                    } else {
                        Some(
                            s.subrange(0, body_end) + shared_references_block(body, urls)
                                + s.subrange(body_end, s.len() as int),
                        )
                    }
                }
            }
        }
    }
}

/// `appended_references` on characters.
fn append_references_chars(s: &[char], urls: &[String]) -> (r: Option<Vec<char>>)
    ensures
        match r {
            Some(v) => appended_references(s@, strings_chars(urls@)) == Some(v@),
            None => appended_references(s@, strings_chars(urls@)) is None,
        },
{
    let const_pat = chars_of("pub const DOCUMENTATION: &str = r\"");
    let const_start = match find_chars(s, const_pat.as_slice(), 0) {
        Some(c) => c,
        None => return None,
    };
    proof {
        lemma_find_from(s@, const_pat@, 0);
        assert(s@.len() == s.len());
    }
    let body_start: usize = const_start + const_pat.len();
    // Find the closing `";` after `body_start`.
    let end_pat = chars_of("\";");
    let body_end = match find_chars(s, end_pat.as_slice(), body_start) {
        Some(e) => e,
        None => return None,
    };
    proof {
        lemma_find_from(s@, end_pat@, body_start as int);
    }
    let body = slice_subrange(s, body_start, body_end);
    let refs = chars_of("### References");
    if contains_exec(body, refs.as_slice()) {
        return None;
    }
    // Compose the block. Preserve a trailing newline before the `";` if present.
    let newline = chars_of("\n");
    let blank = chars_of("\n\n");
    let needs_leading_nl = !ends_with_exec(body, newline.as_slice());
    let needs_blank_separator = !ends_with_exec(body, blank.as_slice()) && body.len() > 0;
    let mut block: Vec<char> = Vec::new();
    if needs_leading_nl {
        push_str(&mut block, "\n");
    }
    if needs_blank_separator {
        push_str(&mut block, "\n");
    }
    push_str(&mut block, "### References\n\n");
    let ghost urls_chars = strings_chars(urls@);
    let mut i: usize = 0;
    let ghost head = block@;
    while i < urls.len()
        invariant
            i <= urls@.len(),
            urls_chars == strings_chars(urls@),
            block@ == head + url_lines(urls_chars, i as int),
        decreases urls@.len() - i,
    {
        push_str(&mut block, "- <");
        push_str(&mut block, urls[i].as_str());
        push_str(&mut block, ">\n");
        assert(block@ =~= head + url_lines(urls_chars, i + 1));
        i = i + 1;
    }
    assert(block@ =~= shared_references_block(body@, urls_chars));
    let mut out: Vec<char> = Vec::new();
    push_range(&mut out, s, 0, body_end);
    push_all(&mut out, block.as_slice());
    push_range(&mut out, s, body_end, s.len());
    Some(out)
}

/// Append a `### References` section to a shared `pub const DOCUMENTATION` raw string.
/// Returns `None` if the file has no such constant or already contains a references
/// section.
pub fn append_references_to_shared_doc(contents: &str, urls: &[String]) -> (r: Option<String>)
    ensures
        opt_chars(r) == appended_references(contents@, strings_chars(urls@)),
{
    let chars = chars_of(contents);
    match append_references_chars(chars.as_slice(), urls) {
        Some(v) => Some(string_of(v.as_slice())),
        None => None,
    }
}

/// The names of a rule in kebab case and in camel case.
pub struct RuleNames {
    pub kebab: String,
    pub camel: String,
}

/// The names of the rule at `path`: its name converted to kebab case and to camel case.
pub open spec fn rule_names_of(path: Seq<char>) -> Option<(Seq<char>, Seq<char>)> {
    match rule_name_of(path_file_stem(path), parent_file_name(path)) {
        None => None,
        Some(name) => Some(
            (converted_case(name, CaseStyle::Kebab), converted_case(name, CaseStyle::Camel)),
        ),
    }
}

/// The characters of optional rule names.
pub open spec fn names_chars(names: Option<RuleNames>) -> Option<(Seq<char>, Seq<char>)> {
    match names {
        Some(n) => Some((n.kebab@, n.camel@)),
        None => None,
    }
}

/// The rule's docs come from a shared constant (`docs = CONSTANT`) rather than from doc
/// comments inside `declare_oxc_lint!(`.
pub open spec fn uses_shared_docs(contents: Seq<char>) -> bool {
    !contains(contents, "declare_oxc_lint!(\n"@) && contains(contents, "docs = "@)
}

/// The new text of a plugin rule file with the given names, if it changes.
pub open spec fn updated_plugin_rule_of(
    contents: Seq<char>,
    names: Option<(Seq<char>, Seq<char>)>,
    plugin: Plugin,
) -> Option<Seq<char>> {
    if uses_shared_docs(contents) {
        None
    } else {
        match names {
            None => None,
            Some(names) => inserted_references(contents, docs_url_of(plugin, names.0, names.1)),
        }
    }
}

/// The URL of the rule with the given names for each plugin.
pub open spec fn plugin_urls(plugins: Seq<Plugin>, kebab: Seq<char>, camel: Seq<char>) -> Seq<
    Seq<char>,
> {
    plugins.map_values(|p: Plugin| docs_url_of(p, kebab, camel))
}

/// The new text of a shared documentation file with the given names, if it changes.
pub open spec fn updated_shared_rule_of(
    contents: Seq<char>,
    names: Option<(Seq<char>, Seq<char>)>,
    plugins: Seq<Plugin>,
) -> Option<Seq<char>> {
    match names {
        None => None,
        Some(names) => appended_references(contents, plugin_urls(plugins, names.0, names.1)),
    }
}

/// The names of the rule at `path`, if its name can be derived from the path.
pub fn rule_names(path: &str) -> (r: Option<RuleNames>)
    ensures
        names_chars(r) == rule_names_of(path@),
{
    match rule_name_from_path(path) {
        Some(name) => Some(
            RuleNames {
                kebab: to_case(name.as_str(), CaseStyle::Kebab),
                camel: to_case(name.as_str(), CaseStyle::Camel),
            },
        ),
        None => None,
    }
}

/// The new text of a plugin rule file, given the rule's names. Rule files that use
/// `docs = CONSTANT` defer their docs to the shared constant file and are left alone.
pub fn updated_plugin_rule_for(contents: &str, names: Option<RuleNames>, plugin: Plugin) -> (r:
    Option<String>)
    ensures
        opt_chars(r) == updated_plugin_rule_of(contents@, names_chars(names), plugin),
{
    let chars = chars_of(contents);
    let inline_open = chars_of("declare_oxc_lint!(\n");
    let shared_docs = chars_of("docs = ");
    if !contains_exec(chars.as_slice(), inline_open.as_slice()) && contains_exec(
        chars.as_slice(),
        shared_docs.as_slice(),
    ) {
        return None;
    }
    match names {
        None => None,
        Some(names) => {
            let url = plugin.docs_url(names.kebab.as_str(), names.camel.as_str());
            insert_references_in_inline_docs(contents, url.as_str())
        },
    }
}

/// The new text of the rule file at `path` of `plugin`, if it changes.
pub fn updated_plugin_rule(path: &str, contents: &str, plugin: Plugin) -> (r: Option<String>)
    ensures
        opt_chars(r) == updated_plugin_rule_of(contents@, rule_names_of(path@), plugin),
{
    updated_plugin_rule_for(contents, rule_names(path), plugin)
}

/// The new text of a shared documentation file, given the rule's names.
pub fn updated_shared_rule_for(contents: &str, names: Option<RuleNames>, plugins: &[Plugin]) -> (r:
    Option<String>)
    ensures
        opt_chars(r) == updated_shared_rule_of(contents@, names_chars(names), plugins@),
{
    match names {
        None => None,
        Some(names) => {
            let mut urls: Vec<String> = Vec::new();
            let mut i: usize = 0;
            while i < plugins.len()
                invariant
                    i <= plugins@.len(),
                    urls@.len() == i,
                    strings_chars(urls@) == plugin_urls(
                        plugins@.subrange(0, i as int),
                        names.kebab@,
                        names.camel@,
                    ),
                decreases plugins@.len() - i,
            {
                let url = plugins[i].docs_url(names.kebab.as_str(), names.camel.as_str());
                let ghost before = urls@;
                let ghost url_chars = url@;
                assert(url_chars == docs_url_of(plugins@[i as int], names.kebab@, names.camel@));
                urls.push(url);
                assert(urls@[i as int]@ == url_chars);
                assert forall|k: int| 0 <= k < i + 1 implies strings_chars(urls@)[k]
                    == plugin_urls(plugins@.subrange(0, i + 1), names.kebab@, names.camel@)[k] by {
                    if k < i {
                        assert(strings_chars(before)[k] == plugin_urls(
                            plugins@.subrange(0, i as int),
                            names.kebab@,
                            names.camel@,
                        )[k]);
                    }
                }
                assert(strings_chars(urls@) =~= plugin_urls(
                    plugins@.subrange(0, i + 1),
                    names.kebab@,
                    names.camel@,
                ));
                i = i + 1;
            }
            assert(plugins@.subrange(0, plugins@.len() as int) =~= plugins@);
            append_references_to_shared_doc(contents, urls.as_slice())
        },
    }
}

/// The new text of the shared documentation file at `path`, shared by `plugins`, if it
/// changes.
pub fn updated_shared_rule(path: &str, contents: &str, plugins: &[Plugin]) -> (r: Option<String>)
    ensures
        opt_chars(r) == updated_shared_rule_of(contents@, rule_names_of(path@), plugins@),
{
    updated_shared_rule_for(contents, rule_names(path), plugins)
}

/// What to do with a rule file, from its place under the rules directory.
pub enum RuleTarget {
    /// A shared documentation file of a group, shared by these plugins.
    Shared(&'static [Plugin]),
    /// A rule file of a plugin.
    Plugin(Plugin),
}

/// The target of the rule file whose path under the rules directory starts with the
/// directory `first`, whose second component is `second`, and whose file name is
/// `name`: under `shared/<group>/`, a shared documentation file of a known group other
/// than `mod.rs`; otherwise a rule file of the plugin of the directory `first`.
pub open spec fn rule_target_of(
    first: Seq<char>,
    second: Option<Seq<char>>,
    name: Option<Seq<char>>,
) -> Option<Result<Seq<Plugin>, Plugin>> {
    if first == "shared"@ {
        match second {
            None => None,
            Some(group) => match group_plugins(group) {
                None => None,
                Some(plugins) => if name == Some("mod.rs"@) {
                    None
                } else {
                    Some(Ok(plugins))
                },
            },
        }
    } else {
        match plugin_of_dir(first) {
            Some(plugin) => Some(Err(plugin)),
            None => None,
        }
    }
}

/// Outside `shared`, what is done with a file depends on its first directory alone: every
/// file under a plugin's directory, a `<rule>/mod.rs` among them, is a rule file of that
/// plugin, whatever its second component and file name.
pub proof fn law_plugin_directories_hold_rule_files(
    first: Seq<char>,
    second: Option<Seq<char>>,
    name: Option<Seq<char>>,
    plugin: Plugin,
)
    requires
        first != "shared"@,
        plugin_of_dir(first) == Some(plugin),
    ensures
        rule_target_of(first, second, name) == Some(Err::<Seq<Plugin>, Plugin>(plugin)),
{
}

/// Under `shared/<group>/`, a group's `mod.rs` is skipped, and every other file of a known
/// group is a shared documentation file of the group's plugins.
pub proof fn law_shared_group_files(group: Seq<char>, name: Option<Seq<char>>)
    requires
        group_plugins(group) is Some,
    ensures
        name == Some("mod.rs"@) ==> rule_target_of("shared"@, Some(group), name) is None,
        name != Some("mod.rs"@) ==> rule_target_of("shared"@, Some(group), name) == Some(
            Ok::<Seq<Plugin>, Plugin>(group_plugins(group).unwrap()),
        ),
{
}

/// The characters of an optional string slice.
pub open spec fn opt_str_chars(o: Option<&str>) -> Option<Seq<char>> {
    match o {
        Some(s) => Some(s@),
        None => None,
    }
}

/// What to do with the rule file whose path under the rules directory has the components
/// `first` and `second` and the file name `name`; `None` for files that are skipped
/// (native `oxc` rules, unknown directories, unknown groups, and `mod.rs` of a group).
pub fn rule_target(first: &str, second: Option<&str>, name: Option<&str>) -> (r: Option<
    RuleTarget,
>)
    ensures
        match r {
            None => rule_target_of(first@, opt_str_chars(second), opt_str_chars(name)) is None,
            Some(RuleTarget::Shared(plugins)) => rule_target_of(
                first@,
                opt_str_chars(second),
                opt_str_chars(name),
            ) == Some(Ok::<Seq<Plugin>, Plugin>(plugins@)),
            Some(RuleTarget::Plugin(plugin)) => rule_target_of(
                first@,
                opt_str_chars(second),
                opt_str_chars(name),
            ) == Some(Err::<Seq<Plugin>, Plugin>(plugin)),
        },
{
    if str_eq(first, "shared") {
        let group = match second {
            Some(group) => group,
            None => return None,
        };
        let plugins = match shared_group_plugins(group) {
            Some(plugins) => plugins,
            None => return None,
        };
        let is_mod = match name {
            Some(name) => str_eq(name, "mod.rs"),
            None => false,
        };
        if is_mod {
            return None;
        }
        Some(RuleTarget::Shared(plugins))
    } else {
        match Plugin::from_dir(first) {
            Some(plugin) => Some(RuleTarget::Plugin(plugin)),
            None => None,
        }
    }
}

} // verus!
