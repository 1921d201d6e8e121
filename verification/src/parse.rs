//! Parsing a JSON document into a single expression.

use oxc_allocator::Allocator;
use vstd::prelude::*;
use vstd::string::{is_ascii_spec_bytes, StringSliceAdditionalSpecFns};

use crate::options::JsonVariant;
use crate::oxc_parse::{arena_concat, arena_str, oxc_parse, parse_program, ParseDiagnostic, ParseReport, ParseSummary};
use crate::span::{comments_in_order, Comment};
use crate::value::{value_spans_in, JsonValue};

verus! {

/// Why a JSON document could not be parsed.
pub enum ParseJsonError {
    /// The first syntax error that the parser reported.
    Syntax(ParseDiagnostic),
    /// The parser gave up without reporting an error.
    Failed,
    /// Comments occur in a `json-stringify` document.
    CommentsInJsonStringify,
    /// The document holds no value.
    Empty,
    /// The document is not a single expression.
    NotSingleExpression,
}

/// Result of [`parse_json`].
pub struct ParsedJson<'a> {
    /// `None` when the source contains only comments and whitespace.
    pub expression: Option<JsonValue>,
    /// Sorted comments. Spans are in [`Self::wrapped_source`] coordinates.
    pub comments: Vec<Comment>,
    /// Either `"(" + source + "\n)"` (normal path), or the source itself
    /// (comments-only fallback). All value and comment spans index into this.
    pub wrapped_source: &'a str,
}

/// The comments of `parsed` are sorted and lie within its `wrapped_source`, and so do the
/// spans of its value.
pub open spec fn spans_index_source(parsed: ParsedJson) -> bool {
    &&& comments_in_order(parsed.wrapped_source.spec_bytes(), parsed.comments@)
    &&& parsed.expression matches Some(value) ==> value_spans_in(
        parsed.wrapped_source.spec_bytes(),
        value,
    )
}

/// The source that is parsed on the normal path: `"(" + source + "\n)"`.
pub open spec fn wrapped(source: Seq<char>) -> Seq<char> {
    "("@ + source + "\n)"@
}

/// The parse failed: errors were reported or the parser gave up.
pub open spec fn failed(summary: ParseSummary) -> bool {
    summary.errors.len() > 0 || summary.panicked
}

/// The parse of the bare source succeeded and found no statement: the source holds only
/// comments and whitespace.
pub open spec fn comments_only(summary: ParseSummary) -> bool {
    !failed(summary) && summary.statement_count == 0
}

/// The comments are refused: the variant is `json-stringify` and there are comments.
pub open spec fn comments_refused(variant: JsonVariant, comments: Seq<Comment>) -> bool {
    variant == JsonVariant::JsonStringify && comments.len() > 0
}

/// Refuses comments in the `json-stringify` variant.
pub fn reject_comments_in_json_stringify(variant: JsonVariant, comments: &[Comment]) -> (r: Result<
    (),
    ParseJsonError,
>)
    ensures
        r is Ok <==> !comments_refused(variant, comments@),
        r is Err ==> r == Err::<(), ParseJsonError>(ParseJsonError::CommentsInJsonStringify),
{
    if variant == JsonVariant::JsonStringify && comments.len() > 0 {
        return Err(ParseJsonError::CommentsInJsonStringify);
    }
    Ok(())
}

/// Fallback for a failed parse of the wrapped source: parses `source` as it is and accepts
/// it only when there are no statements, i.e. comments / whitespace only.
pub fn try_parse_comments_only<'a>(allocator: &'a Allocator, source: &str) -> (r: Option<
    ParsedJson<'a>,
>)
    ensures
        r is Some <==> comments_only(oxc_parse(source@, true)),
        r matches Some(parsed) ==> {
            &&& parsed.expression is None
            &&& parsed.comments@ == oxc_parse(source@, true).comments
            &&& parsed.wrapped_source@ == source@
            &&& spans_index_source(parsed)
        },
{
    // Copy the source into the arena, so the comment spans index into a string that
    // outlives the parse.
    let bare_source = arena_str(allocator, source);
    // The default options, whose `preserve_parens` is `true`.
    let ret = parse_program(allocator, bare_source, true);
    if ret.errors.len() > 0 || ret.panicked {
        return None;
    }
    if ret.statement_count != 0 {
        return None;
    }
    Some(ParsedJson { expression: None, comments: ret.comments, wrapped_source: bare_source })
}

/// Decides the outcome of parsing, given the report of the parse of the wrapped source and,
/// when that parse failed, the result of the comments-only fallback.
pub fn finish_parse_json<'a>(
    variant: JsonVariant,
    wrapped_source: &'a str,
    report: ParseReport,
    fallback: Option<ParsedJson<'a>>,
) -> (r: Result<ParsedJson<'a>, ParseJsonError>)
    ensures
        failed(report@) ==> match fallback {
            Some(parsed) => if comments_refused(variant, parsed.comments@) {
                r is Err && r->Err_0 is CommentsInJsonStringify
            } else {
                r is Ok && r->Ok_0 == parsed
            },
            None => if report.errors@.len() > 0 {
                r is Err && r->Err_0 == ParseJsonError::Syntax(report.errors@[0])
            } else {
                r is Err && r->Err_0 is Failed
            },
        },
        !failed(report@) ==> if comments_refused(variant, report.comments@) {
            r is Err && r->Err_0 is CommentsInJsonStringify
        } else if report.statement_count == 0 {
            r is Err && r->Err_0 is Empty
        } else if report.first_value is None {
            r is Err && r->Err_0 is NotSingleExpression
        } else {
            &&& r is Ok
            &&& r->Ok_0.expression == report.first_value
            &&& r->Ok_0.comments@ == report.comments@
            &&& r->Ok_0.wrapped_source == wrapped_source
        },
        ({
            &&& comments_in_order(wrapped_source.spec_bytes(), report.comments@)
            &&& report.first_value matches Some(value) ==> value_spans_in(
                wrapped_source.spec_bytes(),
                value,
            )
            &&& fallback matches Some(parsed) ==> spans_index_source(parsed)
        }) ==> (r matches Ok(parsed) ==> spans_index_source(parsed)),
{
    if report.errors.len() > 0 || report.panicked {
        // The wrap turns a comments-only source into `(\n// ...\n)`, an empty-parens syntax
        // error; the fallback has re-parsed it without the wrap.
        if let Some(parsed) = fallback {
            if let Err(e) = reject_comments_in_json_stringify(variant, parsed.comments.as_slice()) {
                return Err(e);
            }
            return Ok(parsed);
        }
        let mut errors = report.errors;
        if errors.len() > 0 {
            return Err(ParseJsonError::Syntax(errors.remove(0)));
        }
        return Err(ParseJsonError::Failed);
    }
    if let Err(e) = reject_comments_in_json_stringify(variant, report.comments.as_slice()) {
        return Err(e);
    }
    if report.statement_count == 0 {
        return Err(ParseJsonError::Empty);
    }
    // The wrapped source holds at most one top-level statement, an expression statement.
    match report.first_value {
        Some(value) => Ok(ParsedJson { expression: Some(value), comments: report.comments, wrapped_source }),
        None => Err(ParseJsonError::NotSingleExpression),
    }
}

/// Parse a JSON document into a single expression.
///
/// JSON object literals like `{"a":1}` are syntax errors when parsed as a script (the
/// leading `{` starts a block statement), so the source is wrapped in `(...)` to force an
/// expression context; `preserve_parens: false` keeps the wrapping parentheses out of the
/// tree. The `\n` before `)` keeps a closing paren from being swallowed by a trailing line
/// comment of the source.
///
/// If the wrapped parse fails, the source is parsed again without the wrap, and accepted
/// only when it holds no statements, i.e. comments and whitespace only.
///
/// # Errors
/// Returns an error if the source has syntax errors that the comments-only fallback does
/// not explain, or when `variant` is [`JsonVariant::JsonStringify`] and comments are present.
pub fn parse_json<'a>(allocator: &'a Allocator, source: &str, variant: JsonVariant) -> (r: Result<
    ParsedJson<'a>,
    ParseJsonError,
>)
    requires
        source.spec_bytes().len() + 3 <= isize::MAX,
    ensures
        ({
            let main = oxc_parse(wrapped(source@), false);
            let bare = oxc_parse(source@, true);
            &&& failed(main) && comments_only(bare) ==> if comments_refused(variant, bare.comments) {
                r is Err && r->Err_0 is CommentsInJsonStringify
            } else {
                &&& r is Ok
                &&& r->Ok_0.expression is None
                &&& r->Ok_0.comments@ == bare.comments
                &&& r->Ok_0.wrapped_source@ == source@
            }
            &&& failed(main) && !comments_only(bare) ==> if main.errors.len() > 0 {
                &&& r is Err
                &&& r->Err_0 is Syntax
                &&& r->Err_0->Syntax_0.message@ == main.errors[0]
            } else {
                r is Err && r->Err_0 is Failed
            }
            &&& !failed(main) ==> if comments_refused(variant, main.comments) {
                r is Err && r->Err_0 is CommentsInJsonStringify
            } else if main.statement_count == 0 {
                r is Err && r->Err_0 is Empty
            } else if main.first_value is None {
                r is Err && r->Err_0 is NotSingleExpression
            } else {
                &&& r is Ok
                &&& r->Ok_0.expression == main.first_value
                &&& r->Ok_0.comments@ == main.comments
                &&& r->Ok_0.wrapped_source@ == wrapped(source@)
            }
        }),
        r matches Ok(parsed) ==> spans_index_source(parsed),
        variant == JsonVariant::JsonStringify && r is Ok ==> r->Ok_0.comments@.len() == 0,
{
    proof {
        reveal_strlit("(");
        reveal_strlit("\n)");
        is_ascii_spec_bytes("(");
        is_ascii_spec_bytes("\n)");
    }
    let wrapped_source = arena_concat(allocator, "(", source, "\n)");
    let report = parse_program(allocator, wrapped_source, false);
    let fallback = if report.errors.len() > 0 || report.panicked {
        try_parse_comments_only(allocator, source)
    } else {
        None
    };
    finish_parse_json(variant, wrapped_source, report, fallback)
}

} // verus!
