//! The calls into the oxc parser, and the plain values taken from its output.

use oxc_allocator::Allocator;
use oxc_ast::ast::{Expression, Statement};
use oxc_diagnostics::OxcDiagnostic;
use oxc_parser::{ParseOptions, Parser, ParserReturn};
use oxc_span::{GetSpan, SourceType};
use vstd::prelude::*;
use vstd::string::StringSliceAdditionalSpecFns;

use crate::span::{comments_in_order, Comment, SourceSpan};
use crate::value::{value_spans_in, JsonValue, JsonValueKind};

verus! {

/// `oxc_allocator::Allocator`, the arena that parsed syntax trees live in; opaque here.
#[verifier::external_type_specification]
#[verifier::external_body]
pub struct ExAllocator(Allocator);

/// `oxc_diagnostics::OxcDiagnostic`, a diagnostic reported by the parser; opaque here.
#[verifier::external_type_specification]
#[verifier::external_body]
pub struct ExOxcDiagnostic(OxcDiagnostic);

/// `oxc_ast::ast::Expression`, an expression of a parsed syntax tree; opaque here.
#[verifier::external_type_specification]
#[verifier::external_body]
pub struct ExExpression<'a>(Expression<'a>);

/// `oxc_parser::ParserReturn`, everything one parse produced; opaque here.
#[verifier::external_type_specification]
#[verifier::external_body]
pub struct ExParserReturn<'a>(ParserReturn<'a>);

/// An error that the parser reported: its message, and the diagnostic itself.
pub struct ParseDiagnostic {
    pub message: String,
    pub diagnostic: OxcDiagnostic,
}

impl ParseDiagnostic {
    /// The error with the given message and diagnostic.
    pub fn new(message: String, diagnostic: OxcDiagnostic) -> (r: ParseDiagnostic)
        ensures
            r.message == message,
            r.diagnostic == diagnostic,
    {
        ParseDiagnostic { message, diagnostic }
    }
}

/// What the library reads of a parse: the messages of the errors reported, in order;
/// whether the parser gave up; how many top-level statements there are; the expression of
/// the first statement when that statement is an expression statement; and the comments,
/// in source order.
pub struct ParseSummary {
    pub errors: Seq<Seq<char>>,
    pub panicked: bool,
    pub statement_count: nat,
    pub first_value: Option<JsonValue>,
    pub comments: Seq<Comment>,
}

/// The summary of parsing `source` as a script with the given `preserve_parens` option.
pub uninterp spec fn oxc_parse(source: Seq<char>, preserve_parens: bool) -> ParseSummary;

/// The result of one parse, as plain values: the errors reported, in order, whether the
/// parser gave up, the number of top-level statements, the expression of the first
/// statement when that statement is an expression statement, and the comments.
pub struct ParseReport {
    pub errors: Vec<ParseDiagnostic>,
    pub panicked: bool,
    pub statement_count: usize,
    pub first_value: Option<JsonValue>,
    pub comments: Vec<Comment>,
}

/// The messages of the errors.
pub open spec fn error_messages(errors: Seq<ParseDiagnostic>) -> Seq<Seq<char>> {
    errors.map_values(|e: ParseDiagnostic| e.message@)
}

impl View for ParseReport {
    type V = ParseSummary;

    open spec fn view(&self) -> ParseSummary {
        ParseSummary {
            errors: error_messages(self.errors@),
            panicked: self.panicked,
            statement_count: self.statement_count as nat,
            first_value: self.first_value,
            comments: self.comments@,
        }
    }
}

/// `oxc_parser::Parser::parse` on `source` as a script with the `preserve_parens` option
/// set as given and the other options at their defaults. The report is the summary named
/// `oxc_parse` of the source and the option. An expression statement comes first only
/// when there is a statement. The parser's comments are sorted (`Program::comments`), and
/// like the spans of the expression and of its operands they lie within the source, on
/// character boundaries.
#[verifier::external_body]
pub(crate) fn parse_program(allocator: &Allocator, source: &str, preserve_parens: bool) -> (r:
    ParseReport)
    ensures
        r@ == oxc_parse(source@, preserve_parens),
        r.first_value is Some ==> r.statement_count > 0,
        comments_in_order(source.spec_bytes(), r.comments@),
        r.first_value matches Some(value) ==> value_spans_in(source.spec_bytes(), value),
{
    report_of(Parser::new(allocator, source, SourceType::default()).with_options(ParseOptions { preserve_parens, ..ParseOptions::default() }).parse())
}

/// Converts what `Parser::parse` returned into plain values: each error-severity
/// diagnostic (`Diagnostics::errors`) with its message, `panicked`, the number of
/// statements of the program's body, the shape of the first statement's expression when
/// it is an expression statement, and each comment with its span and `content_span`.
/// Nothing is stated of the result here: `parse_program` states it.
#[verifier::external_body]
fn report_of(ret: ParserReturn) -> (r: ParseReport) {
    let errors = ret.diagnostics.errors().map(|d| ParseDiagnostic::new(d.message.to_string(), d.clone())).collect();
    let comments = ret.program.comments.iter().map(|c| Comment::from_offsets(c.span.start, c.span.end, c.content_span().start, c.content_span().end)).collect();
    let first_value = match ret.program.body.first() {
        Some(Statement::ExpressionStatement(statement)) => Some(json_value_of(&statement.expression)),
        _ => None,
    };
    ParseReport { errors, panicked: ret.panicked, statement_count: ret.program.body.len(), first_value, comments }
}

/// Converts an `oxc_ast::ast::Expression` into the shape that printing reads: its span
/// (`GetSpan::span`) and, variant by variant, its kind, with the text that
/// `UnaryOperator::as_str` gives for a unary operator and the shape of its argument.
/// Nothing is stated of the result here: `parse_program` states it.
#[verifier::external_body]
fn json_value_of(expression: &Expression) -> (r: JsonValue) {
    let kind = match expression {
        Expression::NullLiteral(_) => JsonValueKind::Null,
        Expression::BooleanLiteral(literal) => JsonValueKind::Boolean(literal.value),
        Expression::NumericLiteral(_) => JsonValueKind::Number,
        Expression::StringLiteral(_) => JsonValueKind::String,
        Expression::ArrayExpression(_) => JsonValueKind::Array,
        Expression::ObjectExpression(_) => JsonValueKind::Object,
        Expression::UnaryExpression(unary) => JsonValueKind::Unary(unary.operator.as_str(), Box::new(json_value_of(&unary.argument))),
        _ => JsonValueKind::Other,
    };
    JsonValue { span: SourceSpan::new(expression.span().start, expression.span().end), kind }
}

/// `Allocator::alloc_concat_strs_array` on three strings: their concatenation, copied into
/// the arena. It panics when the total length exceeds `isize::MAX` bytes.
#[verifier::external_body]
pub(crate) fn arena_concat<'a>(allocator: &'a Allocator, first: &str, second: &str, third: &str) -> (r: &'a str)
    requires
        first.spec_bytes().len() + second.spec_bytes().len() + third.spec_bytes().len() <= isize::MAX,
    ensures
        r@ == first@ + second@ + third@,
{
    allocator.alloc_concat_strs_array([first, second, third])
}

/// `Allocator::alloc_str`: a copy of `source` in the arena.
#[verifier::external_body]
pub(crate) fn arena_str<'a>(allocator: &'a Allocator, source: &str) -> (r: &'a str)
    ensures
        r@ == source@,
{
    allocator.alloc_str(source)
}

} // verus!
