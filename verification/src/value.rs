//! The shape of a parsed JSON value, as far as printing it depends on it.

use vstd::prelude::*;

use crate::span::{span_in, SourceSpan};

verus! {

/// What kind of expression a JSON value is.
#[derive(Debug, PartialEq, Eq)]
pub enum JsonValueKind {
    /// `null`
    Null,
    /// `true` or `false`
    Boolean(bool),
    /// A numeric literal.
    Number,
    /// A string literal.
    String,
    /// An array literal.
    Array,
    /// An object literal.
    Object,
    /// A unary operator, given by its source text, applied to a value, such as `-1` or
    /// `+Infinity`.
    Unary(&'static str, Box<JsonValue>),
    /// Any other expression, which is not valid JSON.
    Other,
}

/// A JSON value: its span in the source and its kind.
#[derive(Debug, PartialEq, Eq)]
pub struct JsonValue {
    pub span: SourceSpan,
    pub kind: JsonValueKind,
}

/// Every span of `value` and of the values nested in it lies within `bytes`.
pub open spec fn value_spans_in(bytes: Seq<u8>, value: JsonValue) -> bool
    decreases value,
{
    &&& span_in(bytes, value.span)
    &&& match value.kind {
        JsonValueKind::Unary(_, argument) => value_spans_in(bytes, *argument),
        _ => true,
    }
}

} // verus!
