//! Formatting options for JSON documents.

use vstd::prelude::*;

verus! {

/// The dialect of JSON being formatted.
#[derive(Clone, Copy, Debug, PartialEq, Eq, Structural)]
pub enum JsonVariant {
    /// Plain JSON.
    Json,
    /// JSON with comments.
    Jsonc,
    /// JSON5.
    Json5,
    /// Output compatible with `JSON.stringify`: comments are not allowed.
    JsonStringify,
}

/// Options of the JSON formatter.
#[derive(Clone, Copy, Debug, PartialEq, Eq, Structural)]
pub struct JsonFormatOptions {
    pub variant: JsonVariant,
}

} // verus!
