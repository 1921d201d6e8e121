//! Comment hoisting, value printing and parsing for the JSON formatter, together with the
//! text rewriting that adds upstream attribution links to lint rule documentation.

pub mod attribution;
pub mod comments;
pub mod context;
pub mod idempotence;
pub mod options;
pub mod oxc_parse;
pub mod parse;
pub mod placement;
pub mod print;
pub mod span;
pub mod text;
pub mod value;
