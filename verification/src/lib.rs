//! A lexical scanner for a small dynamically-typed scripting language.
//!
//! The scanner turns raw source text into a flat sequence of classified
//! tokens, collecting per-character diagnostics instead of stopping at the
//! first problem, so one pass reports every lexical error in the input.
//!
//! The source is addressed by code-point position throughout.  Only the
//! ASCII character classes of the grammar start a lexeme; any other code
//! point outside a string literal or comment draws an "unexpected
//! character" diagnostic and is skipped.

pub mod error;
pub mod escape;
pub mod model;
pub mod scanner;
pub mod token;
