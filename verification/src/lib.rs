//! Lexical scanner for a small scripting language.
//!
//! The scanner turns source text into a sequence of typed tokens with
//! source-line annotations. Tokens are pulled one at a time with
//! [`scanner::Scanner::next`], or all at once with [`scanner::scan_tokens`].
//! The scanner emits no terminal end-of-file token: exhaustion of the stream
//! (a `None` from `next`) is the end-of-input signal.

pub mod laws;
pub mod scan_model;
pub mod scanner;
pub mod token;
