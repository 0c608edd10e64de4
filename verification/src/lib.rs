//! An arithmetic expression engine: a text is normalized, split into
//! spanned tokens, validated, parsed into a tree and evaluated.
//! Every stage reports its failures as data, each with the offsets of the
//! input characters it concerns. The library holds no floating-point
//! arithmetic: a tree is evaluated in the arithmetic that the host brings.

pub mod ast;
pub mod chars;
pub mod eval;
pub mod maph_error;
pub mod parse;
pub mod utils;
pub mod views;
