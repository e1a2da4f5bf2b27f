//! A tokenizer for Python source text.
//!
//! The crate turns already-decoded source text into a stream of classified
//! tokens, tracking the block structure that indentation implies, the depth
//! of open brackets, and line continuations.  Every function is verified
//! against a mathematical description of the token grammar.

pub mod comment;
pub mod indentation;
pub mod laws;
pub mod machine;
pub mod name;
pub mod newline;
pub mod number;
pub mod simple;
pub mod string_literal;
pub mod text;
pub mod token;
pub mod token_generators;
pub mod tokenizer;
pub mod unicode;

pub use token::{Token, TokenError, TokenType, TokenView};
pub use token_generators::{comment, fraction, name, number};
pub use tokenizer::{tokenize, Tokenizer};
