//! A tokenizer for a small shell-like command language.
//!
//! Input text is first classified character by character (which characters
//! are alphanumeric or whitespace), and the classified characters are then
//! scanned left to right into a flat sequence of tokens.
pub mod chars;
pub mod laws;
pub mod lexer;
pub mod token;

pub use chars::{classify, classify_char, CharInfo};
pub use lexer::{tokenize, tokenize_classified};
pub use token::{Token, TokenKind};
