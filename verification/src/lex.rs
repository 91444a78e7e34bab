//! Lexical analysis: from source bytes to tokens.

pub mod token;
pub mod error;
pub mod lexer;
