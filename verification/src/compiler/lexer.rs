//! The lexer: from the bytes of a script to its tokens.

pub mod string;
pub mod tokenizer;
pub mod word;
