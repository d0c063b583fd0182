//! Script compilation: the lexer and the command grammar.

pub mod compile;
pub mod error;
pub mod grammar;
pub mod lexer;

pub use error::{CompileError, ErrorType};
