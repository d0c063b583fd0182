//! A compiler and interpreter for Sieve mail-filtering scripts (RFC 5228 and
//! its extensions), with machine-checked contracts.

pub mod compiler;
pub mod polyfill;
pub mod runtime;

pub use compiler::error::{CompileError, ErrorType};
pub use compiler::grammar::action_notify::{Fcc, Notify};
pub use compiler::grammar::capability::{Capability, Comparator};
pub use compiler::grammar::instruction::{
    AddHeader, Clear, Collation, Convert, Enclose, ExtractText, FileInto, ForEveryPart, Include,
    Instruction, Keep, Match, MatchType, Period, Redirect, Replace, SetVariable, Sieve, Test,
    TestExpr, Vacation, Variable,
};
pub use compiler::lexer::tokenizer::{LexError, Token, TokenInfo, Tokenizer};
pub use compiler::lexer::word::Word;
pub use runtime::context::Context;
pub use runtime::envelope::Envelope;
pub use runtime::event::{Event, FileCarbonCopy, Input, Limits, Runtime, RuntimeError};
pub use runtime::machine::{MAX_LOCAL_VARIABLES, MAX_MATCH_VARIABLES};
pub use runtime::message::{Header, Mail, Part};
pub use runtime::string::{Piece, StringItem};
