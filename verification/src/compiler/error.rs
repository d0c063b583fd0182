//! Why a script does not compile, and where.

use vstd::prelude::*;
use crate::compiler::grammar::capability::Capability;
use crate::compiler::lexer::tokenizer::LexError;

verus! {

/// Why a script does not compile.
#[derive(Debug, Clone, PartialEq, Eq)]
pub enum ErrorType {
    /// Another token was expected; the text says which.
    UnexpectedToken(&'static str),
    ExpectedString,
    ExpectedNumber,
    InvalidTag,
    DuplicateRequire,
    /// A command or test was used before its capability was required.
    MissingRequire(Capability),
    /// Arguments that do not go together; the text says why.
    InvalidCombination(&'static str),
    UnknownCommand,
    NestingTooDeep,
    ScriptTooLarge,
    UnterminatedString,
    InvalidUtf8,
    InvalidEscape,
}

/// Why a script does not compile, and the line and column of the token at
/// which this was found, both counted from 1.
#[derive(Debug, Clone, PartialEq, Eq)]
pub struct CompileError {
    pub kind: ErrorType,
    pub line_num: usize,
    pub line_pos: usize,
}

/// The number of line feeds before a place.
pub open spec fn line_feeds(src: Seq<u8>, to: int) -> nat
    decreases to,
{
    if to <= 0 || to > src.len() {
        0
    } else if src[to - 1] == 0x0a {
        line_feeds(src, to - 1) + 1
    } else {
        line_feeds(src, to - 1)
    }
}

/// The place at which the line of a place starts.
pub open spec fn line_start(src: Seq<u8>, to: int) -> int
    decreases to,
{
    if to <= 0 || to > src.len() {
        0
    } else if src[to - 1] == 0x0a {
        to
    } else {
        line_start(src, to - 1)
    }
}

/// A count from 1 that stays within the machine's numbers.
pub open spec fn from_one(n: int) -> usize {
    if 0 <= n < usize::MAX {
        (n + 1) as usize
    } else {
        usize::MAX
    }
}

/// The error of a kind at an offset of the text.
pub open spec fn located(src: Seq<u8>, offset: int, kind: ErrorType) -> CompileError {
    CompileError {
        kind,
        line_num: from_one(line_feeds(src, offset) as int),
        line_pos: from_one(offset - line_start(src, offset)),
    }
}

/// The kind of error that bytes which are no token cause.
pub open spec fn lex_kind(e: LexError) -> ErrorType {
    match e {
        LexError::UnterminatedString => ErrorType::UnterminatedString,
        LexError::InvalidUtf8 => ErrorType::InvalidUtf8,
        LexError::InvalidEscape => ErrorType::InvalidEscape,
    }
}

impl CompileError {
    /// The error of a kind at an offset of the text.
    pub fn at(src: &[u8], offset: usize, kind: ErrorType) -> (e: CompileError)
        requires
            offset <= src.len(),
        ensures
            e == located(src@, offset as int, kind),
    {
        let mut feeds: usize = 0;
        let mut i: usize = 0;
        while i < offset
            invariant
                i <= offset <= src.len(),
                feeds == line_feeds(src@, i as int),
                feeds <= i,
            decreases offset - i,
        {
            if src[i] == 0x0a {
                feeds += 1;
            }
            i += 1;
        }
        let mut start: usize = offset;
        while start > 0 && src[start - 1] != 0x0a
            invariant
                start <= offset <= src.len(),
                line_start(src@, offset as int) == line_start(src@, start as int),
            decreases start,
        {
            start -= 1;
        }
        let column = offset - start;
        CompileError {
            kind,
            line_num: if feeds < usize::MAX {
                feeds + 1
            } else {
                usize::MAX
            },
            line_pos: if column < usize::MAX {
                column + 1
            } else {
                usize::MAX
            },
        }
    }

    /// The error for bytes that are no token.
    pub fn lexical(src: &[u8], offset: usize, e: LexError) -> (r: CompileError)
        requires
            offset <= src.len(),
        ensures
            r == located(src@, offset as int, lex_kind(e)),
    {
        let kind = match e {
            LexError::UnterminatedString => ErrorType::UnterminatedString,
            LexError::InvalidUtf8 => ErrorType::InvalidUtf8,
            LexError::InvalidEscape => ErrorType::InvalidEscape,
        };
        CompileError::at(src, offset, kind)
    }
}

} // verus!
