//! Tokens, and how the bytes of a script divide into them.

use vstd::prelude::*;
use vstd::utf8::*;
use crate::compiler::error::{lex_kind, located, CompileError, ErrorType};
use crate::compiler::lexer::string::{item_of, Scope, ScopeView};
use crate::compiler::lexer::word::{word_of, Word};
use crate::runtime::string::{item_views, StringItem, StringItemView};
use crate::polyfill::is_utf8;
use crate::runtime::envelope::copy_range;

verus! {

/// Why bytes are no token.
#[derive(Debug, Clone, Copy, PartialEq, Eq, Structural)]
pub enum LexError {
    UnterminatedString,
    InvalidUtf8,
    InvalidEscape,
}

/// A token of a script.
#[derive(Debug, Clone, PartialEq, Eq)]
pub enum Token {
    Identifier(Word),
    Tag(Word),
    String(Vec<u8>),
    Number(u64),
    BracketOpen,
    BracketClose,
    CurlyOpen,
    CurlyClose,
    ParenthesisOpen,
    ParenthesisClose,
    Comma,
    Semicolon,
    Unknown(Vec<u8>),
    Eof,
    Invalid(LexError),
}

/// A token and the offset of its first byte.
#[derive(Debug, Clone, PartialEq, Eq)]
pub struct TokenInfo {
    pub token: Token,
    pub offset: usize,
}

pub ghost enum TokenView {
    Identifier(Word),
    Tag(Word),
    String(Seq<u8>),
    Number(u64),
    BracketOpen,
    BracketClose,
    CurlyOpen,
    CurlyClose,
    ParenthesisOpen,
    ParenthesisClose,
    Comma,
    Semicolon,
    Unknown(Seq<u8>),
    Eof,
    Invalid(LexError),
}

impl View for Token {
    type V = TokenView;

    open spec fn view(&self) -> TokenView {
        match *self {
            Token::Identifier(w) => TokenView::Identifier(w),
            Token::Tag(w) => TokenView::Tag(w),
            Token::String(s) => TokenView::String(s@),
            Token::Number(n) => TokenView::Number(n),
            Token::BracketOpen => TokenView::BracketOpen,
            Token::BracketClose => TokenView::BracketClose,
            Token::CurlyOpen => TokenView::CurlyOpen,
            Token::CurlyClose => TokenView::CurlyClose,
            Token::ParenthesisOpen => TokenView::ParenthesisOpen,
            Token::ParenthesisClose => TokenView::ParenthesisClose,
            Token::Comma => TokenView::Comma,
            Token::Semicolon => TokenView::Semicolon,
            Token::Unknown(s) => TokenView::Unknown(s@),
            Token::Eof => TokenView::Eof,
            Token::Invalid(e) => TokenView::Invalid(e),
        }
    }
}

/// The tokens of a list with their offsets.
pub open spec fn token_views(tokens: Seq<TokenInfo>) -> Seq<(TokenView, int)> {
    Seq::new(tokens.len(), |i: int| (tokens[i].token@, tokens[i].offset as int))
}

pub open spec fn is_space(b: u8) -> bool {
    b == 0x20 || b == 0x09 || b == 0x0d || b == 0x0a
}

pub open spec fn is_digit(b: u8) -> bool {
    0x30 <= b <= 0x39
}

/// Whether a byte may stand in a word: a letter, a digit or an underscore.
pub open spec fn is_word_byte(b: u8) -> bool {
    is_digit(b) || (0x41 <= b <= 0x5a) || (0x61 <= b <= 0x7a) || b == 0x5f
}

/// Where the run of word bytes from `pos` ends.
pub open spec fn word_end(src: Seq<u8>, pos: int) -> int
    decreases src.len() - pos,
{
    if 0 <= pos < src.len() && is_word_byte(src[pos]) {
        word_end(src, pos + 1)
    } else {
        pos
    }
}

/// Where the run of digits from `pos` ends.
pub open spec fn digits_end(src: Seq<u8>, pos: int) -> int
    decreases src.len() - pos,
{
    if 0 <= pos < src.len() && is_digit(src[pos]) {
        digits_end(src, pos + 1)
    } else {
        pos
    }
}

/// Where the run of spaces and tabs from `pos` ends.
pub open spec fn gap_end(src: Seq<u8>, pos: int) -> int
    decreases src.len() - pos,
{
    if 0 <= pos < src.len() && (src[pos] == 0x20 || src[pos] == 0x09) {
        gap_end(src, pos + 1)
    } else {
        pos
    }
}

/// The place behind the next line feed from `pos` on, or the end of the
/// text.
pub open spec fn line_end(src: Seq<u8>, pos: int) -> int
    decreases src.len() - pos,
{
    if 0 <= pos < src.len() {
        if src[pos] == 0x0a {
            pos + 1
        } else {
            line_end(src, pos + 1)
        }
    } else {
        pos
    }
}

/// The place behind the next `*/` from `pos` on, or the end of the text.
pub open spec fn comment_end(src: Seq<u8>, pos: int) -> int
    decreases src.len() - pos,
{
    if 0 <= pos && pos + 1 < src.len() {
        if src[pos] == 0x2a && src[pos + 1] == 0x2f {
            pos + 2
        } else {
            comment_end(src, pos + 1)
        }
    } else if pos < src.len() {
        src.len() as int
    } else {
        pos
    }
}

/// The place of the first byte from `pos` on that is neither white space nor
/// part of a comment.
pub open spec fn skip_blank(src: Seq<u8>, pos: int) -> int
    decreases src.len() - pos,
{
    if pos < 0 || pos >= src.len() {
        pos
    } else if is_space(src[pos]) {
        skip_blank(src, pos + 1)
    } else if src[pos] == 0x23 {
        let e = line_end(src, pos + 1);
        if pos < e <= src.len() {
            skip_blank(src, e)
        } else {
            pos
        }
    } else if src[pos] == 0x2f && pos + 1 < src.len() && src[pos + 1] == 0x2a {
        let e = comment_end(src, pos + 2);
        if pos < e <= src.len() {
            skip_blank(src, e)
        } else {
            pos
        }
    } else {
        pos
    }
}

/// The number that the digits between two places spell.
pub open spec fn decimal(src: Seq<u8>, from: int, to: int) -> nat
    decreases to - from,
{
    if to <= from {
        0
    } else {
        decimal(src, from, to - 1) * 10 + (src[to - 1] - 0x30) as nat
    }
}

/// The factor that a size suffix stands for: 1024 for `K`, and so on; 0 for
/// a byte that is no suffix.
pub open spec fn scale_of(b: u8) -> nat {
    if b == 0x4b || b == 0x6b {
        1024
    } else if b == 0x4d || b == 0x6d {
        1048576
    } else if b == 0x47 || b == 0x67 {
        1073741824
    } else {
        0
    }
}

/// The number that a word spells: digits, then at most one size suffix.
/// There is none where the word is spelled otherwise or the number is too
/// large.
pub open spec fn number_of(text: Seq<u8>) -> Option<u64> {
    let d = digits_end(text, 0);
    let scale = if d == text.len() {
        1
    } else if d + 1 == text.len() {
        scale_of(text[d])
    } else {
        0
    };
    if d == 0 || scale == 0 || decimal(text, 0, d) * scale > u64::MAX {
        None
    } else {
        Some((decimal(text, 0, d) * scale) as u64)
    }
}

/// The quoted string whose text starts at `pos`, with what was read of it
/// before, and the place behind it. A backslash stands before a quote or a
/// backslash that belongs to the text.
pub open spec fn quoted(src: Seq<u8>, pos: int, text: Seq<u8>) -> (TokenView, int)
    decreases src.len() - pos,
{
    if pos < 0 || pos >= src.len() {
        (TokenView::Invalid(LexError::UnterminatedString), pos)
    } else if src[pos] == 0x22 {
        (TokenView::String(text), pos + 1)
    } else if src[pos] == 0x5c {
        if pos + 1 >= src.len() {
            (TokenView::Invalid(LexError::UnterminatedString), pos)
        } else if src[pos + 1] == 0x22 || src[pos + 1] == 0x5c {
            quoted(src, pos + 2, text.push(src[pos + 1]))
        } else {
            (TokenView::Invalid(LexError::InvalidEscape), pos)
        }
    } else {
        quoted(src, pos + 1, text.push(src[pos]))
    }
}

/// The multi-line string whose lines start at `pos`, with what was read of
/// it before, and the place behind it. A line that holds only a dot ends the
/// string, and a line that starts with two dots stands for one that starts
/// with one.
pub open spec fn multiline(src: Seq<u8>, pos: int, fresh: bool, text: Seq<u8>) -> (TokenView, int)
    decreases src.len() - pos,
{
    if pos < 0 || pos >= src.len() {
        (TokenView::Invalid(LexError::UnterminatedString), pos)
    } else if fresh && src[pos] == 0x2e {
        if pos + 1 >= src.len() {
            (TokenView::String(text), pos + 1)
        } else if src[pos + 1] == 0x0a {
            (TokenView::String(text), pos + 2)
        } else if src[pos + 1] == 0x0d && pos + 2 < src.len() && src[pos + 2] == 0x0a {
            (TokenView::String(text), pos + 3)
        } else if src[pos + 1] == 0x2e {
            multiline(src, pos + 2, false, text.push(0x2e))
        } else {
            multiline(src, pos + 1, false, text.push(0x2e))
        }
    } else {
        multiline(src, pos + 1, src[pos] == 0x0a, text.push(src[pos]))
    }
}

/// Where the lines of a multi-line string start, given the place behind
/// `text:`; nowhere if the rest of that line holds more than a comment.
pub open spec fn lines_start(src: Seq<u8>, pos: int) -> Option<int> {
    let g = gap_end(src, pos);
    if g < 0 || g >= src.len() {
        None
    } else if src[g] == 0x23 {
        Some(line_end(src, g))
    } else if src[g] == 0x0a {
        Some(g + 1)
    } else if src[g] == 0x0d && g + 1 < src.len() && src[g + 1] == 0x0a {
        Some(g + 2)
    } else {
        None
    }
}

/// A string token if the text is valid UTF-8.
pub open spec fn checked(t: (TokenView, int)) -> (TokenView, int) {
    match t.0 {
        TokenView::String(text) => if valid_utf8(text) {
            t
        } else {
            (TokenView::Invalid(LexError::InvalidUtf8), t.1)
        },
        _ => t,
    }
}

/// The token of a punctuation mark.
pub open spec fn mark(b: u8) -> Option<TokenView> {
    if b == 0x5b {
        Some(TokenView::BracketOpen)
    } else if b == 0x5d {
        Some(TokenView::BracketClose)
    } else if b == 0x7b {
        Some(TokenView::CurlyOpen)
    } else if b == 0x7d {
        Some(TokenView::CurlyClose)
    } else if b == 0x28 {
        Some(TokenView::ParenthesisOpen)
    } else if b == 0x29 {
        Some(TokenView::ParenthesisClose)
    } else if b == 0x2c {
        Some(TokenView::Comma)
    } else if b == 0x3b {
        Some(TokenView::Semicolon)
    } else {
        None
    }
}

/// The token that a word is: a number where it starts with a digit, else a
/// reserved word; unknown where it is neither.
pub open spec fn word_token(text: Seq<u8>) -> TokenView {
    if text.len() > 0 && is_digit(text[0]) {
        match number_of(text) {
            Some(n) => TokenView::Number(n),
            None => TokenView::Unknown(text),
        }
    } else {
        match word_of(text) {
            Some(w) => TokenView::Identifier(w),
            None => TokenView::Unknown(text),
        }
    }
}

/// The token that starts at `pos`, which is a place in the text, and the
/// place behind it.
pub open spec fn lex_one(src: Seq<u8>, pos: int) -> (TokenView, int) {
    let b = src[pos];
    if b == 0x22 {
        checked(quoted(src, pos + 1, Seq::empty()))
    } else if b == 0x3a {
        let e = word_end(src, pos + 1);
        if e > pos + 1 {
            match word_of(src.subrange(pos + 1, e)) {
                Some(w) => (TokenView::Tag(w), e),
                None => (TokenView::Unknown(src.subrange(pos, e)), e),
            }
        } else {
            (TokenView::Unknown(src.subrange(pos, pos + 1)), pos + 1)
        }
    } else if is_word_byte(b) {
        let e = word_end(src, pos);
        let text = src.subrange(pos, e);
        if word_token(text) == TokenView::Identifier(Word::Text) && e < src.len() && src[e]
            == 0x3a {
            match lines_start(src, e + 1) {
                Some(start) => checked(multiline(src, start, true, Seq::empty())),
                None => (TokenView::Unknown(src.subrange(pos, e + 1)), e + 1),
            }
        } else {
            (word_token(text), e)
        }
    } else {
        match mark(b) {
            Some(t) => (t, pos + 1),
            None => (TokenView::Unknown(src.subrange(pos, pos + 1)), pos + 1),
        }
    }
}

/// The tokens of the text from `pos` on, each with its offset. The last one
/// is the end of the text, or what could not be read.
pub open spec fn lex_all(src: Seq<u8>, pos: int) -> Seq<(TokenView, int)>
    decreases src.len() - pos,
{
    let p = skip_blank(src, pos);
    if p < pos || p >= src.len() {
        seq![(TokenView::Eof, src.len() as int)]
    } else {
        let t = lex_one(src, p);
        if t.0 is Invalid || t.1 <= p || t.1 > src.len() {
            seq![(t.0, p)]
        } else {
            seq![(t.0, p)] + lex_all(src, t.1)
        }
    }
}

fn space(b: u8) -> (r: bool)
    ensures
        r == is_space(b),
{
    b == 0x20 || b == 0x09 || b == 0x0d || b == 0x0a
}

fn digit(b: u8) -> (r: bool)
    ensures
        r == is_digit(b),
{
    0x30 <= b && b <= 0x39
}

fn word_byte(b: u8) -> (r: bool)
    ensures
        r == is_word_byte(b),
{
    digit(b) || (0x41 <= b && b <= 0x5a) || (0x61 <= b && b <= 0x7a) || b == 0x5f
}

pub(crate) fn scan_word(src: &[u8], pos: usize) -> (e: usize)
    requires
        pos <= src.len(),
    ensures
        e == word_end(src@, pos as int),
        pos <= e <= src.len(),
{
    let mut i: usize = pos;
    while i < src.len() && word_byte(src[i])
        invariant
            pos <= i <= src.len(),
            word_end(src@, pos as int) == word_end(src@, i as int),
        decreases src.len() - i,
    {
        i += 1;
    }
    i
}

pub(crate) fn scan_digits(src: &[u8], pos: usize) -> (e: usize)
    requires
        pos <= src.len(),
    ensures
        e == digits_end(src@, pos as int),
        pos <= e <= src.len(),
{
    let mut i: usize = pos;
    while i < src.len() && digit(src[i])
        invariant
            pos <= i <= src.len(),
            digits_end(src@, pos as int) == digits_end(src@, i as int),
        decreases src.len() - i,
    {
        i += 1;
    }
    i
}

fn scan_gap(src: &[u8], pos: usize) -> (e: usize)
    requires
        pos <= src.len(),
    ensures
        e == gap_end(src@, pos as int),
        pos <= e <= src.len(),
{
    let mut i: usize = pos;
    while i < src.len() && (src[i] == 0x20 || src[i] == 0x09)
        invariant
            pos <= i <= src.len(),
            gap_end(src@, pos as int) == gap_end(src@, i as int),
        decreases src.len() - i,
    {
        i += 1;
    }
    i
}

fn scan_line(src: &[u8], pos: usize) -> (e: usize)
    requires
        pos <= src.len(),
    ensures
        e == line_end(src@, pos as int),
        pos <= e <= src.len(),
        pos < src.len() ==> pos < e,
{
    let mut i: usize = pos;
    while i < src.len()
        invariant
            pos <= i <= src.len(),
            line_end(src@, pos as int) == line_end(src@, i as int),
        decreases src.len() - i,
    {
        if src[i] == 0x0a {
            return i + 1;
        }
        i += 1;
    }
    i
}

fn scan_comment(src: &[u8], pos: usize) -> (e: usize)
    requires
        pos <= src.len(),
    ensures
        e == comment_end(src@, pos as int),
        pos <= e <= src.len(),
{
    let mut i: usize = pos;
    while i < src.len() && i + 1 < src.len()
        invariant
            pos <= i <= src.len(),
            comment_end(src@, pos as int) == comment_end(src@, i as int),
        decreases src.len() - i,
    {
        if src[i] == 0x2a && src[i + 1] == 0x2f {
            return i + 2;
        }
        i += 1;
    }
    src.len()
}

/// Skips white space and comments.
fn skip(src: &[u8], pos: usize) -> (p: usize)
    requires
        pos <= src.len(),
    ensures
        p == skip_blank(src@, pos as int),
        pos <= p <= src.len(),
{
    let mut i: usize = pos;
    while i < src.len()
        invariant
            pos <= i <= src.len(),
            skip_blank(src@, pos as int) == skip_blank(src@, i as int),
        decreases src.len() - i,
    {
        if space(src[i]) {
            i += 1;
        } else if src[i] == 0x23 {
            i = scan_line(src, i + 1);
        } else if src[i] == 0x2f && i + 1 < src.len() && src[i + 1] == 0x2a {
            i = scan_comment(src, i + 2);
        } else {
            return i;
        }
    }
    i
}

/// A number grows with each digit that is read.
proof fn lemma_decimal_grows(src: Seq<u8>, from: int, mid: int, to: int)
    requires
        from <= mid <= to,
    ensures
        decimal(src, from, mid) <= decimal(src, from, to),
    decreases to - mid,
{
    if mid < to {
        lemma_decimal_grows(src, from, mid, to - 1);
    }
}

/// The number under a size suffix, unless it is too large.
fn scaled(n: u64, scale: u64) -> (r: Option<u64>)
    requires
        scale == 1 || scale == 1024 || scale == 1048576 || scale == 1073741824,
    ensures
        r == if n * scale > u64::MAX {
            None
        } else {
            Some((n * scale) as u64)
        },
{
    if scale == 1 {
        Some(n)
    } else if scale == 1024 {
        if n > u64::MAX / 1024 {
            None
        } else {
            Some(n * 1024)
        }
    } else if scale == 1048576 {
        if n > u64::MAX / 1048576 {
            None
        } else {
            Some(n * 1048576)
        }
    } else {
        if n > u64::MAX / 1073741824 {
            None
        } else {
            Some(n * 1073741824)
        }
    }
}

fn scale(b: u8) -> (r: u64)
    ensures
        r == scale_of(b),
{
    if b == 0x4b || b == 0x6b {
        1024
    } else if b == 0x4d || b == 0x6d {
        1048576
    } else if b == 0x47 || b == 0x67 {
        1073741824
    } else {
        0
    }
}

/// Reads a word as a number.
pub(crate) fn parse_number(text: &[u8]) -> (r: Option<u64>)
    ensures
        r == number_of(text@),
{
    let d = scan_digits(text, 0);
    let factor: u64 = if d == text.len() {
        1
    } else if d + 1 == text.len() {
        scale(text[d])
    } else {
        0
    };
    if d == 0 || factor == 0 {
        return None;
    }
    let mut acc: u64 = 0;
    let mut i: usize = 0;
    while i < d
        invariant
            i <= d <= text.len(),
            acc == decimal(text@, 0, i as int),
            d == digits_end(text@, 0),
            digits_end(text@, 0) == digits_end(text@, i as int),
            factor == 1 || factor == 1024 || factor == 1048576 || factor == 1073741824,
            factor == if d == text@.len() {
                1
            } else if d + 1 == text@.len() {
                scale_of(text@[d as int])
            } else {
                0
            },
        decreases d - i,
    {
        let value = (text[i] - 0x30) as u64;
        if acc > (u64::MAX - value) / 10 {
            proof {
                assert(decimal(text@, 0, i + 1) == acc * 10 + value);
                lemma_decimal_grows(text@, 0, i + 1, d as int);
                let total = decimal(text@, 0, d as int);
                assert(total * factor >= total) by (nonlinear_arith)
                    requires
                        factor >= 1,
                ;
                assert(total * factor > u64::MAX);
            }
            return None;
        }
        acc = acc * 10 + value;
        i += 1;
    }
    scaled(acc, factor)
}

/// Reads a quoted string from behind its opening quote.
fn read_quoted(src: &[u8], pos: usize) -> (r: (Token, usize))
    requires
        pos <= src.len(),
    ensures
        (r.0@, r.1 as int) == quoted(src@, pos as int, Seq::empty()),
        pos <= r.1 <= src.len(),
{
    let mut text: Vec<u8> = Vec::new();
    let mut i: usize = pos;
    while i < src.len()
        invariant
            pos <= i <= src.len(),
            quoted(src@, pos as int, Seq::empty()) == quoted(src@, i as int, text@),
        decreases src.len() - i,
    {
        let b = src[i];
        if b == 0x22 {
            return (Token::String(text), i + 1);
        } else if b == 0x5c {
            if i + 1 >= src.len() {
                return (Token::Invalid(LexError::UnterminatedString), i);
            } else if src[i + 1] == 0x22 || src[i + 1] == 0x5c {
                text.push(src[i + 1]);
                i += 2;
            } else {
                return (Token::Invalid(LexError::InvalidEscape), i);
            }
        } else {
            text.push(b);
            i += 1;
        }
    }
    (Token::Invalid(LexError::UnterminatedString), i)
}

/// Reads a multi-line string from the start of its first line.
fn read_lines(src: &[u8], pos: usize) -> (r: (Token, usize))
    requires
        pos <= src.len(),
    ensures
        (r.0@, r.1 as int) == multiline(src@, pos as int, true, Seq::empty()),
        pos <= r.1 <= src.len(),
{
    let mut text: Vec<u8> = Vec::new();
    let mut fresh: bool = true;
    let mut i: usize = pos;
    while i < src.len()
        invariant
            pos <= i <= src.len(),
            multiline(src@, pos as int, true, Seq::empty()) == multiline(
                src@,
                i as int,
                fresh,
                text@,
            ),
        decreases src.len() - i,
    {
        let b = src[i];
        if fresh && b == 0x2e {
            if i + 1 >= src.len() {
                return (Token::String(text), i + 1);
            } else if src[i + 1] == 0x0a {
                return (Token::String(text), i + 2);
            } else if src[i + 1] == 0x0d && i + 2 < src.len() && src[i + 2] == 0x0a {
                return (Token::String(text), i + 3);
            } else if src[i + 1] == 0x2e {
                text.push(0x2e);
                fresh = false;
                i += 2;
            } else {
                text.push(0x2e);
                fresh = false;
                i += 1;
            }
        } else {
            text.push(b);
            fresh = b == 0x0a;
            i += 1;
        }
    }
    (Token::Invalid(LexError::UnterminatedString), i)
}

/// Finds the first line of a multi-line string.
fn find_lines(src: &[u8], pos: usize) -> (r: Option<usize>)
    requires
        pos <= src.len(),
    ensures
        r matches Some(start) ==> lines_start(src@, pos as int) == Some(start as int) && pos
            <= start <= src.len(),
        r is None ==> lines_start(src@, pos as int) is None,
{
    let g = scan_gap(src, pos);
    if g >= src.len() {
        None
    } else if src[g] == 0x23 {
        Some(scan_line(src, g))
    } else if src[g] == 0x0a {
        Some(g + 1)
    } else if src[g] == 0x0d && g + 1 < src.len() && src[g + 1] == 0x0a {
        Some(g + 2)
    } else {
        None
    }
}

/// Turns a string that is not valid UTF-8 into an error.
fn check(t: (Token, usize)) -> (r: (Token, usize))
    ensures
        (r.0@, r.1 as int) == checked((t.0@, t.1 as int)),
        r.1 == t.1,
{
    match t.0 {
        Token::String(text) => {
            if is_utf8(text.as_slice()) {
                (Token::String(text), t.1)
            } else {
                (Token::Invalid(LexError::InvalidUtf8), t.1)
            }
        },
        other => (other, t.1),
    }
}

/// The token that a word is.
fn read_word(text: &[u8]) -> (t: Token)
    ensures
        t@ == word_token(text@),
{
    assert(text@.subrange(0, text@.len() as int) == text@);
    if text.len() > 0 && digit(text[0]) {
        match parse_number(text) {
            Some(n) => Token::Number(n),
            None => Token::Unknown(copy_range(text, 0, text.len())),
        }
    } else {
        match Word::parse(text) {
            Some(w) => Token::Identifier(w),
            None => Token::Unknown(copy_range(text, 0, text.len())),
        }
    }
}

fn read_mark(b: u8) -> (r: Option<Token>)
    ensures
        match r {
            Some(t) => mark(b) == Some(t@),
            None => mark(b) is None,
        },
{
    if b == 0x5b {
        Some(Token::BracketOpen)
    } else if b == 0x5d {
        Some(Token::BracketClose)
    } else if b == 0x7b {
        Some(Token::CurlyOpen)
    } else if b == 0x7d {
        Some(Token::CurlyClose)
    } else if b == 0x28 {
        Some(Token::ParenthesisOpen)
    } else if b == 0x29 {
        Some(Token::ParenthesisClose)
    } else if b == 0x2c {
        Some(Token::Comma)
    } else if b == 0x3b {
        Some(Token::Semicolon)
    } else {
        None
    }
}

/// Reads the token at a place in the text.
fn lex(src: &[u8], pos: usize) -> (r: (Token, usize))
    requires
        pos < src.len(),
    ensures
        (r.0@, r.1 as int) == lex_one(src@, pos as int),
        r.1 <= src.len(),
{
    let b = src[pos];
    if b == 0x22 {
        check(read_quoted(src, pos + 1))
    } else if b == 0x3a {
        let e = scan_word(src, pos + 1);
        if e > pos + 1 {
            match Word::parse(vstd::slice::slice_subrange(src, pos + 1, e)) {
                Some(w) => (Token::Tag(w), e),
                None => (Token::Unknown(copy_range(src, pos, e)), e),
            }
        } else {
            (Token::Unknown(copy_range(src, pos, pos + 1)), pos + 1)
        }
    } else if word_byte(b) {
        let e = scan_word(src, pos);
        let token = read_word(vstd::slice::slice_subrange(src, pos, e));
        let lines = match &token {
            Token::Identifier(Word::Text) => e < src.len() && src[e] == 0x3a,
            _ => false,
        };
        if lines {
            match find_lines(src, e + 1) {
                Some(start) => check(read_lines(src, start)),
                None => (Token::Unknown(copy_range(src, pos, e + 1)), e + 1),
            }
        } else {
            (token, e)
        }
    } else {
        match read_mark(b) {
            Some(t) => (t, pos + 1),
            None => (Token::Unknown(copy_range(src, pos, pos + 1)), pos + 1),
        }
    }
}

/// Divides a script into its tokens.
pub fn tokenize(src: &[u8]) -> (r: Vec<TokenInfo>)
    ensures
        token_views(r@) == lex_all(src@, 0),
        forall|i: int| 0 <= i < r@.len() ==> (#[trigger] r@[i]).offset <= src@.len(),
{
    let mut out: Vec<TokenInfo> = Vec::new();
    let mut pos: usize = 0;
    loop
        invariant
            pos <= src.len(),
            lex_all(src@, 0) == token_views(out@) + lex_all(src@, pos as int),
            forall|i: int| 0 <= i < out@.len() ==> (#[trigger] out@[i]).offset <= src@.len(),
        decreases src.len() - pos,
    {
        let ghost before = token_views(out@);
        let p = skip(src, pos);
        if p >= src.len() {
            out.push(TokenInfo { token: Token::Eof, offset: src.len() });
            assert(token_views(out@) =~= before + seq![(TokenView::Eof, src@.len() as int)]);
            return out;
        }
        let (token, next) = lex(src, p);
        let stop = match &token {
            Token::Invalid(_) => true,
            _ => next <= p,
        };
        let ghost view = token@;
        out.push(TokenInfo { token, offset: p });
        assert(token_views(out@) =~= before + seq![(view, p as int)]);
        if stop {
            return out;
        }
        assert(before + (seq![(view, p as int)] + lex_all(src@, next as int)) =~= before + seq![
            (view, p as int),
        ] + lex_all(src@, next as int));
        pos = next;
    }
}

impl Token {
    /// A copy of the token.
    pub fn dup(&self) -> (t: Token)
        ensures
            t@ == self@,
    {
        match self {
            Token::Identifier(w) => Token::Identifier(*w),
            Token::Tag(w) => Token::Tag(*w),
            Token::String(s) => Token::String(s.clone()),
            Token::Number(n) => Token::Number(*n),
            Token::BracketOpen => Token::BracketOpen,
            Token::BracketClose => Token::BracketClose,
            Token::CurlyOpen => Token::CurlyOpen,
            Token::CurlyClose => Token::CurlyClose,
            Token::ParenthesisOpen => Token::ParenthesisOpen,
            Token::ParenthesisClose => Token::ParenthesisClose,
            Token::Comma => Token::Comma,
            Token::Semicolon => Token::Semicolon,
            Token::Unknown(s) => Token::Unknown(s.clone()),
            Token::Eof => Token::Eof,
            Token::Invalid(e) => Token::Invalid(*e),
        }
    }
}

/// The tokens of a script and how far they were read.
pub ghost struct Lexed {
    pub src: Seq<u8>,
    pub tokens: Seq<(TokenView, int)>,
    pub pos: int,
    pub scope: ScopeView,
}

impl Lexed {
    /// The token that is read next. Behind the last token the end of the
    /// script is read again and again.
    pub open spec fn peek(self) -> (TokenView, int) {
        if 0 <= self.pos < self.tokens.len() {
            self.tokens[self.pos]
        } else {
            (TokenView::Eof, self.src.len() as int)
        }
    }

    /// The tokens after one more was read.
    pub open spec fn advance(self) -> Lexed {
        if self.pos < self.tokens.len() {
            Lexed { pos: self.pos + 1, ..self }
        } else {
            self
        }
    }

    /// The error of a kind at an offset.
    pub open spec fn error(self, offset: int, kind: ErrorType) -> CompileError {
        located(self.src, offset, kind)
    }

    /// Reads a token that must be there and must be one.
    pub open spec fn unwrap_next(self) -> (Result<(TokenView, int), CompileError>, Lexed) {
        let t = self.peek();
        (
            match t.0 {
                TokenView::Invalid(e) => Err(self.error(t.1, lex_kind(e))),
                TokenView::Eof => Err(self.error(t.1, ErrorType::UnexpectedToken("more input"))),
                _ => Ok(t),
            },
            self.advance(),
        )
    }

    /// Reads a token that must be a string.
    pub open spec fn unwrap_string(self) -> (Result<StringItemView, CompileError>, Lexed) {
        let (r, v) = self.unwrap_next();
        (
            match r {
                Err(e) => Err(e),
                Ok((TokenView::String(text), _)) => Ok(item_of(text, self.scope)),
                Ok((_, offset)) => Err(self.error(offset, ErrorType::ExpectedString)),
            },
            v,
        )
    }

    /// Reads the rest of a string list, behind its opening bracket or a
    /// comma: a string, then a comma and more, or the closing bracket.
    pub open spec fn strings_rest(self, found: Seq<StringItemView>) -> (
        Result<Seq<StringItemView>, CompileError>,
        Lexed,
    )
        decreases self.tokens.len() - self.pos,
    {
        let (r, v) = self.unwrap_string();
        match r {
            Err(e) => (Err(e), v),
            Ok(item) => {
                let (r2, v2) = v.unwrap_next();
                match r2 {
                    Err(e) => (Err(e), v2),
                    Ok((TokenView::Comma, _)) => v2.strings_rest(found.push(item)),
                    Ok((TokenView::BracketClose, _)) => (Ok(found.push(item)), v2),
                    Ok((_, offset)) => (
                        Err(self.error(offset, ErrorType::UnexpectedToken("',' or ']'"))),
                        v2,
                    ),
                }
            },
        }
    }

    /// Reads a string list: strings between brackets with commas between
    /// them, or, where that is allowed, one string by itself.
    pub open spec fn parse_strings(self, allow_single: bool) -> (
        Result<Seq<StringItemView>, CompileError>,
        Lexed,
    ) {
        let (r, v) = self.unwrap_next();
        match r {
            Err(e) => (Err(e), v),
            Ok((TokenView::BracketOpen, _)) => v.strings_rest(Seq::empty()),
            Ok((TokenView::String(text), offset)) => if allow_single {
                (Ok(seq![item_of(text, self.scope)]), v)
            } else {
                (Err(self.error(offset, ErrorType::UnexpectedToken("'['"))), v)
            },
            Ok((_, offset)) => (Err(self.error(offset, ErrorType::UnexpectedToken("'['"))), v),
        }
    }
}

/// Reading the rest of a string list leaves the tokens as they are and
/// does not go back in them.
pub proof fn lemma_strings_rest(v: Lexed, found: Seq<StringItemView>)
    ensures
        v.strings_rest(found).1.pos >= v.pos,
        v.pos <= v.tokens.len() ==> v.strings_rest(found).1.pos <= v.tokens.len(),
        v.strings_rest(found).1.tokens == v.tokens,
        v.strings_rest(found).1.src == v.src,
        v.strings_rest(found).1.scope == v.scope,
    decreases v.tokens.len() - v.pos,
{
    let (r, v1) = v.unwrap_string();
    if let Ok(item) = r {
        let (r2, v2) = v1.unwrap_next();
        if let Ok((TokenView::Comma, _)) = r2 {
            lemma_strings_rest(v2, found.push(item));
        }
    }
}

/// Reading a string list leaves the tokens as they are and does not go back
/// in them.
pub proof fn lemma_parse_strings(v: Lexed, allow_single: bool)
    ensures
        v.parse_strings(allow_single).1.pos >= v.pos,
        v.pos <= v.tokens.len() ==> v.parse_strings(allow_single).1.pos <= v.tokens.len(),
        v.parse_strings(allow_single).1.tokens == v.tokens,
        v.parse_strings(allow_single).1.src == v.src,
        v.parse_strings(allow_single).1.scope == v.scope,
{
    let (r, v1) = v.unwrap_next();
    if let Ok((TokenView::BracketOpen, _)) = r {
        lemma_strings_rest(v1, Seq::empty());
    }
}

/// The tokens of a script, read one by one, and the names that its strings
/// may refer to.
pub struct Tokenizer<'x> {
    src: &'x [u8],
    tokens: Vec<TokenInfo>,
    pos: usize,
    scope: Scope,
}

/// What a list of strings is when it was read, as the contracts speak of it.
pub open spec fn listed(r: Result<Vec<StringItem>, CompileError>) -> Result<
    Seq<StringItemView>,
    CompileError,
> {
    match r {
        Ok(items) => Ok(item_views(items@)),
        Err(e) => Err(e),
    }
}

/// What a string is when it was read, as the contracts speak of it.
pub open spec fn read(r: Result<StringItem, CompileError>) -> Result<StringItemView, CompileError> {
    match r {
        Ok(item) => Ok(item@),
        Err(e) => Err(e),
    }
}

/// What a token is when it was read, as the contracts speak of it.
pub open spec fn taken(r: Result<TokenInfo, CompileError>) -> Result<(TokenView, int), CompileError> {
    match r {
        Ok(t) => Ok((t.token@, t.offset as int)),
        Err(e) => Err(e),
    }
}

impl<'x> Tokenizer<'x> {
    pub closed spec fn view(&self) -> Lexed {
        Lexed {
            src: self.src@,
            tokens: token_views(self.tokens@),
            pos: self.pos as int,
            scope: self.scope@,
        }
    }

    /// Whether the tokens lie in the text and were read no further than they
    /// go.
    pub closed spec fn wf(&self) -> bool {
        &&& self.pos <= self.tokens@.len()
        &&& forall|i: int|
            0 <= i < self.tokens@.len() ==> (#[trigger] self.tokens@[i]).offset <= self.src@.len()
    }

    /// What holds of valid tokens: every offset lies in the text.
    pub proof fn lemma_wf(&self)
        requires
            self.wf(),
        ensures
            0 <= self@.pos <= self@.tokens.len(),
            self@.peek().1 <= self@.src.len(),
    {
    }

    /// The tokens of a script, none of them read yet. Variables are not in
    /// use.
    pub fn new(src: &'x [u8]) -> (t: Tokenizer<'x>)
        ensures
            t.wf(),
            t@ == (Lexed {
                src: src@,
                tokens: lex_all(src@, 0),
                pos: 0,
                scope: ScopeView {
                    variables: false,
                    locals: Seq::empty(),
                    globals: Seq::empty(),
                },
            }),
    {
        let t = Tokenizer {
            src,
            tokens: tokenize(src),
            pos: 0,
            scope: Scope { variables: false, locals: Vec::new(), globals: Vec::new() },
        };
        assert(t.scope@.locals =~= Seq::empty());
        assert(t.scope@.globals =~= Seq::empty());
        t
    }

    /// The names that strings may refer to.
    pub fn scope(&self) -> (s: &Scope)
        ensures
            s@ == self@.scope,
    {
        &self.scope
    }

    /// Takes variables into use.
    pub fn use_variables(&mut self)
        requires
            old(self).wf(),
        ensures
            final(self).wf(),
            final(self)@ == (Lexed {
                scope: ScopeView { variables: true, ..old(self)@.scope },
                ..old(self)@
            }),
    {
        self.scope.variables = true;
    }

    /// Adds a local variable, whose slot is the place behind the others.
    pub fn push_local(&mut self, name: Vec<u8>)
        requires
            old(self).wf(),
        ensures
            final(self).wf(),
            final(self)@ == (Lexed {
                scope: ScopeView {
                    locals: old(self)@.scope.locals.push(name@),
                    ..old(self)@.scope
                },
                ..old(self)@
            }),
    {
        self.scope.locals.push(name);
        assert(self.scope@.locals =~= old(self).scope@.locals.push(name@));
    }

    /// Adds a global variable.
    pub fn push_global(&mut self, name: Vec<u8>)
        requires
            old(self).wf(),
        ensures
            final(self).wf(),
            final(self)@ == (Lexed {
                scope: ScopeView {
                    globals: old(self)@.scope.globals.push(name@),
                    ..old(self)@.scope
                },
                ..old(self)@
            }),
    {
        self.scope.globals.push(name);
        assert(self.scope@.globals =~= old(self).scope@.globals.push(name@));
    }

    /// Forgets the local variables from a slot on.
    pub fn truncate_locals(&mut self, len: usize)
        requires
            old(self).wf(),
            len <= old(self)@.scope.locals.len(),
        ensures
            final(self).wf(),
            final(self)@ == (Lexed {
                scope: ScopeView {
                    locals: old(self)@.scope.locals.take(len as int),
                    ..old(self)@.scope
                },
                ..old(self)@
            }),
    {
        self.scope.locals.truncate(len);
        assert(self.scope@.locals =~= old(self).scope@.locals.take(len as int));
    }

    /// The error of a kind at an offset.
    pub fn error(&self, offset: usize, kind: ErrorType) -> (e: CompileError)
        requires
            offset <= self@.src.len(),
        ensures
            e == self@.error(offset as int, kind),
    {
        CompileError::at(self.src, offset, kind)
    }

    /// The token that is read next.
    pub fn peek(&self) -> (t: TokenInfo)
        requires
            self.wf(),
        ensures
            (t.token@, t.offset as int) == self@.peek(),
            t.offset <= self@.src.len(),
    {
        if self.pos < self.tokens.len() {
            TokenInfo {
                token: self.tokens[self.pos].token.dup(),
                offset: self.tokens[self.pos].offset,
            }
        } else {
            TokenInfo { token: Token::Eof, offset: self.src.len() }
        }
    }

    /// Reads a token.
    pub fn next(&mut self) -> (t: TokenInfo)
        requires
            old(self).wf(),
        ensures
            final(self).wf(),
            (t.token@, t.offset as int) == old(self)@.peek(),
            t.offset <= old(self)@.src.len(),
            final(self)@ == old(self)@.advance(),
    {
        let t = self.peek();
        if self.pos < self.tokens.len() {
            self.pos += 1;
        }
        t
    }

    /// Reads a token that must be there and must be one.
    pub fn unwrap_next(&mut self) -> (r: Result<TokenInfo, CompileError>)
        requires
            old(self).wf(),
        ensures
            final(self).wf(),
            (taken(r), final(self)@) == old(self)@.unwrap_next(),
            r matches Ok(t) ==> t.offset <= old(self)@.src.len(),
            r is Ok ==> final(self)@.pos == old(self)@.pos + 1,
            final(self)@.pos >= old(self)@.pos,
            final(self)@.tokens == old(self)@.tokens,
            final(self)@.src == old(self)@.src,
            final(self)@.scope == old(self)@.scope,
    {
        let t = self.next();
        match t.token {
            Token::Invalid(e) => Err(CompileError::lexical(self.src, t.offset, e)),
            Token::Eof => Err(self.error(t.offset, ErrorType::UnexpectedToken("more input"))),
            _ => Ok(t),
        }
    }

    /// Reads a token that must be a string.
    pub fn unwrap_string(&mut self) -> (r: Result<StringItem, CompileError>)
        requires
            old(self).wf(),
        ensures
            final(self).wf(),
            (read(r), final(self)@) == old(self)@.unwrap_string(),
            r is Ok ==> final(self)@.pos == old(self)@.pos + 1,
            final(self)@.pos >= old(self)@.pos,
            final(self)@.tokens == old(self)@.tokens,
            final(self)@.src == old(self)@.src,
            final(self)@.scope == old(self)@.scope,
    {
        match self.unwrap_next() {
            Err(e) => Err(e),
            Ok(t) => match t.token {
                Token::String(text) => Ok(self.scope.item(text)),
                _ => Err(self.error(t.offset, ErrorType::ExpectedString)),
            },
        }
    }

    /// Reads a string list, or, where that is allowed, one string.
    pub fn parse_strings(&mut self, allow_single: bool) -> (r: Result<Vec<StringItem>, CompileError>)
        requires
            old(self).wf(),
        ensures
            final(self).wf(),
            (listed(r), final(self)@) == old(self)@.parse_strings(allow_single),
            final(self)@.pos >= old(self)@.pos,
            final(self)@.tokens == old(self)@.tokens,
            final(self)@.src == old(self)@.src,
            final(self)@.scope == old(self)@.scope,
    {
        let t = match self.unwrap_next() {
            Err(e) => {
                return Err(e);
            },
            Ok(t) => t,
        };
        match t.token {
            Token::BracketOpen => {},
            Token::String(text) => {
                if allow_single {
                    let mut items: Vec<StringItem> = Vec::new();
                    let item = self.scope.item(text);
                    items.push(item);
                    assert(item_views(items@) =~= seq![item@]);
                    return Ok(items);
                } else {
                    return Err(self.error(t.offset, ErrorType::UnexpectedToken("'['")));
                }
            },
            _ => {
                return Err(self.error(t.offset, ErrorType::UnexpectedToken("'['")));
            },
        }
        let ghost start = self@;
        let mut items: Vec<StringItem> = Vec::new();
        assert(item_views(items@) =~= Seq::empty());
        loop
            invariant
                self.wf(),
                self@.pos >= start.pos >= old(self)@.pos,
                self@.tokens == start.tokens,
                self@.src == start.src,
                self@.scope == start.scope,
                start.tokens == old(self)@.tokens,
                start.src == old(self)@.src,
                start.scope == old(self)@.scope,
                old(self)@.parse_strings(allow_single) == start.strings_rest(Seq::empty()),
                start.strings_rest(Seq::empty()) == self@.strings_rest(item_views(items@)),
            decreases self@.tokens.len() - self@.pos,
        {
            let ghost before = item_views(items@);
            let ghost here = self@;
            let item = match self.unwrap_string() {
                Err(e) => {
                    return Err(e);
                },
                Ok(item) => item,
            };
            items.push(item);
            assert(item_views(items@) =~= before.push(item@));
            let t = match self.unwrap_next() {
                Err(e) => {
                    return Err(e);
                },
                Ok(t) => t,
            };
            match t.token {
                Token::Comma => {},
                Token::BracketClose => {
                    return Ok(items);
                },
                _ => {
                    return Err(
                        CompileError::at(
                            self.src,
                            t.offset,
                            ErrorType::UnexpectedToken("',' or ']'"),
                        ),
                    );
                },
            }
        }
    }
}

} // verus!
