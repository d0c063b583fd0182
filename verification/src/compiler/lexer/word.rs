//! The reserved words of the language.

use vstd::prelude::*;
use vstd::utf8::*;
use vstd::string::*;
use crate::compiler::grammar::instruction::Collation;
use crate::runtime::condition::{same, same_text};

verus! {

/// A reserved word: the name of a command, of a test or of a tag.
#[derive(Debug, Clone, Copy, PartialEq, Eq, Structural)]
pub enum Word {
    Require,
    If,
    ElsIf,
    Else,
    Keep,
    Discard,
    Stop,
    FileInto,
    Redirect,
    Reject,
    Ereject,
    SetVariable,
    Notify,
    ForEveryPart,
    Break,
    Include,
    Return,
    Error,
    Global,
    SetFlag,
    AddFlag,
    RemoveFlag,
    True,
    False,
    Not,
    AnyOf,
    AllOf,
    Header,
    String,
    Exists,
    Size,
    Envelope,
    Duplicate,
    Is,
    Contains,
    Comparator,
    Over,
    Under,
    Copy,
    Create,
    Flags,
    MailboxId,
    SpecialUse,
    From,
    Message,
    Importance,
    Options,
    Fcc,
    Once,
    Name,
    Handle,
    UniqueId,
    Seconds,
    Last,
    Text,
    Vacation,
    Days,
    Subject,
    Addresses,
    Mime,
    AddHeader,
    DeleteHeader,
    Replace,
    Enclose,
    ExtractText,
    Convert,
    Headers,
    First,
    SpamTest,
    VirusTest,
    Environment,
    Percent,
    List,
}

/// The number of reserved words.
pub const WORDS: usize = 73;

/// The reserved word at a place of the table, with its spelling.
pub open spec fn entry(i: int) -> (Word, Seq<char>) {
    if i == 0 {
        (Word::Require, "require"@)
    } else if i == 1 {
        (Word::If, "if"@)
    } else if i == 2 {
        (Word::ElsIf, "elsif"@)
    } else if i == 3 {
        (Word::Else, "else"@)
    } else if i == 4 {
        (Word::Keep, "keep"@)
    } else if i == 5 {
        (Word::Discard, "discard"@)
    } else if i == 6 {
        (Word::Stop, "stop"@)
    } else if i == 7 {
        (Word::FileInto, "fileinto"@)
    } else if i == 8 {
        (Word::Redirect, "redirect"@)
    } else if i == 9 {
        (Word::Reject, "reject"@)
    } else if i == 10 {
        (Word::Ereject, "ereject"@)
    } else if i == 11 {
        (Word::SetVariable, "set"@)
    } else if i == 12 {
        (Word::Notify, "notify"@)
    } else if i == 13 {
        (Word::ForEveryPart, "foreverypart"@)
    } else if i == 14 {
        (Word::Break, "break"@)
    } else if i == 15 {
        (Word::Include, "include"@)
    } else if i == 16 {
        (Word::Return, "return"@)
    } else if i == 17 {
        (Word::Error, "error"@)
    } else if i == 18 {
        (Word::Global, "global"@)
    } else if i == 19 {
        (Word::SetFlag, "setflag"@)
    } else if i == 20 {
        (Word::AddFlag, "addflag"@)
    } else if i == 21 {
        (Word::RemoveFlag, "removeflag"@)
    } else if i == 22 {
        (Word::True, "true"@)
    } else if i == 23 {
        (Word::False, "false"@)
    } else if i == 24 {
        (Word::Not, "not"@)
    } else if i == 25 {
        (Word::AnyOf, "anyof"@)
    } else if i == 26 {
        (Word::AllOf, "allof"@)
    } else if i == 27 {
        (Word::Header, "header"@)
    } else if i == 28 {
        (Word::String, "string"@)
    } else if i == 29 {
        (Word::Exists, "exists"@)
    } else if i == 30 {
        (Word::Size, "size"@)
    } else if i == 31 {
        (Word::Envelope, "envelope"@)
    } else if i == 32 {
        (Word::Duplicate, "duplicate"@)
    } else if i == 33 {
        (Word::Is, "is"@)
    } else if i == 34 {
        (Word::Contains, "contains"@)
    } else if i == 35 {
        (Word::Comparator, "comparator"@)
    } else if i == 36 {
        (Word::Over, "over"@)
    } else if i == 37 {
        (Word::Under, "under"@)
    } else if i == 38 {
        (Word::Copy, "copy"@)
    } else if i == 39 {
        (Word::Create, "create"@)
    } else if i == 40 {
        (Word::Flags, "flags"@)
    } else if i == 41 {
        (Word::MailboxId, "mailboxid"@)
    } else if i == 42 {
        (Word::SpecialUse, "specialuse"@)
    } else if i == 43 {
        (Word::From, "from"@)
    } else if i == 44 {
        (Word::Message, "message"@)
    } else if i == 45 {
        (Word::Importance, "importance"@)
    } else if i == 46 {
        (Word::Options, "options"@)
    } else if i == 47 {
        (Word::Fcc, "fcc"@)
    } else if i == 48 {
        (Word::Once, "once"@)
    } else if i == 49 {
        (Word::Name, "name"@)
    } else if i == 50 {
        (Word::Handle, "handle"@)
    } else if i == 51 {
        (Word::UniqueId, "uniqueid"@)
    } else if i == 52 {
        (Word::Seconds, "seconds"@)
    } else if i == 53 {
        (Word::Last, "last"@)
    } else if i == 54 {
        (Word::Text, "text"@)
    } else if i == 55 {
        (Word::Vacation, "vacation"@)
    } else if i == 56 {
        (Word::Days, "days"@)
    } else if i == 57 {
        (Word::Subject, "subject"@)
    } else if i == 58 {
        (Word::Addresses, "addresses"@)
    } else if i == 59 {
        (Word::Mime, "mime"@)
    } else if i == 60 {
        (Word::AddHeader, "addheader"@)
    } else if i == 61 {
        (Word::DeleteHeader, "deleteheader"@)
    } else if i == 62 {
        (Word::Replace, "replace"@)
    } else if i == 63 {
        (Word::Enclose, "enclose"@)
    } else if i == 64 {
        (Word::ExtractText, "extracttext"@)
    } else if i == 65 {
        (Word::Convert, "convert"@)
    } else if i == 66 {
        (Word::Headers, "headers"@)
    } else if i == 67 {
        (Word::First, "first"@)
    } else if i == 68 {
        (Word::SpamTest, "spamtest"@)
    } else if i == 69 {
        (Word::VirusTest, "virustest"@)
    } else if i == 70 {
        (Word::Environment, "environment"@)
    } else if i == 71 {
        (Word::Percent, "percent"@)
    } else {
        (Word::List, "list"@)
    }
}

/// Whether a text spells the word at a place of the table, whatever the case
/// of its letters.
pub open spec fn spells(text: Seq<u8>, i: int) -> bool {
    same_text(Collation::AsciiCaseMap, text, encode_utf8(entry(i).1))
}

/// The first word of the table, from a place on, that a text spells.
pub open spec fn word_from(text: Seq<u8>, i: int) -> Option<Word>
    decreases WORDS - i,
{
    if i < 0 || i >= WORDS {
        None
    } else if spells(text, i) {
        Some(entry(i).0)
    } else {
        word_from(text, i + 1)
    }
}

/// The reserved word that a text spells, if it spells one.
pub open spec fn word_of(text: Seq<u8>) -> Option<Word> {
    word_from(text, 0)
}

fn entry_at(i: usize) -> (r: (Word, &'static str))
    requires
        i < WORDS,
    ensures
        r.0 == entry(i as int).0,
        r.1@ == entry(i as int).1,
{
    match i {
        0 => (Word::Require, "require"),
        1 => (Word::If, "if"),
        2 => (Word::ElsIf, "elsif"),
        3 => (Word::Else, "else"),
        4 => (Word::Keep, "keep"),
        5 => (Word::Discard, "discard"),
        6 => (Word::Stop, "stop"),
        7 => (Word::FileInto, "fileinto"),
        8 => (Word::Redirect, "redirect"),
        9 => (Word::Reject, "reject"),
        10 => (Word::Ereject, "ereject"),
        11 => (Word::SetVariable, "set"),
        12 => (Word::Notify, "notify"),
        13 => (Word::ForEveryPart, "foreverypart"),
        14 => (Word::Break, "break"),
        15 => (Word::Include, "include"),
        16 => (Word::Return, "return"),
        17 => (Word::Error, "error"),
        18 => (Word::Global, "global"),
        19 => (Word::SetFlag, "setflag"),
        20 => (Word::AddFlag, "addflag"),
        21 => (Word::RemoveFlag, "removeflag"),
        22 => (Word::True, "true"),
        23 => (Word::False, "false"),
        24 => (Word::Not, "not"),
        25 => (Word::AnyOf, "anyof"),
        26 => (Word::AllOf, "allof"),
        27 => (Word::Header, "header"),
        28 => (Word::String, "string"),
        29 => (Word::Exists, "exists"),
        30 => (Word::Size, "size"),
        31 => (Word::Envelope, "envelope"),
        32 => (Word::Duplicate, "duplicate"),
        33 => (Word::Is, "is"),
        34 => (Word::Contains, "contains"),
        35 => (Word::Comparator, "comparator"),
        36 => (Word::Over, "over"),
        37 => (Word::Under, "under"),
        38 => (Word::Copy, "copy"),
        39 => (Word::Create, "create"),
        40 => (Word::Flags, "flags"),
        41 => (Word::MailboxId, "mailboxid"),
        42 => (Word::SpecialUse, "specialuse"),
        43 => (Word::From, "from"),
        44 => (Word::Message, "message"),
        45 => (Word::Importance, "importance"),
        46 => (Word::Options, "options"),
        47 => (Word::Fcc, "fcc"),
        48 => (Word::Once, "once"),
        49 => (Word::Name, "name"),
        50 => (Word::Handle, "handle"),
        51 => (Word::UniqueId, "uniqueid"),
        52 => (Word::Seconds, "seconds"),
        53 => (Word::Last, "last"),
        54 => (Word::Text, "text"),
        55 => (Word::Vacation, "vacation"),
        56 => (Word::Days, "days"),
        57 => (Word::Subject, "subject"),
        58 => (Word::Addresses, "addresses"),
        59 => (Word::Mime, "mime"),
        60 => (Word::AddHeader, "addheader"),
        61 => (Word::DeleteHeader, "deleteheader"),
        62 => (Word::Replace, "replace"),
        63 => (Word::Enclose, "enclose"),
        64 => (Word::ExtractText, "extracttext"),
        65 => (Word::Convert, "convert"),
        66 => (Word::Headers, "headers"),
        67 => (Word::First, "first"),
        68 => (Word::SpamTest, "spamtest"),
        69 => (Word::VirusTest, "virustest"),
        70 => (Word::Environment, "environment"),
        71 => (Word::Percent, "percent"),
        _ => (Word::List, "list"),
    }
}

impl Word {
    /// Looks a text up among the reserved words.
    pub fn parse(text: &[u8]) -> (r: Option<Word>)
        ensures
            r == word_of(text@),
    {
        let mut i: usize = 0;
        while i < WORDS
            invariant
                i <= WORDS,
                word_of(text@) == word_from(text@, i as int),
            decreases WORDS - i,
        {
            let (word, spelling) = entry_at(i);
            if same(Collation::AsciiCaseMap, text, spelling.as_bytes()) {
                return Some(word);
            }
            i += 1;
        }
        None
    }
}

} // verus!
