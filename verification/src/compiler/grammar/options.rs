//! The state of a compilation, and the tagged arguments that commands and
//! tests take.

use vstd::prelude::*;
use vstd::utf8::*;
use vstd::string::*;
use crate::compiler::error::{CompileError, ErrorType};
use crate::compiler::grammar::capability::Capability;
use crate::compiler::grammar::instruction::{Collation, MatchType, Period};
use crate::compiler::lexer::tokenizer::{
    lemma_parse_strings,
    listed,
    read,
    Lexed,
    Token,
    TokenView,
    Tokenizer,
};
use crate::compiler::lexer::word::Word;
use crate::polyfill::bytes_eq;
use crate::runtime::event::{allowed_in, is_among};
use crate::runtime::machine::MAX_LOCAL_VARIABLES;
use crate::runtime::string::{item_view, item_views, texts, StringItem, StringItemView};

verus! {

/// What takes tagged arguments.
#[derive(Debug, Clone, Copy, PartialEq, Eq, Structural)]
pub enum Shape {
    Keep,
    FileInto,
    Redirect,
    Include,
    Loop,
    Break,
    Match,
    Size,
    Duplicate,
    Vacation,
    StringMatch,
    SpamTest,
    AddHeader,
    Replace,
    Enclose,
    ExtractText,
    Plain,
}

/// The tagged arguments that were read.
#[derive(Debug)]
pub struct Options {
    pub copy: bool,
    pub create: bool,
    pub once: bool,
    pub last: bool,
    pub over: Option<bool>,
    pub match_type: MatchType,
    pub collation: Collation,
    pub flags: Vec<StringItem>,
    pub mailbox_id: Option<StringItem>,
    pub special_use: Option<StringItem>,
    pub name: Option<StringItem>,
    pub handle: Option<StringItem>,
    pub unique_id: Option<StringItem>,
    pub seconds: Option<u64>,
    pub period: Period,
    pub mime: bool,
    pub subject: Option<StringItem>,
    pub from: Option<StringItem>,
    pub fcc: Option<StringItem>,
    pub addresses: Vec<StringItem>,
    pub percent: bool,
    pub first: Option<u64>,
    pub headers: Vec<StringItem>,
}

pub ghost struct OptionsView {
    pub copy: bool,
    pub create: bool,
    pub once: bool,
    pub last: bool,
    pub over: Option<bool>,
    pub match_type: MatchType,
    pub collation: Collation,
    pub flags: Seq<StringItemView>,
    pub mailbox_id: Option<StringItemView>,
    pub special_use: Option<StringItemView>,
    pub name: Option<StringItemView>,
    pub handle: Option<StringItemView>,
    pub unique_id: Option<StringItemView>,
    pub seconds: Option<u64>,
    pub period: Period,
    pub mime: bool,
    pub subject: Option<StringItemView>,
    pub from: Option<StringItemView>,
    pub fcc: Option<StringItemView>,
    pub addresses: Seq<StringItemView>,
    pub percent: bool,
    pub first: Option<u64>,
    pub headers: Seq<StringItemView>,
}

impl View for Options {
    type V = OptionsView;

    open spec fn view(&self) -> OptionsView {
        OptionsView {
            copy: self.copy,
            create: self.create,
            once: self.once,
            last: self.last,
            over: self.over,
            match_type: self.match_type,
            collation: self.collation,
            flags: item_views(self.flags@),
            mailbox_id: item_view(self.mailbox_id),
            special_use: item_view(self.special_use),
            name: item_view(self.name),
            handle: item_view(self.handle),
            unique_id: item_view(self.unique_id),
            seconds: self.seconds,
            period: self.period,
            mime: self.mime,
            subject: item_view(self.subject),
            from: item_view(self.from),
            fcc: item_view(self.fcc),
            addresses: item_views(self.addresses@),
            percent: self.percent,
            first: self.first,
            headers: item_views(self.headers@),
        }
    }
}

impl OptionsView {
    /// No tagged argument: a match is then for equality, whatever the case
    /// of the letters.
    pub open spec fn none() -> OptionsView {
        OptionsView {
            copy: false,
            create: false,
            once: false,
            last: false,
            over: None,
            match_type: MatchType::Is,
            collation: Collation::AsciiCaseMap,
            flags: Seq::empty(),
            mailbox_id: None,
            special_use: None,
            name: None,
            handle: None,
            unique_id: None,
            seconds: None,
            period: Period::Default,
            mime: false,
            subject: None,
            from: None,
            fcc: None,
            addresses: Seq::empty(),
            percent: false,
            first: None,
            headers: Seq::empty(),
        }
    }

    /// Whether an option of `:fcc` was given without `:fcc` itself.
    pub open spec fn lacks_fcc(self) -> bool {
        self.fcc is None && (self.create || self.flags.len() > 0 || self.special_use is Some
            || self.mailbox_id is Some)
    }
}

/// Whether something of a shape takes a tag.
pub open spec fn accepts(shape: Shape, tag: Word) -> bool {
    match shape {
        Shape::Keep => tag == Word::Flags,
        Shape::FileInto => tag == Word::Copy || tag == Word::Create || tag == Word::Flags || tag
            == Word::MailboxId || tag == Word::SpecialUse,
        Shape::Redirect => tag == Word::Copy,
        Shape::Include => tag == Word::Once,
        Shape::Loop => tag == Word::Name,
        Shape::Break => tag == Word::Name,
        Shape::Match => tag == Word::Is || tag == Word::Contains || tag == Word::Comparator,
        Shape::StringMatch => tag == Word::Is || tag == Word::Contains || tag == Word::Comparator
            || tag == Word::List,
        Shape::SpamTest => tag == Word::Is || tag == Word::Contains || tag == Word::Comparator
            || tag == Word::Percent,
        Shape::AddHeader => tag == Word::Last,
        Shape::Replace => tag == Word::Mime || tag == Word::Subject || tag == Word::From,
        Shape::Enclose => tag == Word::Subject || tag == Word::Headers,
        Shape::ExtractText => tag == Word::First,
        Shape::Size => tag == Word::Over || tag == Word::Under,
        Shape::Duplicate => tag == Word::Handle || tag == Word::UniqueId || tag == Word::Seconds
            || tag == Word::Last,
        Shape::Vacation => tag == Word::Days || tag == Word::Seconds || tag == Word::Subject
            || tag == Word::From || tag == Word::Addresses || tag == Word::Mime || tag
            == Word::Handle || tag == Word::Fcc || tag == Word::Create || tag == Word::Flags
            || tag == Word::SpecialUse || tag == Word::MailboxId,
        Shape::Plain => false,
    }
}

/// The capability that a tag belongs to where something of a shape takes
/// it, if it belongs to one. Of the tags of `vacation` only that for a
/// period in seconds and that for a copy do.
pub open spec fn tag_capability(shape: Shape, tag: Word) -> Option<Capability> {
    if shape == Shape::Vacation {
        match tag {
            Word::Seconds => Some(Capability::VacationSeconds),
            Word::Fcc => Some(Capability::Fcc),
            _ => None,
        }
    } else {
        match tag {
            Word::Copy => Some(Capability::Copy),
            Word::Create => Some(Capability::Mailbox),
            Word::Flags => Some(Capability::Imap4Flags),
            Word::MailboxId => Some(Capability::MailboxId),
            Word::SpecialUse => Some(Capability::SpecialUse),
            Word::List => Some(Capability::ExtLists),
            Word::Percent => Some(Capability::SpamTestPlus),
            _ => None,
        }
    }
}

/// What a tag without an argument makes of the arguments read so far.
pub open spec fn with_flag(o: OptionsView, tag: Word) -> OptionsView {
    match tag {
        Word::Copy => OptionsView { copy: true, ..o },
        Word::Create => OptionsView { create: true, ..o },
        Word::Once => OptionsView { once: true, ..o },
        Word::Last => OptionsView { last: true, ..o },
        Word::Over => OptionsView { over: Some(true), ..o },
        Word::Under => OptionsView { over: Some(false), ..o },
        Word::Is => OptionsView { match_type: MatchType::Is, ..o },
        Word::Contains => OptionsView { match_type: MatchType::Contains, ..o },
        Word::Mime => OptionsView { mime: true, ..o },
        Word::Percent => OptionsView { percent: true, ..o },
        Word::List => OptionsView { match_type: MatchType::List, ..o },
        _ => o,
    }
}

/// What a tag with a string makes of the arguments read so far.
pub open spec fn with_text(o: OptionsView, tag: Word, s: StringItemView) -> OptionsView {
    match tag {
        Word::MailboxId => OptionsView { mailbox_id: Some(s), ..o },
        Word::SpecialUse => OptionsView { special_use: Some(s), ..o },
        Word::Name => OptionsView { name: Some(s), ..o },
        Word::Handle => OptionsView { handle: Some(s), ..o },
        Word::UniqueId => OptionsView { unique_id: Some(s), ..o },
        Word::Subject => OptionsView { subject: Some(s), ..o },
        Word::From => OptionsView { from: Some(s), ..o },
        Word::Fcc => OptionsView { fcc: Some(s), ..o },
        _ => o,
    }
}

/// Whether a tag takes a string.
pub open spec fn takes_text(tag: Word) -> bool {
    tag == Word::MailboxId || tag == Word::SpecialUse || tag == Word::Name || tag == Word::Handle
        || tag == Word::UniqueId || tag == Word::Subject || tag == Word::From || tag == Word::Fcc
}

/// What a tag with a string list makes of the arguments read so far.
pub open spec fn with_strings(o: OptionsView, tag: Word, list: Seq<StringItemView>) -> OptionsView {
    match tag {
        Word::Flags => OptionsView { flags: list, ..o },
        Word::Addresses => OptionsView { addresses: list, ..o },
        Word::Headers => OptionsView { headers: list, ..o },
        _ => o,
    }
}

/// What a tag with a number makes of the arguments read so far.
pub open spec fn with_number(o: OptionsView, tag: Word, n: u64) -> OptionsView {
    match tag {
        Word::Seconds => OptionsView { seconds: Some(n), period: Period::Seconds(n), ..o },
        Word::Days => OptionsView { period: Period::Days(n), ..o },
        Word::First => OptionsView { first: Some(n), ..o },
        _ => o,
    }
}

/// The collation that a comparator name stands for, if it is one that this
/// engine has.
pub open spec fn collation_of(name: Seq<u8>) -> Option<Collation> {
    if name == encode_utf8("i;octet"@) {
        Some(Collation::Octet)
    } else if name == encode_utf8("i;ascii-casemap"@) {
        Some(Collation::AsciiCaseMap)
    } else {
        None
    }
}

/// A compilation under way: the tokens and how far they were read, the
/// capabilities that were required, the names of the loops that are open,
/// and the most local variables that were in use at once.
pub ghost struct Parsing {
    pub lexed: Lexed,
    pub required: Seq<Capability>,
    pub loops: Seq<Seq<u8>>,
    pub num_vars: nat,
}

/// Reading the argument of a tag leaves the tokens as they are and does not
/// go back in them.
pub proof fn lemma_option(v: Parsing, shape: Shape, o: OptionsView, tag: Word, offset: int)
    ensures
        v.option(shape, o, tag, offset).1.follows(v),
        v.lexed.pos <= v.lexed.tokens.len() ==> v.option(shape, o, tag, offset).1.lexed.pos
            <= v.lexed.tokens.len(),
{
    lemma_parse_strings(v.lexed, true);
}

impl Parsing {
    /// The compilation with the tokens read further.
    pub open spec fn at(self, lexed: Lexed) -> Parsing {
        Parsing { lexed, ..self }
    }

    /// The error of a kind at an offset.
    pub open spec fn error(self, offset: int, kind: ErrorType) -> CompileError {
        self.lexed.error(offset, kind)
    }

    /// Whether a capability was required.
    pub open spec fn has(self, c: Capability) -> bool {
        allowed_in(self.required, c)
    }

    /// The capability that something needs and that was not required.
    pub open spec fn lacks(self, needed: Option<Capability>) -> Option<Capability> {
        match needed {
            Some(c) => if self.has(c) {
                None
            } else {
                Some(c)
            },
            None => None,
        }
    }

    /// Reads a token that must be a given mark.
    pub open spec fn expect(self, mark: TokenView, what: &'static str) -> (
        Result<(), CompileError>,
        Parsing,
    ) {
        let (r, v) = self.lexed.unwrap_next();
        (
            match r {
                Err(e) => Err(e),
                Ok((t, offset)) => if t == mark {
                    Ok(())
                } else {
                    Err(self.error(offset, ErrorType::UnexpectedToken(what)))
                },
            },
            self.at(v),
        )
    }

    /// Whether the tokens are those of another state of the compilation and
    /// were read at least as far.
    pub open spec fn follows(self, old: Parsing) -> bool {
        &&& self.lexed.tokens == old.lexed.tokens
        &&& self.lexed.src == old.lexed.src
        &&& self.lexed.pos >= old.lexed.pos
    }

    /// Whether the names, the capabilities and the loops are those of
    /// another state of the compilation.
    pub open spec fn keeps(self, old: Parsing) -> bool {
        &&& self.lexed.scope == old.lexed.scope
        &&& self.required == old.required
        &&& self.loops == old.loops
        &&& self.num_vars == old.num_vars
    }

    /// Whether the tokens were read further than in another state and not
    /// beyond their end.
    pub open spec fn beyond(self, old: Parsing) -> bool {
        0 <= self.lexed.tokens.len() - self.lexed.pos < old.lexed.tokens.len() - old.lexed.pos
    }

    /// Reads a string.
    pub open spec fn string(self) -> (Result<StringItemView, CompileError>, Parsing) {
        let (r, l) = self.lexed.unwrap_string();
        (r, self.at(l))
    }

    /// Reads a string list, or one string.
    pub open spec fn strings(self) -> (Result<Seq<StringItemView>, CompileError>, Parsing) {
        let (r, l) = self.lexed.parse_strings(true);
        (r, self.at(l))
    }

    /// Reads a token that must be a number.
    pub open spec fn number(self) -> (Result<u64, CompileError>, Parsing) {
        let (r, v) = self.lexed.unwrap_next();
        (
            match r {
                Err(e) => Err(e),
                Ok((TokenView::Number(n), _)) => Ok(n),
                Ok((_, offset)) => Err(self.error(offset, ErrorType::ExpectedNumber)),
            },
            self.at(v),
        )
    }

    /// Reads the argument of a tag, which stands at `offset`, from behind
    /// the tag. The tag must be one that the shape takes and whose
    /// capability was required.
    pub open spec fn option(self, shape: Shape, o: OptionsView, tag: Word, offset: int) -> (
        Result<OptionsView, CompileError>,
        Parsing,
    ) {
        if !accepts(shape, tag) {
            (Err(self.error(offset, ErrorType::InvalidTag)), self)
        } else if self.lacks(tag_capability(shape, tag)) is Some {
            (
                Err(
                    self.error(
                        offset,
                        ErrorType::MissingRequire(self.lacks(tag_capability(shape, tag))->Some_0),
                    ),
                ),
                self,
            )
        } else if takes_text(tag) {
            let (r, v) = self.string();
            match r {
                Err(e) => (Err(e), v),
                Ok(s) => (Ok(with_text(o, tag, s)), v),
            }
        } else if tag == Word::Flags || tag == Word::Addresses || tag == Word::Headers {
            let (r, v) = self.strings();
            match r {
                Err(e) => (Err(e), v),
                Ok(list) => (Ok(with_strings(o, tag, list)), v),
            }
        } else if tag == Word::Seconds || tag == Word::Days || tag == Word::First {
            let (r, v) = self.number();
            match r {
                Err(e) => (Err(e), v),
                Ok(n) => (Ok(with_number(o, tag, n)), v),
            }
        } else if tag == Word::Comparator {
            let (r, l) = self.lexed.unwrap_next();
            let v = self.at(l);
            match r {
                Err(e) => (Err(e), v),
                Ok((TokenView::String(name), at)) => match collation_of(name) {
                    Some(c) => (Ok(OptionsView { collation: c, ..o }), v),
                    None => (
                        Err(self.error(at, ErrorType::InvalidCombination("unknown comparator"))),
                        v,
                    ),
                },
                Ok((_, at)) => (Err(self.error(at, ErrorType::ExpectedString)), v),
            }
        } else {
            (Ok(with_flag(o, tag)), self)
        }
    }

    /// Reads the tagged arguments of something of a shape: all the tags that
    /// follow, each with its argument. Of two tags of a kind the last
    /// counts.
    pub open spec fn options(self, shape: Shape, o: OptionsView) -> (
        Result<OptionsView, CompileError>,
        Parsing,
    )
        decreases self.lexed.tokens.len() - self.lexed.pos,
    {
        match self.lexed.peek() {
            (TokenView::Tag(tag), offset) => {
                let (r, v) = self.at(self.lexed.advance()).option(shape, o, tag, offset);
                match r {
                    Err(e) => (Err(e), v),
                    Ok(next) => {
                        proof {
                            lemma_option(self.at(self.lexed.advance()), shape, o, tag, offset);
                        }
                        v.options(shape, next)
                    },
                }
            },
            _ => (Ok(o), self),
        }
    }
}

fn shape_accepts(shape: Shape, tag: Word) -> (r: bool)
    ensures
        r == accepts(shape, tag),
{
    match shape {
        Shape::Keep => tag == Word::Flags,
        Shape::FileInto => tag == Word::Copy || tag == Word::Create || tag == Word::Flags || tag
            == Word::MailboxId || tag == Word::SpecialUse,
        Shape::Redirect => tag == Word::Copy,
        Shape::Include => tag == Word::Once,
        Shape::Loop => tag == Word::Name,
        Shape::Break => tag == Word::Name,
        Shape::Match => tag == Word::Is || tag == Word::Contains || tag == Word::Comparator,
        Shape::StringMatch => tag == Word::Is || tag == Word::Contains || tag == Word::Comparator
            || tag == Word::List,
        Shape::SpamTest => tag == Word::Is || tag == Word::Contains || tag == Word::Comparator
            || tag == Word::Percent,
        Shape::AddHeader => tag == Word::Last,
        Shape::Replace => tag == Word::Mime || tag == Word::Subject || tag == Word::From,
        Shape::Enclose => tag == Word::Subject || tag == Word::Headers,
        Shape::ExtractText => tag == Word::First,
        Shape::Size => tag == Word::Over || tag == Word::Under,
        Shape::Duplicate => tag == Word::Handle || tag == Word::UniqueId || tag == Word::Seconds
            || tag == Word::Last,
        Shape::Vacation => tag == Word::Days || tag == Word::Seconds || tag == Word::Subject
            || tag == Word::From || tag == Word::Addresses || tag == Word::Mime || tag
            == Word::Handle || tag == Word::Fcc || tag == Word::Create || tag == Word::Flags
            || tag == Word::SpecialUse || tag == Word::MailboxId,
        Shape::Plain => false,
    }
}

fn capability_of_tag(shape: Shape, tag: Word) -> (r: Option<Capability>)
    ensures
        r == tag_capability(shape, tag),
{
    if shape == Shape::Vacation {
        match tag {
            Word::Seconds => Some(Capability::VacationSeconds),
            Word::Fcc => Some(Capability::Fcc),
            _ => None,
        }
    } else {
        match tag {
            Word::Copy => Some(Capability::Copy),
            Word::Create => Some(Capability::Mailbox),
            Word::Flags => Some(Capability::Imap4Flags),
            Word::MailboxId => Some(Capability::MailboxId),
            Word::SpecialUse => Some(Capability::SpecialUse),
            Word::List => Some(Capability::ExtLists),
            Word::Percent => Some(Capability::SpamTestPlus),
            _ => None,
        }
    }
}

/// The collation that a comparator name stands for.
fn find_collation(name: &[u8]) -> (r: Option<Collation>)
    ensures
        r == collation_of(name@),
{
    if bytes_eq(name, "i;octet".as_bytes()) {
        Some(Collation::Octet)
    } else if bytes_eq(name, "i;ascii-casemap".as_bytes()) {
        Some(Collation::AsciiCaseMap)
    } else {
        None
    }
}

/// A compilation under way.
pub struct Parser<'x> {
    pub tokens: Tokenizer<'x>,
    pub required: Vec<Capability>,
    pub loops: Vec<Vec<u8>>,
    pub num_vars: usize,
}

/// What tagged arguments are when they were read, as the contracts speak of
/// them.
pub open spec fn chosen(r: Result<Options, CompileError>) -> Result<OptionsView, CompileError> {
    match r {
        Ok(o) => Ok(o@),
        Err(e) => Err(e),
    }
}

impl<'x> Parser<'x> {
    pub open spec fn view(&self) -> Parsing {
        Parsing {
            lexed: self.tokens@,
            required: self.required@,
            loops: texts(self.loops@),
            num_vars: self.num_vars as nat,
        }
    }

    pub open spec fn wf(&self) -> bool {
        &&& self.tokens.wf()
        &&& self@.lexed.scope.locals.len() <= MAX_LOCAL_VARIABLES
    }

    /// The capability that something needs and that was not required.
    pub fn lacks(&self, needed: Option<Capability>) -> (r: Option<Capability>)
        ensures
            r == self@.lacks(needed),
    {
        match needed {
            Some(c) => if is_among(&self.required, &c) {
                None
            } else {
                Some(c)
            },
            None => None,
        }
    }

    /// Reads a token that must be a given mark.
    pub fn expect(&mut self, mark: Token, what: &'static str) -> (r: Result<(), CompileError>)
        requires
            old(self).wf(),
            !(mark is String),
            !(mark is Unknown),
        ensures
            final(self).wf(),
            (r, final(self)@) == old(self)@.expect(mark@, what),
            final(self)@.follows(old(self)@),
            final(self)@.keeps(old(self)@),
            r is Ok ==> final(self)@.lexed.pos == old(self)@.lexed.pos + 1,
    {
        match self.tokens.unwrap_next() {
            Err(e) => Err(e),
            Ok(t) => {
                if same_mark(&t.token, &mark) {
                    Ok(())
                } else {
                    Err(self.tokens.error(t.offset, ErrorType::UnexpectedToken(what)))
                }
            },
        }
    }

    /// Reads a string.
    pub fn string(&mut self) -> (r: Result<StringItem, CompileError>)
        requires
            old(self).wf(),
        ensures
            final(self).wf(),
            (read(r), final(self)@) == old(self)@.string(),
            final(self)@.follows(old(self)@),
            final(self)@.keeps(old(self)@),
            r is Ok ==> final(self)@.lexed.pos == old(self)@.lexed.pos + 1,
    {
        self.tokens.unwrap_string()
    }

    /// Reads a string list, or one string.
    pub fn strings(&mut self) -> (r: Result<Vec<StringItem>, CompileError>)
        requires
            old(self).wf(),
        ensures
            final(self).wf(),
            (listed(r), final(self)@) == old(self)@.strings(),
            final(self)@.follows(old(self)@),
            final(self)@.keeps(old(self)@),
    {
        self.tokens.parse_strings(true)
    }

    /// Reads a token that must be a number.
    pub fn number(&mut self) -> (r: Result<u64, CompileError>)
        requires
            old(self).wf(),
        ensures
            final(self).wf(),
            (r, final(self)@) == old(self)@.number(),
            final(self)@.follows(old(self)@),
            final(self)@.keeps(old(self)@),
            r is Ok ==> final(self)@.lexed.pos == old(self)@.lexed.pos + 1,
    {
        match self.tokens.unwrap_next() {
            Err(e) => Err(e),
            Ok(t) => match t.token {
                Token::Number(n) => Ok(n),
                _ => Err(self.tokens.error(t.offset, ErrorType::ExpectedNumber)),
            },
        }
    }

    /// Reads the argument of a tag.
    fn option(&mut self, shape: Shape, o: Options, tag: Word, offset: usize) -> (r: Result<
        Options,
        CompileError,
    >)
        requires
            old(self).wf(),
            offset <= old(self)@.lexed.src.len(),
        ensures
            final(self).wf(),
            (chosen(r), final(self)@) == old(self)@.option(shape, o@, tag, offset as int),
            final(self)@.follows(old(self)@),
            final(self)@.keeps(old(self)@),
    {
        let mut o = o;
        if !shape_accepts(shape, tag) {
            return Err(self.tokens.error(offset, ErrorType::InvalidTag));
        }
        match self.lacks(capability_of_tag(shape, tag)) {
            Some(c) => {
                return Err(self.tokens.error(offset, ErrorType::MissingRequire(c)));
            },
            None => {},
        }
        if tag == Word::MailboxId || tag == Word::SpecialUse || tag == Word::Name || tag
            == Word::Handle || tag == Word::UniqueId || tag == Word::Subject || tag == Word::From
            || tag == Word::Fcc {
            let s = match self.string() {
                Err(e) => {
                    return Err(e);
                },
                Ok(s) => s,
            };
            match tag {
                Word::MailboxId => {
                    o.mailbox_id = Some(s);
                },
                Word::SpecialUse => {
                    o.special_use = Some(s);
                },
                Word::Name => {
                    o.name = Some(s);
                },
                Word::Handle => {
                    o.handle = Some(s);
                },
                Word::Subject => {
                    o.subject = Some(s);
                },
                Word::From => {
                    o.from = Some(s);
                },
                Word::Fcc => {
                    o.fcc = Some(s);
                },
                _ => {
                    o.unique_id = Some(s);
                },
            }
        } else if tag == Word::Flags || tag == Word::Addresses || tag == Word::Headers {
            let list = match self.strings() {
                Err(e) => {
                    return Err(e);
                },
                Ok(list) => list,
            };
            if tag == Word::Flags {
                o.flags = list;
            } else if tag == Word::Addresses {
                o.addresses = list;
            } else {
                o.headers = list;
            }
        } else if tag == Word::Seconds || tag == Word::Days || tag == Word::First {
            let n = match self.number() {
                Err(e) => {
                    return Err(e);
                },
                Ok(n) => n,
            };
            if tag == Word::Seconds {
                o.seconds = Some(n);
                o.period = Period::Seconds(n);
            } else if tag == Word::Days {
                o.period = Period::Days(n);
            } else {
                o.first = Some(n);
            }
        } else if tag == Word::Comparator {
            let name = match self.tokens.unwrap_next() {
                Err(e) => {
                    return Err(e);
                },
                Ok(name) => name,
            };
            match name.token {
                Token::String(text) => match find_collation(text.as_slice()) {
                    Some(c) => {
                        o.collation = c;
                    },
                    None => {
                        return Err(
                            self.tokens.error(
                                name.offset,
                                ErrorType::InvalidCombination("unknown comparator"),
                            ),
                        );
                    },
                },
                _ => {
                    return Err(self.tokens.error(name.offset, ErrorType::ExpectedString));
                },
            }
        } else {
            match tag {
                Word::Copy => {
                    o.copy = true;
                },
                Word::Create => {
                    o.create = true;
                },
                Word::Once => {
                    o.once = true;
                },
                Word::Last => {
                    o.last = true;
                },
                Word::Over => {
                    o.over = Some(true);
                },
                Word::Under => {
                    o.over = Some(false);
                },
                Word::Is => {
                    o.match_type = MatchType::Is;
                },
                Word::Contains => {
                    o.match_type = MatchType::Contains;
                },
                Word::Mime => {
                    o.mime = true;
                },
                Word::Percent => {
                    o.percent = true;
                },
                Word::List => {
                    o.match_type = MatchType::List;
                },
                _ => {},
            }
        }
        Ok(o)
    }

    /// Reads the tagged arguments of something of a shape.
    pub fn options(&mut self, shape: Shape) -> (r: Result<Options, CompileError>)
        requires
            old(self).wf(),
        ensures
            final(self).wf(),
            (chosen(r), final(self)@) == old(self)@.options(shape, OptionsView::none()),
            final(self)@.follows(old(self)@),
            final(self)@.keeps(old(self)@),
    {
        let mut o = Options {
            copy: false,
            create: false,
            once: false,
            last: false,
            over: None,
            match_type: MatchType::Is,
            collation: Collation::AsciiCaseMap,
            flags: Vec::new(),
            mailbox_id: None,
            special_use: None,
            name: None,
            handle: None,
            unique_id: None,
            seconds: None,
            period: Period::Default,
            mime: false,
            subject: None,
            from: None,
            fcc: None,
            addresses: Vec::new(),
            percent: false,
            first: None,
            headers: Vec::new(),
        };
        assert(item_views(o.flags@) =~= Seq::empty());
        assert(item_views(o.addresses@) =~= Seq::empty());
        assert(item_views(o.headers@) =~= Seq::empty());
        loop
            invariant
                self.wf(),
                self@.follows(old(self)@),
                self@.keeps(old(self)@),
                old(self)@.options(shape, OptionsView::none()) == self@.options(shape, o@),
            decreases self@.lexed.tokens.len() - self@.lexed.pos,
        {
            proof {
                self.tokens.lemma_wf();
            }
            let t = self.tokens.peek();
            let tag = match t.token {
                Token::Tag(tag) => tag,
                _ => {
                    return Ok(o);
                },
            };
            let _ = self.tokens.next();
            o = match self.option(shape, o, tag, t.offset) {
                Err(e) => {
                    return Err(e);
                },
                Ok(next) => next,
            };
            proof {
                self.tokens.lemma_wf();
            }
        }
    }
}

/// Whether a token is a given mark.
fn same_mark(t: &Token, mark: &Token) -> (r: bool)
    requires
        !(mark is String),
        !(mark is Unknown),
    ensures
        r == (t@ == mark@),
{
    match (t, mark) {
        (Token::Identifier(a), Token::Identifier(b)) => *a == *b,
        (Token::Tag(a), Token::Tag(b)) => *a == *b,
        (Token::Number(a), Token::Number(b)) => *a == *b,
        (Token::BracketOpen, Token::BracketOpen) => true,
        (Token::BracketClose, Token::BracketClose) => true,
        (Token::CurlyOpen, Token::CurlyOpen) => true,
        (Token::CurlyClose, Token::CurlyClose) => true,
        (Token::ParenthesisOpen, Token::ParenthesisOpen) => true,
        (Token::ParenthesisClose, Token::ParenthesisClose) => true,
        (Token::Comma, Token::Comma) => true,
        (Token::Semicolon, Token::Semicolon) => true,
        (Token::Eof, Token::Eof) => true,
        (Token::Invalid(a), Token::Invalid(b)) => *a == *b,
        _ => false,
    }
}

} // verus!
