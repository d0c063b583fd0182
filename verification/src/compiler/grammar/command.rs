//! The commands of the language.

use vstd::prelude::*;
use vstd::utf8::*;
use crate::compiler::error::{CompileError, ErrorType};
use crate::compiler::grammar::action_notify::{Fcc, FccView};
use crate::compiler::grammar::capability::{Capability, CapabilityView};
use crate::compiler::grammar::instruction::{
    capability_views,
    AddHeader,
    Clear,
    Convert,
    Enclose,
    ExtractText,
    Replace,
    FileInto,
    FileIntoView,
    Include,
    Instruction,
    InstructionView,
    Keep,
    Redirect,
    SetVariable,
    Vacation,
    VacationView,
    Variable,
    VariableView,
};
use crate::compiler::grammar::options::{OptionsView, Parser, Parsing, Shape};
use crate::compiler::grammar::tree::{
    branch_views,
    command_views,
    plain_block,
    plain_branches,
    Branch,
    BranchView,
    Command,
    CommandView,
};
use crate::compiler::lexer::string::{find_name, index_of, ScopeView};
use crate::compiler::lexer::tokenizer::{is_digit, is_word_byte, Lexed, Token, TokenView};
use crate::compiler::lexer::word::Word;
use crate::polyfill::bytes_eq;
use crate::runtime::event::is_among;
use crate::runtime::machine::MAX_LOCAL_VARIABLES;
use crate::runtime::string::{item_views, texts, StringItem, StringItemView};

verus! {

/// The capability that a command belongs to, if it belongs to one.
pub open spec fn command_capability(word: Word) -> Option<Capability> {
    match word {
        Word::FileInto => Some(Capability::FileInto),
        Word::Reject => Some(Capability::Reject),
        Word::Ereject => Some(Capability::Ereject),
        Word::SetVariable => Some(Capability::Variables),
        Word::Global => Some(Capability::Variables),
        Word::ForEveryPart => Some(Capability::ForEveryPart),
        Word::Break => Some(Capability::ForEveryPart),
        Word::Include => Some(Capability::Include),
        Word::Return => Some(Capability::Include),
        Word::SetFlag => Some(Capability::Imap4Flags),
        Word::AddFlag => Some(Capability::Imap4Flags),
        Word::RemoveFlag => Some(Capability::Imap4Flags),
        Word::Error => Some(Capability::Ihave),
        Word::Vacation => Some(Capability::Vacation),
        Word::AddHeader => Some(Capability::EditHeader),
        Word::DeleteHeader => Some(Capability::EditHeader),
        Word::Replace => Some(Capability::Replace),
        Word::Enclose => Some(Capability::Enclose),
        Word::ExtractText => Some(Capability::ExtractText),
        Word::Convert => Some(Capability::Convert),
        _ => None,
    }
}

/// Whether a word is the name of a command that is one instruction.
pub open spec fn is_action(word: Word) -> bool {
    word == Word::Keep || word == Word::Discard || word == Word::Stop || word == Word::Return
        || word == Word::FileInto || word == Word::Redirect || word == Word::Reject || word
        == Word::Ereject || word == Word::Error || word == Word::SetFlag || word == Word::AddFlag
        || word == Word::RemoveFlag || word == Word::Notify || word == Word::Include || word
        == Word::SetVariable || word == Word::Require || word == Word::Vacation || word
        == Word::AddHeader || word == Word::DeleteHeader || word == Word::Replace || word
        == Word::Enclose || word == Word::ExtractText || word == Word::Convert
}

/// The shape of the tagged arguments of a command.
pub open spec fn command_shape(word: Word) -> Shape {
    match word {
        Word::Keep => Shape::Keep,
        Word::FileInto => Shape::FileInto,
        Word::Redirect => Shape::Redirect,
        Word::Include => Shape::Include,
        Word::Vacation => Shape::Vacation,
        Word::AddHeader => Shape::AddHeader,
        Word::Replace => Shape::Replace,
        Word::Enclose => Shape::Enclose,
        Word::ExtractText => Shape::ExtractText,
        _ => Shape::Plain,
    }
}

/// Whether a text can be the name of a variable: word bytes, the first of
/// which is no digit.
pub open spec fn is_name(text: Seq<u8>) -> bool {
    &&& text.len() > 0
    &&& !is_digit(text[0])
    &&& forall|i: int| 0 <= i < text.len() ==> is_word_byte(#[trigger] text[i])
}

/// How many loops a `break` to the loop of a name leaves: one for the
/// innermost loop, and so on outward to the innermost loop of that name.
pub open spec fn named_loop(loops: Seq<Seq<u8>>, name: Seq<u8>) -> Option<nat>
    decreases loops.len(),
{
    if loops.len() == 0 {
        None
    } else if loops.last() == name {
        Some(1)
    } else {
        match named_loop(loops.drop_last(), name) {
            Some(n) => Some(n + 1),
            None => None,
        }
    }
}

/// The literal text of a string, if it is a literal.
pub open spec fn literal_of(item: StringItemView) -> Option<Seq<u8>> {
    match item {
        StringItemView::Text(text) => Some(text),
        _ => None,
    }
}

impl Parsing {
    /// The compilation with other names for strings to refer to.
    pub open spec fn with_scope(self, scope: ScopeView) -> Parsing {
        self.at(Lexed { scope, ..self.lexed })
    }

    /// Requires the capabilities that the names of a list, from a place on,
    /// stand for. A name must be a literal, and a registered capability may
    /// be required only once. With `variables` strings begin to refer to
    /// variables.
    pub open spec fn require_all(
        self,
        names: Seq<StringItemView>,
        i: int,
        offset: int,
        found: Seq<CapabilityView>,
    ) -> (Result<Seq<CapabilityView>, CompileError>, Parsing)
        decreases names.len() - i,
    {
        if i < 0 || i >= names.len() {
            (Ok(found), self)
        } else {
            match literal_of(names[i]) {
                None => (Err(self.error(offset, ErrorType::ExpectedString)), self),
                Some(name) => {
                    let view = Capability::view_of(name);
                    match Capability::registered_of(name) {
                        None => self.require_all(names, i + 1, offset, found.push(view)),
                        Some(c) => if self.has(c) {
                            (Err(self.error(offset, ErrorType::DuplicateRequire)), self)
                        } else {
                            let next = Parsing { required: self.required.push(c), ..self };
                            let next = if c == Capability::Variables {
                                next.with_scope(ScopeView { variables: true, ..self.lexed.scope })
                            } else {
                                next
                            };
                            next.require_all(names, i + 1, offset, found.push(view))
                        },
                    }
                },
            }
        }
    }

    /// The variable of a name, which stands at `at`: the global one where
    /// the name was declared so, else the local one. A local variable that
    /// is not known yet gets the slot behind the others.
    pub open spec fn variable(self, name: Seq<u8>, at: int) -> (
        Result<VariableView, CompileError>,
        Parsing,
    ) {
        let scope = self.lexed.scope;
        match index_of(scope.globals, name) {
            Some(g) => (Ok(VariableView::Global(scope.globals[g])), self),
            None => match index_of(scope.locals, name) {
                Some(slot) => (Ok(VariableView::Local(slot as usize)), self),
                None => if scope.locals.len() >= MAX_LOCAL_VARIABLES {
                    (
                        Err(self.error(at, ErrorType::InvalidCombination("too many variables"))),
                        self,
                    )
                } else {
                    let grown = scope.locals.push(name);
                    (
                        Ok(VariableView::Local(scope.locals.len() as usize)),
                        Parsing {
                            num_vars: if grown.len() > self.num_vars {
                                grown.len()
                            } else {
                                self.num_vars
                            },
                            ..self.with_scope(ScopeView { locals: grown, ..scope })
                        },
                    )
                },
            },
        }
    }

    /// Reads the name of a variable, which must be a literal.
    pub open spec fn variable_name(self) -> (Result<(Seq<u8>, int), CompileError>, Parsing) {
        let (r, l) = self.lexed.unwrap_next();
        let v = self.at(l);
        match r {
            Err(e) => (Err(e), v),
            Ok((TokenView::String(name), at)) => if !is_name(name) {
                (Err(self.error(at, ErrorType::InvalidCombination("invalid variable name"))), v)
            } else {
                (Ok((name, at)), v)
            },
            Ok((_, at)) => (Err(self.error(at, ErrorType::ExpectedString)), v),
        }
    }

    /// Reads the arguments of `set` from behind its name: the name of the
    /// variable and its value, in which the name does not yet stand for a
    /// variable that this command makes.
    pub open spec fn assignment(self) -> (Result<InstructionView, CompileError>, Parsing) {
        let (r, v) = self.variable_name();
        match r {
            Err(e) => (Err(e), v),
            Ok((name, at)) => {
                let (r2, v2) = v.string();
                match r2 {
                    Err(e) => (Err(e), v2),
                    Ok(value) => {
                        let (r3, v3) = v2.variable(name, at);
                        match r3 {
                            Err(e) => (Err(e), v3),
                            Ok(target) => (
                                Ok(InstructionView::SetVariable { name: target, value }),
                                v3,
                            ),
                        }
                    },
                }
            },
        }
    }

    /// Reads the arguments of `extracttext` from behind its name, which
    /// stands at `offset`: how much of the text is wanted, and the name of
    /// the variable that takes it. The command stands in a loop.
    pub open spec fn extraction(self, offset: int) -> (
        Result<InstructionView, CompileError>,
        Parsing,
    ) {
        if self.loops.len() == 0 {
            (
                Err(
                    self.error(
                        offset,
                        ErrorType::InvalidCombination("extracttext outside of a loop"),
                    ),
                ),
                self,
            )
        } else {
            let (r, v) = self.options(Shape::ExtractText, OptionsView::none());
            match r {
                Err(e) => (Err(e), v),
                Ok(o) => {
                    let (r2, v2) = v.variable_name();
                    match r2 {
                        Err(e) => (Err(e), v2),
                        Ok((name, at)) => {
                            let (r3, v3) = v2.variable(name, at);
                            match r3 {
                                Err(e) => (Err(e), v3),
                                Ok(target) => (
                                    Ok(InstructionView::ExtractText { first: o.first, target }),
                                    v3,
                                ),
                            }
                        },
                    }
                },
            }
        }
    }

    /// Reads the arguments of `addheader` or of `convert` from behind the
    /// name: the tagged ones, two strings, and for `convert` a string list.
    pub open spec fn pair(self, word: Word) -> (Result<InstructionView, CompileError>, Parsing) {
        let (r, v) = self.options(command_shape(word), OptionsView::none());
        match r {
            Err(e) => (Err(e), v),
            Ok(o) => {
                let (r2, v2) = v.string();
                match r2 {
                    Err(e) => (Err(e), v2),
                    Ok(first) => {
                        let (r3, v3) = v2.string();
                        match r3 {
                            Err(e) => (Err(e), v3),
                            Ok(second) => if word == Word::AddHeader {
                                (
                                    Ok(
                                        InstructionView::AddHeader {
                                            last: o.last,
                                            field: first,
                                            content: second,
                                        },
                                    ),
                                    v3,
                                )
                            } else {
                                let (r4, v4) = v3.strings();
                                match r4 {
                                    Err(e) => (Err(e), v4),
                                    Ok(params) => (
                                        Ok(
                                            InstructionView::Convert {
                                                from_type: first,
                                                to_type: second,
                                                params,
                                            },
                                        ),
                                        v4,
                                    ),
                                }
                            },
                        }
                    },
                }
            },
        }
    }

    /// Reads the arguments of a command that is one instruction from behind
    /// its name, which stands at `offset`.
    pub open spec fn action(self, word: Word, offset: int) -> (
        Result<InstructionView, CompileError>,
        Parsing,
    ) {
        if word == Word::Discard {
            (Ok(InstructionView::Discard), self)
        } else if word == Word::Stop {
            (Ok(InstructionView::Stop), self)
        } else if word == Word::Return {
            (Ok(InstructionView::Return), self)
        } else if word == Word::Notify {
            let (r, l) = self.lexed.parse_notify();
            match r {
                Err(e) => (Err(e), self.at(l)),
                Ok(n) => (Ok(InstructionView::Notify(n)), self.at(l)),
            }
        } else if word == Word::SetVariable {
            self.assignment()
        } else if word == Word::ExtractText {
            self.extraction(offset)
        } else if word == Word::AddHeader || word == Word::Convert {
            self.pair(word)
        } else if word == Word::Require || word == Word::SetFlag || word == Word::AddFlag || word
            == Word::RemoveFlag {
            let (r, v) = self.strings();
            match r {
                Err(e) => (Err(e), v),
                Ok(list) => if word == Word::SetFlag {
                    (Ok(InstructionView::SetFlag(list)), v)
                } else if word == Word::AddFlag {
                    (Ok(InstructionView::AddFlag(list)), v)
                } else if word == Word::RemoveFlag {
                    (Ok(InstructionView::RemoveFlag(list)), v)
                } else {
                    let (r2, v2) = v.require_all(list, 0, offset, Seq::empty());
                    match r2 {
                        Err(e) => (Err(e), v2),
                        Ok(caps) => (Ok(InstructionView::Require(caps)), v2),
                    }
                },
            }
        } else {
            let (r, v) = self.options(command_shape(word), OptionsView::none());
            match r {
                Err(e) => (Err(e), v),
                Ok(o) => if word == Word::Keep {
                    (Ok(InstructionView::Keep(o.flags)), v)
                } else if word == Word::Vacation && o.lacks_fcc() {
                    (
                        Err(
                            self.error(
                                offset,
                                ErrorType::InvalidCombination("missing ':fcc' tag"),
                            ),
                        ),
                        v,
                    )
                } else {
                    let (r2, v2) = v.string();
                    match r2 {
                        Err(e) => (Err(e), v2),
                        Ok(s) => (
                            Ok(
                                if word == Word::Vacation {
                                    InstructionView::Vacation(
                                        VacationView {
                                            subject: o.subject,
                                            from: o.from,
                                            mime: o.mime,
                                            handle: o.handle,
                                            addresses: o.addresses,
                                            period: o.period,
                                            fcc: match o.fcc {
                                                Some(fcc) => Some(
                                                    FccView {
                                                        fcc,
                                                        create: o.create,
                                                        flags: o.flags,
                                                        special_use: o.special_use,
                                                        mailbox_id: o.mailbox_id,
                                                    },
                                                ),
                                                None => None,
                                            },
                                            reason: s,
                                        },
                                    )
                                } else if word == Word::FileInto {
                                    InstructionView::FileInto(
                                        FileIntoView {
                                            copy: o.copy,
                                            create: o.create,
                                            folder: s,
                                            flags: o.flags,
                                            mailbox_id: o.mailbox_id,
                                            special_use: o.special_use,
                                        },
                                    )
                                } else if word == Word::Redirect {
                                    InstructionView::Redirect { copy: o.copy, address: s }
                                } else if word == Word::Reject {
                                    InstructionView::Reject(s)
                                } else if word == Word::Ereject {
                                    InstructionView::Ereject(s)
                                } else if word == Word::Include {
                                    InstructionView::Include { script: s, once: o.once }
                                } else if word == Word::DeleteHeader {
                                    InstructionView::DeleteHeader(s)
                                } else if word == Word::Replace {
                                    InstructionView::Replace {
                                        as_mime: o.mime,
                                        with_subject: o.subject,
                                        with_from: o.from,
                                        replacement: s,
                                    }
                                } else if word == Word::Enclose {
                                    InstructionView::Enclose {
                                        subject: o.subject,
                                        headers: o.headers,
                                        text: s,
                                    }
                                } else {
                                    InstructionView::Error(s)
                                },
                            ),
                            v2,
                        ),
                    }
                },
            }
        }
    }

    /// Declares the names of a list, from a place on, as global variables.
    /// A name must be a literal that can name a variable.
    pub open spec fn declare_all(self, names: Seq<StringItemView>, i: int, offset: int) -> (
        Result<(), CompileError>,
        Parsing,
    )
        decreases names.len() - i,
    {
        if i < 0 || i >= names.len() {
            (Ok(()), self)
        } else {
            match literal_of(names[i]) {
                None => (Err(self.error(offset, ErrorType::ExpectedString)), self),
                Some(name) => if !is_name(name) {
                    (
                        Err(
                            self.error(
                                offset,
                                ErrorType::InvalidCombination("invalid variable name"),
                            ),
                        ),
                        self,
                    )
                } else if index_of(self.lexed.scope.globals, name) is Some {
                    self.declare_all(names, i + 1, offset)
                } else {
                    self.with_scope(
                        ScopeView {
                            globals: self.lexed.scope.globals.push(name),
                            ..self.lexed.scope
                        },
                    ).declare_all(names, i + 1, offset)
                },
            }
        }
    }

    /// How many loops a `break` leaves, given the name that it was given, if
    /// any: the innermost loop, or up to the innermost loop of that name.
    pub open spec fn levels(self, name: Option<StringItemView>, offset: int) -> Result<
        usize,
        CompileError,
    > {
        match name {
            None => if self.loops.len() > 0 {
                Ok(1)
            } else {
                Err(self.error(offset, ErrorType::InvalidCombination("break outside of a loop")))
            },
            Some(item) => match literal_of(item) {
                None => Err(self.error(offset, ErrorType::ExpectedString)),
                Some(text) => match named_loop(self.loops, text) {
                    Some(n) => Ok(n as usize),
                    None => Err(
                        self.error(offset, ErrorType::InvalidCombination("no loop of that name")),
                    ),
                },
            },
        }
    }

    /// Ends a block that began when there were `before` local variables:
    /// those that the block added go out of scope, and the block ends by
    /// clearing them.
    pub open spec fn close(self, cs: Seq<CommandView>, before: nat) -> (Seq<CommandView>, Parsing) {
        let locals = self.lexed.scope.locals;
        if before < locals.len() {
            (
                cs.push(
                    CommandView::Action(
                        InstructionView::Clear(
                            Clear {
                                local_vars_idx: before as u32,
                                local_vars_num: (locals.len() - before) as u32,
                                match_vars: 0,
                            },
                        ),
                    ),
                ),
                self.with_scope(
                    ScopeView { locals: locals.take(before as int), ..self.lexed.scope },
                ),
            )
        } else {
            (cs, self)
        }
    }

    /// Reads a block from behind its opening brace, and its closing brace.
    pub open spec fn block(self, depth: nat) -> (Result<Seq<CommandView>, CompileError>, Parsing)
        decreases depth, self.lexed.tokens.len() - self.lexed.pos, 5nat,
    {
        let (r, v) = self.commands(depth, false, Seq::empty());
        match r {
            Err(e) => (Err(e), v),
            Ok(cs) => {
                let (closed, v2) = v.close(cs, self.lexed.scope.locals.len());
                (Ok(closed), v2)
            },
        }
    }

    /// Reads commands up to the end of the script, or, in a block, up to
    /// and with its closing brace.
    ///
    /// That the tokens were read further before the next command is read
    /// makes the definition well-founded; a command that was read always
    /// leaves them so.
    pub open spec fn commands(self, depth: nat, top: bool, found: Seq<CommandView>) -> (
        Result<Seq<CommandView>, CompileError>,
        Parsing,
    )
        decreases depth, self.lexed.tokens.len() - self.lexed.pos, 4nat,
    {
        let next = self.lexed.peek();
        if top && next.0 is Eof {
            (Ok(found), self)
        } else if !top && next.0 is CurlyClose {
            (Ok(found), self.at(self.lexed.advance()))
        } else {
            let (r, v) = self.command(depth);
            match r {
                Err(e) => (Err(e), v),
                Ok(c) => if v.beyond(self) {
                    v.commands(
                        depth,
                        top,
                        match c {
                            Some(c) => found.push(c),
                            None => found,
                        },
                    )
                } else {
                    (Err(self.error(next.1, ErrorType::NestingTooDeep)), v)
                },
            }
        }
    }

    /// Reads a block with its braces. `depth` says how deep blocks may be
    /// nested from here on, this one counted.
    pub open spec fn braced(self, depth: nat) -> (Result<Seq<CommandView>, CompileError>, Parsing)
        decreases depth, self.lexed.tokens.len() - self.lexed.pos, 0nat,
    {
        if depth == 0 {
            (Err(self.error(self.lexed.peek().1, ErrorType::NestingTooDeep)), self)
        } else {
            let (r, v) = self.expect(TokenView::CurlyOpen, "'{'");
            match r {
                Err(e) => (Err(e), v),
                Ok(_) => v.block((depth - 1) as nat),
            }
        }
    }

    /// Reads a branch of an `if` from behind `if` or `elsif`: a test and a
    /// block. That the tokens were read further behind the test makes the
    /// definition well-founded; a test that was read always leaves them so.
    pub open spec fn branch(self, depth: nat) -> (Result<BranchView, CompileError>, Parsing)
        decreases depth, self.lexed.tokens.len() - self.lexed.pos, 1nat,
    {
        let (r, v) = self.test(false, depth);
        match r {
            Err(e) => (Err(e), v),
            Ok(condition) => if !v.beyond(self) {
                (Err(self.error(self.lexed.peek().1, ErrorType::NestingTooDeep)), v)
            } else {
                let (r2, v2) = v.braced(depth);
                match r2 {
                    Err(e) => (Err(e), v2),
                    Ok(block) => (Ok(BranchView { condition, block }), v2),
                }
            },
        }
    }

    /// Reads the rest of an `if` from behind `if` or `elsif`: a branch, and
    /// then `elsif` and more, or `else` and its block, or nothing. That the
    /// tokens were read further behind a branch makes the definition
    /// well-founded; a branch that was read always leaves them so.
    pub open spec fn branches(self, depth: nat, found: Seq<BranchView>) -> (
        Result<CommandView, CompileError>,
        Parsing,
    )
        decreases depth, self.lexed.tokens.len() - self.lexed.pos, 2nat,
    {
        let (r, v) = self.branch(depth);
        match r {
            Err(e) => (Err(e), v),
            Ok(b) => {
                let all = found.push(b);
                let next = v.at(v.lexed.advance());
                match v.lexed.peek() {
                    (TokenView::Identifier(Word::ElsIf), offset) => if next.beyond(self) {
                        next.branches(depth, all)
                    } else {
                        (Err(self.error(offset, ErrorType::NestingTooDeep)), next)
                    },
                    (TokenView::Identifier(Word::Else), offset) => if next.beyond(self) {
                        let (r2, v2) = next.braced(depth);
                        match r2 {
                            Err(e) => (Err(e), v2),
                            Ok(otherwise) => (
                                Ok(CommandView::If { branches: all, otherwise }),
                                v2,
                            ),
                        }
                    } else {
                        (Err(self.error(offset, ErrorType::NestingTooDeep)), next)
                    },
                    _ => (Ok(CommandView::If { branches: all, otherwise: Seq::empty() }), v),
                }
            },
        }
    }

    /// The name of a loop: the literal that it was given, or the empty name.
    pub open spec fn loop_name(name: Option<StringItemView>) -> Option<Seq<u8>> {
        match name {
            None => Some(Seq::<u8>::empty()),
            Some(item) => literal_of(item),
        }
    }

    /// Reads a loop from behind `foreverypart`, which stands at `offset`.
    /// That the tagged arguments leave the tokens alone or read further in
    /// them makes the definition well-founded; they always do.
    pub open spec fn looping(self, depth: nat, offset: int) -> (
        Result<CommandView, CompileError>,
        Parsing,
    )
        decreases depth, self.lexed.tokens.len() - self.lexed.pos, 2nat,
    {
        let (r, v) = self.options(Shape::Loop, OptionsView::none());
        match r {
            Err(e) => (Err(e), v),
            Ok(o) => match Parsing::loop_name(o.name) {
                None => (Err(self.error(offset, ErrorType::ExpectedString)), v),
                Some(name) => if v.lexed.tokens == self.lexed.tokens && (v.lexed.pos
                    == self.lexed.pos || v.beyond(self)) {
                    let inside = Parsing { loops: v.loops.push(name), ..v };
                    let (r2, v2) = inside.braced(depth);
                    let outside = Parsing { loops: self.loops, ..v2 };
                    match r2 {
                        Err(e) => (Err(e), outside),
                        Ok(body) => (Ok(CommandView::ForEveryPart { body }), outside),
                    }
                } else {
                    (Err(self.error(offset, ErrorType::NestingTooDeep)), v)
                },
            },
        }
    }

    /// Reads a command. A declaration of global variables is no command of
    /// the program.
    pub open spec fn command(self, depth: nat) -> (
        Result<Option<CommandView>, CompileError>,
        Parsing,
    )
        decreases depth, self.lexed.tokens.len() - self.lexed.pos, 3nat,
    {
        let (r, l) = self.lexed.unwrap_next();
        let v = self.at(l);
        match r {
            Err(e) => (Err(e), v),
            Ok((TokenView::Identifier(word), offset)) => if self.lacks(command_capability(word))
                is Some {
                (
                    Err(
                        self.error(
                            offset,
                            ErrorType::MissingRequire(
                                self.lacks(command_capability(word))->Some_0,
                            ),
                        ),
                    ),
                    v,
                )
            } else if word == Word::If {
                let (r2, v2) = v.branches(depth, Seq::empty());
                match r2 {
                    Err(e) => (Err(e), v2),
                    Ok(c) => (Ok(Some(c)), v2),
                }
            } else if word == Word::ForEveryPart {
                let (r2, v2) = v.looping(depth, offset);
                match r2 {
                    Err(e) => (Err(e), v2),
                    Ok(c) => (Ok(Some(c)), v2),
                }
            } else if word == Word::Break {
                let (r2, v2) = v.options(Shape::Break, OptionsView::none());
                match r2 {
                    Err(e) => (Err(e), v2),
                    Ok(o) => match v2.levels(o.name, offset) {
                        Err(e) => (Err(e), v2),
                        Ok(levels) => {
                            let (r3, v3) = v2.expect(TokenView::Semicolon, "';'");
                            match r3 {
                                Err(e) => (Err(e), v3),
                                Ok(_) => (Ok(Some(CommandView::Break { levels })), v3),
                            }
                        },
                    },
                }
            } else if word == Word::Global {
                let (r2, v2) = v.strings();
                match r2 {
                    Err(e) => (Err(e), v2),
                    Ok(names) => {
                        let (r3, v3) = v2.declare_all(names, 0, offset);
                        match r3 {
                            Err(e) => (Err(e), v3),
                            Ok(_) => {
                                let (r4, v4) = v3.expect(TokenView::Semicolon, "';'");
                                match r4 {
                                    Err(e) => (Err(e), v4),
                                    Ok(_) => (Ok(None), v4),
                                }
                            },
                        }
                    },
                }
            } else if is_action(word) {
                let (r2, v2) = v.action(word, offset);
                match r2 {
                    Err(e) => (Err(e), v2),
                    Ok(i) => {
                        let (r3, v3) = v2.expect(TokenView::Semicolon, "';'");
                        match r3 {
                            Err(e) => (Err(e), v3),
                            Ok(_) => (Ok(Some(CommandView::Action(i))), v3),
                        }
                    },
                }
            } else {
                (Err(self.error(offset, ErrorType::UnknownCommand)), v)
            },
            Ok((_, offset)) => (Err(self.error(offset, ErrorType::UnknownCommand)), v),
        }
    }
}

fn capability_of_command(word: Word) -> (r: Option<Capability>)
    ensures
        r == command_capability(word),
{
    match word {
        Word::FileInto => Some(Capability::FileInto),
        Word::Reject => Some(Capability::Reject),
        Word::Ereject => Some(Capability::Ereject),
        Word::SetVariable => Some(Capability::Variables),
        Word::Global => Some(Capability::Variables),
        Word::ForEveryPart => Some(Capability::ForEveryPart),
        Word::Break => Some(Capability::ForEveryPart),
        Word::Include => Some(Capability::Include),
        Word::Return => Some(Capability::Include),
        Word::SetFlag => Some(Capability::Imap4Flags),
        Word::AddFlag => Some(Capability::Imap4Flags),
        Word::RemoveFlag => Some(Capability::Imap4Flags),
        Word::Error => Some(Capability::Ihave),
        Word::Vacation => Some(Capability::Vacation),
        Word::AddHeader => Some(Capability::EditHeader),
        Word::DeleteHeader => Some(Capability::EditHeader),
        Word::Replace => Some(Capability::Replace),
        Word::Enclose => Some(Capability::Enclose),
        Word::ExtractText => Some(Capability::ExtractText),
        Word::Convert => Some(Capability::Convert),
        _ => None,
    }
}

fn shape_of_command(word: Word) -> (r: Shape)
    ensures
        r == command_shape(word),
{
    match word {
        Word::Keep => Shape::Keep,
        Word::FileInto => Shape::FileInto,
        Word::Redirect => Shape::Redirect,
        Word::Include => Shape::Include,
        Word::Vacation => Shape::Vacation,
        Word::AddHeader => Shape::AddHeader,
        Word::Replace => Shape::Replace,
        Word::Enclose => Shape::Enclose,
        Word::ExtractText => Shape::ExtractText,
        _ => Shape::Plain,
    }
}

/// Whether a text can be the name of a variable.
fn check_name(text: &[u8]) -> (r: bool)
    ensures
        r == is_name(text@),
{
    if text.len() == 0 || (0x30 <= text[0] && text[0] <= 0x39) {
        return false;
    }
    let mut i: usize = 0;
    while i < text.len()
        invariant
            i <= text.len(),
            forall|j: int| 0 <= j < i ==> is_word_byte(#[trigger] text@[j]),
        decreases text.len() - i,
    {
        let b = text[i];
        if !((0x30 <= b && b <= 0x39) || (0x41 <= b && b <= 0x5a) || (0x61 <= b && b <= 0x7a) || b
            == 0x5f) {
            return false;
        }
        i += 1;
    }
    true
}

/// How many loops a `break` to the loop of a name leaves.
fn find_loop(loops: &Vec<Vec<u8>>, name: &[u8]) -> (r: Option<usize>)
    ensures
        match r {
            Some(n) => named_loop(texts(loops@), name@) == Some(n as nat),
            None => named_loop(texts(loops@), name@) is None,
        },
{
    let ghost all = texts(loops@);
    let mut k: usize = loops.len();
    assert(all.take(k as int) == all);
    while k > 0
        invariant
            k <= loops.len(),
            all == texts(loops@),
            named_loop(all, name@) == match named_loop(all.take(k as int), name@) {
                Some(n) => Some((n + loops.len() - k) as nat),
                None => None,
            },
        decreases k,
    {
        assert(all.take(k as int).drop_last() == all.take(k - 1));
        assert(all.take(k as int).last() == loops@[k - 1]@);
        if bytes_eq(loops[k - 1].as_slice(), name) {
            return Some(loops.len() - k + 1);
        }
        k -= 1;
    }
    assert(all.take(0).len() == 0);
    None
}

/// The text of a string that is a literal.
fn literal(item: &StringItem) -> (r: Option<Vec<u8>>)
    ensures
        match r {
            Some(text) => literal_of(item@) == Some(text@),
            None => literal_of(item@) is None,
        },
{
    match item {
        StringItem::Text(text) => Some(text.clone()),
        _ => None,
    }
}

/// What capabilities are when they were required, as the contracts speak
/// of them.
pub open spec fn required(r: Result<Vec<Capability>, CompileError>) -> Result<
    Seq<CapabilityView>,
    CompileError,
> {
    match r {
        Ok(caps) => Ok(capability_views(caps@)),
        Err(e) => Err(e),
    }
}

/// What an instruction is when it was read, as the contracts speak of it.
pub open spec fn acted(r: Result<Instruction, CompileError>) -> Result<InstructionView, CompileError> {
    match r {
        Ok(i) => Ok(i@),
        Err(e) => Err(e),
    }
}

/// What a command is when it was read, as the contracts speak of it.
pub open spec fn commanded(r: Result<Command, CompileError>) -> Result<CommandView, CompileError> {
    match r {
        Ok(c) => Ok(c.view()),
        Err(e) => Err(e),
    }
}

/// What a command that may be none is when it was read, as the contracts
/// speak of it.
pub open spec fn commanded_or_not(r: Result<Option<Command>, CompileError>) -> Result<
    Option<CommandView>,
    CompileError,
> {
    match r {
        Ok(Some(c)) => Ok(Some(c.view())),
        Ok(None) => Ok(None),
        Err(e) => Err(e),
    }
}

/// What commands are when they were read, as the contracts speak of them.
pub open spec fn commanded_all(r: Result<Vec<Command>, CompileError>) -> Result<
    Seq<CommandView>,
    CompileError,
> {
    match r {
        Ok(cs) => Ok(command_views(cs@)),
        Err(e) => Err(e),
    }
}

/// Whether commands that were read carry no jumps of their own.
pub open spec fn all_plain(r: Result<Vec<Command>, CompileError>) -> bool {
    r matches Ok(cs) ==> plain_block(command_views(cs@))
}

impl<'x> Parser<'x> {
    /// Requires the capabilities that the names of a list stand for.
    fn require_all(&mut self, names: &Vec<StringItem>, offset: usize) -> (r: Result<
        Vec<Capability>,
        CompileError,
    >)
        requires
            old(self).wf(),
            offset <= old(self)@.lexed.src.len(),
        ensures
            final(self).wf(),
            final(self)@.follows(old(self)@),
            final(self)@.loops == old(self)@.loops,
            final(self)@.lexed.pos == old(self)@.lexed.pos,
            (required(r), final(self)@) == old(self)@.require_all(
                item_views(names@),
                0,
                offset as int,
                Seq::empty(),
            ),
    {
        let ghost all = item_views(names@);
        let mut caps: Vec<Capability> = Vec::new();
        let mut i: usize = 0;
        assert(capability_views(caps@) =~= Seq::empty());
        while i < names.len()
            invariant
                i <= names.len(),
                self.wf(),
                all == item_views(names@),
                offset <= self@.lexed.src.len(),
                self@.follows(old(self)@),
                self@.loops == old(self)@.loops,
                self@.lexed.pos == old(self)@.lexed.pos,
                old(self)@.require_all(all, 0, offset as int, Seq::empty()) == self@.require_all(
                    all,
                    i as int,
                    offset as int,
                    capability_views(caps@),
                ),
            decreases names.len() - i,
        {
            let ghost found = capability_views(caps@);
            let name = match literal(&names[i]) {
                None => {
                    return Err(self.tokens.error(offset, ErrorType::ExpectedString));
                },
                Some(name) => name,
            };
            let c = Capability::parse(name);
            if c.is_known() {
                if is_among(&self.required, &c) {
                    return Err(self.tokens.error(offset, ErrorType::DuplicateRequire));
                }
                let copy = c.clone();
                assert(copy == c);
                self.required.push(copy);
                if c == Capability::Variables {
                    self.tokens.use_variables();
                }
            }
            caps.push(c);
            assert(capability_views(caps@) =~= found.push(c@));
            i += 1;
        }
        Ok(caps)
    }

    /// The variable of a name.
    fn variable(&mut self, name: Vec<u8>, at: usize) -> (r: Result<Variable, CompileError>)
        requires
            old(self).wf(),
            at <= old(self)@.lexed.src.len(),
        ensures
            final(self).wf(),
            final(self)@.follows(old(self)@),
            final(self)@.loops == old(self)@.loops,
            final(self)@.lexed.pos == old(self)@.lexed.pos,
            match r {
                Ok(t) => (Ok::<VariableView, CompileError>(t@), final(self)@) == old(
                    self,
                )@.variable(name@, at as int),
                Err(e) => (Err::<VariableView, CompileError>(e), final(self)@) == old(
                    self,
                )@.variable(name@, at as int),
            },
    {
        match find_name(&self.tokens.scope().globals, name.as_slice()) {
            Some(g) => {
                return Ok(Variable::Global(self.tokens.scope().globals[g].clone()));
            },
            None => {},
        }
        match find_name(&self.tokens.scope().locals, name.as_slice()) {
            Some(slot) => Ok(Variable::Local(slot)),
            None => {
                let slot = self.tokens.scope().locals.len();
                if slot >= MAX_LOCAL_VARIABLES {
                    return Err(
                        self.tokens.error(at, ErrorType::InvalidCombination("too many variables")),
                    );
                }
                self.tokens.push_local(name);
                if slot + 1 > self.num_vars {
                    self.num_vars = slot + 1;
                }
                Ok(Variable::Local(slot))
            },
        }
    }

    /// Reads the name of a variable.
    fn variable_name(&mut self) -> (r: Result<(Vec<u8>, usize), CompileError>)
        requires
            old(self).wf(),
        ensures
            final(self).wf(),
            final(self)@.follows(old(self)@),
            final(self)@.keeps(old(self)@),
            match r {
                Ok(n) => (Ok::<(Seq<u8>, int), CompileError>((n.0@, n.1 as int)), final(self)@)
                    == old(self)@.variable_name() && n.1 <= old(self)@.lexed.src.len(),
                Err(e) => (Err::<(Seq<u8>, int), CompileError>(e), final(self)@) == old(
                    self,
                )@.variable_name(),
            },
    {
        let t = match self.tokens.unwrap_next() {
            Err(e) => {
                return Err(e);
            },
            Ok(t) => t,
        };
        let name = match t.token {
            Token::String(name) => name,
            _ => {
                return Err(self.tokens.error(t.offset, ErrorType::ExpectedString));
            },
        };
        if !check_name(name.as_slice()) {
            return Err(
                self.tokens.error(t.offset, ErrorType::InvalidCombination("invalid variable name")),
            );
        }
        Ok((name, t.offset))
    }

    /// Reads the arguments of `set`.
    fn assignment(&mut self) -> (r: Result<Instruction, CompileError>)
        requires
            old(self).wf(),
        ensures
            final(self).wf(),
            (acted(r), final(self)@) == old(self)@.assignment(),
            final(self)@.follows(old(self)@),
            final(self)@.loops == old(self)@.loops,
            r matches Ok(i) ==> !i@.is_jump(),
    {
        let (name, at) = match self.variable_name() {
            Err(e) => {
                return Err(e);
            },
            Ok(n) => n,
        };
        let value = match self.string() {
            Err(e) => {
                return Err(e);
            },
            Ok(value) => value,
        };
        match self.variable(name, at) {
            Err(e) => Err(e),
            Ok(target) => Ok(Instruction::SetVariable(SetVariable { name: target, value })),
        }
    }

    /// Reads the arguments of `extracttext`.
    fn extraction(&mut self, offset: usize) -> (r: Result<Instruction, CompileError>)
        requires
            old(self).wf(),
            offset <= old(self)@.lexed.src.len(),
        ensures
            final(self).wf(),
            (acted(r), final(self)@) == old(self)@.extraction(offset as int),
            final(self)@.follows(old(self)@),
            final(self)@.loops == old(self)@.loops,
            r matches Ok(i) ==> !i@.is_jump(),
    {
        if self.loops.len() == 0 {
            return Err(
                self.tokens.error(
                    offset,
                    ErrorType::InvalidCombination("extracttext outside of a loop"),
                ),
            );
        }
        let o = match self.options(Shape::ExtractText) {
            Err(e) => {
                return Err(e);
            },
            Ok(o) => o,
        };
        let (name, at) = match self.variable_name() {
            Err(e) => {
                return Err(e);
            },
            Ok(n) => n,
        };
        match self.variable(name, at) {
            Err(e) => Err(e),
            Ok(target) => Ok(Instruction::ExtractText(ExtractText { first: o.first, target })),
        }
    }

    /// Reads the arguments of `addheader` or of `convert`.
    fn pair(&mut self, word: Word) -> (r: Result<Instruction, CompileError>)
        requires
            old(self).wf(),
        ensures
            final(self).wf(),
            (acted(r), final(self)@) == old(self)@.pair(word),
            final(self)@.follows(old(self)@),
            final(self)@.loops == old(self)@.loops,
            r matches Ok(i) ==> !i@.is_jump(),
    {
        let o = match self.options(shape_of_command(word)) {
            Err(e) => {
                return Err(e);
            },
            Ok(o) => o,
        };
        let first = match self.string() {
            Err(e) => {
                return Err(e);
            },
            Ok(s) => s,
        };
        let second = match self.string() {
            Err(e) => {
                return Err(e);
            },
            Ok(s) => s,
        };
        if word == Word::AddHeader {
            return Ok(
                Instruction::AddHeader(AddHeader { last: o.last, field: first, value: second }),
            );
        }
        match self.strings() {
            Err(e) => Err(e),
            Ok(params) => Ok(
                Instruction::Convert(Convert { from_type: first, to_type: second, params }),
            ),
        }
    }

    /// Reads the arguments of a command that is one instruction.
    fn action(&mut self, word: Word, offset: usize) -> (r: Result<Instruction, CompileError>)
        requires
            old(self).wf(),
            offset <= old(self)@.lexed.src.len(),
        ensures
            final(self).wf(),
            (acted(r), final(self)@) == old(self)@.action(word, offset as int),
            final(self)@.follows(old(self)@),
            final(self)@.loops == old(self)@.loops,
            r matches Ok(i) ==> !i@.is_jump(),
    {
        if word == Word::Discard {
            Ok(Instruction::Discard)
        } else if word == Word::Stop {
            Ok(Instruction::Stop)
        } else if word == Word::Return {
            Ok(Instruction::Return)
        } else if word == Word::Notify {
            match self.tokens.parse_notify() {
                Err(e) => Err(e),
                Ok(n) => Ok(Instruction::Notify(n)),
            }
        } else if word == Word::SetVariable {
            self.assignment()
        } else if word == Word::ExtractText {
            self.extraction(offset)
        } else if word == Word::AddHeader || word == Word::Convert {
            self.pair(word)
        } else if word == Word::Require || word == Word::SetFlag || word == Word::AddFlag || word
            == Word::RemoveFlag {
            let list = match self.strings() {
                Err(e) => {
                    return Err(e);
                },
                Ok(list) => list,
            };
            if word == Word::SetFlag {
                Ok(Instruction::SetFlag(list))
            } else if word == Word::AddFlag {
                Ok(Instruction::AddFlag(list))
            } else if word == Word::RemoveFlag {
                Ok(Instruction::RemoveFlag(list))
            } else {
                match self.require_all(&list, offset) {
                    Err(e) => Err(e),
                    Ok(caps) => Ok(Instruction::Require(caps)),
                }
            }
        } else {
            let o = match self.options(shape_of_command(word)) {
                Err(e) => {
                    return Err(e);
                },
                Ok(o) => o,
            };
            if word == Word::Keep {
                return Ok(Instruction::Keep(Keep { flags: o.flags }));
            }
            if word == Word::Vacation && o.fcc.is_none() && (o.create || o.flags.len() > 0
                || o.special_use.is_some() || o.mailbox_id.is_some()) {
                return Err(
                    self.tokens.error(offset, ErrorType::InvalidCombination("missing ':fcc' tag")),
                );
            }
            let s = match self.string() {
                Err(e) => {
                    return Err(e);
                },
                Ok(s) => s,
            };
            Ok(
                if word == Word::Vacation {
                    Instruction::Vacation(
                        Vacation {
                            subject: o.subject,
                            from: o.from,
                            mime: o.mime,
                            handle: o.handle,
                            addresses: o.addresses,
                            period: o.period,
                            fcc: match o.fcc {
                                Some(fcc) => Some(
                                    Fcc {
                                        fcc,
                                        create: o.create,
                                        flags: o.flags,
                                        special_use: o.special_use,
                                        mailbox_id: o.mailbox_id,
                                    },
                                ),
                                None => None,
                            },
                            reason: s,
                        },
                    )
                } else if word == Word::FileInto {
                    Instruction::FileInto(
                        FileInto {
                            copy: o.copy,
                            create: o.create,
                            folder: s,
                            flags: o.flags,
                            mailbox_id: o.mailbox_id,
                            special_use: o.special_use,
                        },
                    )
                } else if word == Word::Redirect {
                    Instruction::Redirect(Redirect { copy: o.copy, address: s })
                } else if word == Word::Reject {
                    Instruction::Reject(s)
                } else if word == Word::Ereject {
                    Instruction::Ereject(s)
                } else if word == Word::Include {
                    Instruction::Include(Include { name: s, once: o.once })
                } else if word == Word::DeleteHeader {
                    Instruction::DeleteHeader(s)
                } else if word == Word::Replace {
                    Instruction::Replace(
                        Replace { mime: o.mime, subject: o.subject, from: o.from, replacement: s },
                    )
                } else if word == Word::Enclose {
                    Instruction::Enclose(Enclose { subject: o.subject, headers: o.headers, text: s })
                } else {
                    Instruction::Error(s)
                },
            )
        }
    }

    /// Declares the names of a list as global variables.
    fn declare_all(&mut self, names: &Vec<StringItem>, offset: usize) -> (r: Result<
        (),
        CompileError,
    >)
        requires
            old(self).wf(),
            offset <= old(self)@.lexed.src.len(),
        ensures
            final(self).wf(),
            (r, final(self)@) == old(self)@.declare_all(item_views(names@), 0, offset as int),
            final(self)@.follows(old(self)@),
            final(self)@.loops == old(self)@.loops,
            final(self)@.lexed.pos == old(self)@.lexed.pos,
    {
        let ghost all = item_views(names@);
        let mut i: usize = 0;
        while i < names.len()
            invariant
                i <= names.len(),
                self.wf(),
                all == item_views(names@),
                offset <= self@.lexed.src.len(),
                self@.follows(old(self)@),
                self@.loops == old(self)@.loops,
                self@.lexed.pos == old(self)@.lexed.pos,
                old(self)@.declare_all(all, 0, offset as int) == self@.declare_all(
                    all,
                    i as int,
                    offset as int,
                ),
            decreases names.len() - i,
        {
            let name = match literal(&names[i]) {
                None => {
                    return Err(self.tokens.error(offset, ErrorType::ExpectedString));
                },
                Some(name) => name,
            };
            if !check_name(name.as_slice()) {
                return Err(
                    self.tokens.error(
                        offset,
                        ErrorType::InvalidCombination("invalid variable name"),
                    ),
                );
            }
            if find_name(&self.tokens.scope().globals, name.as_slice()).is_none() {
                self.tokens.push_global(name);
            }
            i += 1;
        }
        Ok(())
    }

    /// How many loops a `break` leaves.
    fn levels(&self, name: Option<StringItem>, offset: usize) -> (r: Result<usize, CompileError>)
        requires
            self.wf(),
            offset <= self@.lexed.src.len(),
        ensures
            r == self@.levels(crate::runtime::string::item_view(name), offset as int),
    {
        match name {
            None => if self.loops.len() > 0 {
                Ok(1)
            } else {
                Err(
                    self.tokens.error(
                        offset,
                        ErrorType::InvalidCombination("break outside of a loop"),
                    ),
                )
            },
            Some(item) => match literal(&item) {
                None => Err(self.tokens.error(offset, ErrorType::ExpectedString)),
                Some(text) => match find_loop(&self.loops, text.as_slice()) {
                    Some(n) => Ok(n),
                    None => Err(
                        self.tokens.error(
                            offset,
                            ErrorType::InvalidCombination("no loop of that name"),
                        ),
                    ),
                },
            },
        }
    }
}

impl<'x> Parser<'x> {
    /// Ends a block that began when there were `before` local variables.
    fn close(&mut self, cs: &mut Vec<Command>, before: usize)
        requires
            old(self).wf(),
            plain_block(command_views(old(cs)@)),
        ensures
            final(self).wf(),
            (command_views(final(cs)@), final(self)@) == old(self)@.close(
                command_views(old(cs)@),
                before as nat,
            ),
            plain_block(command_views(final(cs)@)),
            final(self)@.follows(old(self)@),
            final(self)@.lexed.pos == old(self)@.lexed.pos,
            final(self)@.loops == old(self)@.loops,
    {
        let len = self.tokens.scope().locals.len();
        if before < len {
            let clear = Clear {
                local_vars_idx: before as u32,
                local_vars_num: (len - before) as u32,
                match_vars: 0,
            };
            cs.push(Command::Action(Instruction::Clear(clear)));
            proof {
                assert(cs@.drop_last() == old(cs)@);
                assert(cs@.last().view() == CommandView::Action(InstructionView::Clear(clear)));
                assert(command_views(cs@) == command_views(old(cs)@).push(cs@.last().view()));
                assert(command_views(cs@).drop_last() == command_views(old(cs)@));
                assert(command_views(cs@).last().plain());
                assert(plain_block(command_views(cs@)));
            }
            self.tokens.truncate_locals(before);
        }
    }

    /// Reads a block from behind its opening brace.
    fn block(&mut self, depth: usize) -> (r: Result<Vec<Command>, CompileError>)
        requires
            old(self).wf(),
        ensures
            final(self).wf(),
            (commanded_all(r), final(self)@) == old(self)@.block(depth as nat),
            final(self)@.follows(old(self)@),
            final(self)@.loops == old(self)@.loops,
            all_plain(r),
        decreases depth, old(self)@.lexed.tokens.len() - old(self)@.lexed.pos, 5nat,
    {
        let before = self.tokens.scope().locals.len();
        match self.commands(depth, false) {
            Err(e) => Err(e),
            Ok(cs) => {
                let mut cs = cs;
                self.close(&mut cs, before);
                Ok(cs)
            },
        }
    }

    /// Reads commands up to the end of the script or of a block.
    pub fn commands(&mut self, depth: usize, top: bool) -> (r: Result<Vec<Command>, CompileError>)
        requires
            old(self).wf(),
        ensures
            final(self).wf(),
            (commanded_all(r), final(self)@) == old(self)@.commands(
                depth as nat,
                top,
                Seq::empty(),
            ),
            final(self)@.follows(old(self)@),
            final(self)@.loops == old(self)@.loops,
            all_plain(r),
        decreases depth, old(self)@.lexed.tokens.len() - old(self)@.lexed.pos, 4nat,
    {
        let mut found: Vec<Command> = Vec::new();
        loop
            invariant
                self.wf(),
                self@.follows(old(self)@),
                self@.loops == old(self)@.loops,
                plain_block(command_views(found@)),
                old(self)@.commands(depth as nat, top, Seq::empty()) == self@.commands(
                    depth as nat,
                    top,
                    command_views(found@),
                ),
            decreases self@.lexed.tokens.len() - self@.lexed.pos,
        {
            proof {
                self.tokens.lemma_wf();
            }
            let ghost here = self@;
            let ghost list = found@;
            let next = self.tokens.peek();
            match next.token {
                Token::Eof => {
                    if top {
                        return Ok(found);
                    }
                },
                Token::CurlyClose => {
                    if !top {
                        let _ = self.tokens.next();
                        return Ok(found);
                    }
                },
                _ => {},
            }
            let c = match self.command(depth) {
                Err(e) => {
                    return Err(e);
                },
                Ok(c) => c,
            };
            proof {
                self.tokens.lemma_wf();
                assert(self@.beyond(here));
            }
            match c {
                Some(c) => {
                    found.push(c);
                    proof {
                        assert(found@.drop_last() == list);
                        assert(command_views(found@) == command_views(list).push(c.view()));
                        assert(command_views(found@).drop_last() == command_views(list));
                    }
                },
                None => {},
            }
        }
    }

    /// Reads a block with its braces.
    fn braced(&mut self, depth: usize) -> (r: Result<Vec<Command>, CompileError>)
        requires
            old(self).wf(),
        ensures
            final(self).wf(),
            (commanded_all(r), final(self)@) == old(self)@.braced(depth as nat),
            final(self)@.follows(old(self)@),
            final(self)@.loops == old(self)@.loops,
            all_plain(r),
        decreases depth, old(self)@.lexed.tokens.len() - old(self)@.lexed.pos, 0nat,
    {
        proof {
            self.tokens.lemma_wf();
        }
        if depth == 0 {
            let next = self.tokens.peek();
            return Err(self.tokens.error(next.offset, ErrorType::NestingTooDeep));
        }
        match self.expect(Token::CurlyOpen, "'{'") {
            Err(e) => Err(e),
            Ok(_) => self.block(depth - 1),
        }
    }

    /// Reads a branch of an `if`.
    fn branch(&mut self, depth: usize) -> (r: Result<Branch, CompileError>)
        requires
            old(self).wf(),
        ensures
            final(self).wf(),
            final(self)@.follows(old(self)@),
            final(self)@.loops == old(self)@.loops,
            match r {
                Ok(b) => (Ok::<BranchView, CompileError>(b.view()), final(self)@) == old(
                    self,
                )@.branch(depth as nat) && plain_block(b.view().block),
                Err(e) => (Err::<BranchView, CompileError>(e), final(self)@) == old(self)@.branch(
                    depth as nat,
                ),
            },
            r is Ok ==> final(self)@.lexed.pos > old(self)@.lexed.pos,
        decreases depth, old(self)@.lexed.tokens.len() - old(self)@.lexed.pos, 1nat,
    {
        proof {
            self.tokens.lemma_wf();
        }
        let condition = match self.test(false, depth) {
            Err(e) => {
                return Err(e);
            },
            Ok(c) => c,
        };
        proof {
            self.tokens.lemma_wf();
        }
        match self.braced(depth) {
            Err(e) => Err(e),
            Ok(block) => Ok(Branch { condition, block }),
        }
    }

    /// Reads the rest of an `if` from behind `if`.
    fn branches(&mut self, depth: usize) -> (r: Result<Command, CompileError>)
        requires
            old(self).wf(),
        ensures
            final(self).wf(),
            (commanded(r), final(self)@) == old(self)@.branches(depth as nat, Seq::empty()),
            final(self)@.follows(old(self)@),
            final(self)@.loops == old(self)@.loops,
            r matches Ok(c) ==> c.view().plain(),
        decreases depth, old(self)@.lexed.tokens.len() - old(self)@.lexed.pos, 2nat,
    {
        let mut found: Vec<Branch> = Vec::new();
        loop
            invariant
                self.wf(),
                self@.follows(old(self)@),
                self@.loops == old(self)@.loops,
                plain_branches(branch_views(found@)),
                old(self)@.branches(depth as nat, Seq::empty()) == self@.branches(
                    depth as nat,
                    branch_views(found@),
                ),
            decreases self@.lexed.tokens.len() - self@.lexed.pos,
        {
            proof {
                self.tokens.lemma_wf();
            }
            let ghost here = self@;
            let ghost list = found@;
            let b = match self.branch(depth) {
                Err(e) => {
                    return Err(e);
                },
                Ok(b) => b,
            };
            found.push(b);
            proof {
                assert(found@.drop_last() == list);
                assert(branch_views(found@) == branch_views(list).push(b.view()));
                assert(branch_views(found@).drop_last() == branch_views(list));
                self.tokens.lemma_wf();
            }
            let next = self.tokens.peek();
            match next.token {
                Token::Identifier(Word::ElsIf) => {
                    let _ = self.tokens.next();
                    proof {
                        self.tokens.lemma_wf();
                    }
                },
                Token::Identifier(Word::Else) => {
                    let _ = self.tokens.next();
                    proof {
                        self.tokens.lemma_wf();
                    }
                    return match self.braced(depth) {
                        Err(e) => Err(e),
                        Ok(otherwise) => Ok(Command::If { branches: found, otherwise }),
                    };
                },
                _ => {
                    let otherwise: Vec<Command> = Vec::new();
                    assert(command_views(otherwise@) =~= Seq::empty());
                    return Ok(Command::If { branches: found, otherwise });
                },
            }
        }
    }

    /// Reads a loop from behind `foreverypart`.
    fn looping(&mut self, depth: usize, offset: usize) -> (r: Result<Command, CompileError>)
        requires
            old(self).wf(),
            offset <= old(self)@.lexed.src.len(),
        ensures
            final(self).wf(),
            (commanded(r), final(self)@) == old(self)@.looping(depth as nat, offset as int),
            final(self)@.follows(old(self)@),
            final(self)@.loops == old(self)@.loops,
            r matches Ok(c) ==> c.view().plain(),
        decreases depth, old(self)@.lexed.tokens.len() - old(self)@.lexed.pos, 2nat,
    {
        let o = match self.options(Shape::Loop) {
            Err(e) => {
                return Err(e);
            },
            Ok(o) => o,
        };
        let name = match o.name {
            None => Vec::new(),
            Some(item) => match literal(&item) {
                None => {
                    return Err(self.tokens.error(offset, ErrorType::ExpectedString));
                },
                Some(text) => text,
            },
        };
        let ghost outer = self.loops@;
        self.loops.push(name);
        assert(texts(self.loops@) =~= texts(outer).push(name@));
        proof {
            self.tokens.lemma_wf();
        }
        let r = self.braced(depth);
        let ghost after = self.loops@;
        assert(texts(after).len() == after.len());
        self.loops.pop();
        assert(texts(self.loops@) =~= texts(after).drop_last());
        assert(texts(outer).push(name@).drop_last() =~= texts(outer));
        match r {
            Err(e) => Err(e),
            Ok(body) => Ok(Command::ForEveryPart { body }),
        }
    }

    /// Reads a command.
    fn command(&mut self, depth: usize) -> (r: Result<Option<Command>, CompileError>)
        requires
            old(self).wf(),
        ensures
            final(self).wf(),
            (commanded_or_not(r), final(self)@) == old(self)@.command(depth as nat),
            final(self)@.follows(old(self)@),
            final(self)@.loops == old(self)@.loops,
            r is Ok ==> final(self)@.lexed.pos > old(self)@.lexed.pos,
            r matches Ok(Some(c)) ==> c.view().plain(),
        decreases depth, old(self)@.lexed.tokens.len() - old(self)@.lexed.pos, 3nat,
    {
        proof {
            self.tokens.lemma_wf();
        }
        let t = match self.tokens.unwrap_next() {
            Err(e) => {
                return Err(e);
            },
            Ok(t) => t,
        };
        proof {
            self.tokens.lemma_wf();
        }
        let word = match t.token {
            Token::Identifier(word) => word,
            _ => {
                return Err(self.tokens.error(t.offset, ErrorType::UnknownCommand));
            },
        };
        match self.lacks(capability_of_command(word)) {
            Some(c) => {
                return Err(self.tokens.error(t.offset, ErrorType::MissingRequire(c)));
            },
            None => {},
        }
        if word == Word::If {
            match self.branches(depth) {
                Err(e) => Err(e),
                Ok(c) => Ok(Some(c)),
            }
        } else if word == Word::ForEveryPart {
            match self.looping(depth, t.offset) {
                Err(e) => Err(e),
                Ok(c) => Ok(Some(c)),
            }
        } else if word == Word::Break {
            let o = match self.options(Shape::Break) {
                Err(e) => {
                    return Err(e);
                },
                Ok(o) => o,
            };
            let levels = match self.levels(o.name, t.offset) {
                Err(e) => {
                    return Err(e);
                },
                Ok(levels) => levels,
            };
            match self.expect(Token::Semicolon, "';'") {
                Err(e) => Err(e),
                Ok(_) => Ok(Some(Command::Break { levels })),
            }
        } else if word == Word::Global {
            let names = match self.strings() {
                Err(e) => {
                    return Err(e);
                },
                Ok(names) => names,
            };
            match self.declare_all(&names, t.offset) {
                Err(e) => {
                    return Err(e);
                },
                Ok(_) => {},
            }
            match self.expect(Token::Semicolon, "';'") {
                Err(e) => Err(e),
                Ok(_) => Ok(None),
            }
        } else if word == Word::Keep || word == Word::Discard || word == Word::Stop || word
            == Word::Return || word == Word::FileInto || word == Word::Redirect || word
            == Word::Reject || word == Word::Ereject || word == Word::Error || word
            == Word::SetFlag || word == Word::AddFlag || word == Word::RemoveFlag || word
            == Word::Notify || word == Word::Include || word == Word::SetVariable || word
            == Word::Require || word == Word::Vacation || word == Word::AddHeader || word
            == Word::DeleteHeader || word == Word::Replace || word == Word::Enclose || word
            == Word::ExtractText || word == Word::Convert {
            let i = match self.action(word, t.offset) {
                Err(e) => {
                    return Err(e);
                },
                Ok(i) => i,
            };
            match self.expect(Token::Semicolon, "';'") {
                Err(e) => Err(e),
                Ok(_) => Ok(Some(Command::Action(i))),
            }
        } else {
            Err(self.tokens.error(t.offset, ErrorType::UnknownCommand))
        }
    }
}

} // verus!
