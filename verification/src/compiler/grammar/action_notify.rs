//! The `notify` action and the file-carbon-copy options that it shares with
//! other actions that generate a message.

use vstd::prelude::*;
use crate::compiler::error::{CompileError, ErrorType};
use crate::compiler::lexer::string::item_of;
use crate::compiler::lexer::tokenizer::{
    lemma_parse_strings,
    Lexed,
    Token,
    TokenView,
    Tokenizer,
};
use crate::compiler::lexer::word::Word;
use crate::runtime::string::{item_view, item_views, StringItem, StringItemView};

verus! {

/// Where a copy of a generated message is filed.
#[derive(Debug, Clone, PartialEq, Eq)]
pub struct Fcc {
    pub fcc: StringItem,
    pub create: bool,
    pub flags: Vec<StringItem>,
    pub special_use: Option<StringItem>,
    pub mailbox_id: Option<StringItem>,
}

/// The `notify` action.
#[derive(Debug, Clone, PartialEq, Eq)]
pub struct Notify {
    pub from: Option<StringItem>,
    pub importance: Option<StringItem>,
    pub options: Vec<StringItem>,
    pub message: Option<StringItem>,
    pub fcc: Option<Fcc>,
    pub method: StringItem,
}

pub ghost struct FccView {
    pub fcc: StringItemView,
    pub create: bool,
    pub flags: Seq<StringItemView>,
    pub special_use: Option<StringItemView>,
    pub mailbox_id: Option<StringItemView>,
}

pub ghost struct NotifyView {
    pub from: Option<StringItemView>,
    pub importance: Option<StringItemView>,
    pub options: Seq<StringItemView>,
    pub message: Option<StringItemView>,
    pub fcc: Option<FccView>,
    pub method: StringItemView,
}

impl View for Fcc {
    type V = FccView;

    open spec fn view(&self) -> FccView {
        FccView {
            fcc: self.fcc@,
            create: self.create,
            flags: item_views(self.flags@),
            special_use: item_view(self.special_use),
            mailbox_id: item_view(self.mailbox_id),
        }
    }
}

impl View for Notify {
    type V = NotifyView;

    open spec fn view(&self) -> NotifyView {
        NotifyView {
            from: item_view(self.from),
            importance: item_view(self.importance),
            options: item_views(self.options@),
            message: item_view(self.message),
            fcc: match self.fcc {
                Some(f) => Some(f@),
                None => None,
            },
            method: self.method@,
        }
    }
}

/// The tagged arguments of a `notify` that were read.
pub ghost struct NotifyArgs {
    pub from: Option<StringItemView>,
    pub importance: Option<StringItemView>,
    pub options: Seq<StringItemView>,
    pub message: Option<StringItemView>,
    pub fcc: Option<StringItemView>,
    pub create: bool,
    pub flags: Seq<StringItemView>,
    pub special_use: Option<StringItemView>,
    pub mailbox_id: Option<StringItemView>,
}

impl NotifyArgs {
    /// No tagged argument.
    pub open spec fn none() -> NotifyArgs {
        NotifyArgs {
            from: None,
            importance: None,
            options: Seq::empty(),
            message: None,
            fcc: None,
            create: false,
            flags: Seq::empty(),
            special_use: None,
            mailbox_id: None,
        }
    }

    /// Whether an option of `:fcc` was given without `:fcc` itself.
    pub open spec fn lacks_fcc(self) -> bool {
        self.fcc is None && (self.create || self.flags.len() > 0 || self.special_use is Some
            || self.mailbox_id is Some)
    }

    /// The action with these arguments and a method.
    pub open spec fn action(self, method: StringItemView) -> NotifyView {
        NotifyView {
            from: self.from,
            importance: self.importance,
            options: self.options,
            message: self.message,
            fcc: match self.fcc {
                Some(fcc) => Some(
                    FccView {
                        fcc,
                        create: self.create,
                        flags: self.flags,
                        special_use: self.special_use,
                        mailbox_id: self.mailbox_id,
                    },
                ),
                None => None,
            },
            method,
        }
    }
}

/// What a tagged argument with a string makes of the arguments read so far.
pub open spec fn with_string(a: NotifyArgs, tag: Word, s: StringItemView) -> NotifyArgs {
    match tag {
        Word::From => NotifyArgs { from: Some(s), ..a },
        Word::Message => NotifyArgs { message: Some(s), ..a },
        Word::Importance => NotifyArgs { importance: Some(s), ..a },
        Word::SpecialUse => NotifyArgs { special_use: Some(s), ..a },
        Word::MailboxId => NotifyArgs { mailbox_id: Some(s), ..a },
        Word::Fcc => NotifyArgs { fcc: Some(s), ..a },
        _ => a,
    }
}

/// What a tagged argument with a string list makes of the arguments read so
/// far.
pub open spec fn with_list(a: NotifyArgs, tag: Word, list: Seq<StringItemView>) -> NotifyArgs {
    match tag {
        Word::Options => NotifyArgs { options: list, ..a },
        Word::Flags => NotifyArgs { flags: list, ..a },
        _ => a,
    }
}

/// Whether a tag of `notify` takes a string.
pub open spec fn takes_string(tag: Word) -> bool {
    tag == Word::From || tag == Word::Message || tag == Word::Importance || tag
        == Word::SpecialUse || tag == Word::MailboxId || tag == Word::Fcc
}

impl Lexed {
    /// Reads the arguments of a `notify`: tagged ones in any order, of which
    /// the last of a kind counts, up to the string that is the method.
    pub open spec fn notify_args(self, a: NotifyArgs) -> (
        Result<(NotifyArgs, StringItemView), CompileError>,
        Lexed,
    )
        decreases self.tokens.len() - self.pos,
    {
        let (r, v) = self.unwrap_next();
        match r {
            Err(e) => (Err(e), v),
            Ok((TokenView::String(text), _)) => (Ok((a, item_of(text, self.scope))), v),
            Ok((TokenView::Tag(tag), offset)) => if takes_string(tag) {
                let (r2, v2) = v.unwrap_string();
                match r2 {
                    Err(e) => (Err(e), v2),
                    Ok(s) => v2.notify_args(with_string(a, tag, s)),
                }
            } else if tag == Word::Create {
                v.notify_args(NotifyArgs { create: true, ..a })
            } else if tag == Word::Options || tag == Word::Flags {
                let (r2, v2) = v.parse_strings(false);
                match r2 {
                    Err(e) => (Err(e), v2),
                    Ok(list) => {
                        proof {
                            lemma_parse_strings(v, false);
                        }
                        v2.notify_args(with_list(a, tag, list))
                    },
                }
            } else {
                (Err(self.error(offset, ErrorType::UnexpectedToken("string"))), v)
            },
            Ok((_, offset)) => (Err(self.error(offset, ErrorType::UnexpectedToken("string"))), v),
        }
    }

    /// Reads a `notify` from behind its name. An option of `:fcc` without
    /// `:fcc` is an error at the token that follows the action.
    pub open spec fn parse_notify(self) -> (Result<NotifyView, CompileError>, Lexed) {
        let (r, v) = self.notify_args(NotifyArgs::none());
        match r {
            Err(e) => (Err(e), v),
            Ok((a, method)) => if a.lacks_fcc() {
                let (r2, v2) = v.unwrap_next();
                match r2 {
                    Err(e) => (Err(e), v2),
                    Ok((_, offset)) => (
                        Err(self.error(offset, ErrorType::InvalidCombination("missing ':fcc' tag"))),
                        v2,
                    ),
                }
            } else {
                (Ok(a.action(method)), v)
            },
        }
    }
}

/// What a `notify` is when it was read, as the contracts speak of it.
pub open spec fn notified(r: Result<Notify, CompileError>) -> Result<NotifyView, CompileError> {
    match r {
        Ok(n) => Ok(n@),
        Err(e) => Err(e),
    }
}

impl<'x> Tokenizer<'x> {
    /// Reads a `notify` action from behind its name:
    ///
    /// ```text
    /// notify [":from" string] [":importance" string] [":options" string-list]
    ///        [":message" string] [":fcc" string [":create"] [":flags" string-list]
    ///        [":specialuse" string] [":mailboxid" string]] <method: string>
    /// ```
    pub fn parse_notify(&mut self) -> (r: Result<Notify, CompileError>)
        requires
            old(self).wf(),
        ensures
            final(self).wf(),
            (notified(r), final(self)@) == old(self)@.parse_notify(),
            final(self)@.pos >= old(self)@.pos,
            final(self)@.tokens == old(self)@.tokens,
            final(self)@.src == old(self)@.src,
            final(self)@.scope == old(self)@.scope,
    {
        let mut from: Option<StringItem> = None;
        let mut importance: Option<StringItem> = None;
        let mut message: Option<StringItem> = None;
        let mut options: Vec<StringItem> = Vec::new();
        let mut fcc: Option<StringItem> = None;
        let mut create: bool = false;
        let mut flags: Vec<StringItem> = Vec::new();
        let mut special_use: Option<StringItem> = None;
        let mut mailbox_id: Option<StringItem> = None;
        assert(item_views(options@) =~= Seq::empty());
        assert(item_views(flags@) =~= Seq::empty());
        loop
            invariant
                self.wf(),
                self@.src == old(self)@.src,
                self@.tokens == old(self)@.tokens,
                self@.scope == old(self)@.scope,
                self@.pos >= old(self)@.pos,
                old(self)@.notify_args(NotifyArgs::none()) == self@.notify_args(
                    NotifyArgs {
                        from: item_view(from),
                        importance: item_view(importance),
                        options: item_views(options@),
                        message: item_view(message),
                        fcc: item_view(fcc),
                        create,
                        flags: item_views(flags@),
                        special_use: item_view(special_use),
                        mailbox_id: item_view(mailbox_id),
                    },
                ),
            decreases self@.tokens.len() - self@.pos,
        {
            proof {
                self.lemma_wf();
            }
            let token_info = match self.unwrap_next() {
                Err(e) => {
                    return Err(e);
                },
                Ok(t) => t,
            };
            match token_info.token {
                Token::Tag(tag) => {
                    if tag == Word::From || tag == Word::Message || tag == Word::Importance || tag
                        == Word::SpecialUse || tag == Word::MailboxId || tag == Word::Fcc {
                        let s = match self.unwrap_string() {
                            Err(e) => {
                                return Err(e);
                            },
                            Ok(s) => s,
                        };
                        match tag {
                            Word::From => {
                                from = Some(s);
                            },
                            Word::Message => {
                                message = Some(s);
                            },
                            Word::Importance => {
                                importance = Some(s);
                            },
                            Word::SpecialUse => {
                                special_use = Some(s);
                            },
                            Word::MailboxId => {
                                mailbox_id = Some(s);
                            },
                            _ => {
                                fcc = Some(s);
                            },
                        }
                    } else if tag == Word::Create {
                        create = true;
                    } else if tag == Word::Options || tag == Word::Flags {
                        let list = match self.parse_strings(false) {
                            Err(e) => {
                                return Err(e);
                            },
                            Ok(list) => list,
                        };
                        if tag == Word::Options {
                            options = list;
                        } else {
                            flags = list;
                        }
                    } else {
                        return Err(
                            self.error(token_info.offset, ErrorType::UnexpectedToken("string")),
                        );
                    }
                },
                Token::String(text) => {
                    let method = self.scope().item(text);
                    if fcc.is_none() && (create || flags.len() > 0 || special_use.is_some()
                        || mailbox_id.is_some()) {
                        return match self.unwrap_next() {
                            Err(e) => Err(e),
                            Ok(t) => Err(
                                self.error(
                                    t.offset,
                                    ErrorType::InvalidCombination("missing ':fcc' tag"),
                                ),
                            ),
                        };
                    }
                    return Ok(
                        Notify {
                            from,
                            importance,
                            options,
                            message,
                            fcc: match fcc {
                                Some(fcc) => Some(
                                    Fcc { fcc, create, flags, special_use, mailbox_id },
                                ),
                                None => None,
                            },
                            method,
                        },
                    );
                },
                _ => {
                    return Err(
                        self.error(token_info.offset, ErrorType::UnexpectedToken("string")),
                    );
                },
            }
            proof {
                self.lemma_wf();
            }
        }
    }
}

} // verus!
