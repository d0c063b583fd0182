//! What passes between the interpreter and its host: the events that a run
//! hands out, the errors that end it, the answers that the host gives, and
//! the configuration that the host sets.

use vstd::prelude::*;
use crate::compiler::grammar::capability::{Capability, CapabilityView};
use crate::compiler::grammar::instruction::{Collation, MatchType, Period, Sieve};
use crate::runtime::string::{text_of, texts};

verus! {

/// Where a copy of a notification is filed.
#[derive(Debug, Clone, PartialEq, Eq)]
pub struct FileCarbonCopy {
    pub target: Vec<u8>,
    pub create: bool,
    pub flags: Vec<Vec<u8>>,
    pub special_use: Option<Vec<u8>>,
    pub mailbox_id: Option<Vec<u8>>,
}

/// Something that the host is asked to do, or to answer.
#[derive(Debug, Clone, PartialEq, Eq)]
pub enum Event {
    Keep,
    FileInto {
        folder: Vec<u8>,
        flags: Vec<Vec<u8>>,
        mailbox_id: Option<Vec<u8>>,
        special_use: Option<Vec<u8>>,
        copy: bool,
        create: bool,
    },
    Redirect { address: Vec<u8>, copy: bool },
    Reject { reason: Vec<u8>, ereject: bool },
    Notify {
        method: Vec<u8>,
        from: Option<Vec<u8>>,
        importance: Option<Vec<u8>>,
        options: Vec<Vec<u8>>,
        message: Option<Vec<u8>>,
        fcc: Option<FileCarbonCopy>,
    },
    Vacation {
        reason: Vec<u8>,
        subject: Option<Vec<u8>>,
        from: Option<Vec<u8>>,
        addresses: Vec<Vec<u8>>,
        mime: bool,
        handle: Option<Vec<u8>>,
        period: Period,
        fcc: Option<FileCarbonCopy>,
    },
    SetFlag { flags: Vec<Vec<u8>> },
    AddFlag { flags: Vec<Vec<u8>> },
    RemoveFlag { flags: Vec<Vec<u8>> },
    /// Has the message been seen before? The host answers `True` or `False`.
    DuplicateId { id: Option<Vec<u8>>, handle: Option<Vec<u8>>, seconds: Option<u64>, last: bool },
    /// Is the message spam to this degree? The host answers `True` or
    /// `False`.
    SpamTest { percent: bool, match_type: MatchType, collation: Collation, value: Vec<Vec<u8>> },
    /// Is the message infected to this degree? The host answers `True` or
    /// `False`.
    VirusTest { match_type: MatchType, collation: Collation, value: Vec<Vec<u8>> },
    /// Is one of the values in one of the lists? The host answers `True` or
    /// `False`.
    ListContains { list: Vec<Vec<u8>>, value: Vec<Vec<u8>> },
    /// Does the item of the environment match what the test asks for? The
    /// host answers `True` or `False`.
    EnvironmentGet { name: Vec<u8> },
    /// The script of this name is wanted. The host answers with the script,
    /// or with `False` where there is none.
    IncludeScript { name: Vec<u8> },
}

/// An error that ends the evaluation.
#[derive(Debug, Clone, PartialEq, Eq)]
pub enum RuntimeError {
    IllegalAction,
    InvalidInstruction(Vec<u8>),
    ScriptErrorMessage(Vec<u8>),
    CapabilityNotAllowed(Capability),
    CapabilityNotSupported(String),
    IncludeRecursionLimit,
    TooManyIncludes,
    ScriptTooLong,
}

/// What the host hands to a run.
#[derive(Debug)]
pub enum Input {
    True,
    False,
    Script { name: Vec<u8>, script: Sieve },
}

/// The limits of one evaluation.
#[derive(Debug, Clone, Copy, PartialEq, Eq)]
pub struct Limits {
    /// The number of instructions that may be executed.
    pub max_instructions: usize,
    /// The number of scripts that may be entered without one having
    /// returned.
    pub max_nested_includes: usize,
    /// The number of scripts that may be loaded.
    pub max_includes: usize,
}

/// The configuration that evaluations share.
#[derive(Debug)]
pub struct Runtime {
    pub allowed_capabilities: Vec<Capability>,
    pub limits: Limits,
}

pub ghost struct FileCarbonCopyView {
    pub target: Seq<u8>,
    pub create: bool,
    pub flags: Seq<Seq<u8>>,
    pub special_use: Option<Seq<u8>>,
    pub mailbox_id: Option<Seq<u8>>,
}

pub ghost enum EventView {
    Keep,
    FileInto {
        folder: Seq<u8>,
        flags: Seq<Seq<u8>>,
        mailbox_id: Option<Seq<u8>>,
        special_use: Option<Seq<u8>>,
        copy: bool,
        create: bool,
    },
    Redirect { address: Seq<u8>, copy: bool },
    Reject { reason: Seq<u8>, ereject: bool },
    Notify {
        method: Seq<u8>,
        from: Option<Seq<u8>>,
        importance: Option<Seq<u8>>,
        options: Seq<Seq<u8>>,
        message: Option<Seq<u8>>,
        fcc: Option<FileCarbonCopyView>,
    },
    Vacation {
        reason: Seq<u8>,
        subject: Option<Seq<u8>>,
        from: Option<Seq<u8>>,
        addresses: Seq<Seq<u8>>,
        mime: bool,
        handle: Option<Seq<u8>>,
        period: Period,
        fcc: Option<FileCarbonCopyView>,
    },
    SetFlag { flags: Seq<Seq<u8>> },
    AddFlag { flags: Seq<Seq<u8>> },
    RemoveFlag { flags: Seq<Seq<u8>> },
    DuplicateId { id: Option<Seq<u8>>, handle: Option<Seq<u8>>, seconds: Option<u64>, last: bool },
    SpamTest { percent: bool, match_type: MatchType, collation: Collation, value: Seq<Seq<u8>> },
    VirusTest { match_type: MatchType, collation: Collation, value: Seq<Seq<u8>> },
    ListContains { list: Seq<Seq<u8>>, value: Seq<Seq<u8>> },
    EnvironmentGet { name: Seq<u8> },
    IncludeScript { name: Seq<u8> },
}

pub ghost enum RuntimeErrorView {
    IllegalAction,
    InvalidInstruction(Seq<u8>),
    ScriptErrorMessage(Seq<u8>),
    CapabilityNotAllowed(CapabilityView),
    CapabilityNotSupported(Seq<char>),
    IncludeRecursionLimit,
    TooManyIncludes,
    ScriptTooLong,
}

impl View for FileCarbonCopy {
    type V = FileCarbonCopyView;

    open spec fn view(&self) -> FileCarbonCopyView {
        FileCarbonCopyView {
            target: self.target@,
            create: self.create,
            flags: texts(self.flags@),
            special_use: text_of(self.special_use),
            mailbox_id: text_of(self.mailbox_id),
        }
    }
}

impl View for Event {
    type V = EventView;

    open spec fn view(&self) -> EventView {
        match *self {
            Event::Keep => EventView::Keep,
            Event::FileInto { folder, flags, mailbox_id, special_use, copy, create } => {
                EventView::FileInto {
                    folder: folder@,
                    flags: texts(flags@),
                    mailbox_id: text_of(mailbox_id),
                    special_use: text_of(special_use),
                    copy,
                    create,
                }
            },
            Event::Redirect { address, copy } => EventView::Redirect { address: address@, copy },
            Event::Reject { reason, ereject } => EventView::Reject { reason: reason@, ereject },
            Event::Notify { method, from, importance, options, message, fcc } => {
                EventView::Notify {
                    method: method@,
                    from: text_of(from),
                    importance: text_of(importance),
                    options: texts(options@),
                    message: text_of(message),
                    fcc: match fcc {
                        Some(f) => Some(f@),
                        None => None,
                    },
                }
            },
            Event::Vacation { reason, subject, from, addresses, mime, handle, period, fcc } => {
                EventView::Vacation {
                    reason: reason@,
                    subject: text_of(subject),
                    from: text_of(from),
                    addresses: texts(addresses@),
                    mime,
                    handle: text_of(handle),
                    period,
                    fcc: match fcc {
                        Some(f) => Some(f@),
                        None => None,
                    },
                }
            },
            Event::SetFlag { flags } => EventView::SetFlag { flags: texts(flags@) },
            Event::AddFlag { flags } => EventView::AddFlag { flags: texts(flags@) },
            Event::RemoveFlag { flags } => EventView::RemoveFlag { flags: texts(flags@) },
            Event::DuplicateId { id, handle, seconds, last } => EventView::DuplicateId {
                id: text_of(id),
                handle: text_of(handle),
                seconds,
                last,
            },
            Event::SpamTest { percent, match_type, collation, value } => EventView::SpamTest {
                percent,
                match_type,
                collation,
                value: texts(value@),
            },
            Event::VirusTest { match_type, collation, value } => EventView::VirusTest {
                match_type,
                collation,
                value: texts(value@),
            },
            Event::ListContains { list, value } => EventView::ListContains {
                list: texts(list@),
                value: texts(value@),
            },
            Event::EnvironmentGet { name } => EventView::EnvironmentGet { name: name@ },
            Event::IncludeScript { name } => EventView::IncludeScript { name: name@ },
        }
    }
}

impl View for RuntimeError {
    type V = RuntimeErrorView;

    open spec fn view(&self) -> RuntimeErrorView {
        match *self {
            RuntimeError::IllegalAction => RuntimeErrorView::IllegalAction,
            RuntimeError::InvalidInstruction(name) => RuntimeErrorView::InvalidInstruction(name@),
            RuntimeError::ScriptErrorMessage(text) => RuntimeErrorView::ScriptErrorMessage(text@),
            RuntimeError::CapabilityNotAllowed(c) => RuntimeErrorView::CapabilityNotAllowed(c@),
            RuntimeError::CapabilityNotSupported(name) => RuntimeErrorView::CapabilityNotSupported(
                name@,
            ),
            RuntimeError::IncludeRecursionLimit => RuntimeErrorView::IncludeRecursionLimit,
            RuntimeError::TooManyIncludes => RuntimeErrorView::TooManyIncludes,
            RuntimeError::ScriptTooLong => RuntimeErrorView::ScriptTooLong,
        }
    }
}

/// What a run hands to the host, as the contracts speak of it.
pub open spec fn shown(r: Option<Result<Event, RuntimeError>>) -> Option<
    Result<EventView, RuntimeErrorView>,
> {
    match r {
        Some(Ok(e)) => Some(Ok(e@)),
        Some(Err(e)) => Some(Err(e@)),
        None => None,
    }
}

/// Whether a capability is at a place of a list.
pub open spec fn allowed_at(allowed: Seq<Capability>, c: Capability, i: int) -> bool {
    0 <= i < allowed.len() && allowed[i].same(c)
}

/// Whether a capability is among those of a list.
pub open spec fn allowed_in(allowed: Seq<Capability>, c: Capability) -> bool {
    exists|i: int| allowed_at(allowed, c, i)
}

/// Whether a capability is among those of a list.
pub fn is_among(list: &Vec<Capability>, c: &Capability) -> (r: bool)
    ensures
        r == allowed_in(list@, *c),
{
    let mut i: usize = 0;
    while i < list.len()
        invariant
            i <= list.len(),
            forall|j: int| 0 <= j < i ==> !allowed_at(list@, *c, j),
        decreases list.len() - i,
    {
        if list[i] == *c {
            assert(allowed_at(list@, *c, i as int));
            return true;
        }
        i += 1;
    }
    false
}

impl Runtime {
    /// A configuration with the capabilities that scripts may require and
    /// the limits of an evaluation.
    pub fn new(allowed_capabilities: Vec<Capability>, limits: Limits) -> (r: Runtime)
        ensures
            r.allowed_capabilities == allowed_capabilities,
            r.limits == limits,
    {
        Runtime { allowed_capabilities, limits }
    }

    /// Whether scripts may require a capability.
    pub open spec fn allows(self, c: Capability) -> bool {
        allowed_in(self.allowed_capabilities@, c)
    }

    /// Whether scripts may require a capability.
    pub fn is_allowed(&self, c: &Capability) -> (r: bool)
        ensures
            r == self.allows(*c),
    {
        is_among(&self.allowed_capabilities, c)
    }
}

} // verus!
