//! The instructions that a script is compiled to, and the compiled program.

use vstd::prelude::*;
use crate::compiler::grammar::action_notify::{Fcc, FccView, Notify, NotifyView};
use crate::compiler::grammar::capability::{Capability, CapabilityView};
use crate::runtime::envelope::Envelope;
use crate::runtime::string::{item_view, item_views, StringItem, StringItemView};

verus! {

/// How a value is held against a key.
#[derive(Debug, Clone, Copy, PartialEq, Eq, Structural)]
pub enum MatchType {
    /// The two are equal.
    Is,
    /// The key occurs in the value.
    Contains,
    /// The value is in the list that the key names; only the host can tell.
    List,
}

/// How two texts are compared.
#[derive(Debug, Clone, Copy, PartialEq, Eq, Structural)]
pub enum Collation {
    /// Byte by byte.
    Octet,
    /// Byte by byte, taking the ASCII letters without regard to case.
    AsciiCaseMap,
}

/// The keys that a test looks for and how it compares them.
#[derive(Debug, Clone, PartialEq, Eq)]
pub struct Match {
    pub match_type: MatchType,
    pub collation: Collation,
    pub keys: Vec<StringItem>,
}

/// A condition on the message, its envelope or the variables.
#[derive(Debug, Clone, PartialEq, Eq)]
pub enum Test {
    True,
    False,
    /// A header field of the current part has one of the names and a value
    /// that matches.
    Header { names: Vec<StringItem>, how: Match },
    /// One of the strings matches.
    String { sources: Vec<StringItem>, how: Match },
    /// One of the envelope slots holds an address that matches.
    Envelope { slots: Vec<Envelope>, how: Match },
    /// The current part has a header field of each name.
    Exists { names: Vec<StringItem> },
    /// The message is larger, or smaller, than a limit.
    Size { over: bool, limit: u64 },
    /// The host rates the message as spam so; only the host can tell.
    SpamTest { percent: bool, how: Match },
    /// The host rates the message as infected so; only the host can tell.
    VirusTest { how: Match },
    /// An item of the environment matches; only the host can tell.
    Environment { item: StringItem, how: Match },
    /// The host has seen the message before; only the host can tell.
    Duplicate {
        handle: Option<StringItem>,
        unique_id: Option<StringItem>,
        seconds: Option<u64>,
        last: bool,
    },
}

/// A test and whether `not` stands before it.
#[derive(Debug, Clone, PartialEq, Eq)]
pub struct TestExpr {
    pub test: Test,
    pub is_not: bool,
}

#[derive(Debug, Clone, PartialEq, Eq)]
pub struct Keep {
    pub flags: Vec<StringItem>,
}

#[derive(Debug, Clone, PartialEq, Eq)]
pub struct FileInto {
    pub copy: bool,
    pub create: bool,
    pub folder: StringItem,
    pub flags: Vec<StringItem>,
    pub mailbox_id: Option<StringItem>,
    pub special_use: Option<StringItem>,
}

#[derive(Debug, Clone, PartialEq, Eq)]
pub struct Redirect {
    pub copy: bool,
    pub address: StringItem,
}

#[derive(Debug, Clone, PartialEq, Eq)]
pub struct ForEveryPart {
    pub jz_pos: usize,
}

/// For how long a sender gets no second reply to a message.
#[derive(Debug, Clone, Copy, PartialEq, Eq, Structural)]
pub enum Period {
    /// As long as the host sees fit.
    Default,
    Days(u64),
    Seconds(u64),
}

/// The `vacation` action.
#[derive(Debug, Clone, PartialEq, Eq)]
pub struct Vacation {
    pub subject: Option<StringItem>,
    pub from: Option<StringItem>,
    pub mime: bool,
    pub handle: Option<StringItem>,
    pub addresses: Vec<StringItem>,
    pub period: Period,
    pub fcc: Option<Fcc>,
    pub reason: StringItem,
}

/// The `addheader` action: a header field for the current part.
#[derive(Debug, Clone, PartialEq, Eq)]
pub struct AddHeader {
    pub last: bool,
    pub field: StringItem,
    pub value: StringItem,
}

/// The `replace` action: another body for the current part.
#[derive(Debug, Clone, PartialEq, Eq)]
pub struct Replace {
    pub mime: bool,
    pub subject: Option<StringItem>,
    pub from: Option<StringItem>,
    pub replacement: StringItem,
}

/// The `enclose` action: the message becomes the attachment of a new one.
#[derive(Debug, Clone, PartialEq, Eq)]
pub struct Enclose {
    pub subject: Option<StringItem>,
    pub headers: Vec<StringItem>,
    pub text: StringItem,
}

/// The `extracttext` action: the text of the current part, or the first
/// bytes of it, becomes the value of a variable.
#[derive(Debug, Clone, PartialEq, Eq)]
pub struct ExtractText {
    pub first: Option<u64>,
    pub target: Variable,
}

/// The `convert` action: the current part in another media type.
#[derive(Debug, Clone, PartialEq, Eq)]
pub struct Convert {
    pub from_type: StringItem,
    pub to_type: StringItem,
    pub params: Vec<StringItem>,
}

/// The variable that `set` assigns to.
#[derive(Debug, Clone, PartialEq, Eq)]
pub enum Variable {
    Local(usize),
    Global(Vec<u8>),
}

#[derive(Debug, Clone, PartialEq, Eq)]
pub struct SetVariable {
    pub name: Variable,
    pub value: StringItem,
}

#[derive(Debug, Clone, PartialEq, Eq)]
pub struct Include {
    pub name: StringItem,
    pub once: bool,
}

/// The variables that go out of scope at the end of a block.
#[derive(Debug, Clone, PartialEq, Eq)]
pub struct Clear {
    pub local_vars_idx: u32,
    pub local_vars_num: u32,
    pub match_vars: u64,
}

/// One step of a compiled script.
#[derive(Debug, Clone, PartialEq, Eq)]
pub enum Instruction {
    Jz(usize),
    Jnz(usize),
    Jmp(usize),
    Test(TestExpr),
    Keep(Keep),
    FileInto(FileInto),
    Redirect(Redirect),
    Discard,
    Stop,
    Reject(StringItem),
    Ereject(StringItem),
    ForEveryPart(ForEveryPart),
    ForEveryPartPush,
    ForEveryPartPop(usize),
    Replace(Replace),
    Enclose(Enclose),
    ExtractText(ExtractText),
    AddHeader(AddHeader),
    DeleteHeader(StringItem),
    Convert(Convert),
    SetVariable(SetVariable),
    Notify(Notify),
    Vacation(Vacation),
    SetFlag(Vec<StringItem>),
    AddFlag(Vec<StringItem>),
    RemoveFlag(Vec<StringItem>),
    Include(Include),
    Return,
    Require(Vec<Capability>),
    Clear(Clear),
    Error(StringItem),
    Invalid(Vec<u8>),
}

pub ghost struct MatchView {
    pub match_type: MatchType,
    pub collation: Collation,
    pub keys: Seq<StringItemView>,
}

pub ghost enum TestView {
    True,
    False,
    Header { names: Seq<StringItemView>, how: MatchView },
    String { sources: Seq<StringItemView>, how: MatchView },
    Envelope { slots: Seq<Envelope>, how: MatchView },
    Exists { names: Seq<StringItemView> },
    Size { over: bool, limit: u64 },
    SpamTest { percent: bool, how: MatchView },
    VirusTest { how: MatchView },
    Environment { item: StringItemView, how: MatchView },
    Duplicate {
        handle: Option<StringItemView>,
        unique_id: Option<StringItemView>,
        seconds: Option<u64>,
        last: bool,
    },
}

pub ghost struct TestExprView {
    pub test: TestView,
    pub is_not: bool,
}

pub ghost struct FileIntoView {
    pub copy: bool,
    pub create: bool,
    pub folder: StringItemView,
    pub flags: Seq<StringItemView>,
    pub mailbox_id: Option<StringItemView>,
    pub special_use: Option<StringItemView>,
}

pub ghost struct VacationView {
    pub subject: Option<StringItemView>,
    pub from: Option<StringItemView>,
    pub mime: bool,
    pub handle: Option<StringItemView>,
    pub addresses: Seq<StringItemView>,
    pub period: Period,
    pub fcc: Option<FccView>,
    pub reason: StringItemView,
}

pub ghost enum VariableView {
    Local(usize),
    Global(Seq<u8>),
}

pub ghost enum InstructionView {
    Jz(usize),
    Jnz(usize),
    Jmp(usize),
    Test(TestExprView),
    Keep(Seq<StringItemView>),
    FileInto(FileIntoView),
    Redirect { copy: bool, address: StringItemView },
    Discard,
    Stop,
    Reject(StringItemView),
    Ereject(StringItemView),
    ForEveryPart(usize),
    ForEveryPartPush,
    ForEveryPartPop(usize),
    Replace {
        as_mime: bool,
        with_subject: Option<StringItemView>,
        with_from: Option<StringItemView>,
        replacement: StringItemView,
    },
    Enclose { subject: Option<StringItemView>, headers: Seq<StringItemView>, text: StringItemView },
    ExtractText { first: Option<u64>, target: VariableView },
    AddHeader { last: bool, field: StringItemView, content: StringItemView },
    DeleteHeader(StringItemView),
    Convert { from_type: StringItemView, to_type: StringItemView, params: Seq<StringItemView> },
    SetVariable { name: VariableView, value: StringItemView },
    Notify(NotifyView),
    Vacation(VacationView),
    SetFlag(Seq<StringItemView>),
    AddFlag(Seq<StringItemView>),
    RemoveFlag(Seq<StringItemView>),
    Include { script: StringItemView, once: bool },
    Return,
    Require(Seq<CapabilityView>),
    Clear(Clear),
    Error(StringItemView),
    Invalid(Seq<u8>),
}

impl View for Match {
    type V = MatchView;

    open spec fn view(&self) -> MatchView {
        MatchView {
            match_type: self.match_type,
            collation: self.collation,
            keys: item_views(self.keys@),
        }
    }
}

impl View for Test {
    type V = TestView;

    open spec fn view(&self) -> TestView {
        match *self {
            Test::True => TestView::True,
            Test::False => TestView::False,
            Test::Header { names, how } => TestView::Header { names: item_views(names@), how: how@ },
            Test::String { sources, how } => TestView::String {
                sources: item_views(sources@),
                how: how@,
            },
            Test::Envelope { slots, how } => TestView::Envelope { slots: slots@, how: how@ },
            Test::Exists { names } => TestView::Exists { names: item_views(names@) },
            Test::Size { over, limit } => TestView::Size { over, limit },
            Test::SpamTest { percent, how } => TestView::SpamTest { percent, how: how@ },
            Test::VirusTest { how } => TestView::VirusTest { how: how@ },
            Test::Environment { item, how } => TestView::Environment { item: item@, how: how@ },
            Test::Duplicate { handle, unique_id, seconds, last } => TestView::Duplicate {
                handle: item_view(handle),
                unique_id: item_view(unique_id),
                seconds,
                last,
            },
        }
    }
}

impl View for TestExpr {
    type V = TestExprView;

    open spec fn view(&self) -> TestExprView {
        TestExprView { test: self.test@, is_not: self.is_not }
    }
}

impl View for FileInto {
    type V = FileIntoView;

    open spec fn view(&self) -> FileIntoView {
        FileIntoView {
            copy: self.copy,
            create: self.create,
            folder: self.folder@,
            flags: item_views(self.flags@),
            mailbox_id: item_view(self.mailbox_id),
            special_use: item_view(self.special_use),
        }
    }
}

impl View for Vacation {
    type V = VacationView;

    open spec fn view(&self) -> VacationView {
        VacationView {
            subject: item_view(self.subject),
            from: item_view(self.from),
            mime: self.mime,
            handle: item_view(self.handle),
            addresses: item_views(self.addresses@),
            period: self.period,
            fcc: match self.fcc {
                Some(f) => Some(f@),
                None => None,
            },
            reason: self.reason@,
        }
    }
}

impl View for Variable {
    type V = VariableView;

    open spec fn view(&self) -> VariableView {
        match *self {
            Variable::Local(slot) => VariableView::Local(slot),
            Variable::Global(name) => VariableView::Global(name@),
        }
    }
}

/// The capabilities of a list as the contracts speak of them.
pub open spec fn capability_views(caps: Seq<Capability>) -> Seq<CapabilityView> {
    Seq::new(caps.len(), |i: int| caps[i]@)
}

impl View for Instruction {
    type V = InstructionView;

    open spec fn view(&self) -> InstructionView {
        match *self {
            Instruction::Jz(t) => InstructionView::Jz(t),
            Instruction::Jnz(t) => InstructionView::Jnz(t),
            Instruction::Jmp(t) => InstructionView::Jmp(t),
            Instruction::Test(expr) => InstructionView::Test(expr@),
            Instruction::Keep(k) => InstructionView::Keep(item_views(k.flags@)),
            Instruction::FileInto(fi) => InstructionView::FileInto(fi@),
            Instruction::Redirect(r) => InstructionView::Redirect {
                copy: r.copy,
                address: r.address@,
            },
            Instruction::Discard => InstructionView::Discard,
            Instruction::Stop => InstructionView::Stop,
            Instruction::Reject(reason) => InstructionView::Reject(reason@),
            Instruction::Ereject(reason) => InstructionView::Ereject(reason@),
            Instruction::ForEveryPart(f) => InstructionView::ForEveryPart(f.jz_pos),
            Instruction::ForEveryPartPush => InstructionView::ForEveryPartPush,
            Instruction::ForEveryPartPop(n) => InstructionView::ForEveryPartPop(n),
            Instruction::Replace(r) => InstructionView::Replace {
                as_mime: r.mime,
                with_subject: item_view(r.subject),
                with_from: item_view(r.from),
                replacement: r.replacement@,
            },
            Instruction::Enclose(e) => InstructionView::Enclose {
                subject: item_view(e.subject),
                headers: item_views(e.headers@),
                text: e.text@,
            },
            Instruction::ExtractText(e) => InstructionView::ExtractText {
                first: e.first,
                target: e.target@,
            },
            Instruction::AddHeader(a) => InstructionView::AddHeader {
                last: a.last,
                field: a.field@,
                content: a.value@,
            },
            Instruction::DeleteHeader(field) => InstructionView::DeleteHeader(field@),
            Instruction::Convert(c) => InstructionView::Convert {
                from_type: c.from_type@,
                to_type: c.to_type@,
                params: item_views(c.params@),
            },
            Instruction::SetVariable(set) => InstructionView::SetVariable {
                name: set.name@,
                value: set.value@,
            },
            Instruction::Notify(n) => InstructionView::Notify(n@),
            Instruction::Vacation(v) => InstructionView::Vacation(v@),
            Instruction::SetFlag(flags) => InstructionView::SetFlag(item_views(flags@)),
            Instruction::AddFlag(flags) => InstructionView::AddFlag(item_views(flags@)),
            Instruction::RemoveFlag(flags) => InstructionView::RemoveFlag(item_views(flags@)),
            Instruction::Include(inc) => InstructionView::Include {
                script: inc.name@,
                once: inc.once,
            },
            Instruction::Return => InstructionView::Return,
            Instruction::Require(caps) => InstructionView::Require(capability_views(caps@)),
            Instruction::Clear(c) => InstructionView::Clear(c),
            Instruction::Error(message) => InstructionView::Error(message@),
            Instruction::Invalid(name) => InstructionView::Invalid(name@),
        }
    }
}

/// The instructions of a list as the contracts speak of them.
pub open spec fn instruction_views(program: Seq<Instruction>) -> Seq<InstructionView> {
    Seq::new(program.len(), |i: int| program[i]@)
}

/// Whether the instruction at a place jumps as a compiled script does: a
/// conditional jump goes strictly forward, an unconditional one goes forward
/// too or back to the `ForEveryPart` of the loop that it closes, and none
/// leaves the program by more than one place.
pub open spec fn jump_ok(program: Seq<Instruction>, i: int) -> bool {
    match program[i] {
        Instruction::Jz(t) => i < t <= program.len(),
        Instruction::Jnz(t) => i < t <= program.len(),
        Instruction::ForEveryPart(f) => i < f.jz_pos <= program.len(),
        Instruction::Jmp(t) => t <= program.len() && t != i && (t < i ==> program[t as int] is ForEveryPart),
        _ => true,
    }
}

/// Whether every instruction of a program jumps as a compiled script does.
pub open spec fn jumps_ok(program: Seq<Instruction>) -> bool {
    forall|i: int| 0 <= i < program.len() ==> jump_ok(program, i)
}

/// A compiled script. It is immutable, and its jumps are those of a compiled
/// script whichever way it was made.
#[derive(Debug, PartialEq, Eq)]
pub struct Sieve {
    instructions: Vec<Instruction>,
    num_vars: usize,
    num_match_vars: usize,
    num_parts: usize,
}

impl Sieve {
    #[verifier::type_invariant]
    spec fn well_formed(self) -> bool {
        jumps_ok(self.instructions@)
    }

    pub closed spec fn program(self) -> Seq<Instruction> {
        self.instructions@
    }

    pub closed spec fn vars(self) -> usize {
        self.num_vars
    }

    pub closed spec fn match_vars(self) -> usize {
        self.num_match_vars
    }

    pub closed spec fn parts(self) -> usize {
        self.num_parts
    }

    /// Whether the instruction at a place jumps as a compiled script does.
    fn check_jump(program: &Vec<Instruction>, i: usize) -> (r: bool)
        requires
            i < program.len(),
        ensures
            r == jump_ok(program@, i as int),
    {
        let n = program.len();
        match &program[i] {
            Instruction::Jz(t) => i < *t && *t <= n,
            Instruction::Jnz(t) => i < *t && *t <= n,
            Instruction::ForEveryPart(f) => i < f.jz_pos && f.jz_pos <= n,
            Instruction::Jmp(t) => {
                if *t > n || *t == i {
                    false
                } else if *t < i {
                    match &program[*t] {
                        Instruction::ForEveryPart(_) => true,
                        _ => false,
                    }
                } else {
                    true
                }
            },
            _ => true,
        }
    }

    /// Makes a program of instructions that were compiled elsewhere. There is
    /// none where an instruction does not jump as a compiled script does.
    pub fn new(
        instructions: Vec<Instruction>,
        num_vars: usize,
        num_match_vars: usize,
        num_parts: usize,
    ) -> (r: Option<Sieve>)
        ensures
            r is Some == jumps_ok(instructions@),
            r matches Some(s) ==> s.program() == instructions@ && s.vars() == num_vars
                && s.match_vars() == num_match_vars && s.parts() == num_parts,
    {
        let mut i: usize = 0;
        while i < instructions.len()
            invariant
                i <= instructions.len(),
                forall|j: int| 0 <= j < i ==> jump_ok(instructions@, j),
            decreases instructions.len() - i,
        {
            if !Sieve::check_jump(&instructions, i) {
                return None;
            }
            i += 1;
        }
        Some(Sieve { instructions, num_vars, num_match_vars, num_parts })
    }

    /// Makes a program of instructions that jump as those of a script do.
    pub(crate) fn assemble(instructions: Vec<Instruction>, num_vars: usize) -> (s: Sieve)
        requires
            jumps_ok(instructions@),
        ensures
            s.program() == instructions@,
            s.vars() == num_vars,
            s.match_vars() == 0,
            s.parts() == 0,
    {
        Sieve { instructions, num_vars, num_match_vars: 0, num_parts: 0 }
    }

    /// The instructions.
    pub fn instructions(&self) -> (r: &Vec<Instruction>)
        ensures
            r@ == self.program(),
            jumps_ok(r@),
    {
        proof {
            use_type_invariant(self);
        }
        &self.instructions
    }

    /// The number of local variables.
    pub fn num_vars(&self) -> (r: usize)
        ensures
            r == self.vars(),
    {
        self.num_vars
    }

    /// The number of match variables.
    pub fn num_match_vars(&self) -> (r: usize)
        ensures
            r == self.match_vars(),
    {
        self.num_match_vars
    }

    /// The number of MIME parts that the script replaces or encloses.
    pub fn num_parts(&self) -> (r: usize)
        ensures
            r == self.parts(),
    {
        self.num_parts
    }
}

} // verus!
