//! What running a script means: the state of an evaluation and the effect of
//! each instruction on it, as mathematical functions.

use vstd::prelude::*;
use crate::compiler::grammar::action_notify::{Fcc, Notify};
use crate::compiler::grammar::capability::Capability;
use crate::compiler::grammar::instruction::{
    jumps_ok,
    Clear,
    ExtractText,
    MatchType,
    FileInto,
    Include,
    Instruction,
    SetVariable,
    Sieve,
    Test,
    TestExpr,
    Vacation,
    Variable,
};
use crate::runtime::condition::{envelope_holds, exists_holds, header_holds, string_holds};
use crate::runtime::envelope::Envelope;
use crate::runtime::event::{
    EventView,
    FileCarbonCopyView,
    Input,
    Runtime,
    RuntimeErrorView,
};
use crate::runtime::message::MailView;
use crate::runtime::string::{lowered, value_of, values, Variables};

verus! {

/// The most local variables that a script may have.
pub const MAX_LOCAL_VARIABLES: usize = 256;

/// The most match variables that a script may have.
pub const MAX_MATCH_VARIABLES: usize = 63;

/// What stays as it is while instructions are executed.
pub ghost struct Env {
    pub runtime: Runtime,
    pub message: MailView,
    /// The scripts that were loaded, in the order in which they came.
    pub scripts: Seq<Sieve>,
    /// The places of the loaded scripts, by name.
    pub cache: Map<Seq<u8>, usize>,
}

/// A script that was entered and has not returned.
pub ghost struct Frame {
    pub script: usize,
    pub prev_pos: usize,
    pub prev_vars_local: Seq<Seq<u8>>,
    pub prev_vars_match: Seq<Seq<u8>>,
    /// How many part iterations were open when the script was entered.
    pub part_depth: nat,
}

/// What instructions change.
pub ghost struct State {
    pub stack: Seq<Frame>,
    pub pos: usize,
    pub test_result: bool,
    pub vars: Variables,
    pub part: usize,
    pub part_iter: Seq<usize>,
    pub part_iter_stack: Seq<(usize, Seq<usize>)>,
    pub envelope: Seq<(Envelope, Seq<u8>)>,
    pub message_size: usize,
    pub executed: usize,
    /// The header fields that are to be added: the part, whether the field
    /// comes behind the others, its name and its value.
    pub header_insertions: Seq<(usize, bool, Seq<u8>, Seq<u8>)>,
    /// The header fields that are to be deleted: the part and the name.
    pub header_deletions: Seq<(usize, Seq<u8>)>,
    /// The parts whose body is to be replaced, and by what.
    pub part_replacements: Seq<(usize, Seq<u8>)>,
    /// The parts that are to be deleted.
    pub part_deletions: Seq<usize>,
}

/// How the execution of one instruction ends.
pub ghost enum Outcome {
    /// The next instruction is due.
    Next(State),
    /// The host is handed an event.
    Yield(State, EventView),
    /// The evaluation ends with an error.
    Fail(State, RuntimeErrorView),
    /// The evaluation is complete.
    Done(State),
}

/// Empty values for a number of variables.
pub open spec fn blank(n: usize) -> Seq<Seq<u8>> {
    Seq::new(n as nat, |i: int| Seq::<u8>::empty())
}

/// The local variables after those of a block went out of scope. A range
/// that does not lie within the variables clears nothing.
pub open spec fn cleared_local(local: Seq<Seq<u8>>, idx: u32, num: u32) -> Seq<Seq<u8>> {
    if idx + num <= local.len() {
        Seq::new(
            local.len(),
            |i: int|
                if idx <= i < idx + num {
                    Seq::<u8>::empty()
                } else {
                    local[i]
                },
        )
    } else {
        local
    }
}

/// Whether a mask names a match variable.
pub open spec fn masked(mask: u64, i: int) -> bool {
    0 <= i < 64 && (mask >> (i as u64)) & 1 == 1
}

/// The match variables after those that a mask names were cleared.
pub open spec fn cleared_match(matched: Seq<Seq<u8>>, mask: u64) -> Seq<Seq<u8>> {
    Seq::new(
        matched.len(),
        |i: int|
            if masked(mask, i) {
                Seq::<u8>::empty()
            } else {
                matched[i]
            },
    )
}

/// The first capability of a list, from a place on, that scripts may not
/// require.
pub open spec fn first_refused(caps: Seq<Capability>, runtime: Runtime, from: int) -> Option<int>
    decreases caps.len() - from,
{
    if from < 0 || from >= caps.len() {
        None
    } else if !runtime.allows(caps[from]) {
        Some(from)
    } else {
        first_refused(caps, runtime, from + 1)
    }
}

/// The error for a capability that scripts may not require.
pub open spec fn refusal(c: Capability) -> RuntimeErrorView {
    match c {
        Capability::Other(name) => RuntimeErrorView::CapabilityNotSupported(name@),
        _ => RuntimeErrorView::CapabilityNotAllowed(c@),
    }
}

/// The event of a `fileinto`.
pub open spec fn file_into_event(fi: FileInto, vars: Variables) -> EventView {
    EventView::FileInto {
        folder: fi.folder.value(vars),
        flags: values(fi.flags@, vars),
        mailbox_id: value_of(fi.mailbox_id, vars),
        special_use: value_of(fi.special_use, vars),
        copy: fi.copy,
        create: fi.create,
    }
}

/// Where the copy of a generated message is filed, if it is filed.
pub open spec fn filed(fcc: Option<Fcc>, vars: Variables) -> Option<FileCarbonCopyView> {
    match fcc {
        Some(f) => Some(
            FileCarbonCopyView {
                target: f.fcc.value(vars),
                create: f.create,
                flags: values(f.flags@, vars),
                special_use: value_of(f.special_use, vars),
                mailbox_id: value_of(f.mailbox_id, vars),
            },
        ),
        None => None,
    }
}

/// The event of a `notify`.
pub open spec fn notify_event(n: Notify, vars: Variables) -> EventView {
    EventView::Notify {
        method: n.method.value(vars),
        from: value_of(n.from, vars),
        importance: value_of(n.importance, vars),
        options: values(n.options@, vars),
        message: value_of(n.message, vars),
        fcc: filed(n.fcc, vars),
    }
}

/// The event of a `vacation`.
pub open spec fn vacation_event(v: Vacation, vars: Variables) -> EventView {
    EventView::Vacation {
        reason: v.reason.value(vars),
        subject: value_of(v.subject, vars),
        from: value_of(v.from, vars),
        addresses: values(v.addresses@, vars),
        mime: v.mime,
        handle: value_of(v.handle, vars),
        period: v.period,
        fcc: filed(v.fcc, vars),
    }
}

/// Whether a test holds, before `not` is applied. A test that only the host
/// can decide does not hold.
pub open spec fn holds(test: Test, env: Env, s: State) -> bool {
    match test {
        Test::True => true,
        Test::False => false,
        Test::Header { names, how } => header_holds(
            env.message.headers_of(s.part),
            values(names@, s.vars),
            how.match_type,
            how.collation,
            values(how.keys@, s.vars),
        ),
        Test::String { sources, how } => string_holds(
            values(sources@, s.vars),
            how.match_type,
            how.collation,
            values(how.keys@, s.vars),
        ),
        Test::Envelope { slots, how } => envelope_holds(
            s.envelope,
            slots@,
            how.match_type,
            how.collation,
            values(how.keys@, s.vars),
        ),
        Test::Exists { names } => exists_holds(
            env.message.headers_of(s.part),
            values(names@, s.vars),
        ),
        Test::Size { over, limit } => if over {
            s.message_size > limit
        } else {
            s.message_size < limit
        },
        Test::Duplicate { .. } => false,
        Test::SpamTest { .. } => false,
        Test::VirusTest { .. } => false,
        Test::Environment { .. } => false,
    }
}

impl State {
    /// The state before any script was entered.
    pub open spec fn initial() -> State {
        State {
            stack: Seq::empty(),
            pos: usize::MAX,
            test_result: false,
            vars: Variables { local: Seq::empty(), matched: Seq::empty(), global: Map::empty() },
            part: 0,
            part_iter: Seq::empty(),
            part_iter_stack: Seq::empty(),
            envelope: Seq::empty(),
            message_size: usize::MAX,
            executed: 0,
            header_insertions: Seq::empty(),
            header_deletions: Seq::empty(),
            part_replacements: Seq::empty(),
            part_deletions: Seq::empty(),
        }
    }

    /// The state at the instruction after the current one.
    pub open spec fn advance(self) -> State {
        State { pos: (self.pos + 1) as usize, ..self }
    }

    /// The state at another instruction.
    pub open spec fn at(self, pos: usize) -> State {
        State { pos, ..self }
    }

    /// The state in a script that was just entered.
    pub open spec fn entered(self, script: usize, prev_pos: usize, sieve: Sieve) -> State {
        State {
            stack: self.stack.push(
                Frame {
                    script,
                    prev_pos,
                    prev_vars_local: self.vars.local,
                    prev_vars_match: self.vars.matched,
                    part_depth: self.part_iter_stack.len(),
                },
            ),
            pos: 0,
            vars: Variables {
                local: blank(sieve.vars()),
                matched: blank(sieve.match_vars()),
                global: self.vars.global,
            },
            ..self
        }
    }

    /// The state with part iterations closed until only `depth` are open.
    pub open spec fn unwound(self, depth: nat) -> State {
        if depth < self.part_iter_stack.len() {
            State {
                part: self.part_iter_stack[depth as int].0,
                part_iter: self.part_iter_stack[depth as int].1,
                part_iter_stack: self.part_iter_stack.take(depth as int),
                ..self
            }
        } else {
            self
        }
    }

    /// The state after the current script returned.
    pub open spec fn returned(self) -> State {
        let frame = self.stack.last();
        let s = self.unwound(frame.part_depth);
        State {
            stack: self.stack.drop_last(),
            pos: frame.prev_pos,
            vars: Variables {
                local: frame.prev_vars_local,
                matched: frame.prev_vars_match,
                global: self.vars.global,
            },
            ..s
        }
    }

    /// How many part iterations the current script has open.
    pub open spec fn open_parts(self) -> nat {
        if self.stack.len() > 0 && self.stack.last().part_depth <= self.part_iter_stack.len() {
            (self.part_iter_stack.len() - self.stack.last().part_depth) as nat
        } else {
            0
        }
    }
}

/// The script that is being executed.
pub open spec fn current(env: Env, s: State) -> Sieve {
    env.scripts[s.stack.last().script as int]
}

/// What a test asks the host, if it is one that only the host can decide.
pub open spec fn asks(test: Test, vars: Variables) -> Option<EventView> {
    match test {
        Test::Duplicate { handle, unique_id, seconds, last } => Some(
            EventView::DuplicateId {
                id: value_of(unique_id, vars),
                handle: value_of(handle, vars),
                seconds,
                last,
            },
        ),
        Test::SpamTest { percent, how } => Some(
            EventView::SpamTest {
                percent,
                match_type: how.match_type,
                collation: how.collation,
                value: values(how.keys@, vars),
            },
        ),
        Test::VirusTest { how } => Some(
            EventView::VirusTest {
                match_type: how.match_type,
                collation: how.collation,
                value: values(how.keys@, vars),
            },
        ),
        Test::Environment { item, how } => Some(
            EventView::EnvironmentGet { name: item.value(vars) },
        ),
        Test::String { sources, how } => if how.match_type == MatchType::List {
            Some(
                EventView::ListContains {
                    list: values(how.keys@, vars),
                    value: values(sources@, vars),
                },
            )
        } else {
            None
        },
        _ => None,
    }
}

/// The effect of a test. A test that only the host can decide hands its
/// question to the host; the answer is then taken as the outcome, turned
/// round where `not` stands before the test.
pub open spec fn step_test(env: Env, s: State, expr: TestExpr) -> Outcome {
    match asks(expr.test, s.vars) {
        Some(event) => Outcome::Yield(State { test_result: expr.is_not, ..s.advance() }, event),
        None => Outcome::Next(
            State { test_result: holds(expr.test, env, s) != expr.is_not, ..s.advance() },
        ),
    }
}

/// The first bytes of a text, or all of it.
pub open spec fn first_of(text: Seq<u8>, first: Option<u64>) -> Seq<u8> {
    match first {
        Some(n) => if n < text.len() {
            text.take(n as int)
        } else {
            text
        },
        None => text,
    }
}

/// The state with a value for a variable, at the next instruction. A slot
/// that the script does not have is left alone. A global variable is kept
/// under its name in small letters.
pub open spec fn assigned(s: State, target: Variable, value: Seq<u8>) -> State {
    match target {
        Variable::Local(slot) => if slot < s.vars.local.len() {
            State {
                vars: Variables { local: s.vars.local.update(slot as int, value), ..s.vars },
                ..s.advance()
            }
        } else {
            s.advance()
        },
        Variable::Global(name) => State {
            vars: Variables { global: s.vars.global.insert(lowered(name@), value), ..s.vars },
            ..s.advance()
        },
    }
}

/// The effect of `set`.
pub open spec fn step_set(s: State, set: SetVariable) -> State {
    assigned(s, set.name, set.value.value(s.vars))
}

/// The effect of `include`.
pub open spec fn step_include(env: Env, s: State, inc: Include) -> Outcome {
    let name = inc.name.value(s.vars);
    if env.cache.dom().contains(name) {
        if inc.once {
            Outcome::Next(s.advance())
        } else if s.stack.len() > env.runtime.limits.max_nested_includes {
            Outcome::Fail(s, RuntimeErrorView::IncludeRecursionLimit)
        } else {
            let script = env.cache[name];
            Outcome::Next(s.entered(script, (s.pos + 1) as usize, env.scripts[script as int]))
        }
    } else if env.scripts.len() >= env.runtime.limits.max_includes {
        Outcome::Fail(s, RuntimeErrorView::TooManyIncludes)
    } else {
        Outcome::Yield(s.advance(), EventView::IncludeScript { name })
    }
}

/// The effect of closing part iterations. A script closes only those that it
/// opened itself.
pub open spec fn step_pop(s: State, n: usize) -> State {
    let k = if n <= s.open_parts() {
        n as nat
    } else {
        s.open_parts()
    };
    if k > 0 {
        s.unwound((s.part_iter_stack.len() - k) as nat).advance()
    } else {
        s.advance()
    }
}

/// The effect of the instruction at the current position, which must be one
/// of the current script.
pub open spec fn step(env: Env, s: State) -> Outcome {
    match current(env, s).program()[s.pos as int] {
        Instruction::Jz(t) => if !s.test_result {
            Outcome::Next(s.at(t))
        } else {
            Outcome::Next(s.advance())
        },
        Instruction::Jnz(t) => if s.test_result {
            Outcome::Next(s.at(t))
        } else {
            Outcome::Next(s.advance())
        },
        Instruction::Jmp(t) => Outcome::Next(s.at(t)),
        Instruction::Test(expr) => step_test(env, s, expr),
        Instruction::Keep(_) => Outcome::Yield(s.advance(), EventView::Keep),
        Instruction::FileInto(fi) => Outcome::Yield(s.advance(), file_into_event(fi, s.vars)),
        Instruction::Redirect(r) => Outcome::Yield(
            s.advance(),
            EventView::Redirect { address: r.address.value(s.vars), copy: r.copy },
        ),
        Instruction::Discard => Outcome::Next(s.advance()),
        Instruction::Stop => Outcome::Done(State { stack: Seq::empty(), ..s }),
        Instruction::Reject(reason) => Outcome::Yield(
            s.advance(),
            EventView::Reject { reason: reason.value(s.vars), ereject: false },
        ),
        Instruction::Ereject(reason) => Outcome::Yield(
            s.advance(),
            EventView::Reject { reason: reason.value(s.vars), ereject: true },
        ),
        Instruction::ForEveryPart(f) => if s.part_iter.len() > 0 {
            Outcome::Next(
                State { part: s.part_iter[0], part_iter: s.part_iter.skip(1), ..s.advance() },
            )
        } else {
            Outcome::Next(s.at(f.jz_pos))
        },
        Instruction::ForEveryPartPush => Outcome::Next(
            State {
                part_iter_stack: s.part_iter_stack.push((s.part, s.part_iter)),
                part_iter: env.message.nested_in(s.part),
                ..s.advance()
            },
        ),
        Instruction::ForEveryPartPop(n) => Outcome::Next(step_pop(s, n)),
        Instruction::Replace(_) => Outcome::Next(s.advance()),
        Instruction::Enclose(_) => Outcome::Next(s.advance()),
        Instruction::Convert(_) => Outcome::Next(s.advance()),
        Instruction::ExtractText(e) => Outcome::Next(
            assigned(s, e.target, first_of(env.message.text_of(s.part), e.first)),
        ),
        Instruction::AddHeader(a) => Outcome::Next(
            State {
                header_insertions: s.header_insertions.push(
                    (s.part, a.last, a.field.value(s.vars), a.value.value(s.vars)),
                ),
                ..s.advance()
            },
        ),
        Instruction::DeleteHeader(field) => Outcome::Next(
            State {
                header_deletions: s.header_deletions.push((s.part, field.value(s.vars))),
                ..s.advance()
            },
        ),
        Instruction::SetVariable(set) => Outcome::Next(step_set(s, set)),
        Instruction::Notify(n) => Outcome::Yield(s.advance(), notify_event(n, s.vars)),
        Instruction::Vacation(v) => Outcome::Yield(s.advance(), vacation_event(v, s.vars)),
        Instruction::SetFlag(flags) => Outcome::Yield(
            s.advance(),
            EventView::SetFlag { flags: values(flags@, s.vars) },
        ),
        Instruction::AddFlag(flags) => Outcome::Yield(
            s.advance(),
            EventView::AddFlag { flags: values(flags@, s.vars) },
        ),
        Instruction::RemoveFlag(flags) => Outcome::Yield(
            s.advance(),
            EventView::RemoveFlag { flags: values(flags@, s.vars) },
        ),
        Instruction::Include(inc) => step_include(env, s, inc),
        Instruction::Return => if s.stack.len() > 1 {
            Outcome::Next(s.returned())
        } else {
            Outcome::Done(s.returned())
        },
        Instruction::Require(caps) => match first_refused(caps@, env.runtime, 0) {
            Some(i) => Outcome::Fail(s, refusal(caps@[i])),
            None => Outcome::Next(s.advance()),
        },
        Instruction::Clear(c) => Outcome::Next(
            State {
                vars: Variables {
                    local: cleared_local(s.vars.local, c.local_vars_idx, c.local_vars_num),
                    matched: cleared_match(s.vars.matched, c.match_vars),
                    global: s.vars.global,
                },
                ..s.advance()
            },
        ),
        Instruction::Error(message) => Outcome::Fail(
            s,
            RuntimeErrorView::ScriptErrorMessage(message.value(s.vars)),
        ),
        Instruction::Invalid(name) => Outcome::Fail(
            s,
            RuntimeErrorView::InvalidInstruction(name@),
        ),
    }
}

/// Whether an instruction is due: a script is being executed and the
/// position is within it.
pub open spec fn due(env: Env, s: State) -> bool {
    s.stack.len() > 0 && s.pos < current(env, s).program().len()
}

/// Executes instructions until the host is handed something or the
/// evaluation is complete. Each instruction counts against the limit of the
/// evaluation.
pub open spec fn steps(env: Env, s: State) -> (State, Option<Result<EventView, RuntimeErrorView>>)
    decreases env.runtime.limits.max_instructions - s.executed,
{
    if !due(env, s) {
        (s, None)
    } else if s.executed >= env.runtime.limits.max_instructions {
        (s, Some(Err(RuntimeErrorView::ScriptTooLong)))
    } else {
        match step(env, State { executed: (s.executed + 1) as usize, ..s }) {
            Outcome::Next(t) => steps(env, t),
            Outcome::Yield(t, e) => (t, Some(Ok(e))),
            Outcome::Fail(t, e) => (t, Some(Err(e))),
            Outcome::Done(t) => (t, None),
        }
    }
}

/// Whether a script may be entered: it has no more variables than the
/// limits allow.
pub open spec fn fits(sieve: Sieve) -> bool {
    sieve.vars() <= MAX_LOCAL_VARIABLES && sieve.match_vars() <= MAX_MATCH_VARIABLES
}

/// The loaded scripts after one more came.
pub open spec fn loaded(env: Env, name: Seq<u8>, script: Sieve) -> Env {
    Env {
        scripts: env.scripts.push(script),
        cache: env.cache.insert(name, env.scripts.len() as usize),
        ..env
    }
}

/// The state after the host handed over a script: the script is entered,
/// and the size of the message is taken where it was not known.
pub open spec fn started(env: Env, s: State, script: Sieve) -> State {
    State {
        test_result: false,
        message_size: if s.message_size == usize::MAX {
            env.message.size
        } else {
            s.message_size
        },
        ..s.entered(env.scripts.len() as usize, s.pos, script)
    }
}

/// One run: the answer of the host is taken in, then instructions are
/// executed.
pub open spec fn run(env: Env, s: State, input: Input) -> (
    Env,
    State,
    Option<Result<EventView, RuntimeErrorView>>,
) {
    match input {
        Input::True => {
            let r = steps(env, State { test_result: !s.test_result, ..s });
            (env, r.0, r.1)
        },
        Input::False => {
            let r = steps(env, s);
            (env, r.0, r.1)
        },
        Input::Script { name, script } => if !fits(script) {
            (env, s, Some(Err(RuntimeErrorView::IllegalAction)))
        } else if env.scripts.len() >= usize::MAX {
            (env, s, Some(Err(RuntimeErrorView::TooManyIncludes)))
        } else {
            let r = steps(loaded(env, name@, script), started(env, s, script));
            (loaded(env, name@, script), r.0, r.1)
        },
    }
}

/// Whether the frames and the open part iterations agree: no script has
/// more part iterations open at its entry than the script it entered, or
/// than there are.
pub open spec fn depths_ok(s: State) -> bool {
    &&& forall|f: int|
        0 <= f < s.stack.len() ==> (#[trigger] s.stack[f]).part_depth <= s.part_iter_stack.len()
    &&& forall|f: int, g: int|
        0 <= f <= g < s.stack.len() ==> (#[trigger] s.stack[f]).part_depth <= (
        #[trigger] s.stack[g]).part_depth
}

/// Whether a frame can be returned to: the script that it returns to is the
/// one below it, and what it kept of that script fits it.
pub open spec fn frame_ok(env: Env, s: State, f: int) -> bool {
    let below = env.scripts[s.stack[f - 1].script as int];
    &&& s.stack[f].prev_pos <= below.program().len()
    &&& s.stack[f].prev_vars_local.len() == below.vars()
    &&& s.stack[f].prev_vars_match.len() == below.match_vars()
}

/// What holds of every state that an evaluation reaches.
pub open spec fn consistent(env: Env, s: State) -> bool {
    &&& forall|name: Seq<u8>|
        env.cache.dom().contains(name) ==> (#[trigger] env.cache[name]) < env.scripts.len()
    &&& forall|i: int|
        0 <= i < env.scripts.len() ==> jumps_ok((#[trigger] env.scripts[i]).program()) && fits(
            env.scripts[i],
        )
    &&& forall|f: int| 0 <= f < s.stack.len() ==> (#[trigger] s.stack[f]).script < env.scripts.len()
    &&& forall|f: int| 0 < f < s.stack.len() ==> #[trigger] frame_ok(env, s, f)
    &&& s.stack.len() > 0 ==> {
        &&& s.pos <= current(env, s).program().len()
        &&& s.vars.local.len() == current(env, s).vars()
        &&& s.vars.matched.len() == current(env, s).match_vars()
    }
    &&& depths_ok(s)
}

} // verus!
