//! The evaluation of scripts against one message.

use vstd::prelude::*;
use vstd::string::*;
use crate::compiler::grammar::action_notify::{Fcc, Notify};
use crate::compiler::grammar::capability::Capability;
use crate::compiler::grammar::instruction::{
    Clear,
    MatchType,
    FileInto,
    Include,
    Instruction,
    Sieve,
    Test,
    TestExpr,
    Vacation,
    Variable,
};
use crate::runtime::condition::{
    entries,
    test_envelope,
    test_exists,
    test_header,
    test_string,
};
use crate::runtime::envelope::{envelope_address, parse_envelope_address, Envelope};
use crate::runtime::event::{shown, Event, FileCarbonCopy, Input, Runtime, RuntimeError};
use crate::runtime::laws::{lemma_same_frames, lemma_started_consistent, lemma_step_consistent};
use crate::runtime::machine::{
    blank,
    cleared_local,
    cleared_match,
    file_into_event,
    filed,
    vacation_event,
    first_refused,
    holds,
    masked,
    notify_event,
    refusal,
    loaded,
    started,
    step,
    steps,
    consistent,
    step_include,
    step_pop,
    asks,
    assigned,
    first_of,
    step_test,
    Env,
    Frame,
    MAX_LOCAL_VARIABLES,
    MAX_MATCH_VARIABLES,
    Outcome,
    State,
};
use crate::runtime::maps::{
    cache_entries,
    cache_get,
    cache_insert,
    cache_new,
    globals_insert,
    globals_new,
};
use crate::runtime::message::{Header, Mail};
use crate::runtime::string::{eval_list, eval_option, lower, scope, texts, Variables};

verus! {

/// A script that was entered and has not returned.
pub(crate) struct ScriptStack {
    pub(crate) script: usize,
    pub(crate) prev_pos: usize,
    pub(crate) prev_vars_local: Vec<Vec<u8>>,
    pub(crate) prev_vars_match: Vec<Vec<u8>>,
    pub(crate) part_depth: usize,
}

/// The part ids that an iteration has yet to visit: those from `next` on.
pub(crate) struct PartIter {
    pub(crate) ids: Vec<usize>,
    pub(crate) next: usize,
}

/// The part of an evaluation that instructions change.
pub(crate) struct Machine {
    pub(crate) script_stack: Vec<ScriptStack>,
    pub(crate) pos: usize,
    pub(crate) test_result: bool,
    pub(crate) vars_global: ahash::AHashMap<Vec<u8>, Vec<u8>>,
    pub(crate) vars_local: Vec<Vec<u8>>,
    pub(crate) vars_match: Vec<Vec<u8>>,
    pub(crate) part: usize,
    pub(crate) part_iter: PartIter,
    pub(crate) part_iter_stack: Vec<(usize, PartIter)>,
    pub(crate) envelope: Vec<(Envelope, Vec<u8>)>,
    pub(crate) message_size: usize,
    pub(crate) executed: usize,
    pub(crate) header_insertions: Vec<(usize, bool, Vec<u8>, Vec<u8>)>,
    pub(crate) header_deletions: Vec<(usize, Vec<u8>)>,
    pub(crate) part_replacements: Vec<(usize, Vec<u8>)>,
    pub(crate) part_deletions: Vec<usize>,
}

/// How the execution of one instruction ended.
pub(crate) enum Flow {
    Next,
    Yield(Event),
    Fail(RuntimeError),
    Done,
}

impl PartIter {
    pub(crate) open spec fn remaining(self) -> Seq<usize> {
        self.ids@.skip(self.next as int)
    }

    pub(crate) open spec fn ok(self) -> bool {
        self.next <= self.ids@.len()
    }
}

impl ScriptStack {
    pub(crate) open spec fn frame(self) -> Frame {
        Frame {
            script: self.script,
            prev_pos: self.prev_pos,
            prev_vars_local: texts(self.prev_vars_local@),
            prev_vars_match: texts(self.prev_vars_match@),
            part_depth: self.part_depth as nat,
        }
    }
}

pub(crate) open spec fn frames(v: Seq<ScriptStack>) -> Seq<Frame> {
    Seq::new(v.len(), |i: int| v[i].frame())
}

pub(crate) open spec fn iters(v: Seq<(usize, PartIter)>) -> Seq<(usize, Seq<usize>)> {
    Seq::new(v.len(), |i: int| (v[i].0, v[i].1.remaining()))
}

pub(crate) open spec fn iters_ok(v: Seq<(usize, PartIter)>) -> bool {
    forall|i: int| 0 <= i < v.len() ==> (#[trigger] v[i]).1.ok()
}

/// The header fields that are to be added, as the contracts speak of them.
pub open spec fn insertions(v: Seq<(usize, bool, Vec<u8>, Vec<u8>)>) -> Seq<
    (usize, bool, Seq<u8>, Seq<u8>),
> {
    Seq::new(v.len(), |i: int| (v[i].0, v[i].1, v[i].2@, v[i].3@))
}

/// Parts with a text each, as the contracts speak of them.
pub open spec fn replacements(v: Seq<(usize, Vec<u8>)>) -> Seq<(usize, Seq<u8>)> {
    Seq::new(v.len(), |i: int| (v[i].0, v[i].1@))
}

/// Whether what an instruction did is what it was to do.
pub(crate) open spec fn agrees(o: Outcome, s: State, flow: Flow) -> bool {
    match flow {
        Flow::Next => o == Outcome::Next(s),
        Flow::Yield(e) => o == Outcome::Yield(s, e@),
        Flow::Fail(e) => o == Outcome::Fail(s, e@),
        Flow::Done => o == Outcome::Done(s),
    }
}

impl Machine {
    pub(crate) open spec fn view(&self) -> State {
        State {
            stack: frames(self.script_stack@),
            pos: self.pos,
            test_result: self.test_result,
            vars: scope(self.vars_local, self.vars_match, self.vars_global),
            part: self.part,
            part_iter: self.part_iter.remaining(),
            part_iter_stack: iters(self.part_iter_stack@),
            envelope: entries(self.envelope@),
            message_size: self.message_size,
            executed: self.executed,
            header_insertions: insertions(self.header_insertions@),
            header_deletions: replacements(self.header_deletions@),
            part_replacements: replacements(self.part_replacements@),
            part_deletions: self.part_deletions@,
        }
    }
}

/// Empty values for a number of variables.
fn blank_vec(n: usize) -> (v: Vec<Vec<u8>>)
    ensures
        texts(v@) == blank(n),
{
    let mut v: Vec<Vec<u8>> = Vec::new();
    let mut i: usize = 0;
    while i < n
        invariant
            i <= n,
            v@.len() == i,
            forall|j: int| 0 <= j < i ==> (#[trigger] v@[j])@ == Seq::<u8>::empty(),
        decreases n - i,
    {
        v.push(Vec::new());
        i += 1;
    }
    assert(texts(v@) =~= blank(n));
    v
}

/// The first capability of a list that scripts may not require, as the
/// error that it causes.
fn check_required(runtime: &Runtime, caps: &Vec<Capability>) -> (r: Option<RuntimeError>)
    ensures
        match first_refused(caps@, *runtime, 0) {
            Some(i) => r matches Some(e) && e@ == refusal(caps@[i]),
            None => r is None,
        },
{
    let mut i: usize = 0;
    while i < caps.len()
        invariant
            i <= caps.len(),
            first_refused(caps@, *runtime, 0) == first_refused(caps@, *runtime, i as int),
        decreases caps.len() - i,
    {
        if !runtime.is_allowed(&caps[i]) {
            return Some(
                match &caps[i] {
                    Capability::Other(name) => RuntimeError::CapabilityNotSupported(name.clone()),
                    c => RuntimeError::CapabilityNotAllowed(c.clone()),
                },
            );
        }
        i += 1;
    }
    None
}

impl Machine {
    pub(crate) open spec fn ok(self) -> bool {
        self.part_iter.ok() && iters_ok(self.part_iter_stack@)
    }

    /// Enters a script.
    fn enter(&mut self, script: usize, prev_pos: usize, sieve: &Sieve)
        requires
            old(self).ok(),
        ensures
            final(self).ok(),
            final(self)@ == old(self)@.entered(script, prev_pos, *sieve),
    {
        let mut local = blank_vec(sieve.num_vars());
        let mut matched = blank_vec(sieve.num_match_vars());
        std::mem::swap(&mut self.vars_local, &mut local);
        std::mem::swap(&mut self.vars_match, &mut matched);
        self.script_stack.push(
            ScriptStack {
                script,
                prev_pos,
                prev_vars_local: local,
                prev_vars_match: matched,
                part_depth: self.part_iter_stack.len(),
            },
        );
        self.pos = 0;
        assert(self@.stack =~= old(self)@.entered(script, prev_pos, *sieve).stack);
    }

    /// Closes part iterations until only `depth` are open.
    fn unwind(&mut self, depth: usize)
        requires
            old(self).ok(),
        ensures
            final(self).ok(),
            final(self)@ == old(self)@.unwound(depth as nat),
            final(self).script_stack == old(self).script_stack,
    {
        if depth < self.part_iter_stack.len() {
            self.part_iter_stack.truncate(depth + 1);
            let top = self.part_iter_stack.pop().unwrap();
            self.part = top.0;
            self.part_iter = top.1;
            assert(self@.part_iter_stack =~= old(self)@.part_iter_stack.take(depth as int));
        }
    }

    /// Returns from the current script.
    fn leave(&mut self)
        requires
            old(self).ok(),
            old(self).script_stack@.len() > 0,
        ensures
            final(self).ok(),
            final(self)@ == old(self)@.returned(),
    {
        let frame = self.script_stack.pop().unwrap();
        self.unwind(frame.part_depth);
        self.pos = frame.prev_pos;
        self.vars_local = frame.prev_vars_local;
        self.vars_match = frame.prev_vars_match;
        assert(self@.stack =~= old(self)@.stack.drop_last());
    }

    /// The event of a `fileinto`.
    fn file_into(&self, fi: &FileInto) -> (e: Event)
        ensures
            e@ == file_into_event(*fi, self@.vars),
    {
        Event::FileInto {
            folder: fi.folder.eval(&self.vars_local, &self.vars_match, &self.vars_global),
            flags: eval_list(&fi.flags, &self.vars_local, &self.vars_match, &self.vars_global),
            mailbox_id: eval_option(
                &fi.mailbox_id,
                &self.vars_local,
                &self.vars_match,
                &self.vars_global,
            ),
            special_use: eval_option(
                &fi.special_use,
                &self.vars_local,
                &self.vars_match,
                &self.vars_global,
            ),
            copy: fi.copy,
            create: fi.create,
        }
    }

    /// Where the copy of a generated message is filed, if it is filed.
    fn file(&self, fcc: &Option<Fcc>) -> (r: Option<FileCarbonCopy>)
        ensures
            match r {
                Some(f) => filed(*fcc, self@.vars) == Some(f@),
                None => filed(*fcc, self@.vars) is None,
            },
    {
        match fcc {
            Some(f) => Some(
                FileCarbonCopy {
                    target: f.fcc.eval(&self.vars_local, &self.vars_match, &self.vars_global),
                    create: f.create,
                    flags: eval_list(
                        &f.flags,
                        &self.vars_local,
                        &self.vars_match,
                        &self.vars_global,
                    ),
                    special_use: eval_option(
                        &f.special_use,
                        &self.vars_local,
                        &self.vars_match,
                        &self.vars_global,
                    ),
                    mailbox_id: eval_option(
                        &f.mailbox_id,
                        &self.vars_local,
                        &self.vars_match,
                        &self.vars_global,
                    ),
                },
            ),
            None => None,
        }
    }

    /// The event of a `notify`.
    fn notify(&self, n: &Notify) -> (e: Event)
        ensures
            e@ == notify_event(*n, self@.vars),
    {
        Event::Notify {
            method: n.method.eval(&self.vars_local, &self.vars_match, &self.vars_global),
            from: eval_option(&n.from, &self.vars_local, &self.vars_match, &self.vars_global),
            importance: eval_option(
                &n.importance,
                &self.vars_local,
                &self.vars_match,
                &self.vars_global,
            ),
            options: eval_list(&n.options, &self.vars_local, &self.vars_match, &self.vars_global),
            message: eval_option(
                &n.message,
                &self.vars_local,
                &self.vars_match,
                &self.vars_global,
            ),
            fcc: self.file(&n.fcc),
        }
    }

    /// The event of a `vacation`.
    fn vacation(&self, v: &Vacation) -> (e: Event)
        ensures
            e@ == vacation_event(*v, self@.vars),
    {
        Event::Vacation {
            reason: v.reason.eval(&self.vars_local, &self.vars_match, &self.vars_global),
            subject: eval_option(&v.subject, &self.vars_local, &self.vars_match, &self.vars_global),
            from: eval_option(&v.from, &self.vars_local, &self.vars_match, &self.vars_global),
            addresses: eval_list(
                &v.addresses,
                &self.vars_local,
                &self.vars_match,
                &self.vars_global,
            ),
            mime: v.mime,
            handle: eval_option(&v.handle, &self.vars_local, &self.vars_match, &self.vars_global),
            period: v.period,
            fcc: self.file(&v.fcc),
        }
    }
}

/// The header fields of a part; none for an id that names no part.
fn headers_of<'a>(message: &'a Mail, part: usize, none: &'a Vec<Header>) -> (r: &'a Vec<Header>)
    requires
        none@.len() == 0,
    ensures
        crate::runtime::message::fields_of(r@) == message@.headers_of(part),
{
    if part < message.parts.len() {
        &message.parts[part].headers
    } else {
        assert(crate::runtime::message::fields_of(none@) =~= Seq::empty());
        none
    }
}

impl Machine {
    /// Whether a test holds, before `not` is applied.
    fn evaluate(&self, message: &Mail, test: &Test, Ghost(env): Ghost<Env>) -> (r: bool)
        requires
            env.message == message@,
        ensures
            r == holds(*test, env, self@),
    {
        match test {
            Test::True => true,
            Test::False => false,
            Test::Header { names, how } => {
                let none: Vec<Header> = Vec::new();
                let names = eval_list(names, &self.vars_local, &self.vars_match, &self.vars_global);
                let keys = eval_list(
                    &how.keys,
                    &self.vars_local,
                    &self.vars_match,
                    &self.vars_global,
                );
                test_header(
                    headers_of(message, self.part, &none),
                    &names,
                    how.match_type,
                    how.collation,
                    &keys,
                )
            },
            Test::String { sources, how } => {
                let sources = eval_list(
                    sources,
                    &self.vars_local,
                    &self.vars_match,
                    &self.vars_global,
                );
                let keys = eval_list(
                    &how.keys,
                    &self.vars_local,
                    &self.vars_match,
                    &self.vars_global,
                );
                test_string(&sources, how.match_type, how.collation, &keys)
            },
            Test::Envelope { slots, how } => {
                let keys = eval_list(
                    &how.keys,
                    &self.vars_local,
                    &self.vars_match,
                    &self.vars_global,
                );
                test_envelope(&self.envelope, slots, how.match_type, how.collation, &keys)
            },
            Test::Exists { names } => {
                let none: Vec<Header> = Vec::new();
                let names = eval_list(names, &self.vars_local, &self.vars_match, &self.vars_global);
                test_exists(headers_of(message, self.part, &none), &names)
            },
            Test::Size { over, limit } => if *over {
                self.message_size as u64 > *limit
            } else {
                (self.message_size as u64) < *limit
            },
            Test::Duplicate { .. } => false,
            Test::SpamTest { .. } => false,
            Test::VirusTest { .. } => false,
            Test::Environment { .. } => false,
        }
    }

    /// Executes a test.
    fn test(&mut self, message: &Mail, expr: &TestExpr, Ghost(env): Ghost<Env>) -> (flow: Flow)
        requires
            old(self).ok(),
            old(self).pos < usize::MAX,
            env.message == message@,
        ensures
            final(self).ok(),
            agrees(step_test(env, old(self)@, *expr), final(self)@, flow),
    {
        match self.ask(&expr.test) {
            Some(event) => {
                self.pos += 1;
                self.test_result = expr.is_not;
                Flow::Yield(event)
            },
            None => {
                let result = self.evaluate(message, &expr.test, Ghost(env));
                self.test_result = result != expr.is_not;
                self.pos += 1;
                Flow::Next
            },
        }
    }

    /// What a test asks the host, if it is one that only the host can
    /// decide.
    fn ask(&self, test: &Test) -> (r: Option<Event>)
        ensures
            match r {
                Some(e) => asks(*test, self@.vars) == Some(e@),
                None => asks(*test, self@.vars) is None,
            },
    {
        match test {
            Test::Duplicate { handle, unique_id, seconds, last } => Some(
                Event::DuplicateId {
                    id: eval_option(
                        unique_id,
                        &self.vars_local,
                        &self.vars_match,
                        &self.vars_global,
                    ),
                    handle: eval_option(
                        handle,
                        &self.vars_local,
                        &self.vars_match,
                        &self.vars_global,
                    ),
                    seconds: *seconds,
                    last: *last,
                },
            ),
            Test::SpamTest { percent, how } => Some(
                Event::SpamTest {
                    percent: *percent,
                    match_type: how.match_type,
                    collation: how.collation,
                    value: eval_list(
                        &how.keys,
                        &self.vars_local,
                        &self.vars_match,
                        &self.vars_global,
                    ),
                },
            ),
            Test::VirusTest { how } => Some(
                Event::VirusTest {
                    match_type: how.match_type,
                    collation: how.collation,
                    value: eval_list(
                        &how.keys,
                        &self.vars_local,
                        &self.vars_match,
                        &self.vars_global,
                    ),
                },
            ),
            Test::Environment { item, how } => Some(
                Event::EnvironmentGet {
                    name: item.eval(&self.vars_local, &self.vars_match, &self.vars_global),
                },
            ),
            Test::String { sources, how } => {
                if how.match_type == MatchType::List {
                    Some(
                        Event::ListContains {
                            list: eval_list(
                                &how.keys,
                                &self.vars_local,
                                &self.vars_match,
                                &self.vars_global,
                            ),
                            value: eval_list(
                                sources,
                                &self.vars_local,
                                &self.vars_match,
                                &self.vars_global,
                            ),
                        },
                    )
                } else {
                    None
                }
            },
            _ => None,
        }
    }

    /// Gives a variable a value and goes to the next instruction.
    fn assign(&mut self, target: &Variable, value: Vec<u8>)
        requires
            old(self).ok(),
            old(self).pos < usize::MAX,
        ensures
            final(self).ok(),
            final(self)@ == assigned(old(self)@, *target, value@),
    {
        match target {
            Variable::Local(slot) => {
                if *slot < self.vars_local.len() {
                    self.vars_local.set(*slot, value);
                    assert(texts(self.vars_local@) =~= texts(old(self).vars_local@).update(
                        *slot as int,
                        value@,
                    ));
                }
            },
            Variable::Global(name) => {
                globals_insert(&mut self.vars_global, lower(name.as_slice()), value);
            },
        }
        self.pos += 1;
    }

    /// The first bytes of the text of the current part, or all of it.
    fn extract(&self, message: &Mail, first: Option<u64>) -> (r: Vec<u8>)
        ensures
            r@ == first_of(message@.text_of(self.part), first),
    {
        let mut text = message.text(self.part);
        match first {
            Some(n) => {
                if n < text.len() as u64 {
                    text.truncate(n as usize);
                    assert(text@ =~= message@.text_of(self.part).take(n as int));
                }
            },
            None => {},
        }
        text
    }

    /// Executes the entry into another script.
    fn enter_other(
        &mut self,
        runtime: &Runtime,
        scripts: &Vec<Sieve>,
        cache: &ahash::AHashMap<Vec<u8>, usize>,
        inc: &Include,
        Ghost(env): Ghost<Env>,
    ) -> (flow: Flow)
        requires
            old(self).ok(),
            old(self).pos < usize::MAX,
            env.runtime == *runtime,
            env.scripts == scripts@,
            env.cache == cache_entries(*cache),
            forall|name: Seq<u8>|
                env.cache.dom().contains(name) ==> (#[trigger] env.cache[name]) < env.scripts.len(),
        ensures
            final(self).ok(),
            agrees(step_include(env, old(self)@, *inc), final(self)@, flow),
    {
        let name = inc.name.eval(&self.vars_local, &self.vars_match, &self.vars_global);
        match cache_get(cache, name.as_slice()) {
            Some(script) => {
                if inc.once {
                    self.pos += 1;
                    Flow::Next
                } else if self.script_stack.len() > runtime.limits.max_nested_includes {
                    Flow::Fail(RuntimeError::IncludeRecursionLimit)
                } else {
                    let prev_pos = self.pos + 1;
                    self.enter(script, prev_pos, &scripts[script]);
                    Flow::Next
                }
            },
            None => {
                if scripts.len() >= runtime.limits.max_includes {
                    Flow::Fail(RuntimeError::TooManyIncludes)
                } else {
                    self.pos += 1;
                    Flow::Yield(Event::IncludeScript { name })
                }
            },
        }
    }

    /// Executes the end of a block: its variables go out of scope.
    fn clear(&mut self, c: &Clear)
        requires
            old(self).ok(),
            old(self).pos < usize::MAX,
        ensures
            final(self).ok(),
            final(self)@ == (State {
                vars: Variables {
                    local: cleared_local(old(self)@.vars.local, c.local_vars_idx, c.local_vars_num),
                    matched: cleared_match(old(self)@.vars.matched, c.match_vars),
                    global: old(self)@.vars.global,
                },
                ..old(self)@.advance()
            }),
    {
        let idx = c.local_vars_idx as usize;
        let num = c.local_vars_num as usize;
        let len = self.vars_local.len();
        if idx <= len && num <= len - idx {
            let mut i: usize = idx;
            while i < idx + num
                invariant
                    idx <= i <= idx + num <= len,
                    self.vars_local@.len() == len,
                    forall|j: int|
                        0 <= j < len ==> (#[trigger] self.vars_local@[j])@ == if idx <= j < i {
                            Seq::<u8>::empty()
                        } else {
                            old(self).vars_local@[j]@
                        },
                    self.vars_match == old(self).vars_match,
                    self.vars_global == old(self).vars_global,
                    self.script_stack == old(self).script_stack,
                    self.part_iter == old(self).part_iter,
                    self.part_iter_stack == old(self).part_iter_stack,
                    self.envelope == old(self).envelope,
                    self.header_insertions == old(self).header_insertions,
                    self.header_deletions == old(self).header_deletions,
                    self.part_replacements == old(self).part_replacements,
                    self.part_deletions == old(self).part_deletions,
                    self.pos == old(self).pos,
                    self.part == old(self).part,
                    self.test_result == old(self).test_result,
                    self.message_size == old(self).message_size,
                    self.executed == old(self).executed,
                decreases idx + num - i,
            {
                self.vars_local.set(i, Vec::new());
                i += 1;
            }
        }
        assert(texts(self.vars_local@) =~= cleared_local(
            old(self)@.vars.local,
            c.local_vars_idx,
            c.local_vars_num,
        ));
        let mask = c.match_vars;
        let count = self.vars_match.len();
        let mut i: usize = 0;
        while i < count && i < 64
            invariant
                i <= count,
                i <= 64,
                mask == c.match_vars,
                self.vars_match@.len() == count,
                count == old(self).vars_match@.len(),
                forall|j: int|
                    0 <= j < count ==> (#[trigger] self.vars_match@[j])@ == if j < i && masked(
                        mask,
                        j,
                    ) {
                        Seq::<u8>::empty()
                    } else {
                        old(self).vars_match@[j]@
                    },
                texts(self.vars_local@) == cleared_local(
                    old(self)@.vars.local,
                    c.local_vars_idx,
                    c.local_vars_num,
                ),
                self.vars_global == old(self).vars_global,
                self.script_stack == old(self).script_stack,
                self.part_iter == old(self).part_iter,
                self.part_iter_stack == old(self).part_iter_stack,
                self.envelope == old(self).envelope,
                self.header_insertions == old(self).header_insertions,
                self.header_deletions == old(self).header_deletions,
                self.part_replacements == old(self).part_replacements,
                self.part_deletions == old(self).part_deletions,
                self.pos == old(self).pos,
                self.part == old(self).part,
                self.test_result == old(self).test_result,
                self.message_size == old(self).message_size,
                self.executed == old(self).executed,
            decreases count - i,
        {
            if (mask >> (i as u64)) & 1 == 1 {
                self.vars_match.set(i, Vec::new());
            }
            i += 1;
        }
        assert(texts(self.vars_match@) =~= cleared_match(old(self)@.vars.matched, c.match_vars));
        self.pos += 1;
    }

    /// Closes part iterations that the current script opened.
    fn pop(&mut self, n: usize)
        requires
            old(self).ok(),
            old(self).pos < usize::MAX,
        ensures
            final(self).ok(),
            final(self)@ == step_pop(old(self)@, n),
    {
        let depth = self.part_iter_stack.len();
        let frames = self.script_stack.len();
        let open = if frames > 0 && self.script_stack[frames - 1].part_depth <= depth {
            depth - self.script_stack[frames - 1].part_depth
        } else {
            0
        };
        assert(open == old(self)@.open_parts());
        let k = if n <= open {
            n
        } else {
            open
        };
        if k > 0 {
            self.unwind(depth - k);
        }
        self.pos += 1;
    }

    /// Executes one instruction.
    pub(crate) fn step(
        &mut self,
        runtime: &Runtime,
        message: &Mail,
        scripts: &Vec<Sieve>,
        cache: &ahash::AHashMap<Vec<u8>, usize>,
        ins: &Instruction,
        Ghost(env): Ghost<Env>,
    ) -> (flow: Flow)
        requires
            old(self).ok(),
            env.runtime == *runtime,
            env.message == message@,
            env.scripts == scripts@,
            env.cache == cache_entries(*cache),
            forall|name: Seq<u8>|
                env.cache.dom().contains(name) ==> (#[trigger] env.cache[name]) < env.scripts.len(),
            old(self).script_stack@.len() > 0,
            old(self).pos < usize::MAX,
            old(self).pos < crate::runtime::machine::current(env, old(self)@).program().len(),
            *ins == crate::runtime::machine::current(env, old(self)@).program()[old(
                self,
            ).pos as int],
        ensures
            final(self).ok(),
            agrees(step(env, old(self)@), final(self)@, flow),
    {
        match ins {
            Instruction::Jz(t) => {
                if !self.test_result {
                    self.pos = *t;
                } else {
                    self.pos += 1;
                }
                Flow::Next
            },
            Instruction::Jnz(t) => {
                if self.test_result {
                    self.pos = *t;
                } else {
                    self.pos += 1;
                }
                Flow::Next
            },
            Instruction::Jmp(t) => {
                self.pos = *t;
                Flow::Next
            },
            Instruction::Test(expr) => self.test(message, expr, Ghost(env)),
            Instruction::Keep(_) => {
                self.pos += 1;
                Flow::Yield(Event::Keep)
            },
            Instruction::FileInto(fi) => {
                let event = self.file_into(fi);
                self.pos += 1;
                Flow::Yield(event)
            },
            Instruction::Redirect(r) => {
                let event = Event::Redirect {
                    address: r.address.eval(&self.vars_local, &self.vars_match, &self.vars_global),
                    copy: r.copy,
                };
                self.pos += 1;
                Flow::Yield(event)
            },
            Instruction::Discard => {
                self.pos += 1;
                Flow::Next
            },
            Instruction::Stop => {
                self.script_stack.clear();
                assert(self@.stack =~= Seq::empty());
                Flow::Done
            },
            Instruction::Reject(reason) => {
                let event = Event::Reject {
                    reason: reason.eval(&self.vars_local, &self.vars_match, &self.vars_global),
                    ereject: false,
                };
                self.pos += 1;
                Flow::Yield(event)
            },
            Instruction::Ereject(reason) => {
                let event = Event::Reject {
                    reason: reason.eval(&self.vars_local, &self.vars_match, &self.vars_global),
                    ereject: true,
                };
                self.pos += 1;
                Flow::Yield(event)
            },
            Instruction::ForEveryPart(f) => {
                if self.part_iter.next < self.part_iter.ids.len() {
                    self.part = self.part_iter.ids[self.part_iter.next];
                    self.part_iter.next += 1;
                    self.pos += 1;
                    assert(self@.part_iter =~= old(self)@.part_iter.skip(1));
                } else {
                    self.pos = f.jz_pos;
                }
                Flow::Next
            },
            Instruction::ForEveryPartPush => {
                let mut fresh = PartIter { ids: message.nested_ids(self.part), next: 0 };
                std::mem::swap(&mut self.part_iter, &mut fresh);
                self.part_iter_stack.push((self.part, fresh));
                self.pos += 1;
                assert(self@.part_iter =~= message@.nested_in(old(self).part));
                assert(self@.part_iter_stack =~= old(self)@.part_iter_stack.push(
                    (old(self)@.part, old(self)@.part_iter),
                ));
                Flow::Next
            },
            Instruction::ForEveryPartPop(n) => {
                self.pop(*n);
                Flow::Next
            },
            Instruction::SetVariable(set) => {
                let value = set.value.eval(&self.vars_local, &self.vars_match, &self.vars_global);
                self.assign(&set.name, value);
                Flow::Next
            },
            Instruction::Replace(_) => {
                self.pos += 1;
                Flow::Next
            },
            Instruction::Enclose(_) => {
                self.pos += 1;
                Flow::Next
            },
            Instruction::Convert(_) => {
                self.pos += 1;
                Flow::Next
            },
            Instruction::ExtractText(e) => {
                let value = self.extract(message, e.first);
                self.assign(&e.target, value);
                Flow::Next
            },
            Instruction::AddHeader(a) => {
                let field = a.field.eval(&self.vars_local, &self.vars_match, &self.vars_global);
                let value = a.value.eval(&self.vars_local, &self.vars_match, &self.vars_global);
                self.header_insertions.push((self.part, a.last, field, value));
                self.pos += 1;
                assert(self@.header_insertions =~= old(self)@.header_insertions.push(
                    (self.part, a.last, field@, value@),
                ));
                Flow::Next
            },
            Instruction::DeleteHeader(field) => {
                let field = field.eval(&self.vars_local, &self.vars_match, &self.vars_global);
                self.header_deletions.push((self.part, field));
                self.pos += 1;
                assert(self@.header_deletions =~= old(self)@.header_deletions.push(
                    (self.part, field@),
                ));
                Flow::Next
            },
            Instruction::Notify(n) => {
                let event = self.notify(n);
                self.pos += 1;
                Flow::Yield(event)
            },
            Instruction::Vacation(v) => {
                let event = self.vacation(v);
                self.pos += 1;
                Flow::Yield(event)
            },
            Instruction::SetFlag(flags) => {
                let event = Event::SetFlag {
                    flags: eval_list(flags, &self.vars_local, &self.vars_match, &self.vars_global),
                };
                self.pos += 1;
                Flow::Yield(event)
            },
            Instruction::AddFlag(flags) => {
                let event = Event::AddFlag {
                    flags: eval_list(flags, &self.vars_local, &self.vars_match, &self.vars_global),
                };
                self.pos += 1;
                Flow::Yield(event)
            },
            Instruction::RemoveFlag(flags) => {
                let event = Event::RemoveFlag {
                    flags: eval_list(flags, &self.vars_local, &self.vars_match, &self.vars_global),
                };
                self.pos += 1;
                Flow::Yield(event)
            },
            Instruction::Include(inc) => self.enter_other(runtime, scripts, cache, inc, Ghost(env)),
            Instruction::Return => {
                let nested = self.script_stack.len() > 1;
                self.leave();
                if nested {
                    Flow::Next
                } else {
                    Flow::Done
                }
            },
            Instruction::Require(caps) => {
                match check_required(runtime, caps) {
                    Some(e) => Flow::Fail(e),
                    None => {
                        self.pos += 1;
                        Flow::Next
                    },
                }
            },
            Instruction::Clear(c) => {
                self.clear(c);
                Flow::Next
            },
            Instruction::Error(message) => Flow::Fail(
                RuntimeError::ScriptErrorMessage(
                    message.eval(&self.vars_local, &self.vars_match, &self.vars_global),
                ),
            ),
            Instruction::Invalid(name) => Flow::Fail(RuntimeError::InvalidInstruction(name.clone())),
        }
    }
}

/// The evaluation of scripts against one message.
///
/// The host hands the first script to `run`, performs what each event asks
/// for, and calls `run` again with its answer until nothing comes back.
pub struct Context<'x> {
    runtime: &'x Runtime,
    message: Mail,
    scripts: Vec<Sieve>,
    script_cache: ahash::AHashMap<Vec<u8>, usize>,
    machine: Machine,
}

impl<'x> Context<'x> {
    /// What instructions leave as it is: the configuration, the message and
    /// the scripts that were loaded.
    pub closed spec fn env(&self) -> Env {
        Env {
            runtime: *self.runtime,
            message: self.message@,
            scripts: self.scripts@,
            cache: cache_entries(self.script_cache),
        }
    }

    /// What instructions change.
    pub closed spec fn state(&self) -> State {
        self.machine@
    }

    /// Whether the evaluation is in a state that a run can start from.
    pub closed spec fn wf(&self) -> bool {
        &&& self.machine.ok()
        &&& consistent(self.env(), self.state())
    }

    /// A valid evaluation is consistent.
    pub proof fn lemma_wf(&self)
        requires
            self.wf(),
        ensures
            consistent(self.env(), self.state()),
    {
    }

    /// An evaluation of no script yet, for a message that the host parsed.
    pub fn new(runtime: &'x Runtime, message: Mail) -> (c: Context<'x>)
        ensures
            c.wf(),
            c.state() == State::initial(),
            c.env().runtime == *runtime,
            c.env().message == message@,
            c.env().scripts == Seq::<Sieve>::empty(),
            c.env().cache == Map::<Seq<u8>, usize>::empty(),
    {
        let c = Context {
            runtime,
            message,
            scripts: Vec::new(),
            script_cache: cache_new(),
            machine: Machine {
                script_stack: Vec::new(),
                pos: usize::MAX,
                test_result: false,
                vars_global: globals_new(),
                vars_local: Vec::new(),
                vars_match: Vec::new(),
                part: 0,
                part_iter: PartIter { ids: Vec::new(), next: 0 },
                part_iter_stack: Vec::new(),
                envelope: Vec::new(),
                message_size: usize::MAX,
                executed: 0,
                header_insertions: Vec::new(),
                header_deletions: Vec::new(),
                part_replacements: Vec::new(),
                part_deletions: Vec::new(),
            },
        };
        assert(c.machine@.vars.global =~= Map::<Seq<u8>, Seq<u8>>::empty());
        assert(c.machine@.vars.local =~= Seq::<Seq<u8>>::empty());
        assert(c.machine@.vars.matched =~= Seq::<Seq<u8>>::empty());
        assert(c.machine@.stack =~= Seq::<Frame>::empty());
        assert(c.machine@.part_iter =~= Seq::<usize>::empty());
        assert(c.machine@.part_iter_stack =~= Seq::<(usize, Seq<usize>)>::empty());
        assert(c.machine@.envelope =~= Seq::<(Envelope, Seq<u8>)>::empty());
        assert(c.machine@.header_insertions =~= Seq::<(usize, bool, Seq<u8>, Seq<u8>)>::empty());
        assert(c.machine@.header_deletions =~= Seq::<(usize, Seq<u8>)>::empty());
        assert(c.machine@.part_replacements =~= Seq::<(usize, Seq<u8>)>::empty());
        assert(c.env().cache =~= Map::<Seq<u8>, usize>::empty());
        c
    }

    /// The header fields that the script has asked to add so far: the part,
    /// whether the field comes behind the others, its name and its value.
    pub fn header_insertions(&self) -> (r: &Vec<(usize, bool, Vec<u8>, Vec<u8>)>)
        ensures
            insertions(r@) == self.state().header_insertions,
    {
        &self.machine.header_insertions
    }

    /// The header fields that the script has asked to delete so far: the
    /// part and the name.
    pub fn header_deletions(&self) -> (r: &Vec<(usize, Vec<u8>)>)
        ensures
            replacements(r@) == self.state().header_deletions,
    {
        &self.machine.header_deletions
    }

    /// The parts whose body is to be replaced, and by what.
    pub fn part_replacements(&self) -> (r: &Vec<(usize, Vec<u8>)>)
        ensures
            replacements(r@) == self.state().part_replacements,
    {
        &self.machine.part_replacements
    }

    /// The parts that are to be deleted.
    pub fn part_deletions(&self) -> (r: &Vec<usize>)
        ensures
            r@ == self.state().part_deletions,
    {
        &self.machine.part_deletions
    }

    /// Takes in an envelope value. A value that holds no address is left
    /// out.
    pub fn set_envelope(&mut self, envelope: Envelope, value: &str)
        requires
            old(self).wf(),
        ensures
            final(self).wf(),
            final(self).env() == old(self).env(),
            final(self).state() == match envelope_address(value.spec_bytes()) {
                Some(address) => State {
                    envelope: old(self).state().envelope.push((envelope, address)),
                    ..old(self).state()
                },
                None => old(self).state(),
            },
    {
        if let Some(address) = parse_envelope_address(value.as_bytes()) {
            self.machine.envelope.push((envelope, address));
            assert(self.machine@.envelope =~= old(self).machine@.envelope.push(
                (envelope, address@),
            ));
            proof {
                lemma_same_frames(self.env(), old(self).state(), self.state());
            }
        }
    }

    /// The evaluation with one more envelope value.
    pub fn with_envelope(self, envelope: Envelope, value: &str) -> (c: Context<'x>)
        requires
            self.wf(),
        ensures
            c.wf(),
            c.env() == self.env(),
            c.state() == match envelope_address(value.spec_bytes()) {
                Some(address) => State {
                    envelope: self.state().envelope.push((envelope, address)),
                    ..self.state()
                },
                None => self.state(),
            },
    {
        let mut c = self;
        c.set_envelope(envelope, value);
        c
    }

    /// Forgets the envelope values.
    pub fn clear_envelope(&mut self)
        requires
            old(self).wf(),
        ensures
            final(self).wf(),
            final(self).env() == old(self).env(),
            final(self).state() == (State {
                envelope: Seq::<(Envelope, Seq<u8>)>::empty(),
                ..old(self).state()
            }),
    {
        self.machine.envelope.clear();
        assert(self.machine@.envelope =~= Seq::<(Envelope, Seq<u8>)>::empty());
        proof {
            lemma_same_frames(self.env(), old(self).state(), self.state());
        }
    }

    /// Resumes the evaluation with what the host hands over, and executes
    /// instructions until there is something for the host or the script is
    /// complete.
    ///
    /// Whatever comes back, the evaluation stays consistent: while a script
    /// is being executed the position lies within it or just behind its end,
    /// and there are as many local and match variables as that script has.
    pub fn run(&mut self, input: Input) -> (r: Option<Result<Event, RuntimeError>>)
        requires
            old(self).wf(),
        ensures
            final(self).wf(),
            (final(self).env(), final(self).state(), shown(r)) == crate::runtime::machine::run(
                old(self).env(),
                old(self).state(),
                input,
            ),
            consistent(final(self).env(), final(self).state()),
    {
        let ghost goal = crate::runtime::machine::run(old(self).env(), old(self).state(), input);
        match input {
            Input::True => {
                self.machine.test_result = !self.machine.test_result;
                proof {
                    lemma_same_frames(self.env(), old(self).state(), self.state());
                }
            },
            Input::False => {},
            Input::Script { name, script } => {
                if script.num_match_vars() > MAX_MATCH_VARIABLES || script.num_vars()
                    > MAX_LOCAL_VARIABLES {
                    return Some(Err(RuntimeError::IllegalAction));
                }
                if self.scripts.len() == usize::MAX {
                    return Some(Err(RuntimeError::TooManyIncludes));
                }
                if self.machine.message_size == usize::MAX {
                    self.machine.message_size = self.message.size;
                }
                let place = self.scripts.len();
                let prev_pos = self.machine.pos;
                let _ = script.instructions();
                self.machine.enter(place, prev_pos, &script);
                self.machine.test_result = false;
                proof {
                    lemma_started_consistent(
                        old(self).env(),
                        old(self).state(),
                        name@,
                        script,
                    );
                }
                self.scripts.push(script);
                cache_insert(&mut self.script_cache, name, place);
                assert(self.state() =~~= started(old(self).env(), old(self).state(), script));
                assert(self.env() =~~= loaded(old(self).env(), name@, script));
            },
        }
        let ghost env = self.env();
        let ghost entry = self.state();
        loop
            invariant
                self.wf(),
                self.env() == env,
                goal == crate::runtime::machine::run(old(self).env(), old(self).state(), input),
                goal == (env, steps(env, entry).0, steps(env, entry).1),
                steps(env, entry) == steps(env, self.state()),
            decreases self.runtime.limits.max_instructions - self.machine.executed,
        {
            let frames = self.machine.script_stack.len();
            if frames == 0 {
                return None;
            }
            let script = self.machine.script_stack[frames - 1].script;
            let program = self.scripts[script].instructions();
            if self.machine.pos >= program.len() {
                return None;
            }
            if self.machine.executed >= self.runtime.limits.max_instructions {
                return Some(Err(RuntimeError::ScriptTooLong));
            }
            let ghost before = self.state();
            self.machine.executed += 1;
            proof {
                assert(self.state() == State { executed: (before.executed + 1) as usize, ..before });
                lemma_same_frames(env, before, self.state());
                lemma_step_consistent(env, self.state());
            }
            let flow = self.machine.step(
                self.runtime,
                &self.message,
                &self.scripts,
                &self.script_cache,
                &program[self.machine.pos],
                Ghost(env),
            );
            match flow {
                Flow::Next => {},
                Flow::Yield(e) => {
                    return Some(Ok(e));
                },
                Flow::Fail(e) => {
                    return Some(Err(e));
                },
                Flow::Done => {
                    return None;
                },
            }
        }
    }
}

} // verus!
