//! What holds of every evaluation, proved from the meaning of the
//! instructions.

use vstd::prelude::*;
use crate::compiler::grammar::capability::Capability;
use crate::compiler::grammar::instruction::{jump_ok, jumps_ok, Instruction, Sieve};
use crate::runtime::event::Runtime;
use crate::runtime::event::{EventView, Input, RuntimeErrorView};
use crate::runtime::machine::{
    consistent,
    current,
    due,
    first_refused,
    fits,
    frame_ok,
    loaded,
    run,
    started,
    step,
    steps,
    Env,
    Outcome,
    State,
};

verus! {

impl Outcome {
    /// The state in which the execution of an instruction ends.
    pub open spec fn state(self) -> State {
        match self {
            Outcome::Next(s) => s,
            Outcome::Yield(s, _) => s,
            Outcome::Fail(s, _) => s,
            Outcome::Done(s) => s,
        }
    }
}

/// A state that differs from a consistent one in neither the frames, the
/// position, the number of variables nor the open part iterations is
/// consistent too.
pub proof fn lemma_same_frames(env: Env, s: State, t: State)
    requires
        consistent(env, s),
        t.stack == s.stack,
        t.pos == s.pos,
        t.vars.local.len() == s.vars.local.len(),
        t.vars.matched.len() == s.vars.matched.len(),
        t.part_iter_stack.len() == s.part_iter_stack.len(),
    ensures
        consistent(env, t),
{
    assert forall|f: int| 0 < f < t.stack.len() implies #[trigger] frame_ok(env, t, f) by {
        assert(frame_ok(env, s, f));
    }
}

/// Entering a script keeps the state consistent, given that the script has
/// a place among the loaded ones and that the position to return to is one
/// of the script that is left.
pub proof fn lemma_entered_consistent(env: Env, s: State, script: usize, prev_pos: usize)
    requires
        consistent(env, s),
        script < env.scripts.len(),
        s.stack.len() > 0 ==> prev_pos <= current(env, s).program().len(),
    ensures
        consistent(env, s.entered(script, prev_pos, env.scripts[script as int])),
{
    let t = s.entered(script, prev_pos, env.scripts[script as int]);
    assert forall|f: int| 0 < f < t.stack.len() implies #[trigger] frame_ok(env, t, f) by {
        if f < s.stack.len() {
            assert(frame_ok(env, s, f));
        }
    }
}

/// Returning from a script keeps the state consistent.
pub proof fn lemma_returned_consistent(env: Env, s: State)
    requires
        consistent(env, s),
        s.stack.len() > 0,
    ensures
        consistent(env, s.returned()),
        s.returned().part_iter_stack.len() == s.stack.last().part_depth,
{
    let t = s.returned();
    let last = s.stack.len() - 1;
    assert(s.stack[last].part_depth <= s.part_iter_stack.len());
    assert forall|f: int| 0 < f < t.stack.len() implies #[trigger] frame_ok(env, t, f) by {
        assert(frame_ok(env, s, f));
    }
    if t.stack.len() > 0 {
        assert(frame_ok(env, s, last));
    }
    assert forall|f: int| 0 <= f < t.stack.len() implies (#[trigger] t.stack[f]).part_depth
        <= t.part_iter_stack.len() by {
        assert(s.stack[f].part_depth <= s.stack[last].part_depth);
    }
}

/// Executing an instruction keeps the state consistent: the position stays
/// within the current script or just behind its end, the variables stay as
/// many as the current script has, and every frame can be returned to.
pub proof fn lemma_step_consistent(env: Env, s: State)
    requires
        consistent(env, s),
        due(env, s),
    ensures
        consistent(env, step(env, s).state()),
{
    let program = current(env, s).program();
    assert(jumps_ok(program));
    assert(jump_ok(program, s.pos as int));
    let t = step(env, s).state();
    match program[s.pos as int] {
        Instruction::Include(inc) => {
            let name = inc.name.value(s.vars);
            if env.cache.dom().contains(name) && !inc.once {
                lemma_entered_consistent(env, s, env.cache[name], (s.pos + 1) as usize);
            }
            if t.stack == s.stack {
                assert forall|f: int| 0 < f < t.stack.len() implies #[trigger] frame_ok(
                    env,
                    t,
                    f,
                ) by {
                    assert(frame_ok(env, s, f));
                }
            }
        },
        Instruction::Return => {
            lemma_returned_consistent(env, s);
        },
        Instruction::Stop => {},
        _ => {
            assert(t.stack == s.stack);
            assert forall|f: int| 0 < f < t.stack.len() implies #[trigger] frame_ok(env, t, f) by {
                assert(frame_ok(env, s, f));
            }
        },
    }
}

/// Executing instructions until the host is handed something keeps the
/// state consistent.
pub proof fn lemma_steps_consistent(env: Env, s: State)
    requires
        consistent(env, s),
    ensures
        consistent(env, steps(env, s).0),
    decreases env.runtime.limits.max_instructions - s.executed,
{
    if due(env, s) && s.executed < env.runtime.limits.max_instructions {
        let counted = State { executed: (s.executed + 1) as usize, ..s };
        assert forall|f: int| 0 < f < counted.stack.len() implies #[trigger] frame_ok(
            env,
            counted,
            f,
        ) by {
            assert(frame_ok(env, s, f));
        }
        lemma_step_consistent(env, counted);
        match step(env, counted) {
            Outcome::Next(t) => {
                lemma_steps_consistent(env, t);
            },
            _ => {},
        }
    }
}

/// Loading a script and entering it keeps the state consistent.
pub proof fn lemma_started_consistent(env: Env, s: State, name: Seq<u8>, script: Sieve)
    requires
        consistent(env, s),
        jumps_ok(script.program()),
        fits(script),
        env.scripts.len() < usize::MAX,
    ensures
        consistent(loaded(env, name, script), started(env, s, script)),
{
    let env2 = loaded(env, name, script);
    assert forall|f: int| 0 < f < s.stack.len() implies #[trigger] frame_ok(env2, s, f) by {
        assert(frame_ok(env, s, f));
    }
    assert(consistent(env2, s));
    lemma_entered_consistent(env2, s, env.scripts.len() as usize, s.pos);
    let t = s.entered(env.scripts.len() as usize, s.pos, script);
    let u = started(env, s, script);
    assert forall|f: int| 0 < f < u.stack.len() implies #[trigger] frame_ok(env2, u, f) by {
        assert(frame_ok(env2, t, f));
    }
}

/// Whatever the host hands to a run, the state in which the run ends is
/// consistent: the position is within the current script or just behind its
/// end; there are as many local and match variables as the current script
/// has; and every script that was entered can be returned to.
pub proof fn lemma_run_consistent(env: Env, s: State, input: Input)
    requires
        consistent(env, s),
        input matches Input::Script { script, .. } ==> jumps_ok(script.program()),
    ensures
        consistent(run(env, s, input).0, run(env, s, input).1),
{
    match input {
        Input::True => {
            let t = State { test_result: !s.test_result, ..s };
            assert forall|f: int| 0 < f < t.stack.len() implies #[trigger] frame_ok(env, t, f) by {
                assert(frame_ok(env, s, f));
            }
            lemma_steps_consistent(env, t);
        },
        Input::False => {
            lemma_steps_consistent(env, s);
        },
        Input::Script { name, script } => {
            if fits(script) && env.scripts.len() < usize::MAX {
                lemma_started_consistent(env, s, name@, script);
                lemma_steps_consistent(loaded(env, name@, script), started(env, s, script));
            }
        },
    }
}

/// Whether the execution of an instruction leaves the frames as they are,
/// adds one, or takes the last one or all of them away.
pub open spec fn frames_follow(s: State, t: State) -> bool {
    ||| t.stack == s.stack
    ||| t.stack.len() == s.stack.len() + 1 && t.stack.drop_last() == s.stack
    ||| s.stack.len() > 0 && t.stack == s.stack.drop_last()
    ||| t.stack.len() == 0
}

/// A script leaves the part iterations as it found them. Its frame records
/// how many were open when it was entered; no instruction changes a frame
/// that is there, so the record stays while the script runs; and when the
/// script returns, as many are open as the record says.
pub proof fn lemma_parts_restored(env: Env, s: State, script: usize, prev_pos: usize)
    requires
        consistent(env, s),
        due(env, s),
    ensures
        s.entered(script, prev_pos, env.scripts[script as int]).stack.last().part_depth
            == s.part_iter_stack.len(),
        frames_follow(s, step(env, s).state()),
        current(env, s).program()[s.pos as int] is Return ==> step(
            env,
            s,
        ).state().part_iter_stack.len() == s.stack.last().part_depth,
{
    let t = step(env, s).state();
    match current(env, s).program()[s.pos as int] {
        Instruction::Return => {
            lemma_returned_consistent(env, s);
        },
        Instruction::Include(inc) => {
            let name = inc.name.value(s.vars);
            if env.cache.dom().contains(name) && !inc.once && s.stack.len()
                <= env.runtime.limits.max_nested_includes {
                assert(t.stack.drop_last() == s.stack);
            }
        },
        Instruction::Stop => {},
        _ => {
            assert(t.stack == s.stack);
        },
    }
}

/// The capabilities that the instruction at a place requires.
pub open spec fn required_at(program: Seq<Instruction>, i: int) -> Seq<Capability> {
    match program[i] {
        Instruction::Require(caps) => caps@,
        _ => Seq::empty(),
    }
}

/// Whether a program requires only capabilities that scripts may require.
pub open spec fn requires_allowed(program: Seq<Instruction>, runtime: Runtime) -> bool {
    forall|i: int, k: int|
        0 <= i < program.len() && 0 <= k < required_at(program, i).len() ==> runtime.allows(
            #[trigger] required_at(program, i)[k],
        )
}

/// Whether a run ended because a capability may not be required.
pub open spec fn refused(r: Option<Result<EventView, RuntimeErrorView>>) -> bool {
    r matches Some(Err(e)) && (e is CapabilityNotAllowed || e is CapabilityNotSupported)
}

/// The first capability of a list that may not be required is one of the
/// list and may not be required.
pub proof fn lemma_first_refused(caps: Seq<Capability>, runtime: Runtime, from: int)
    requires
        0 <= from,
    ensures
        first_refused(caps, runtime, from) matches Some(i) ==> from <= i < caps.len()
            && !runtime.allows(caps[i]),
    decreases caps.len() - from,
{
    if from < caps.len() && runtime.allows(caps[from]) {
        lemma_first_refused(caps, runtime, from + 1);
    }
}

/// Where every loaded script requires only capabilities that scripts may
/// require, instructions are not refused for their capability.
pub proof fn lemma_steps_allowed(env: Env, s: State)
    requires
        consistent(env, s),
        forall|i: int|
            0 <= i < env.scripts.len() ==> requires_allowed(
                (#[trigger] env.scripts[i]).program(),
                env.runtime,
            ),
    ensures
        !refused(steps(env, s).1),
    decreases env.runtime.limits.max_instructions - s.executed,
{
    if due(env, s) && s.executed < env.runtime.limits.max_instructions {
        let counted = State { executed: (s.executed + 1) as usize, ..s };
        lemma_same_frames(env, s, counted);
        lemma_step_consistent(env, counted);
        let program = current(env, counted).program();
        assert(requires_allowed(program, env.runtime));
        match program[counted.pos as int] {
            Instruction::Require(caps) => {
                lemma_first_refused(caps@, env.runtime, 0);
                if let Some(i) = first_refused(caps@, env.runtime, 0) {
                    assert(required_at(program, counted.pos as int)[i] == caps@[i]);
                }
            },
            _ => {},
        }
        match step(env, counted) {
            Outcome::Next(t) => {
                lemma_steps_allowed(env, t);
            },
            _ => {},
        }
    }
}

/// Where every script, those that were loaded and the one that the host
/// hands over, requires only capabilities that scripts may require, a run
/// does not end because a capability may not be required.
pub proof fn lemma_run_allowed(env: Env, s: State, input: Input)
    requires
        consistent(env, s),
        forall|i: int|
            0 <= i < env.scripts.len() ==> requires_allowed(
                (#[trigger] env.scripts[i]).program(),
                env.runtime,
            ),
        input matches Input::Script { script, .. } ==> jumps_ok(script.program())
            && requires_allowed(script.program(), env.runtime),
    ensures
        !refused(run(env, s, input).2),
{
    match input {
        Input::True => {
            let t = State { test_result: !s.test_result, ..s };
            lemma_same_frames(env, s, t);
            lemma_steps_allowed(env, t);
        },
        Input::False => {
            lemma_steps_allowed(env, s);
        },
        Input::Script { name, script } => {
            if fits(script) && env.scripts.len() < usize::MAX {
                lemma_started_consistent(env, s, name@, script);
                lemma_steps_allowed(loaded(env, name@, script), started(env, s, script));
            }
        },
    }
}

/// What the host gets when it hands one input after the other to runs that
/// start from a state.
pub open spec fn replay(env: Env, s: State, inputs: Seq<Input>) -> Seq<
    Option<Result<EventView, RuntimeErrorView>>,
>
    decreases inputs.len(),
{
    if inputs.len() == 0 {
        Seq::empty()
    } else {
        let r = run(env, s, inputs[0]);
        seq![r.2] + replay(r.0, r.1, inputs.skip(1))
    }
}

/// An evaluation is determined by what it starts from and by what the host
/// hands over: two evaluations with the same configuration, message,
/// scripts and state, given the same inputs, hand the same to the host.
pub proof fn lemma_replay_determined(
    env: Env,
    s: State,
    other_env: Env,
    other: State,
    inputs: Seq<Input>,
)
    requires
        env == other_env,
        s == other,
    ensures
        replay(env, s, inputs) == replay(other_env, other, inputs),
{
}

} // verus!
