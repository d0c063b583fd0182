//! The jumps of lowered code: every one of them goes forward, but for the
//! jump that closes a loop, and none leaves the program.

use vstd::prelude::*;
use crate::compiler::grammar::instruction::{
    instruction_views,
    jump_ok,
    jumps_ok,
    Instruction,
    InstructionView,
};
use crate::compiler::grammar::tree::{
    block_size,
    branches_size,
    conditions_size,
    lemma_any_len,
    lemma_block_len,
    lemma_branches_len,
    lemma_condition_len,
    lower_any,
    lower_block,
    lower_branches,
    lower_script,
    plain_block,
    plain_branches,
    BranchView,
    CommandView,
    ConditionView,
};

verus! {

/// Whether the instruction at place `j` of a piece of code that starts at
/// `base` jumps as it should, in a program of `limit` instructions.
pub open spec fn lands(code: Seq<InstructionView>, base: int, j: int, limit: int) -> bool {
    match code[j] {
        InstructionView::Jz(t) => base + j < t <= limit,
        InstructionView::Jnz(t) => base + j < t <= limit,
        InstructionView::ForEveryPart(t) => base + j < t <= limit,
        InstructionView::Jmp(t) => t <= limit && t != base + j && (t < base + j ==> base <= t
            && code[t - base] is ForEveryPart),
        _ => true,
    }
}

/// Whether every instruction of a piece of code jumps as it should.
pub open spec fn code_ok(code: Seq<InstructionView>, base: int, limit: int) -> bool {
    forall|j: int| 0 <= j < code.len() ==> #[trigger] lands(code, base, j, limit)
}

/// Code that is put together of two pieces that jump as they should does
/// so too.
pub proof fn lemma_joined(a: Seq<InstructionView>, b: Seq<InstructionView>, base: int, limit: int)
    requires
        code_ok(a, base, limit),
        code_ok(b, base + a.len(), limit),
    ensures
        code_ok(a + b, base, limit),
{
    assert forall|j: int| 0 <= j < (a + b).len() implies #[trigger] lands(a + b, base, j, limit) by {
        if j < a.len() {
            assert(lands(a, base, j, limit));
        } else {
            assert(lands(b, base + a.len(), j - a.len(), limit));
        }
    }
}

/// The code of a list of conditions jumps as it should.
pub proof fn lemma_any_ok(cs: Seq<ConditionView>, base: int, end: int, any: bool, limit: int)
    requires
        0 <= base,
        base + conditions_size(cs) + cs.len() - 1 <= end <= limit <= usize::MAX,
    ensures
        code_ok(lower_any(cs, base, end, any), base, limit),
    decreases cs,
{
    if cs.len() == 1 {
        assert(cs.drop_last().len() == 0);
        lemma_condition_ok(cs[0], base, limit);
    } else if cs.len() > 1 {
        let before = lower_any(cs.drop_last(), base, end, any);
        lemma_any_ok(cs.drop_last(), base, end, any, limit);
        lemma_any_len(cs.drop_last(), base, end, any);
        let jump = if any {
            InstructionView::Jnz(end as usize)
        } else {
            InstructionView::Jz(end as usize)
        };
        assert(code_ok(seq![jump], base + before.len(), limit)) by {
            assert(lands(seq![jump], base + before.len(), 0, limit));
        }
        lemma_joined(before, seq![jump], base, limit);
        assert(before.push(jump) =~= before + seq![jump]);
        lemma_condition_ok(cs.last(), base + conditions_size(cs.drop_last()) + cs.len() - 1, limit);
        lemma_joined(
            before.push(jump),
            cs.last().lower(base + conditions_size(cs.drop_last()) + cs.len() - 1),
            base,
            limit,
        );
    }
}

/// The code of a condition jumps as it should.
pub proof fn lemma_condition_ok(c: ConditionView, base: int, limit: int)
    requires
        0 <= base,
        base + c.size() <= limit <= usize::MAX,
    ensures
        code_ok(c.lower(base), base, limit),
    decreases c,
{
    match c {
        ConditionView::Leaf(_) => {
            assert(lands(c.lower(base), base, 0, limit));
        },
        ConditionView::AnyOf(cs) => {
            if cs.len() > 0 {
                lemma_any_ok(cs, base, base + c.size(), true, limit);
            }
        },
        ConditionView::AllOf(cs) => {
            if cs.len() > 0 {
                lemma_any_ok(cs, base, base + c.size(), false, limit);
            }
        },
    }
}

/// Whether the ends of the loops around a piece of code lie behind it and
/// in the program.
pub open spec fn exits_ok(exits: Seq<usize>, end: int, limit: int) -> bool {
    forall|k: int| 0 <= k < exits.len() ==> end <= #[trigger] exits[k] <= limit
}

/// The code of a block jumps as it should.
pub proof fn lemma_block_ok(cs: Seq<CommandView>, base: int, exits: Seq<usize>, limit: int)
    requires
        0 <= base,
        base + block_size(cs) <= limit <= usize::MAX,
        exits_ok(exits, base + block_size(cs), limit),
        plain_block(cs),
    ensures
        code_ok(lower_block(cs, base, exits), base, limit),
    decreases cs,
{
    if cs.len() > 0 {
        lemma_block_ok(cs.drop_last(), base, exits, limit);
        lemma_block_len(cs.drop_last(), base, exits);
        lemma_command_ok(cs.last(), base + block_size(cs.drop_last()), exits, limit);
        lemma_joined(
            lower_block(cs.drop_last(), base, exits),
            cs.last().lower(base + block_size(cs.drop_last()), exits),
            base,
            limit,
        );
    }
}

/// The code of the branches of an `if` jumps as it should.
pub proof fn lemma_branches_ok(
    bs: Seq<BranchView>,
    base: int,
    end: int,
    exits: Seq<usize>,
    limit: int,
)
    requires
        0 <= base,
        base + branches_size(bs) <= end <= limit <= usize::MAX,
        exits_ok(exits, end, limit),
        plain_branches(bs),
    ensures
        code_ok(lower_branches(bs, base, end, exits), base, limit),
    decreases bs,
{
    if bs.len() > 0 {
        lemma_branches_ok(bs.drop_last(), base, end, exits, limit);
        lemma_branches_len(bs.drop_last(), base, end, exits);
        lemma_branch_ok(bs.last(), base + branches_size(bs.drop_last()), end, exits, limit);
        lemma_joined(
            lower_branches(bs.drop_last(), base, end, exits),
            bs.last().lower(base + branches_size(bs.drop_last()), end, exits),
            base,
            limit,
        );
    }
}

/// The code of a branch jumps as it should.
pub proof fn lemma_branch_ok(b: BranchView, base: int, end: int, exits: Seq<usize>, limit: int)
    requires
        0 <= base,
        base + b.size() <= end <= limit <= usize::MAX,
        exits_ok(exits, end, limit),
        plain_block(b.block),
    ensures
        code_ok(b.lower(base, end, exits), base, limit),
    decreases b,
{
    let condition = b.condition.lower(base);
    let start = base + b.condition.size() + 1;
    let next = base + b.size();
    lemma_condition_ok(b.condition, base, limit);
    lemma_condition_len(b.condition, base);
    let jz = seq![InstructionView::Jz(next as usize)];
    assert(code_ok(jz, base + condition.len(), limit)) by {
        assert(lands(jz, base + condition.len(), 0, limit));
    }
    lemma_joined(condition, jz, base, limit);
    assert(condition.push(InstructionView::Jz(next as usize)) =~= condition + jz);
    lemma_block_ok(b.block, start, exits, limit);
    lemma_block_len(b.block, start, exits);
    lemma_joined(condition + jz, lower_block(b.block, start, exits), base, limit);
    let jmp = seq![InstructionView::Jmp(end as usize)];
    let body = condition + jz + lower_block(b.block, start, exits);
    assert(code_ok(jmp, base + body.len(), limit)) by {
        assert(lands(jmp, base + body.len(), 0, limit));
    }
    lemma_joined(body, jmp, base, limit);
}

/// The code of a command jumps as it should.
pub proof fn lemma_command_ok(c: CommandView, base: int, exits: Seq<usize>, limit: int)
    requires
        0 <= base,
        base + c.size() <= limit <= usize::MAX,
        exits_ok(exits, base + c.size(), limit),
        c.plain(),
    ensures
        code_ok(c.lower(base, exits), base, limit),
    decreases c,
{
    match c {
        CommandView::Action(i) => {
            assert(lands(c.lower(base, exits), base, 0, limit));
        },
        CommandView::If { branches, otherwise } => {
            let end = base + c.size();
            lemma_branches_ok(branches, base, end, exits, limit);
            lemma_branches_len(branches, base, end, exits);
            lemma_block_ok(otherwise, base + branches_size(branches), exits, limit);
            lemma_joined(
                lower_branches(branches, base, end, exits),
                lower_block(otherwise, base + branches_size(branches), exits),
                base,
                limit,
            );
        },
        CommandView::ForEveryPart { body } => {
            let end = base + block_size(body) + 3;
            let inner = exits.push(end as usize);
            let head = seq![
                InstructionView::ForEveryPartPush,
                InstructionView::ForEveryPart(end as usize),
            ];
            let tail = seq![
                InstructionView::Jmp((base + 1) as usize),
                InstructionView::ForEveryPartPop(1),
            ];
            let code = lower_block(body, base + 2, inner);
            assert(exits_ok(inner, base + 2 + block_size(body), limit));
            lemma_block_ok(body, base + 2, inner, limit);
            lemma_block_len(body, base + 2, inner);
            assert(code_ok(head, base, limit)) by {
                assert(lands(head, base, 0, limit));
                assert(lands(head, base, 1, limit));
            }
            lemma_joined(head, code, base, limit);
            let whole = head + code + tail;
            assert forall|j: int| 0 <= j < whole.len() implies #[trigger] lands(
                whole,
                base,
                j,
                limit,
            ) by {
                if j < (head + code).len() {
                    assert(lands(head + code, base, j, limit));
                } else {
                    assert(whole[1] == head[1]);
                }
            }
        },
        CommandView::Break { levels } => {
            assert(lands(c.lower(base, exits), base, 0, limit));
            if levels > 1 {
                assert(lands(c.lower(base, exits), base, 1, limit));
            }
        },
    }
}

/// A program whose instructions are those of a script jumps as a compiled
/// script does: every conditional jump goes strictly forward, every
/// unconditional one goes forward or back to the step of the loop that it
/// closes, and none goes beyond the place behind the last instruction.
pub proof fn lemma_script_jumps(program: Seq<Instruction>, cs: Seq<CommandView>)
    requires
        instruction_views(program) == lower_script(cs),
        plain_block(cs),
        program.len() <= usize::MAX,
    ensures
        jumps_ok(program),
{
    let code = lower_block(cs, 0, Seq::empty());
    lemma_block_len(cs, 0, Seq::empty());
    let limit = program.len() as int;
    assert(instruction_views(program).len() == program.len());
    lemma_block_ok(cs, 0, Seq::empty(), limit);
    let tail = seq![InstructionView::Return];
    assert(code_ok(tail, code.len() as int, limit)) by {
        assert(lands(tail, code.len() as int, 0, limit));
    }
    lemma_joined(code, tail, 0, limit);
    assert(code.push(InstructionView::Return) =~= code + tail);
    assert forall|i: int| 0 <= i < program.len() implies jump_ok(program, i) by {
        assert(lands(instruction_views(program), 0, i, limit));
        assert(instruction_views(program)[i] == program[i]@);
        match program[i] {
            Instruction::Jmp(t) => {
                if t < i {
                    assert(instruction_views(program)[t as int] == program[t as int]@);
                }
            },
            _ => {},
        }
    }
}

} // verus!
