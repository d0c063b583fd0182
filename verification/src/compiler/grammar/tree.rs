//! The commands of a script as a tree, and the instructions that the tree
//! is lowered to.

use vstd::prelude::*;
use crate::compiler::grammar::instruction::{
    instruction_views,
    ForEveryPart,
    Instruction,
    InstructionView,
    TestExpr,
    TestExprView,
};

verus! {

broadcast use {vstd::std_specs::vec::group_vec_axioms, vstd::seq::group_seq_axioms};

/// A test, with `not` already taken into its leaves.
#[derive(Debug)]
pub enum Condition {
    Leaf(TestExpr),
    AnyOf(Vec<Condition>),
    AllOf(Vec<Condition>),
}

pub ghost enum ConditionView {
    Leaf(TestExprView),
    AnyOf(Seq<ConditionView>),
    AllOf(Seq<ConditionView>),
}

/// The conditions of a list as the contracts speak of them.
pub open spec fn condition_views(cs: Seq<Condition>) -> Seq<ConditionView>
    decreases cs,
{
    if cs.len() == 0 {
        Seq::empty()
    } else {
        condition_views(cs.drop_last()).push(cs.last().view())
    }
}

impl Condition {
    pub open spec fn view(self) -> ConditionView
        decreases self,
    {
        match self {
            Condition::Leaf(expr) => ConditionView::Leaf(expr@),
            Condition::AnyOf(cs) => ConditionView::AnyOf(condition_views(cs@)),
            Condition::AllOf(cs) => ConditionView::AllOf(condition_views(cs@)),
        }
    }
}

/// How many instructions the conditions of a list are lowered to, the jumps
/// between them not counted.
pub open spec fn conditions_size(cs: Seq<ConditionView>) -> nat
    decreases cs,
{
    if cs.len() == 0 {
        0
    } else {
        conditions_size(cs.drop_last()) + cs.last().size()
    }
}

impl ConditionView {
    /// How many instructions the condition is lowered to.
    pub open spec fn size(self) -> nat
        decreases self,
    {
        match self {
            ConditionView::Leaf(_) => 1,
            ConditionView::AnyOf(cs) => conditions_size(cs) + if cs.len() > 0 {
                (cs.len() - 1) as nat
            } else {
                0
            },
            ConditionView::AllOf(cs) => conditions_size(cs) + if cs.len() > 0 {
                (cs.len() - 1) as nat
            } else {
                0
            },
        }
    }

    /// The instructions of the condition, the first of which stands at
    /// `base`. They leave the outcome of the condition as the test result.
    pub open spec fn lower(self, base: int) -> Seq<InstructionView>
        decreases self,
    {
        match self {
            ConditionView::Leaf(expr) => seq![InstructionView::Test(expr)],
            ConditionView::AnyOf(cs) => lower_any(cs, base, base + self.size(), true),
            ConditionView::AllOf(cs) => lower_any(cs, base, base + self.size(), false),
        }
    }
}

/// The instructions of a list of conditions of which any, or every one,
/// must hold, the first of which stands at `base`: between two conditions
/// stands a jump to `end` that is taken as soon as the outcome is known.
pub open spec fn lower_any(cs: Seq<ConditionView>, base: int, end: int, any: bool) -> Seq<
    InstructionView,
>
    decreases cs,
{
    if cs.len() == 0 {
        Seq::empty()
    } else if cs.len() == 1 {
        cs[0].lower(base)
    } else {
        let before = lower_any(cs.drop_last(), base, end, any);
        let jump = if any {
            InstructionView::Jnz(end as usize)
        } else {
            InstructionView::Jz(end as usize)
        };
        before.push(jump) + cs.last().lower(
            base + conditions_size(cs.drop_last()) + cs.len() - 1,
        )
    }
}

/// One branch of an `if`: the test of `if` or `elsif`, and its block.
#[derive(Debug)]
pub struct Branch {
    pub condition: Condition,
    pub block: Vec<Command>,
}

/// A command of a script.
#[derive(Debug)]
pub enum Command {
    /// A command that is one instruction.
    Action(Instruction),
    /// `if`, with its `elsif`s and its `else`.
    If { branches: Vec<Branch>, otherwise: Vec<Command> },
    /// `foreverypart`.
    ForEveryPart { body: Vec<Command> },
    /// `break`, which leaves as many loops as `levels` says.
    Break { levels: usize },
}

pub ghost struct BranchView {
    pub condition: ConditionView,
    pub block: Seq<CommandView>,
}

pub ghost enum CommandView {
    Action(InstructionView),
    If { branches: Seq<BranchView>, otherwise: Seq<CommandView> },
    ForEveryPart { body: Seq<CommandView> },
    Break { levels: usize },
}

/// The commands of a list as the contracts speak of them.
pub open spec fn command_views(cs: Seq<Command>) -> Seq<CommandView>
    decreases cs,
{
    if cs.len() == 0 {
        Seq::empty()
    } else {
        command_views(cs.drop_last()).push(cs.last().view())
    }
}

/// The branches of a list as the contracts speak of them.
pub open spec fn branch_views(bs: Seq<Branch>) -> Seq<BranchView>
    decreases bs,
{
    if bs.len() == 0 {
        Seq::empty()
    } else {
        branch_views(bs.drop_last()).push(bs.last().view())
    }
}

impl Branch {
    pub open spec fn view(self) -> BranchView
        decreases self,
    {
        BranchView { condition: self.condition.view(), block: command_views(self.block@) }
    }
}

impl Command {
    pub open spec fn view(self) -> CommandView
        decreases self,
    {
        match self {
            Command::Action(i) => CommandView::Action(i@),
            Command::If { branches, otherwise } => CommandView::If {
                branches: branch_views(branches@),
                otherwise: command_views(otherwise@),
            },
            Command::ForEveryPart { body } => CommandView::ForEveryPart {
                body: command_views(body@),
            },
            Command::Break { levels } => CommandView::Break { levels },
        }
    }
}

impl InstructionView {
    /// Whether the instruction is one that may jump.
    pub open spec fn is_jump(self) -> bool {
        self is Jz || self is Jnz || self is Jmp || self is ForEveryPart
    }
}

/// Whether no command of a block carries a jump of its own.
pub open spec fn plain_block(cs: Seq<CommandView>) -> bool
    decreases cs,
{
    cs.len() == 0 || (plain_block(cs.drop_last()) && cs.last().plain())
}

/// Whether no command of the blocks of branches carries a jump of its own.
pub open spec fn plain_branches(bs: Seq<BranchView>) -> bool
    decreases bs,
{
    bs.len() == 0 || (plain_branches(bs.drop_last()) && plain_block(bs.last().block))
}

impl CommandView {
    /// Whether the command carries no jump of its own: the jumps of its
    /// code are then those that its lowering adds.
    pub open spec fn plain(self) -> bool
        decreases self,
    {
        match self {
            CommandView::Action(i) => !i.is_jump(),
            CommandView::If { branches, otherwise } => plain_branches(branches) && plain_block(
                otherwise,
            ),
            CommandView::ForEveryPart { body } => plain_block(body),
            CommandView::Break { .. } => true,
        }
    }
}

/// How many instructions the commands of a list are lowered to.
pub open spec fn block_size(cs: Seq<CommandView>) -> nat
    decreases cs,
{
    if cs.len() == 0 {
        0
    } else {
        block_size(cs.drop_last()) + cs.last().size()
    }
}

/// How many instructions the branches of a list are lowered to.
pub open spec fn branches_size(bs: Seq<BranchView>) -> nat
    decreases bs,
{
    if bs.len() == 0 {
        0
    } else {
        branches_size(bs.drop_last()) + bs.last().size()
    }
}

impl BranchView {
    /// How many instructions the branch is lowered to: its condition, a
    /// jump over its block, its block, and a jump to the end of the `if`.
    pub open spec fn size(self) -> nat
        decreases self,
    {
        self.condition.size() + block_size(self.block) + 2
    }

    /// The instructions of the branch, the first of which stands at `base`,
    /// in an `if` whose instructions end before `end`.
    pub open spec fn lower(self, base: int, end: int, exits: Seq<usize>) -> Seq<InstructionView>
        decreases self,
    {
        let condition = self.condition.lower(base);
        let start = base + self.condition.size() + 1;
        let next = base + self.size();
        condition.push(InstructionView::Jz(next as usize)) + lower_block(self.block, start, exits)
            + seq![InstructionView::Jmp(end as usize)]
    }
}

/// The place that a `break` out of `levels` loops jumps to: the end of the
/// loop that is that many loops out, or the next instruction where there
/// are not so many loops.
pub open spec fn exit_of(exits: Seq<usize>, levels: usize, next: int) -> int {
    if 1 <= levels <= exits.len() {
        exits[exits.len() - levels] as int
    } else {
        next
    }
}

impl CommandView {
    /// How many instructions the command is lowered to.
    pub open spec fn size(self) -> nat
        decreases self,
    {
        match self {
            CommandView::Action(_) => 1,
            CommandView::If { branches, otherwise } => branches_size(branches) + block_size(
                otherwise,
            ),
            CommandView::ForEveryPart { body } => block_size(body) + 4,
            CommandView::Break { levels } => if levels <= 1 {
                1
            } else {
                2
            },
        }
    }

    /// The instructions of the command, the first of which stands at
    /// `base`. `exits` holds, for each loop that the command stands in, the
    /// place behind the body of the loop, the outermost loop first.
    ///
    /// An `if` becomes its branches, each with a jump to the end of the
    /// `if` behind its block, and then the block of `else`. A loop becomes
    /// the opening of a part iteration, the step to the next part, which
    /// leaves the loop when there is none, the body, a jump back to the
    /// step, and the closing of the iteration. A `break` closes the
    /// iterations of the inner loops that it leaves and jumps to the closing
    /// of the outermost one.
    pub open spec fn lower(self, base: int, exits: Seq<usize>) -> Seq<InstructionView>
        decreases self,
    {
        match self {
            CommandView::Action(i) => seq![i],
            CommandView::If { branches, otherwise } => lower_branches(
                branches,
                base,
                base + self.size(),
                exits,
            ) + lower_block(otherwise, base + branches_size(branches), exits),
            CommandView::ForEveryPart { body } => {
                let end = base + block_size(body) + 3;
                seq![InstructionView::ForEveryPartPush, InstructionView::ForEveryPart(end as usize)]
                    + lower_block(body, base + 2, exits.push(end as usize)) + seq![
                    InstructionView::Jmp((base + 1) as usize),
                    InstructionView::ForEveryPartPop(1),
                ]
            },
            CommandView::Break { levels } => if levels <= 1 {
                seq![InstructionView::Jmp(exit_of(exits, levels, base + 1) as usize)]
            } else {
                seq![
                    InstructionView::ForEveryPartPop((levels - 1) as usize),
                    InstructionView::Jmp(exit_of(exits, levels, base + 2) as usize),
                ]
            },
        }
    }
}

/// The instructions of the commands of a list, the first of which stands at
/// `base`.
pub open spec fn lower_block(cs: Seq<CommandView>, base: int, exits: Seq<usize>) -> Seq<
    InstructionView,
>
    decreases cs,
{
    if cs.len() == 0 {
        Seq::empty()
    } else {
        let before = lower_block(cs.drop_last(), base, exits);
        before + cs.last().lower(base + block_size(cs.drop_last()), exits)
    }
}

/// The instructions of the branches of a list, the first of which stands at
/// `base`, in an `if` whose instructions end before `end`.
pub open spec fn lower_branches(bs: Seq<BranchView>, base: int, end: int, exits: Seq<usize>) -> Seq<
    InstructionView,
>
    decreases bs,
{
    if bs.len() == 0 {
        Seq::empty()
    } else {
        let before = lower_branches(bs.drop_last(), base, end, exits);
        before + bs.last().lower(base + branches_size(bs.drop_last()), end, exits)
    }
}

/// The instructions of a script: those of its commands, and the return
/// from it.
pub open spec fn lower_script(cs: Seq<CommandView>) -> Seq<InstructionView> {
    lower_block(cs, 0, Seq::empty()).push(InstructionView::Return)
}

/// The most instructions that a script may have.
pub const MAX_INSTRUCTIONS: usize = 1048576;

/// A size, or one more than the most instructions where it is beyond them.
pub open spec fn capped(n: nat) -> usize {
    if n <= MAX_INSTRUCTIONS {
        n as usize
    } else {
        (MAX_INSTRUCTIONS + 1) as usize
    }
}

/// The sum of two capped sizes, capped.
fn cap_add(a: usize, b: usize) -> (r: usize)
    requires
        a <= MAX_INSTRUCTIONS + 1,
        b <= MAX_INSTRUCTIONS + 1,
    ensures
        r == capped((a + b) as nat),
{
    if a + b <= MAX_INSTRUCTIONS {
        a + b
    } else {
        MAX_INSTRUCTIONS + 1
    }
}

/// The views of a list of conditions are the views of its conditions.
pub proof fn lemma_condition_views(cs: Seq<Condition>)
    ensures
        condition_views(cs).len() == cs.len(),
        forall|j: int| 0 <= j < cs.len() ==> condition_views(cs)[j] == (#[trigger] cs[j]).view(),
    decreases cs.len(),
{
    if cs.len() > 0 {
        lemma_condition_views(cs.drop_last());
        assert forall|j: int| 0 <= j < cs.len() implies condition_views(cs)[j] == (
        #[trigger] cs[j]).view() by {
            if j < cs.len() - 1 {
                assert(cs.drop_last()[j] == cs[j]);
            }
        }
    }
}

/// A condition is lowered to as many instructions as its size says.
pub proof fn lemma_condition_len(c: ConditionView, base: int)
    ensures
        c.lower(base).len() == c.size(),
    decreases c,
{
    match c {
        ConditionView::Leaf(_) => {},
        ConditionView::AnyOf(cs) => {
            lemma_any_len(cs, base, base + c.size(), true);
        },
        ConditionView::AllOf(cs) => {
            lemma_any_len(cs, base, base + c.size(), false);
        },
    }
}

/// A list of conditions is lowered to as many instructions as its
/// conditions are, and a jump between every two.
pub proof fn lemma_any_len(cs: Seq<ConditionView>, base: int, end: int, any: bool)
    ensures
        lower_any(cs, base, end, any).len() == conditions_size(cs) + if cs.len() > 0 {
            cs.len() - 1
        } else {
            0
        },
    decreases cs,
{
    if cs.len() == 1 {
        lemma_condition_len(cs[0], base);
        assert(cs.drop_last().len() == 0);
    } else if cs.len() > 1 {
        lemma_any_len(cs.drop_last(), base, end, any);
        lemma_condition_len(cs.last(), base + conditions_size(cs.drop_last()) + cs.len() - 1);
    }
}

/// The size of the conditions of a list, capped.
fn conditions_size_of(cs: &Vec<Condition>) -> (r: usize)
    ensures
        r == capped(conditions_size(condition_views(cs@))),
    decreases cs,
{
    let mut total: usize = 0;
    let mut i: usize = 0;
    proof {
        lemma_condition_views(cs@);
    }
    while i < cs.len()
        invariant
            i <= cs.len(),
            total == capped(conditions_size(condition_views(cs@).take(i as int))),
            condition_views(cs@).len() == cs@.len(),
            forall|j: int|
                0 <= j < cs@.len() ==> condition_views(cs@)[j] == (#[trigger] cs@[j]).view(),
        decreases cs.len() - i,
    {
        let one = cs[i].size();
        assert(condition_views(cs@).take(i + 1).drop_last() == condition_views(cs@).take(i as int));
        total = cap_add(total, one);
        i += 1;
    }
    assert(condition_views(cs@).take(i as int) == condition_views(cs@));
    total
}

impl Condition {
    /// The size of the condition, capped.
    pub fn size(&self) -> (r: usize)
        ensures
            r == capped(self.view().size()),
        decreases self,
    {
        match self {
            Condition::Leaf(_) => 1,
            Condition::AnyOf(cs) => {
                let inner = conditions_size_of(cs);
                proof {
                    lemma_condition_views(cs@);
                }
                if cs.len() > 0 {
                    cap_add(inner, capped_len(cs.len() - 1))
                } else {
                    inner
                }
            },
            Condition::AllOf(cs) => {
                let inner = conditions_size_of(cs);
                proof {
                    lemma_condition_views(cs@);
                }
                if cs.len() > 0 {
                    cap_add(inner, capped_len(cs.len() - 1))
                } else {
                    inner
                }
            },
        }
    }

    /// Appends the instructions of the condition.
    pub fn emit(self, program: &mut Vec<Instruction>)
        requires
            old(program)@.len() + self.view().size() <= MAX_INSTRUCTIONS,
        ensures
            instruction_views(final(program)@) == instruction_views(old(program)@)
                + self.view().lower(old(program)@.len() as int),
        decreases self,
    {
        let ghost before = instruction_views(program@);
        match self {
            Condition::Leaf(expr) => {
                program.push(Instruction::Test(expr));
                assert(instruction_views(program@) =~= before + seq![InstructionView::Test(expr@)]);
            },
            Condition::AnyOf(cs) => {
                let inner = conditions_size_of(&cs);
                proof {
                    lemma_condition_views(cs@);
                }
                let end = program.len() + inner + if cs.len() > 0 {
                    cs.len() - 1
                } else {
                    0
                };
                emit_any(cs, program, end, true);
            },
            Condition::AllOf(cs) => {
                let inner = conditions_size_of(&cs);
                proof {
                    lemma_condition_views(cs@);
                }
                let end = program.len() + inner + if cs.len() > 0 {
                    cs.len() - 1
                } else {
                    0
                };
                emit_any(cs, program, end, false);
            },
        }
    }
}

/// A length, capped.
fn capped_len(n: usize) -> (r: usize)
    ensures
        r == capped(n as nat),
{
    if n <= MAX_INSTRUCTIONS {
        n
    } else {
        MAX_INSTRUCTIONS + 1
    }
}

/// Appends the instructions of a list of conditions of which any, or every
/// one, must hold.
fn emit_any(cs: Vec<Condition>, program: &mut Vec<Instruction>, end: usize, any: bool)
    requires
        old(program)@.len() + conditions_size(condition_views(cs@)) + cs@.len()
            <= MAX_INSTRUCTIONS + 1,
    ensures
        instruction_views(final(program)@) == instruction_views(old(program)@) + lower_any(
            condition_views(cs@),
            old(program)@.len() as int,
            end as int,
            any,
        ),
    decreases cs,
{
    let ghost before = instruction_views(program@);
    let ghost base = program@.len() as int;
    let ghost all = condition_views(cs@);
    let ghost list = cs@;
    proof {
        lemma_condition_views(cs@);
        assert(before + lower_any(all.take(0), base, end as int, any) =~= before);
    }
    let mut first: bool = true;
    for c in it: cs
        invariant
            it.seq() == list,
            first == (it.index() == 0),
            before.len() == base,
            all == condition_views(list),
            all.len() == list.len(),
            forall|j: int| 0 <= j < list.len() ==> all[j] == (#[trigger] list[j]).view(),
            base + conditions_size(all) + all.len() <= MAX_INSTRUCTIONS + 1,
            instruction_views(program@) == before + lower_any(
                all.take(it.index() as int),
                base,
                end as int,
                any,
            ),
    {
        let ghost i = it.index() as int;
        let ghost done = all.take(i);
        assert(all.take(i + 1).drop_last() == done);
        proof {
            lemma_any_len(done, base, end as int, any);
            lemma_sizes_grow(all, i + 1);
            assert(c.view() == all[i]);
            assert(conditions_size(all.take(i + 1)) == conditions_size(done) + all[i].size());
            assert(program@.len() == instruction_views(program@).len());
        }
        if !first {
            let ghost so_far = instruction_views(program@);
            program.push(
                if any {
                    Instruction::Jnz(end)
                } else {
                    Instruction::Jz(end)
                },
            );
            assert(instruction_views(program@) =~= so_far.push(
                if any {
                    InstructionView::Jnz(end)
                } else {
                    InstructionView::Jz(end)
                },
            ));
        }
        let ghost ready = instruction_views(program@);
        c.emit(program);
        first = false;
        assert(instruction_views(program@) =~= before + lower_any(
            all.take(i + 1),
            base,
            end as int,
            any,
        )) by {
            assert(all.take(i + 1).last() == all[i]);
            assert(instruction_views(program@) == ready + all[i].lower(ready.len() as int));
        }
    }
    assert(all.take(all.len() as int) == all);
}

/// The first conditions of a list are no larger than the list.
pub proof fn lemma_sizes_grow(cs: Seq<ConditionView>, i: int)
    requires
        0 <= i <= cs.len(),
    ensures
        conditions_size(cs.take(i)) <= conditions_size(cs),
    decreases cs.len() - i,
{
    if i < cs.len() {
        lemma_sizes_grow(cs, i + 1);
        assert(cs.take(i + 1).drop_last() == cs.take(i));
    } else {
        assert(cs.take(i) == cs);
    }
}

/// The views of a list of commands are the views of its commands.
pub proof fn lemma_command_views(cs: Seq<Command>)
    ensures
        command_views(cs).len() == cs.len(),
        forall|j: int| 0 <= j < cs.len() ==> command_views(cs)[j] == (#[trigger] cs[j]).view(),
    decreases cs.len(),
{
    if cs.len() > 0 {
        lemma_command_views(cs.drop_last());
        assert forall|j: int| 0 <= j < cs.len() implies command_views(cs)[j] == (
        #[trigger] cs[j]).view() by {
            if j < cs.len() - 1 {
                assert(cs.drop_last()[j] == cs[j]);
            }
        }
    }
}

/// The views of a list of branches are the views of its branches.
pub proof fn lemma_branch_views(bs: Seq<Branch>)
    ensures
        branch_views(bs).len() == bs.len(),
        forall|j: int| 0 <= j < bs.len() ==> branch_views(bs)[j] == (#[trigger] bs[j]).view(),
    decreases bs.len(),
{
    if bs.len() > 0 {
        lemma_branch_views(bs.drop_last());
        assert forall|j: int| 0 <= j < bs.len() implies branch_views(bs)[j] == (
        #[trigger] bs[j]).view() by {
            if j < bs.len() - 1 {
                assert(bs.drop_last()[j] == bs[j]);
            }
        }
    }
}

/// A command is lowered to as many instructions as its size says.
pub proof fn lemma_command_len(c: CommandView, base: int, exits: Seq<usize>)
    ensures
        c.lower(base, exits).len() == c.size(),
    decreases c,
{
    match c {
        CommandView::Action(_) => {},
        CommandView::If { branches, otherwise } => {
            lemma_branches_len(branches, base, base + c.size(), exits);
            lemma_block_len(otherwise, base + branches_size(branches), exits);
        },
        CommandView::ForEveryPart { body } => {
            let end = base + block_size(body) + 3;
            lemma_block_len(body, base + 2, exits.push(end as usize));
        },
        CommandView::Break { .. } => {},
    }
}

/// A block is lowered to as many instructions as its size says.
pub proof fn lemma_block_len(cs: Seq<CommandView>, base: int, exits: Seq<usize>)
    ensures
        lower_block(cs, base, exits).len() == block_size(cs),
    decreases cs,
{
    if cs.len() > 0 {
        lemma_block_len(cs.drop_last(), base, exits);
        lemma_command_len(cs.last(), base + block_size(cs.drop_last()), exits);
    }
}

/// A branch is lowered to as many instructions as its size says.
pub proof fn lemma_branch_len(b: BranchView, base: int, end: int, exits: Seq<usize>)
    ensures
        b.lower(base, end, exits).len() == b.size(),
    decreases b,
{
    lemma_condition_len(b.condition, base);
    lemma_block_len(b.block, base + b.condition.size() + 1, exits);
}

/// Branches are lowered to as many instructions as their size says.
pub proof fn lemma_branches_len(bs: Seq<BranchView>, base: int, end: int, exits: Seq<usize>)
    ensures
        lower_branches(bs, base, end, exits).len() == branches_size(bs),
    decreases bs,
{
    if bs.len() > 0 {
        lemma_branches_len(bs.drop_last(), base, end, exits);
        lemma_branch_len(bs.last(), base + branches_size(bs.drop_last()), end, exits);
    }
}

/// The first commands of a block are no larger than the block.
pub proof fn lemma_block_grows(cs: Seq<CommandView>, i: int)
    requires
        0 <= i <= cs.len(),
    ensures
        block_size(cs.take(i)) <= block_size(cs),
    decreases cs.len() - i,
{
    if i < cs.len() {
        lemma_block_grows(cs, i + 1);
        assert(cs.take(i + 1).drop_last() == cs.take(i));
    } else {
        assert(cs.take(i) == cs);
    }
}

/// The first branches of a list are no larger than the list.
pub proof fn lemma_branches_grow(bs: Seq<BranchView>, i: int)
    requires
        0 <= i <= bs.len(),
    ensures
        branches_size(bs.take(i)) <= branches_size(bs),
    decreases bs.len() - i,
{
    if i < bs.len() {
        lemma_branches_grow(bs, i + 1);
        assert(bs.take(i + 1).drop_last() == bs.take(i));
    } else {
        assert(bs.take(i) == bs);
    }
}

/// The size of a block, capped.
pub fn block_size_of(cs: &Vec<Command>) -> (r: usize)
    ensures
        r == capped(block_size(command_views(cs@))),
    decreases cs,
{
    let mut total: usize = 0;
    let mut i: usize = 0;
    proof {
        lemma_command_views(cs@);
    }
    while i < cs.len()
        invariant
            i <= cs.len(),
            total == capped(block_size(command_views(cs@).take(i as int))),
            command_views(cs@).len() == cs@.len(),
            forall|j: int|
                0 <= j < cs@.len() ==> command_views(cs@)[j] == (#[trigger] cs@[j]).view(),
        decreases cs.len() - i,
    {
        let one = cs[i].size();
        assert(command_views(cs@).take(i + 1).drop_last() == command_views(cs@).take(i as int));
        total = cap_add(total, one);
        i += 1;
    }
    assert(command_views(cs@).take(i as int) == command_views(cs@));
    total
}

/// The size of the branches of an `if`, capped.
fn branches_size_of(bs: &Vec<Branch>) -> (r: usize)
    ensures
        r == capped(branches_size(branch_views(bs@))),
    decreases bs,
{
    let mut total: usize = 0;
    let mut i: usize = 0;
    proof {
        lemma_branch_views(bs@);
    }
    while i < bs.len()
        invariant
            i <= bs.len(),
            total == capped(branches_size(branch_views(bs@).take(i as int))),
            branch_views(bs@).len() == bs@.len(),
            forall|j: int| 0 <= j < bs@.len() ==> branch_views(bs@)[j] == (#[trigger] bs@[j]).view(),
        decreases bs.len() - i,
    {
        let one = bs[i].size();
        assert(branch_views(bs@).take(i + 1).drop_last() == branch_views(bs@).take(i as int));
        total = cap_add(total, one);
        i += 1;
    }
    assert(branch_views(bs@).take(i as int) == branch_views(bs@));
    total
}

impl Branch {
    /// The size of the branch, capped.
    pub fn size(&self) -> (r: usize)
        ensures
            r == capped(self.view().size()),
        decreases self,
    {
        cap_add(cap_add(self.condition.size(), block_size_of(&self.block)), 2)
    }

    /// Appends the instructions of the branch, in an `if` whose
    /// instructions end before `end`.
    fn emit(self, program: &mut Vec<Instruction>, end: usize, exits: &mut Vec<usize>)
        requires
            old(program)@.len() + self.view().size() <= MAX_INSTRUCTIONS,
        ensures
            instruction_views(final(program)@) == instruction_views(old(program)@)
                + self.view().lower(old(program)@.len() as int, end as int, old(exits)@),
            final(exits)@ == old(exits)@,
        decreases self,
    {
        let ghost before = instruction_views(program@);
        let ghost base = program@.len() as int;
        let ghost view = self.view();
        let next = program.len() + self.size();
        proof {
            lemma_condition_len(view.condition, base);
        }
        self.condition.emit(program);
        let ghost tested = instruction_views(program@);
        program.push(Instruction::Jz(next));
        assert(instruction_views(program@) =~= tested.push(InstructionView::Jz(next)));
        let ghost jumped = instruction_views(program@);
        emit_block(self.block, program, exits);
        let ghost done = instruction_views(program@);
        program.push(Instruction::Jmp(end));
        assert(instruction_views(program@) =~= before + view.lower(base, end as int, exits@)) by {
            assert(instruction_views(program@) =~= done.push(InstructionView::Jmp(end)));
        }
    }
}

impl Command {
    /// The size of the command, capped.
    pub fn size(&self) -> (r: usize)
        ensures
            r == capped(self.view().size()),
        decreases self,
    {
        match self {
            Command::Action(_) => 1,
            Command::If { branches, otherwise } => cap_add(
                branches_size_of(branches),
                block_size_of(otherwise),
            ),
            Command::ForEveryPart { body } => cap_add(block_size_of(body), 4),
            Command::Break { levels } => if *levels <= 1 {
                1
            } else {
                2
            },
        }
    }

    /// Appends the instructions of the command.
    fn emit(self, program: &mut Vec<Instruction>, exits: &mut Vec<usize>)
        requires
            old(program)@.len() + self.view().size() <= MAX_INSTRUCTIONS,
        ensures
            instruction_views(final(program)@) == instruction_views(old(program)@)
                + self.view().lower(old(program)@.len() as int, old(exits)@),
            final(exits)@ == old(exits)@,
        decreases self,
    {
        let ghost before = instruction_views(program@);
        let ghost base = program@.len() as int;
        let ghost view = self.view();
        match self {
            Command::Action(i) => {
                program.push(i);
                assert(instruction_views(program@) =~= before + seq![i@]);
            },
            Command::If { branches, otherwise } => {
                let inner = branches_size_of(&branches);
                let end = program.len() + inner + block_size_of(&otherwise);
                proof {
                    lemma_branches_len(branch_views(branches@), base, end as int, exits@);
                }
                emit_branches(branches, program, end, exits);
                assert(program@.len() == instruction_views(program@).len());
                emit_block(otherwise, program, exits);
            },
            Command::ForEveryPart { body } => {
                let top = program.len() + 1;
                let end = program.len() + block_size_of(&body) + 3;
                program.push(Instruction::ForEveryPartPush);
                program.push(Instruction::ForEveryPart(ForEveryPart { jz_pos: end }));
                assert(instruction_views(program@) =~= before + seq![
                    InstructionView::ForEveryPartPush,
                    InstructionView::ForEveryPart(end),
                ]);
                let ghost outer = exits@;
                exits.push(end);
                emit_block(body, program, exits);
                exits.pop();
                assert(exits@ =~= outer);
                let ghost done = instruction_views(program@);
                program.push(Instruction::Jmp(top));
                program.push(Instruction::ForEveryPartPop(1));
                assert(instruction_views(program@) =~= done + seq![
                    InstructionView::Jmp((base + 1) as usize),
                    InstructionView::ForEveryPartPop(1),
                ]);
            },
            Command::Break { levels } => {
                if levels <= 1 {
                    let target = if levels == 1 && exits.len() >= 1 {
                        exits[exits.len() - 1]
                    } else {
                        program.len() + 1
                    };
                    program.push(Instruction::Jmp(target));
                    assert(instruction_views(program@) =~= before + seq![
                        InstructionView::Jmp(target),
                    ]);
                } else {
                    let target = if levels <= exits.len() {
                        exits[exits.len() - levels]
                    } else {
                        program.len() + 2
                    };
                    program.push(Instruction::ForEveryPartPop(levels - 1));
                    program.push(Instruction::Jmp(target));
                    assert(instruction_views(program@) =~= before + seq![
                        InstructionView::ForEveryPartPop((levels - 1) as usize),
                        InstructionView::Jmp(target),
                    ]);
                }
            },
        }
    }
}

/// Appends the instructions of a block.
pub fn emit_block(cs: Vec<Command>, program: &mut Vec<Instruction>, exits: &mut Vec<usize>)
    requires
        old(program)@.len() + block_size(command_views(cs@)) <= MAX_INSTRUCTIONS,
    ensures
        instruction_views(final(program)@) == instruction_views(old(program)@) + lower_block(
            command_views(cs@),
            old(program)@.len() as int,
            old(exits)@,
        ),
        final(exits)@ == old(exits)@,
    decreases cs,
{
    let ghost before = instruction_views(program@);
    let ghost base = program@.len() as int;
    let ghost all = command_views(cs@);
    let ghost list = cs@;
    let ghost outer = exits@;
    proof {
        lemma_command_views(cs@);
        assert(before + lower_block(all.take(0), base, outer) =~= before);
    }
    for c in it: cs
        invariant
            it.seq() == list,
            before.len() == base,
            exits@ == outer,
            all == command_views(list),
            all.len() == list.len(),
            forall|j: int| 0 <= j < list.len() ==> all[j] == (#[trigger] list[j]).view(),
            base + block_size(all) <= MAX_INSTRUCTIONS,
            instruction_views(program@) == before + lower_block(
                all.take(it.index() as int),
                base,
                outer,
            ),
    {
        let ghost i = it.index() as int;
        let ghost done = all.take(i);
        assert(all.take(i + 1).drop_last() == done);
        proof {
            lemma_block_len(done, base, outer);
            lemma_block_grows(all, i + 1);
            assert(c.view() == all[i]);
            assert(block_size(all.take(i + 1)) == block_size(done) + all[i].size());
            assert(program@.len() == instruction_views(program@).len());
        }
        let ghost ready = instruction_views(program@);
        c.emit(program, exits);
        assert(instruction_views(program@) =~= before + lower_block(all.take(i + 1), base, outer))
            by {
            assert(all.take(i + 1).last() == all[i]);
            assert(instruction_views(program@) == ready + all[i].lower(ready.len() as int, outer));
        }
    }
    assert(all.take(all.len() as int) == all);
}

/// Appends the instructions of the branches of an `if` whose instructions
/// end before `end`.
fn emit_branches(bs: Vec<Branch>, program: &mut Vec<Instruction>, end: usize, exits: &mut Vec<usize>)
    requires
        old(program)@.len() + branches_size(branch_views(bs@)) <= MAX_INSTRUCTIONS,
    ensures
        instruction_views(final(program)@) == instruction_views(old(program)@) + lower_branches(
            branch_views(bs@),
            old(program)@.len() as int,
            end as int,
            old(exits)@,
        ),
        final(exits)@ == old(exits)@,
    decreases bs,
{
    let ghost before = instruction_views(program@);
    let ghost base = program@.len() as int;
    let ghost all = branch_views(bs@);
    let ghost list = bs@;
    let ghost outer = exits@;
    proof {
        lemma_branch_views(bs@);
        assert(before + lower_branches(all.take(0), base, end as int, outer) =~= before);
    }
    for b in it: bs
        invariant
            it.seq() == list,
            before.len() == base,
            exits@ == outer,
            all == branch_views(list),
            all.len() == list.len(),
            forall|j: int| 0 <= j < list.len() ==> all[j] == (#[trigger] list[j]).view(),
            base + branches_size(all) <= MAX_INSTRUCTIONS,
            instruction_views(program@) == before + lower_branches(
                all.take(it.index() as int),
                base,
                end as int,
                outer,
            ),
    {
        let ghost i = it.index() as int;
        let ghost done = all.take(i);
        assert(all.take(i + 1).drop_last() == done);
        proof {
            lemma_branches_len(done, base, end as int, outer);
            lemma_branches_grow(all, i + 1);
            assert(b.view() == all[i]);
            assert(branches_size(all.take(i + 1)) == branches_size(done) + all[i].size());
            assert(program@.len() == instruction_views(program@).len());
        }
        let ghost ready = instruction_views(program@);
        b.emit(program, end, exits);
        assert(instruction_views(program@) =~= before + lower_branches(
            all.take(i + 1),
            base,
            end as int,
            outer,
        )) by {
            assert(all.take(i + 1).last() == all[i]);
            assert(instruction_views(program@) == ready + all[i].lower(
                ready.len() as int,
                end as int,
                outer,
            ));
        }
    }
    assert(all.take(all.len() as int) == all);
}

} // verus!
