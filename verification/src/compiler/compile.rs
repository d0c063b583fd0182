//! From the text of a script to its program.

use vstd::prelude::*;
use crate::compiler::error::{located, CompileError, ErrorType};
use crate::compiler::grammar::instruction::{
    instruction_views,
    jumps_ok,
    Instruction,
    InstructionView,
    Sieve,
};
use crate::compiler::grammar::jumps::lemma_script_jumps;
use crate::compiler::grammar::options::{Parser, Parsing};
use crate::compiler::grammar::test::MAX_NESTING;
use crate::compiler::grammar::tree::{
    block_size,
    block_size_of,
    command_views,
    emit_block,
    lower_block,
    lower_script,
    MAX_INSTRUCTIONS,
};
use crate::compiler::lexer::string::ScopeView;
use crate::compiler::lexer::tokenizer::{lex_all, Lexed, Tokenizer};

verus! {

/// A compilation that has not begun: no token was read, no capability was
/// required, and variables are not in use.
pub open spec fn beginning(src: Seq<u8>) -> Parsing {
    Parsing {
        lexed: Lexed {
            src,
            tokens: lex_all(src, 0),
            pos: 0,
            scope: ScopeView { variables: false, locals: Seq::empty(), globals: Seq::empty() },
        },
        required: Seq::empty(),
        loops: Seq::empty(),
        num_vars: 0,
    }
}

/// What a script compiles to: the instructions of its commands with the
/// return from the script behind them, and the number of local variables
/// that it needs; or the first error in it. A script of too many
/// instructions is an error at its end.
pub open spec fn compiled(src: Seq<u8>) -> Result<(Seq<InstructionView>, nat), CompileError> {
    let (r, v) = beginning(src).commands(MAX_NESTING as nat, true, Seq::empty());
    match r {
        Err(e) => Err(e),
        Ok(cs) => if block_size(cs) >= MAX_INSTRUCTIONS {
            Err(located(src, src.len() as int, ErrorType::ScriptTooLarge))
        } else {
            Ok((lower_script(cs), v.num_vars))
        },
    }
}

impl Sieve {
    /// Compiles a script. Every jump of the program goes forward, but for
    /// the jump that closes a loop, and none leaves the program.
    pub fn compile(script: &[u8]) -> (r: Result<Sieve, CompileError>)
        ensures
            match compiled(script@) {
                Ok((program, vars)) => r matches Ok(s) && instruction_views(s.program()) == program
                    && s.vars() == vars && s.match_vars() == 0 && s.parts() == 0,
                Err(e) => r == Err::<Sieve, CompileError>(e),
            },
            r matches Ok(s) ==> jumps_ok(s.program()),
    {
        let tokens = Tokenizer::new(script);
        let mut parser = Parser { tokens, required: Vec::new(), loops: Vec::new(), num_vars: 0 };
        assert(crate::runtime::string::texts(parser.loops@) =~= Seq::<Seq<u8>>::empty());
        assert(parser@ == beginning(script@));
        let cs = match parser.commands(MAX_NESTING, true) {
            Err(e) => {
                return Err(e);
            },
            Ok(cs) => cs,
        };
        let ghost views = command_views(cs@);
        if block_size_of(&cs) >= MAX_INSTRUCTIONS {
            return Err(CompileError::at(script, script.len(), ErrorType::ScriptTooLarge));
        }
        let mut program: Vec<Instruction> = Vec::new();
        let mut exits: Vec<usize> = Vec::new();
        emit_block(cs, &mut program, &mut exits);
        let ghost body = instruction_views(program@);
        program.push(Instruction::Return);
        let length = program.len();
        proof {
            assert(exits@ =~= Seq::<usize>::empty());
            assert(body =~= lower_block(views, 0, Seq::empty()));
            assert(instruction_views(program@) =~= lower_script(views));
            lemma_script_jumps(program@, views);
        }
        Ok(Sieve::assemble(program, parser.num_vars))
    }
}

} // verus!
