//! Programs: statements one behind the other, and their encoding.

use crate::assembler::directive_parsers::directive;
use crate::assembler::grammar::{self, lemma_statement_consumes};
use crate::assembler::instruction_parsers::{instruction, AssemblerInstruction, InstructionView};
use crate::assembler::{conforms, ParseError};
use vstd::prelude::*;

verus! {

/// The statements of a source text, in their order.
#[derive(Debug, PartialEq)]
pub struct Program {
    pub instructions: Vec<AssemblerInstruction>,
}

/// The views of statements, in their order.
pub open spec fn views(statements: Seq<AssemblerInstruction>) -> Seq<InstructionView> {
    statements.map_values(|statement: AssemblerInstruction| statement@)
}

impl View for Program {
    type V = Seq<InstructionView>;

    open spec fn view(&self) -> Seq<InstructionView> {
        views(self.instructions@)
    }
}

/// Whether every statement has an encoding.
pub open spec fn encodable(statements: Seq<InstructionView>) -> bool {
    forall|i: int| 0 <= i < statements.len() ==> (#[trigger] statements[i]).encodable()
}

/// The encoding of statements: the bytes of each, one behind the other,
/// with nothing between them.
pub open spec fn encoding(statements: Seq<InstructionView>) -> Seq<u8>
    decreases statements.len(),
{
    if statements.len() == 0 {
        Seq::empty()
    } else {
        encoding(statements.drop_last()) + statements.last().bytes()
    }
}

/// The encoding of statements one behind the other is their encodings one
/// behind the other, so the bytes of a program keep the order of its
/// statements.
pub proof fn lemma_encoding_concatenates(front: Seq<InstructionView>, back: Seq<InstructionView>)
    ensures
        encoding(front + back) == encoding(front) + encoding(back),
    decreases back.len(),
{
    if back.len() == 0 {
        assert(front + back =~= front);
    } else {
        lemma_encoding_concatenates(front, back.drop_last());
        assert((front + back).drop_last() =~= front + back.drop_last());
    }
}

impl Program {
    /// Whether every statement of the program has an encoding.
    pub fn encodable(&self) -> (yes: bool)
        ensures
            yes == encodable(self@),
    {
        let mut i: usize = 0;
        while i < self.instructions.len()
            invariant
                0 <= i <= self.instructions.len(),
                forall|k: int| 0 <= k < i ==> (#[trigger] self@[k]).encodable(),
            decreases self.instructions.len() - i,
        {
            if !self.instructions[i].encodable() {
                assert(!self@[i as int].encodable());
                return false;
            }
            i = i + 1;
        }
        true
    }

    /// The encoding of the program.
    pub fn to_bytes(&self) -> (bytes: Vec<u8>)
        requires
            encodable(self@),
        ensures
            bytes@ == encoding(self@),
    {
        let mut bytes: Vec<u8> = Vec::new();
        let mut i: usize = 0;
        while i < self.instructions.len()
            invariant
                0 <= i <= self.instructions.len(),
                encodable(self@),
                bytes@ == encoding(self@.take(i as int)),
            decreases self.instructions.len() - i,
        {
            assert(self@[i as int] == self.instructions[i as int]@);
            let mut more = self.instructions[i].to_bytes();
            assert(self@.take(i + 1).drop_last() =~= self@.take(i as int));
            bytes.append(&mut more);
            i = i + 1;
        }
        assert(self@.take(i as int) =~= self@);
        bytes
    }
}

/// Parses a statement: an instruction, else a directive.
pub fn statement(input: &str) -> (r: Result<(&str, AssemblerInstruction), ParseError>)
    ensures
        conforms(r, grammar::statement(input@)),
{
    match instruction(input) {
        Ok(found) => Ok(found),
        Err(_) => directive(input),
    }
}

/// Parses a program: one or more statements. What is left is the text from
/// the first place on where no statement stands.
pub fn program_parser(input: &str) -> (r: Result<(&str, Program), ParseError>)
    ensures
        conforms(r, grammar::program(input@)),
{
    let (mut rest, first) = statement(input)?;
    let mut instructions: Vec<AssemblerInstruction> = Vec::new();
    instructions.push(first);
    proof {
        lemma_statement_consumes(input@);
        assert(views(instructions@) =~= seq![first@]);
    }
    loop
        invariant
            grammar::statement(input@) is Ok,
            grammar::statements(input@).0 == grammar::statements(rest@).0,
            grammar::statements(input@).1 == views(instructions@) + grammar::statements(rest@).1,
        decreases rest@.len(),
    {
        proof {
            lemma_statement_consumes(rest@);
        }
        match statement(rest) {
            Ok((after, next)) => {
                proof {
                    let before = views(instructions@);
                    let behind = grammar::statements(after@).1;
                    assert(views(instructions@.push(next)) =~= before + seq![next@]);
                    assert((before + seq![next@]) + behind =~= before + (seq![next@] + behind));
                }
                instructions.push(next);
                rest = after;
            },
            Err(_) => {
                assert(views(instructions@) + Seq::empty() =~= views(instructions@));
                return Ok((rest, Program { instructions }));
            },
        }
    }
}

} // verus!
