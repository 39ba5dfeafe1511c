//! Where the assembler and the machine meet: what the encoder writes is
//! what the machine reads.

use crate::assembler::instruction_parsers::InstructionView;
use crate::assembler::TokenView;
use crate::instructions::{lemma_decode_byte, Opcode};
use crate::vm::{step, Step, VmState, REGISTER_COUNT};
use vstd::prelude::*;

verus! {

/// Whether the bytes `code` stand in the program of `s` at its program
/// counter.
pub open spec fn stands_at_pc(s: VmState, code: Seq<u8>) -> bool {
    &&& s.pc + code.len() <= s.program.len()
    &&& s.program.subrange(s.pc as int, s.pc as int + code.len()) == code
}

/// A machine that stands at the encoding of a statement finds there the
/// operation of the statement, its registers byte for byte, and the low
/// sixteen bits of its integer; and the instruction ends where the
/// encoding ends. The statement is to have the operands that its operation
/// asks for.
pub proof fn lemma_machine_reads_statement(s: VmState, statement: InstructionView)
    requires
        statement.opcode() matches Some(code) && code.is_legal() && statement.has_shape(
            code.shape(),
        ),
        stands_at_pc(s, statement.bytes()),
    ensures
        s.pc < s.program.len(),
        Some(s.opcode()) == statement.opcode(),
        s.behind() == s.pc + statement.bytes().len() <= s.program.len(),
        statement.operand1 matches Some(TokenView::Register(index)) ==> s.operand(0) == index,
        statement.operand2 matches Some(TokenView::Register(index)) ==> s.operand(1) == index,
        statement.operand3 matches Some(TokenView::Register(index)) ==> s.operand(2) == index,
        statement.operand2 matches Some(TokenView::IntegerOperand(value)) ==> s.operand(1) * 256
            + s.operand(2) == value % 0x1_0000,
{
    let code = statement.bytes();
    let window = s.program.subrange(s.pc as int, s.pc as int + code.len());
    lemma_decode_byte(statement.opcode().unwrap());
    assert(window[0] == s.program[s.pc as int]);
    if code.len() > 1 {
        assert(window[1] == s.operand(0));
    }
    if code.len() > 2 {
        assert(window[2] == s.operand(1));
    }
    if code.len() > 3 {
        assert(window[3] == s.operand(2));
    }
}

/// A machine that stands at the encoding of `LOAD` with a register that it
/// has and an integer puts the low sixteen bits of the integer into the
/// register, steps behind the encoding, and goes on. An integer from 0 to
/// 65535 arrives as it is.
pub proof fn lemma_load_arrives(s: VmState, statement: InstructionView)
    requires
        statement.opcode() == Some(Opcode::LOAD),
        statement.has_shape(Opcode::LOAD.shape()),
        statement.operand1->0->Register_0 < REGISTER_COUNT,
        stands_at_pc(s, statement.bytes()),
    ensures
        step(s) == (
            VmState {
                registers: s.registers.update(
                    statement.operand1->0->Register_0 as int,
                    (statement.operand2->0->IntegerOperand_0 % 0x1_0000) as i32,
                ),
                pc: s.pc + 4,
                ..s
            },
            Ok::<Step, u8>(Step::Continue),
        ),
{
    lemma_machine_reads_statement(s, statement);
}

} // verus!
