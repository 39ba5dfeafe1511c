//! Statements that name an operation, and their encoding.

use crate::assembler::grammar::{self, then_blanks, then_whitespace, Operands};
use crate::assembler::label_parsers::label_declaration_parser;
use crate::assembler::opcode_parsers::opcode_parser;
use crate::assembler::operand_parsers::{integer_operand_parser, register_parser};
use crate::assembler::scan::{multispace0, space1};
use crate::assembler::{conforms, optional, outcome, ParseError, Parsed, Token, TokenView};
use crate::instructions::{Opcode, OperandShape};
use vstd::prelude::*;

verus! {

/// What a statement does: an operation or a directive.
#[derive(Debug, PartialEq)]
pub enum Action {
    /// Holds `Token::Op`.
    Opcode(Token),
    /// Holds `Token::Directive`.
    Directive(Token),
}

/// An action as mathematical values.
pub enum ActionView {
    Opcode(TokenView),
    Directive(TokenView),
}

impl View for Action {
    type V = ActionView;

    open spec fn view(&self) -> ActionView {
        match self {
            Action::Opcode(token) => ActionView::Opcode(token@),
            Action::Directive(token) => ActionView::Directive(token@),
        }
    }
}

/// One parsed statement.
#[derive(Debug, PartialEq)]
pub struct AssemblerInstruction {
    pub label: Option<Token>,
    pub action: Action,
    pub operand1: Option<Token>,
    pub operand2: Option<Token>,
    pub operand3: Option<Token>,
}

/// A statement as mathematical values.
pub struct InstructionView {
    pub label: Option<TokenView>,
    pub action: ActionView,
    pub operand1: Option<TokenView>,
    pub operand2: Option<TokenView>,
    pub operand3: Option<TokenView>,
}

impl View for AssemblerInstruction {
    type V = InstructionView;

    open spec fn view(&self) -> InstructionView {
        InstructionView {
            label: optional(self.label),
            action: self.action@,
            operand1: optional(self.operand1),
            operand2: optional(self.operand2),
            operand3: optional(self.operand3),
        }
    }
}

/// The bytes of one operand: a register is its number; an integer is the
/// low sixteen bits of its value, high byte first; no operand, no byte.
pub open spec fn operand_bytes(operand: Option<TokenView>) -> Seq<u8> {
    match operand {
        Some(TokenView::Register(index)) => seq![index],
        Some(TokenView::IntegerOperand(value)) => seq![
            ((value % 0x1_0000) / 0x100) as u8,
            (value % 0x100) as u8,
        ],
        _ => Seq::empty(),
    }
}

/// Whether an operand can be encoded: it is absent, a register or an
/// integer.
pub open spec fn operand_encodable(operand: Option<TokenView>) -> bool {
    operand is None || operand matches Some(TokenView::Register(_)) || operand matches Some(
        TokenView::IntegerOperand(_),
    )
}

impl InstructionView {
    /// The operands that are there come first: behind an absent operand
    /// every operand is absent.
    pub open spec fn well_formed(self) -> bool {
        &&& self.operand1 is None ==> self.operand2 is None
        &&& self.operand2 is None ==> self.operand3 is None
    }

    /// The operation of the statement, where its action is one.
    pub open spec fn opcode(self) -> Option<Opcode> {
        match self.action {
            ActionView::Opcode(TokenView::Op(code)) => Some(code),
            _ => None,
        }
    }

    /// Whether the statement has an encoding: its action is one of the
    /// sixteen operations, its operands come first, and each of them is a
    /// register or an integer.
    pub open spec fn encodable(self) -> bool {
        &&& self.opcode() matches Some(code) && code.is_legal()
        &&& self.well_formed()
        &&& operand_encodable(self.operand1)
        &&& operand_encodable(self.operand2)
        &&& operand_encodable(self.operand3)
    }

    /// The encoding of the statement: the byte of its operation, then the
    /// bytes of its operands in order.
    pub open spec fn bytes(self) -> Seq<u8> {
        seq![self.opcode().unwrap().byte()] + operand_bytes(self.operand1) + operand_bytes(
            self.operand2,
        ) + operand_bytes(self.operand3)
    }

    /// Whether the operands are those that `shape` asks for, in number and
    /// in kind.
    pub open spec fn has_shape(self, shape: OperandShape) -> bool {
        match shape {
            OperandShape::Nothing => self.operand1 is None && self.operand2 is None
                && self.operand3 is None,
            OperandShape::Register => self.operand1 matches Some(TokenView::Register(_))
                && self.operand2 is None && self.operand3 is None,
            OperandShape::RegisterRegister => self.operand1 matches Some(TokenView::Register(_))
                && self.operand2 matches Some(TokenView::Register(_)) && self.operand3 is None,
            OperandShape::RegisterRegisterRegister => self.operand1 matches Some(
                TokenView::Register(_),
            ) && self.operand2 matches Some(TokenView::Register(_))
                && self.operand3 matches Some(TokenView::Register(_)),
            OperandShape::RegisterInteger => self.operand1 matches Some(TokenView::Register(_))
                && self.operand2 matches Some(TokenView::IntegerOperand(_))
                && self.operand3 is None,
        }
    }
}

impl AssemblerInstruction {
    /// Whether the statement has an encoding.
    pub fn encodable(&self) -> (yes: bool)
        ensures
            yes == self@.encodable(),
    {
        let legal = match &self.action {
            Action::Opcode(Token::Op(code)) => !matches!(code, Opcode::IGL(_)),
            _ => false,
        };
        let first = AssemblerInstruction::operand_encodable(&self.operand1);
        let second = AssemblerInstruction::operand_encodable(&self.operand2);
        let third = AssemblerInstruction::operand_encodable(&self.operand3);
        let second_follows = self.operand1.is_some() || self.operand2.is_none();
        let third_follows = self.operand2.is_some() || self.operand3.is_none();
        legal && second_follows && third_follows && first && second && third
    }

    /// Whether an operand can be encoded.
    fn operand_encodable(operand: &Option<Token>) -> (yes: bool)
        ensures
            yes == operand_encodable(optional(*operand)),
    {
        match operand {
            None => true,
            Some(Token::Register(_)) => true,
            Some(Token::IntegerOperand(_)) => true,
            _ => false,
        }
    }

    /// The encoding of the statement.
    pub fn to_bytes(&self) -> (results: Vec<u8>)
        requires
            self@.encodable(),
        ensures
            results@ == self@.bytes(),
    {
        let mut results = Vec::new();
        match &self.action {
            Action::Opcode(Token::Op(code)) => results.push(u8::from(code)),
            _ => {},
        };
        match (&self.operand1, &self.operand2, &self.operand3) {
            (Some(op1), Some(op2), Some(op3)) => {
                AssemblerInstruction::extract_operand(op1, &mut results);
                AssemblerInstruction::extract_operand(op2, &mut results);
                AssemblerInstruction::extract_operand(op3, &mut results);
            },
            (Some(op1), Some(op2), None) => {
                AssemblerInstruction::extract_operand(op1, &mut results);
                AssemblerInstruction::extract_operand(op2, &mut results);
            },
            (Some(op1), None, None) => {
                AssemblerInstruction::extract_operand(op1, &mut results);
            },
            _ => (),
        }
        results
    }

    /// Appends the bytes of one operand.
    fn extract_operand(t: &Token, results: &mut Vec<u8>)
        requires
            operand_encodable(Some(t@)),
        ensures
            final(results)@ == old(results)@ + operand_bytes(Some(t@)),
    {
        match t {
            Token::Register(reg_num) => {
                results.push(*reg_num);
            },
            Token::IntegerOperand(value) => {
                let value = *value;
                let converted = value as u16;
                let byte1 = converted;
                let byte2 = converted >> 8;
                assert((converted >> 8) as u8 == ((value as int) % 0x1_0000) / 0x100
                    && converted as u8 == (value as int) % 0x100) by (bit_vector)
                    requires
                        converted == value as u16,
                ;
                results.push(byte2 as u8);
                results.push(byte1 as u8);
            },
            _ => {},
        };
    }
}

/// Consumes the blanks, one or more, behind what was parsed.
pub(crate) fn blanks<'a, T>(parsed: Result<(&'a str, T), ParseError>) -> (r: Result<
    (&'a str, T),
    ParseError,
>)
    ensures
        outcome(r) == then_blanks(outcome(parsed)),
{
    let (rest, value) = parsed?;
    match space1(rest) {
        Ok((rest, _)) => Ok((rest, value)),
        Err(_) => Err(ParseError::Space),
    }
}

/// Consumes the whitespace behind what was parsed.
pub(crate) fn whitespace<'a, T>(parsed: Result<(&'a str, T), ParseError>) -> (r: Result<
    (&'a str, T),
    ParseError,
>)
    ensures
        outcome(r) == then_whitespace(outcome(parsed)),
{
    let (rest, value) = parsed?;
    let (rest, _) = multispace0(rest).unwrap();
    Ok((rest, value))
}

/// Parses the label that a statement may start with, and the whitespace
/// behind it.
pub(crate) fn leading_label<'a>(input: &'a str) -> (r: (&'a str, Option<Token>))
    ensures
        (r.0@, optional(r.1)) == grammar::leading_label(input@),
{
    let (rest, label) = match label_declaration_parser(input) {
        Ok((rest, label)) => (rest, Some(label)),
        Err(_) => (input, None),
    };
    let (rest, _) = multispace0(rest).unwrap();
    (rest, label)
}

/// The statement `base` with the operands that were parsed: each operand
/// that is there takes the place of that of `base`.
pub open spec fn filled(base: InstructionView, parsed: Parsed<Operands>) -> Parsed<
    InstructionView,
> {
    match parsed {
        Ok((rest, (operand1, operand2, operand3))) => Ok(
            (
                rest,
                InstructionView {
                    operand1: if operand1 is Some {
                        operand1
                    } else {
                        base.operand1
                    },
                    operand2: if operand2 is Some {
                        operand2
                    } else {
                        base.operand2
                    },
                    operand3: if operand3 is Some {
                        operand3
                    } else {
                        base.operand3
                    },
                    ..base
                },
            ),
        ),
        Err(error) => Err(error),
    }
}

/// Parses a register and an integer: `LOAD $0 #100`.
fn args_reg_value<'a>(mut asm_instruction: AssemblerInstruction, input: &'a str) -> (r: Result<
    (&'a str, AssemblerInstruction),
    ParseError,
>)
    ensures
        conforms(
            r,
            filled(asm_instruction@, grammar::operands(input@, OperandShape::RegisterInteger)),
        ),
{
    let (input, register) = blanks(register_parser(input))?;
    let (input, operand) = whitespace(integer_operand_parser(input))?;
    asm_instruction.operand1 = Some(register);
    asm_instruction.operand2 = Some(operand);
    Ok((input, asm_instruction))
}

/// Parses three registers: `ADD $0 $1 $2`.
fn args_reg_reg_reg<'a>(mut asm_instruction: AssemblerInstruction, input: &'a str) -> (r: Result<
    (&'a str, AssemblerInstruction),
    ParseError,
>)
    ensures
        conforms(
            r,
            filled(
                asm_instruction@,
                grammar::operands(input@, OperandShape::RegisterRegisterRegister),
            ),
        ),
{
    let (input, reg1) = blanks(register_parser(input))?;
    let (input, reg2) = blanks(register_parser(input))?;
    let (input, reg3) = whitespace(register_parser(input))?;
    asm_instruction.operand1 = Some(reg1);
    asm_instruction.operand2 = Some(reg2);
    asm_instruction.operand3 = Some(reg3);
    Ok((input, asm_instruction))
}

/// Parses two registers: `EQ $0 $1`.
fn args_reg_reg<'a>(mut asm_instruction: AssemblerInstruction, input: &'a str) -> (r: Result<
    (&'a str, AssemblerInstruction),
    ParseError,
>)
    ensures
        conforms(
            r,
            filled(asm_instruction@, grammar::operands(input@, OperandShape::RegisterRegister)),
        ),
{
    let (input, reg1) = blanks(register_parser(input))?;
    let (input, reg2) = whitespace(register_parser(input))?;
    asm_instruction.operand1 = Some(reg1);
    asm_instruction.operand2 = Some(reg2);
    Ok((input, asm_instruction))
}

/// Parses one register: `JMP $0`.
fn args_reg<'a>(mut asm_instruction: AssemblerInstruction, input: &'a str) -> (r: Result<
    (&'a str, AssemblerInstruction),
    ParseError,
>)
    ensures
        conforms(r, filled(asm_instruction@, grammar::operands(input@, OperandShape::Register))),
{
    let (input, reg1) = whitespace(register_parser(input))?;
    asm_instruction.operand1 = Some(reg1);
    Ok((input, asm_instruction))
}

/// Parses no operand: `HLT`.
fn args_none<'a>(asm_instruction: AssemblerInstruction, input: &'a str) -> (r: Result<
    (&'a str, AssemblerInstruction),
    ParseError,
>)
    ensures
        conforms(r, filled(asm_instruction@, grammar::operands(input@, OperandShape::Nothing))),
{
    Ok((input, asm_instruction))
}

/// Parses a statement that names an operation.
pub fn instruction(input: &str) -> (r: Result<(&str, AssemblerInstruction), ParseError>)
    ensures
        conforms(r, grammar::instruction(input@)),
{
    let (input, label) = leading_label(input);
    let (input, opcode) = whitespace(opcode_parser(input))?;
    let shape = match &opcode {
        Token::Op(code) => code.shape(),
        _ => OperandShape::Nothing,
    };
    let asm_instruction = AssemblerInstruction {
        label,
        action: Action::Opcode(opcode),
        operand1: None,
        operand2: None,
        operand3: None,
    };
    match shape {
        OperandShape::Nothing => args_none(asm_instruction, input),
        OperandShape::Register => args_reg(asm_instruction, input),
        OperandShape::RegisterRegister => args_reg_reg(asm_instruction, input),
        OperandShape::RegisterRegisterRegister => args_reg_reg_reg(asm_instruction, input),
        OperandShape::RegisterInteger => args_reg_value(asm_instruction, input),
    }
}

} // verus!
