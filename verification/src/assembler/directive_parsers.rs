//! Statements that name a directive.

use crate::assembler::grammar::{self, any_operand, maybe, then_whitespace};
use crate::assembler::instruction_parsers::{
    leading_label, whitespace, Action, AssemblerInstruction,
};
use crate::assembler::label_parsers::marked_name;
use crate::assembler::operand_parsers::any_operand_parser;
use crate::assembler::scan::multispace0;
use crate::assembler::{conforms, optional, ParseError, Token};
use vstd::prelude::*;

verus! {

/// Parses the name of a directive: `.name`.
pub fn directive_declaration_parse(input: &str) -> (r: Result<(&str, Token), ParseError>)
    ensures
        conforms(r, grammar::directive_name(input@)),
{
    proof {
        reveal_strlit(".");
    }
    match marked_name(".", input) {
        Ok((rest, directive)) => Ok((rest, Token::Directive(directive.to_owned()))),
        Err(error) => Err(error),
    }
}

/// Parses an operand, if one stands there, and the whitespace behind it.
fn trailing_operand<'a>(input: &'a str) -> (r: (&'a str, Option<Token>))
    ensures
        (r.0@, optional(r.1)) == then_whitespace(maybe(input@, any_operand(input@))).unwrap(),
{
    let (rest, operand) = match any_operand_parser(input) {
        Ok((rest, operand)) => (rest, Some(operand)),
        Err(_) => (input, None),
    };
    let (rest, _) = multispace0(rest).unwrap();
    (rest, operand)
}

/// Parses a statement that names a directive.
pub fn directive(input: &str) -> (r: Result<(&str, AssemblerInstruction), ParseError>)
    ensures
        conforms(r, grammar::directive(input@)),
{
    let (input, label) = leading_label(input);
    let (input, d) = whitespace(directive_declaration_parse(input))?;
    let (input, op1) = trailing_operand(input);
    let (input, op2) = trailing_operand(input);
    let (input, op3) = trailing_operand(input);
    let asm_instruction = AssemblerInstruction {
        label,
        action: Action::Directive(d),
        operand1: op1,
        operand2: op2,
        operand3: op3,
    };
    Ok((input, asm_instruction))
}

} // verus!
