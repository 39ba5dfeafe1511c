//! The mnemonic of a statement.

use crate::assembler::grammar;
use crate::assembler::scan::alpha1;
use crate::assembler::{conforms, ParseError, Token};
use crate::instructions::Opcode;
use vstd::prelude::*;

verus! {

/// Parses the mnemonic of an operation.
pub fn opcode_parser(input: &str) -> (r: Result<(&str, Token), ParseError>)
    ensures
        conforms(r, grammar::operation(input@)),
{
    match alpha1(input) {
        Ok((rest, opcode)) => Ok((rest, Token::Op(Opcode::from(opcode)))),
        Err(_) => Err(ParseError::Alpha),
    }
}

} // verus!
