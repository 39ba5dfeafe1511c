//! The assembler: from source text to tokens, statements and programs.
//!
//! Every parser takes the text that is left, and gives back either what it
//! recognised with the text behind it, or the reason why it recognised
//! nothing. What a parser accepts is defined on sequences of characters by
//! a specification function of [`grammar`]; each parser
//! is proved to compute that function.

pub mod directive_parsers;
pub mod grammar;
pub mod instruction_parsers;
pub mod label_parsers;
pub mod opcode_parsers;
pub mod operand_parsers;
pub mod program_parsers;
pub mod scan;

use crate::instructions::Opcode;
use vstd::prelude::*;

verus! {

/// A lexical atom of the assembly language.
#[derive(Debug, PartialEq)]
pub enum Token {
    /// The name of a directive, without its dot.
    Directive(String),
    /// An operation.
    Op(Opcode),
    /// An integer literal.
    IntegerOperand(i32),
    /// The text of a string literal, without its quotes.
    StringOperand(String),
    /// The number of a register.
    Register(u8),
    /// The name of a label that is declared, without its colon.
    LabelDeclaration(String),
    /// The name of a label that is used, without its at sign.
    LabelUsage(String),
}

/// A token as mathematical values: text is a sequence of characters.
pub enum TokenView {
    Directive(Seq<char>),
    Op(Opcode),
    IntegerOperand(i32),
    StringOperand(Seq<char>),
    Register(u8),
    LabelDeclaration(Seq<char>),
    LabelUsage(Seq<char>),
}

impl View for Token {
    type V = TokenView;

    open spec fn view(&self) -> TokenView {
        match self {
            Token::Directive(name) => TokenView::Directive(name@),
            Token::Op(code) => TokenView::Op(*code),
            Token::IntegerOperand(value) => TokenView::IntegerOperand(*value),
            Token::StringOperand(text) => TokenView::StringOperand(text@),
            Token::Register(index) => TokenView::Register(*index),
            Token::LabelDeclaration(name) => TokenView::LabelDeclaration(name@),
            Token::LabelUsage(name) => TokenView::LabelUsage(name@),
        }
    }
}

/// The view of a token that may be absent.
pub open spec fn optional(token: Option<Token>) -> Option<TokenView> {
    match token {
        Some(token) => Some(token@),
        None => None,
    }
}

/// Why a parser recognised nothing.
#[derive(Debug, Clone, Copy, PartialEq, Eq, Structural)]
pub enum ParseError {
    /// A mark is missing: the `$` of a register, the `#` of an integer, a
    /// quote of a string, the `:` behind a label, the `@` before one, or
    /// the `.` of a directive.
    Mark,
    /// Digits are missing, or they spell a number that is too large.
    Digit,
    /// The letters of a mnemonic are missing.
    Alpha,
    /// The letters and digits of a name are missing.
    AlphaNumeric,
    /// The blank between two operands is missing.
    Space,
    /// A string has no closing quote.
    Unterminated,
}

/// What a parser gives back, as mathematical values: the text that is left
/// and what was recognised, or the error.
pub type Parsed<T> = Result<(Seq<char>, T), ParseError>;

/// The outcome of a parser with the text that is left as a sequence of
/// characters.
pub open spec fn outcome<T>(got: Result<(&str, T), ParseError>) -> Parsed<T> {
    match got {
        Ok((rest, value)) => Ok((rest@, value)),
        Err(error) => Err(error),
    }
}

/// Whether the outcome `got` of a parser is the outcome `expected` that the
/// grammar defines.
pub open spec fn conforms<T: View>(
    got: Result<(&str, T), ParseError>,
    expected: Parsed<T::V>,
) -> bool {
    match (got, expected) {
        (Ok((rest, value)), Ok((rest_view, value_view))) => rest@ == rest_view && value@
            == value_view,
        (Err(error), Err(expected_error)) => error == expected_error,
        _ => false,
    }
}

} // verus!
