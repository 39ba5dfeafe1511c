//! Operands: registers, integers and strings.

use crate::assembler::grammar::{self, decimal, marked_number};
use crate::assembler::scan::{digit1, find, lemma_find, lemma_run, mark, take_until, CharClass};
use crate::assembler::{conforms, ParseError, Token};
use vstd::prelude::*;
use vstd::string::StrSliceExecFns;

verus! {

/// A longer spelling names no smaller number.
proof fn lemma_decimal_grows(digits: Seq<char>, n: int)
    requires
        0 <= n <= digits.len(),
        forall|i: int| 0 <= i < digits.len() ==> CharClass::Digit.has(#[trigger] digits[i]),
    ensures
        decimal(digits.take(n)) <= decimal(digits),
    decreases digits.len() - n,
{
    if n == digits.len() {
        assert(digits.take(n) =~= digits);
    } else {
        lemma_decimal_grows(digits, n + 1);
        assert(digits.take(n + 1).drop_last() =~= digits.take(n));
    }
}

/// The number that `digits` spell, where it is no more than `limit`.
fn value_of(digits: &str, limit: u32) -> (r: Option<u32>)
    requires
        forall|i: int| 0 <= i < digits@.len() ==> CharClass::Digit.has(#[trigger] digits@[i]),
    ensures
        r == if decimal(digits@) <= limit {
            Some(decimal(digits@) as u32)
        } else {
            None::<u32>
        },
{
    let length = digits.unicode_len();
    let mut value: u32 = 0;
    let mut i: usize = 0;
    while i < length
        invariant
            length == digits@.len(),
            0 <= i <= length,
            value == decimal(digits@.take(i as int)),
            value <= limit,
            forall|i: int| 0 <= i < digits@.len() ==> CharClass::Digit.has(#[trigger] digits@[i]),
        decreases length - i,
    {
        let digit = (digits.get_ascii(i) - '0' as u8) as u32;
        proof {
            lemma_decimal_grows(digits@, i + 1);
            assert(digits@.take(i + 1).drop_last() =~= digits@.take(i as int));
        }
        if limit < digit || value > (limit - digit) / 10 {
            return None;
        }
        value = value * 10 + digit;
        i = i + 1;
    }
    assert(digits@.take(length as int) =~= digits@);
    Some(value)
}

/// Parses a mark and the number behind it.
fn number<'a>(pattern: &str, input: &'a str, limit: u32) -> (r: Result<(&'a str, u32), ParseError>)
    requires
        pattern@.len() == 1,
    ensures
        match (r, marked_number(input@, pattern@[0], limit as nat)) {
            (Ok((rest, value)), Ok((rest_view, value_view))) => rest@ == rest_view && value
                == value_view,
            (Err(error), Err(expected)) => error == expected,
            _ => false,
        },
{
    let rest = match mark(pattern, input) {
        Some(rest) => rest,
        None => return Err(ParseError::Mark),
    };
    let (rest, digits) = match digit1(rest) {
        Ok(pair) => pair,
        Err(_) => return Err(ParseError::Digit),
    };
    proof {
        lemma_run(CharClass::Digit, input@.skip(1));
        let n = CharClass::Digit.run(input@.skip(1)) as int;
        assert(input@.skip(1).take(n) =~= input@.subrange(1, 1 + n));
        assert(input@.skip(1).skip(n) =~= input@.skip(1 + n));
    }
    match value_of(digits, limit) {
        Some(value) => Ok((rest, value)),
        None => Err(ParseError::Digit),
    }
}

/// Parses an integer operand: `#` and decimal digits.
pub fn integer_operand_parser(input: &str) -> (r: Result<(&str, Token), ParseError>)
    ensures
        conforms(r, grammar::integer(input@)),
{
    proof {
        reveal_strlit("#");
    }
    match number("#", input, i32::MAX as u32) {
        Ok((rest, value)) => Ok((rest, Token::IntegerOperand(value as i32))),
        Err(error) => Err(error),
    }
}

/// Parses a register operand: `$` and decimal digits.
pub fn register_parser(input: &str) -> (r: Result<(&str, Token), ParseError>)
    ensures
        conforms(r, grammar::register(input@)),
{
    proof {
        reveal_strlit("$");
    }
    match number("$", input, u8::MAX as u32) {
        Ok((rest, value)) => Ok((rest, Token::Register(value as u8))),
        Err(error) => Err(error),
    }
}

/// Parses a string operand: text between single quotes.
pub fn string_operand_parser(input: &str) -> (r: Result<(&str, Token), ParseError>)
    ensures
        conforms(r, grammar::string(input@)),
{
    proof {
        reveal_strlit("'");
        assert("'"@ =~= seq!['\'']);
        lemma_find(input@.skip(1), seq!['\'']);
    }
    let rest = match mark("'", input) {
        Some(rest) => rest,
        None => return Err(ParseError::Mark),
    };
    let (rest, value) = match take_until("'", rest) {
        Ok(pair) => pair,
        Err(_) => return Err(ParseError::Unterminated),
    };
    proof {
        let n = find(input@.skip(1), seq!['\'']).unwrap() as int;
        assert(input@.skip(1).take(n) =~= input@.subrange(1, n + 1));
        assert(input@.skip(1).skip(n).skip(1) =~= input@.skip(n + 2));
    }
    match mark("'", rest) {
        Some(rest) => Ok((rest, Token::StringOperand(value.to_owned()))),
        None => Err(ParseError::Unterminated),
    }
}

/// Parses an operand of any kind.
pub fn any_operand_parser(input: &str) -> (r: Result<(&str, Token), ParseError>)
    ensures
        conforms(r, grammar::any_operand(input@)),
{
    match integer_operand_parser(input) {
        Ok(found) => Ok(found),
        Err(_) => match register_parser(input) {
            Ok(found) => Ok(found),
            Err(_) => string_operand_parser(input),
        },
    }
}

} // verus!
