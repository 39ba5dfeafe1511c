//! Labels: their declaration before a statement and their use as an
//! operand.

use crate::assembler::grammar;
use crate::assembler::scan::{alphanumeric1, mark, CharClass};
use crate::assembler::{conforms, ParseError, Token};
use vstd::prelude::*;

verus! {

/// Parses the declaration of a label: `name:`.
pub fn label_declaration_parser(input: &str) -> (r: Result<(&str, Token), ParseError>)
    ensures
        conforms(r, grammar::label_declaration(input@)),
{
    proof {
        reveal_strlit(":");
    }
    let (rest, label) = match alphanumeric1(input) {
        Ok(pair) => pair,
        Err(_) => return Err(ParseError::AlphaNumeric),
    };
    let ghost n = CharClass::LetterOrDigit.run(input@) as int;
    match mark(":", rest) {
        Some(rest) => {
            assert(input@.skip(n).skip(1) =~= input@.skip(n + 1));
            Ok((rest, Token::LabelDeclaration(label.to_owned())))
        },
        None => Err(ParseError::Mark),
    }
}

/// Parses the one character of `pattern` and the name behind it.
pub(crate) fn marked_name<'a>(pattern: &str, input: &'a str) -> (r: Result<
    (&'a str, &'a str),
    ParseError,
>)
    requires
        pattern@.len() == 1,
    ensures
        match (r, grammar::marked_name(input@, pattern@[0])) {
            (Ok((rest, name)), Ok((rest_view, name_view))) => rest@ == rest_view && name@
                == name_view,
            (Err(error), Err(expected)) => error == expected,
            _ => false,
        },
{
    let rest = match mark(pattern, input) {
        Some(rest) => rest,
        None => return Err(ParseError::Mark),
    };
    match alphanumeric1(rest) {
        Ok((rest, name)) => {
            proof {
                let n = CharClass::LetterOrDigit.run(input@.skip(1)) as int;
                assert(input@.skip(1).take(n) =~= input@.subrange(1, 1 + n));
                assert(input@.skip(1).skip(n) =~= input@.skip(1 + n));
            }
            Ok((rest, name))
        },
        Err(_) => Err(ParseError::AlphaNumeric),
    }
}

/// Parses the use of a label: `@name`.
pub fn label_usage_parser(input: &str) -> (r: Result<(&str, Token), ParseError>)
    ensures
        conforms(r, grammar::label_usage(input@)),
{
    proof {
        reveal_strlit("@");
    }
    match marked_name("@", input) {
        Ok((rest, label)) => Ok((rest, Token::LabelUsage(label.to_owned()))),
        Err(error) => Err(error),
    }
}

} // verus!
