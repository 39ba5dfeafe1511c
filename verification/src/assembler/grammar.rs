//! The grammar of the assembly language, on sequences of characters.
//!
//! Each function says what one parser accepts at the start of `input`:
//! `Ok` with the text behind what was recognised and its value, or `Err`
//! with the reason. Nothing here is executable; the parsers of the
//! neighbouring files are proved to compute these functions.
//!
//! ```text
//! program     := statement+
//! statement   := instruction | directive
//! instruction := label? opcode operands
//! directive   := label? "." name operand? operand? operand?
//! label       := name ":"
//! opcode      := letter+
//! operand     := integer | register | string
//! register    := "$" digit+
//! integer     := "#" digit+
//! string      := "'" [^']* "'"
//! name        := (letter | digit)+
//! ```

use crate::assembler::instruction_parsers::{ActionView, InstructionView};
use crate::assembler::scan::{find, lemma_find, lemma_run, CharClass};
use crate::assembler::{ParseError, Parsed, TokenView};
use crate::instructions::{capitals, named, OperandShape};
use vstd::prelude::*;

verus! {

/// The operands of a statement, first to third.
pub type Operands = (Option<TokenView>, Option<TokenView>, Option<TokenView>);

/// The number that decimal digits spell.
pub open spec fn decimal(digits: Seq<char>) -> nat
    decreases digits.len(),
{
    if digits.len() == 0 {
        0
    } else {
        (decimal(digits.drop_last()) * 10 + (digits.last() as nat - '0' as nat)) as nat
    }
}

/// A number behind a mark: the character `mark`, then one or more digits
/// that spell a number up to `limit`.
pub open spec fn marked_number(input: Seq<char>, mark: char, limit: nat) -> Parsed<nat> {
    if !(input.len() > 0 && input[0] == mark) {
        Err(ParseError::Mark)
    } else {
        let digits = input.subrange(1, 1 + CharClass::Digit.run(input.skip(1)) as int);
        if digits.len() == 0 || decimal(digits) > limit {
            Err(ParseError::Digit)
        } else {
            Ok((input.skip(1 + digits.len() as int), decimal(digits)))
        }
    }
}

/// A name behind a mark: the character `mark`, then one or more letters
/// and digits.
pub open spec fn marked_name(input: Seq<char>, mark: char) -> Parsed<Seq<char>> {
    if !(input.len() > 0 && input[0] == mark) {
        Err(ParseError::Mark)
    } else {
        let n = CharClass::LetterOrDigit.run(input.skip(1)) as int;
        if n == 0 {
            Err(ParseError::AlphaNumeric)
        } else {
            Ok((input.skip(1 + n), input.subrange(1, 1 + n)))
        }
    }
}

/// A register: `$` and its number, up to 255.
pub open spec fn register(input: Seq<char>) -> Parsed<TokenView> {
    match marked_number(input, '$', u8::MAX as nat) {
        Ok((rest, value)) => Ok((rest, TokenView::Register(value as u8))),
        Err(error) => Err(error),
    }
}

/// An integer: `#` and its digits, up to the largest 32-bit signed integer.
pub open spec fn integer(input: Seq<char>) -> Parsed<TokenView> {
    match marked_number(input, '#', i32::MAX as nat) {
        Ok((rest, value)) => Ok((rest, TokenView::IntegerOperand(value as i32))),
        Err(error) => Err(error),
    }
}

/// A string: the text between a single quote and the next one.
pub open spec fn string(input: Seq<char>) -> Parsed<TokenView> {
    if !(input.len() > 0 && input[0] == '\'') {
        Err(ParseError::Mark)
    } else {
        match find(input.skip(1), seq!['\'']) {
            Some(n) => Ok(
                (
                    input.skip(n as int + 2),
                    TokenView::StringOperand(input.subrange(1, n as int + 1)),
                ),
            ),
            None => Err(ParseError::Unterminated),
        }
    }
}

/// An operand of any kind: an integer, else a register, else a string.
/// Where it is none of them, the error is that of the string.
pub open spec fn any_operand(input: Seq<char>) -> Parsed<TokenView> {
    if integer(input) is Ok {
        integer(input)
    } else if register(input) is Ok {
        register(input)
    } else {
        string(input)
    }
}

/// A label that is declared: one or more letters and digits, then `:`.
pub open spec fn label_declaration(input: Seq<char>) -> Parsed<TokenView> {
    let n = CharClass::LetterOrDigit.run(input) as int;
    if n == 0 {
        Err(ParseError::AlphaNumeric)
    } else if !(n < input.len() && input[n] == ':') {
        Err(ParseError::Mark)
    } else {
        Ok((input.skip(n + 1), TokenView::LabelDeclaration(input.take(n))))
    }
}

/// A label that is used: `@`, then one or more letters and digits.
pub open spec fn label_usage(input: Seq<char>) -> Parsed<TokenView> {
    match marked_name(input, '@') {
        Ok((rest, name)) => Ok((rest, TokenView::LabelUsage(name))),
        Err(error) => Err(error),
    }
}

/// The name of a directive: `.`, then one or more letters and digits.
pub open spec fn directive_name(input: Seq<char>) -> Parsed<TokenView> {
    match marked_name(input, '.') {
        Ok((rest, name)) => Ok((rest, TokenView::Directive(name))),
        Err(error) => Err(error),
    }
}

/// An operation: one or more letters, read as a mnemonic whatever their
/// case. Letters that spell no mnemonic are accepted and stand for
/// `IGL(UNKNOWN_MNEMONIC)`.
pub open spec fn operation(input: Seq<char>) -> Parsed<TokenView> {
    let n = CharClass::Letter.run(input) as int;
    if n == 0 {
        Err(ParseError::Alpha)
    } else {
        Ok((input.skip(n), TokenView::Op(named(capitals(input.take(n))))))
    }
}

/// What is parsed, followed by one or more spaces or tabs.
pub open spec fn then_blanks<V>(parsed: Parsed<V>) -> Parsed<V> {
    match parsed {
        Ok((rest, value)) => if CharClass::Blank.run(rest) == 0 {
            Err(ParseError::Space)
        } else {
            Ok((rest.skip(CharClass::Blank.run(rest) as int), value))
        },
        Err(error) => Err(error),
    }
}

/// What is parsed, followed by whitespace, of which there may be none.
pub open spec fn then_whitespace<V>(parsed: Parsed<V>) -> Parsed<V> {
    match parsed {
        Ok((rest, value)) => Ok((rest.skip(CharClass::Whitespace.run(rest) as int), value)),
        Err(error) => Err(error),
    }
}

/// What is parsed where it can be, and nothing consumed where it cannot.
pub open spec fn maybe(input: Seq<char>, parsed: Parsed<TokenView>) -> Parsed<Option<TokenView>> {
    match parsed {
        Ok((rest, value)) => Ok((rest, Some(value))),
        Err(_) => Ok((input, None)),
    }
}

/// The label that a statement may start with, and the whitespace behind
/// it. Where no label is declared, only whitespace is consumed.
pub open spec fn leading_label(input: Seq<char>) -> (Seq<char>, Option<TokenView>) {
    then_whitespace(maybe(input, label_declaration(input))).unwrap()
}

/// The operands that `shape` asks for: registers and integers in its
/// order, with one or more blanks between two of them and whitespace
/// behind the last.
pub open spec fn operands(input: Seq<char>, shape: OperandShape) -> Parsed<Operands> {
    match shape {
        OperandShape::Nothing => Ok((input, (None, None, None))),
        OperandShape::Register => match then_whitespace(register(input)) {
            Ok((rest, a)) => Ok((rest, (Some(a), None, None))),
            Err(error) => Err(error),
        },
        OperandShape::RegisterRegister => match then_blanks(register(input)) {
            Ok((rest, a)) => match then_whitespace(register(rest)) {
                Ok((rest, b)) => Ok((rest, (Some(a), Some(b), None))),
                Err(error) => Err(error),
            },
            Err(error) => Err(error),
        },
        OperandShape::RegisterRegisterRegister => match then_blanks(register(input)) {
            Ok((rest, a)) => match then_blanks(register(rest)) {
                Ok((rest, b)) => match then_whitespace(register(rest)) {
                    Ok((rest, c)) => Ok((rest, (Some(a), Some(b), Some(c)))),
                    Err(error) => Err(error),
                },
                Err(error) => Err(error),
            },
            Err(error) => Err(error),
        },
        OperandShape::RegisterInteger => match then_blanks(register(input)) {
            Ok((rest, a)) => match then_whitespace(integer(rest)) {
                Ok((rest, b)) => Ok((rest, (Some(a), Some(b), None))),
                Err(error) => Err(error),
            },
            Err(error) => Err(error),
        },
    }
}

/// A statement that names an operation: a label, if one is declared;
/// whitespace; the mnemonic; whitespace; and the operands that the
/// operation asks for.
pub open spec fn instruction(input: Seq<char>) -> Parsed<InstructionView> {
    let (after_label, label) = leading_label(input);
    match then_whitespace(operation(after_label)) {
        Ok((after_opcode, opcode)) => match operands(after_opcode, opcode->Op_0.shape()) {
            Ok((rest, (operand1, operand2, operand3))) => Ok(
                (
                    rest,
                    InstructionView {
                        label,
                        action: ActionView::Opcode(opcode),
                        operand1,
                        operand2,
                        operand3,
                    },
                ),
            ),
            Err(error) => Err(error),
        },
        Err(error) => Err(error),
    }
}

/// A directive: a label, if one is declared; whitespace; the directive's
/// name; whitespace; and up to three operands of any kind, each with
/// whitespace behind it.
pub open spec fn directive(input: Seq<char>) -> Parsed<InstructionView> {
    let (after_label, label) = leading_label(input);
    match then_whitespace(directive_name(after_label)) {
        Ok((after_name, name)) => {
            let (after_first, operand1) = then_whitespace(
                maybe(after_name, any_operand(after_name)),
            ).unwrap();
            let (after_second, operand2) = then_whitespace(
                maybe(after_first, any_operand(after_first)),
            ).unwrap();
            let (rest, operand3) = then_whitespace(
                maybe(after_second, any_operand(after_second)),
            ).unwrap();
            Ok(
                (
                    rest,
                    InstructionView {
                        label,
                        action: ActionView::Directive(name),
                        operand1,
                        operand2,
                        operand3,
                    },
                ),
            )
        },
        Err(error) => Err(error),
    }
}

/// A statement: an instruction, else a directive. Where it is neither,
/// the error is that of the directive.
pub open spec fn statement(input: Seq<char>) -> Parsed<InstructionView> {
    if instruction(input) is Ok {
        instruction(input)
    } else {
        directive(input)
    }
}

/// The statements at the start of `input`, as many as there are, and the
/// text behind them. A statement is never empty
/// (`lemma_statement_consumes`); the test for it is what lets the
/// definition end.
pub open spec fn statements(input: Seq<char>) -> (Seq<char>, Seq<InstructionView>)
    decreases input.len(),
{
    match statement(input) {
        Ok((rest, first)) => if rest.len() < input.len() {
            (statements(rest).0, seq![first] + statements(rest).1)
        } else {
            (input, Seq::empty())
        },
        Err(_) => (input, Seq::empty()),
    }
}

/// A program: one or more statements. The error is that of the first
/// statement.
pub open spec fn program(input: Seq<char>) -> Parsed<Seq<InstructionView>> {
    match statement(input) {
        Ok(_) => Ok(statements(input)),
        Err(error) => Err(error),
    }
}

/// A token is one or more characters long: what is left behind it is less
/// than the input.
pub proof fn lemma_token_consumes(input: Seq<char>)
    ensures
        register(input) matches Ok((rest, _)) ==> rest.len() < input.len(),
        integer(input) matches Ok((rest, _)) ==> rest.len() < input.len(),
        string(input) matches Ok((rest, _)) ==> rest.len() < input.len(),
        any_operand(input) matches Ok((rest, _)) ==> rest.len() < input.len(),
        label_declaration(input) matches Ok((rest, _)) ==> rest.len() < input.len(),
        label_usage(input) matches Ok((rest, _)) ==> rest.len() < input.len(),
        directive_name(input) matches Ok((rest, _)) ==> rest.len() < input.len(),
        operation(input) matches Ok((rest, _)) ==> rest.len() < input.len(),
{
    lemma_run(CharClass::Letter, input);
    lemma_run(CharClass::LetterOrDigit, input);
    if input.len() > 0 {
        lemma_run(CharClass::Digit, input.skip(1));
        lemma_run(CharClass::LetterOrDigit, input.skip(1));
        lemma_find(input.skip(1), seq!['\'']);
    }
}

/// Blanks and whitespace behind what was parsed leave no more text than
/// was left before them.
pub proof fn lemma_then_shrinks<V>(parsed: Parsed<V>)
    ensures
        then_blanks(parsed) matches Ok((rest, _)) ==> rest.len() <= parsed.unwrap().0.len(),
        then_whitespace(parsed) matches Ok((rest, _)) ==> rest.len() <= parsed.unwrap().0.len(),
{
    if let Ok((rest, _)) = parsed {
        lemma_run(CharClass::Blank, rest);
        lemma_run(CharClass::Whitespace, rest);
    }
}

/// Operands leave no more text than the input.
pub proof fn lemma_operands_shrink(input: Seq<char>, shape: OperandShape)
    ensures
        operands(input, shape) matches Ok((rest, _)) ==> rest.len() <= input.len(),
{
    lemma_token_consumes(input);
    lemma_then_shrinks(register(input));
    if let Ok((second, _)) = then_blanks(register(input)) {
        lemma_token_consumes(second);
        lemma_then_shrinks(register(second));
        lemma_then_shrinks(integer(second));
        if let Ok((third, _)) = then_blanks(register(second)) {
            lemma_token_consumes(third);
            lemma_then_shrinks(register(third));
        }
    }
}

/// An operand that may be absent, and the whitespace behind it, leave no
/// more text than the input.
proof fn lemma_maybe_shrinks(input: Seq<char>)
    ensures
        then_whitespace(maybe(input, any_operand(input))).unwrap().0.len() <= input.len(),
        then_whitespace(maybe(input, label_declaration(input))).unwrap().0.len() <= input.len(),
{
    lemma_token_consumes(input);
    lemma_then_shrinks(maybe(input, any_operand(input)));
    lemma_then_shrinks(maybe(input, label_declaration(input)));
}

/// A statement is one or more characters long: what is left behind it is
/// less than the input.
pub proof fn lemma_statement_consumes(input: Seq<char>)
    ensures
        instruction(input) matches Ok((rest, _)) ==> rest.len() < input.len(),
        directive(input) matches Ok((rest, _)) ==> rest.len() < input.len(),
        statement(input) matches Ok((rest, _)) ==> rest.len() < input.len(),
{
    lemma_maybe_shrinks(input);
    let (after_label, _) = leading_label(input);
    lemma_token_consumes(after_label);
    lemma_then_shrinks(operation(after_label));
    if let Ok((after_opcode, opcode)) = then_whitespace(operation(after_label)) {
        lemma_operands_shrink(after_opcode, opcode->Op_0.shape());
    }
    lemma_then_shrinks(directive_name(after_label));
    if let Ok((after_name, _)) = then_whitespace(directive_name(after_label)) {
        lemma_maybe_shrinks(after_name);
        let (after_first, _) = then_whitespace(maybe(after_name, any_operand(after_name))).unwrap();
        lemma_maybe_shrinks(after_first);
        let (after_second, _) = then_whitespace(
            maybe(after_first, any_operand(after_first)),
        ).unwrap();
        lemma_maybe_shrinks(after_second);
    }
}

/// No text starts with both an instruction and a directive: behind the
/// label stands a letter or a dot.
pub proof fn lemma_statement_is_one(input: Seq<char>)
    ensures
        !(instruction(input) is Ok && directive(input) is Ok),
{
    let (after_label, _) = leading_label(input);
    lemma_run(CharClass::Letter, after_label);
}

/// Behind a run stands no character of its class.
proof fn lemma_run_ends(class: CharClass, s: Seq<char>)
    ensures
        class.run(s.skip(class.run(s) as int)) == 0,
{
    lemma_run(class, s);
    let rest = s.skip(class.run(s) as int);
    if rest.len() > 0 {
        assert(rest[0] == s[class.run(s) as int]);
    }
}

/// In a statement that was parsed the operands that are there come first,
/// and a statement that names an operation has the operands that the
/// operation asks for.
pub proof fn lemma_statement_well_formed(input: Seq<char>)
    ensures
        instruction(input) matches Ok((_, parsed)) ==> parsed.opcode() matches Some(code)
            && parsed.has_shape(code.shape()) && parsed.well_formed(),
        directive(input) matches Ok((_, parsed)) ==> parsed.well_formed(),
        statement(input) matches Ok((_, parsed)) ==> parsed.well_formed(),
{
    let (after_label, _) = leading_label(input);
    if let Ok((before, _)) = directive_name(after_label) {
        lemma_run_ends(CharClass::Whitespace, before);
        let after_name = before.skip(CharClass::Whitespace.run(before) as int);
        assert(after_name.skip(0) =~= after_name);
        if let Ok((behind, _)) = any_operand(after_name) {
            lemma_run_ends(CharClass::Whitespace, behind);
            let after_first = behind.skip(CharClass::Whitespace.run(behind) as int);
            assert(after_first.skip(0) =~= after_first);
        }
    }
}

/// Every statement of a program that was parsed is well formed.
pub proof fn lemma_program_well_formed(input: Seq<char>)
    ensures
        forall|i: int|
            0 <= i < statements(input).1.len() ==> (
            #[trigger] statements(input).1[i]).well_formed(),
    decreases input.len(),
{
    lemma_statement_well_formed(input);
    if let Ok((rest, first)) = statement(input) {
        if rest.len() < input.len() {
            lemma_program_well_formed(rest);
            assert forall|i: int| 0 <= i < statements(input).1.len() implies (
            #[trigger] statements(input).1[i]).well_formed() by {
                if i > 0 {
                    assert(statements(input).1[i] == statements(rest).1[i - 1]);
                }
            }
        }
    }
}

/// The encoding of a statement that was parsed and names one of the
/// sixteen operations is one byte longer than the width of its operands:
/// 1, 2, 3, 4 and 4 bytes for no operand, a register, two registers, three
/// registers, and a register with an integer.
pub proof fn lemma_encoded_length(input: Seq<char>)
    ensures
        instruction(input) matches Ok((_, parsed)) ==> parsed.opcode() matches Some(code) && (
        code.is_legal() ==> parsed.encodable() && parsed.bytes().len() == 1 + code.shape().width()),
{
}

} // verus!
