//! Recognisers of runs of characters and of fixed marks.
//!
//! The recognisers are those of the `nom` crate. Their contracts are not
//! proved: each states what the crate's function gives back on a string
//! slice, over the specification functions of this file.

use vstd::prelude::*;

verus! {

/// `nom::Err`: the error of a parser of the `nom` crate. The library
/// carries such a value and never looks into it.
#[verifier::external_type_specification]
#[verifier::external_body]
#[verifier::reject_recursive_types(E)]
pub struct ExErr<E>(nom::Err<E>);

/// `nom::error::ErrorKind`: the code that the `nom` crate gives for the
/// parser that failed.
#[verifier::external_type_specification]
#[verifier::external_body]
pub struct ExErrorKind(nom::error::ErrorKind);

/// What a recogniser of the `nom` crate gives back on a string slice: the
/// text that is left and the text that was recognised, or the crate's
/// error with the text at which it arose.
pub type Recognised<'a> = Result<(&'a str, &'a str), nom::Err<(&'a str, nom::error::ErrorKind)>>;

/// A class of characters.
#[derive(Debug, Clone, Copy, PartialEq, Eq, Structural)]
pub enum CharClass {
    /// `a` to `z` and `A` to `Z`.
    Letter,
    /// `0` to `9`.
    Digit,
    /// A letter or a digit.
    LetterOrDigit,
    /// A space or a tab.
    Blank,
    /// A space, a tab, a carriage return or a line feed.
    Whitespace,
}

impl CharClass {
    /// Whether `c` belongs to the class.
    pub open spec fn has(self, c: char) -> bool {
        match self {
            CharClass::Letter => 'a' <= c <= 'z' || 'A' <= c <= 'Z',
            CharClass::Digit => '0' <= c <= '9',
            CharClass::LetterOrDigit => 'a' <= c <= 'z' || 'A' <= c <= 'Z' || '0' <= c <= '9',
            CharClass::Blank => c == ' ' || c == '\t',
            CharClass::Whitespace => c == ' ' || c == '\t' || c == '\r' || c == '\n',
        }
    }

    /// The length of the longest prefix of `s` whose characters all belong
    /// to the class.
    pub open spec fn run(self, s: Seq<char>) -> nat
        decreases s.len(),
    {
        if s.len() > 0 && self.has(s[0]) {
            1 + self.run(s.skip(1))
        } else {
            0
        }
    }
}

/// The least number of characters behind which `pattern` stands in `s`, if
/// it stands in `s` at all.
pub open spec fn find(s: Seq<char>, pattern: Seq<char>) -> Option<nat>
    decreases s.len(),
{
    if pattern.is_prefix_of(s) {
        Some(0)
    } else if s.len() == 0 {
        None
    } else {
        match find(s.skip(1), pattern) {
            Some(n) => Some(n + 1),
            None => None,
        }
    }
}

/// Whether `rest` and `head` are the two parts of `input`, cut behind `n`
/// characters: `head` in front, `rest` behind.
pub open spec fn cut(input: &str, n: nat, rest: &str, head: &str) -> bool {
    n <= input@.len() && head@ == input@.take(n as int) && rest@ == input@.skip(n as int)
}

/// The characters of a run belong to its class, and the character behind
/// the run, if there is one, does not.
pub proof fn lemma_run(class: CharClass, s: Seq<char>)
    ensures
        class.run(s) <= s.len(),
        forall|i: int| 0 <= i < class.run(s) ==> class.has(#[trigger] s[i]),
        class.run(s) < s.len() ==> !class.has(s[class.run(s) as int]),
    decreases s.len(),
{
    if s.len() > 0 && class.has(s[0]) {
        let tail = s.skip(1);
        lemma_run(class, tail);
        assert forall|i: int| 0 <= i < class.run(s) implies class.has(#[trigger] s[i]) by {
            if i > 0 {
                assert(s[i] == tail[i - 1]);
            }
        }
        if class.run(s) < s.len() {
            assert(s[class.run(s) as int] == tail[class.run(tail) as int]);
        }
    }
}

/// Where `find` gives a place, `pattern` stands there and nowhere before;
/// where it gives none, `pattern` stands nowhere.
pub proof fn lemma_find(s: Seq<char>, pattern: Seq<char>)
    ensures
        match find(s, pattern) {
            Some(n) => n <= s.len() && pattern.is_prefix_of(s.skip(n as int)) && forall|i: int|
                0 <= i < n ==> !pattern.is_prefix_of(#[trigger] s.skip(i)),
            None => forall|i: int|
                0 <= i <= s.len() ==> !pattern.is_prefix_of(#[trigger] s.skip(i)),
        },
    decreases s.len(),
{
    assert(s.skip(0) =~= s);
    if !pattern.is_prefix_of(s) && s.len() > 0 {
        let tail = s.skip(1);
        lemma_find(tail, pattern);
        match find(tail, pattern) {
            Some(n) => {
                assert(s.skip(n as int + 1) == tail.skip(n as int));
                assert forall|i: int| 0 <= i < n + 1 implies !pattern.is_prefix_of(
                    #[trigger] s.skip(i),
                ) by {
                    if i > 0 {
                        assert(s.skip(i) == tail.skip(i - 1));
                    }
                }
            },
            None => {
                assert forall|i: int| 0 <= i <= s.len() implies !pattern.is_prefix_of(
                    #[trigger] s.skip(i),
                ) by {
                    if i > 0 {
                        assert(s.skip(i) == tail.skip(i - 1));
                    }
                }
            },
        }
    }
}

/// `nom::character::complete::alpha1` on a string slice: it cuts the input
/// behind its leading ASCII letters, and fails where the input starts with
/// none.
#[verifier::external_body]
pub(crate) fn alpha1<'a>(input: &'a str) -> (r: Recognised<'a>)
    ensures
        r is Ok <==> CharClass::Letter.run(input@) > 0,
        r matches Ok((rest, head)) ==> cut(input, CharClass::Letter.run(input@), rest, head),
{
    nom::character::complete::alpha1(input)
}

/// `nom::character::complete::digit1` on a string slice: it cuts the input
/// behind its leading ASCII digits, and fails where the input starts with
/// none.
#[verifier::external_body]
pub(crate) fn digit1<'a>(input: &'a str) -> (r: Recognised<'a>)
    ensures
        r is Ok <==> CharClass::Digit.run(input@) > 0,
        r matches Ok((rest, head)) ==> cut(input, CharClass::Digit.run(input@), rest, head),
{
    nom::character::complete::digit1(input)
}

/// `nom::character::complete::alphanumeric1` on a string slice: it cuts the
/// input behind its leading ASCII letters and digits, and fails where the
/// input starts with none.
#[verifier::external_body]
pub(crate) fn alphanumeric1<'a>(input: &'a str) -> (r: Recognised<'a>)
    ensures
        r is Ok <==> CharClass::LetterOrDigit.run(input@) > 0,
        r matches Ok((rest, head)) ==> cut(
            input,
            CharClass::LetterOrDigit.run(input@),
            rest,
            head,
        ),
{
    nom::character::complete::alphanumeric1(input)
}

/// `nom::character::complete::space1` on a string slice: it cuts the input
/// behind its leading spaces and tabs, and fails where the input starts
/// with none.
#[verifier::external_body]
pub(crate) fn space1<'a>(input: &'a str) -> (r: Recognised<'a>)
    ensures
        r is Ok <==> CharClass::Blank.run(input@) > 0,
        r matches Ok((rest, head)) ==> cut(input, CharClass::Blank.run(input@), rest, head),
{
    nom::character::complete::space1(input)
}

/// `nom::character::complete::multispace0` on a string slice: it cuts the
/// input behind its leading spaces, tabs, carriage returns and line feeds,
/// of which there may be none, and never fails.
#[verifier::external_body]
pub(crate) fn multispace0<'a>(input: &'a str) -> (r: Recognised<'a>)
    ensures
        r is Ok,
        r matches Ok((rest, head)) ==> cut(
            input,
            CharClass::Whitespace.run(input@),
            rest,
            head,
        ),
{
    nom::character::complete::multispace0(input)
}

/// `nom::bytes::complete::tag` on string slices: where the input starts
/// with `pattern` it cuts the input behind it, and else it fails.
#[verifier::external_body]
pub(crate) fn tag<'a>(pattern: &str, input: &'a str) -> (r: Recognised<'a>)
    ensures
        r is Ok <==> pattern@.is_prefix_of(input@),
        r matches Ok((rest, head)) ==> cut(input, pattern@.len(), rest, head),
{
    nom::bytes::complete::tag(pattern)(input)
}

/// `nom::bytes::complete::take_until` on string slices: it cuts the input
/// in front of the first place where `pattern` stands, and fails where
/// `pattern` stands nowhere in the input.
#[verifier::external_body]
pub(crate) fn take_until<'a>(pattern: &str, input: &'a str) -> (r: Recognised<'a>)
    ensures
        r is Ok <==> find(input@, pattern@) is Some,
        r matches Ok((rest, head)) ==> cut(input, find(input@, pattern@).unwrap(), rest, head),
{
    nom::bytes::complete::take_until(pattern)(input)
}

/// Steps over the one character of `pattern` where `input` starts with it.
pub(crate) fn mark<'a>(pattern: &str, input: &'a str) -> (r: Option<&'a str>)
    requires
        pattern@.len() == 1,
    ensures
        r is Some <==> input@.len() > 0 && input@[0] == pattern@[0],
        r matches Some(rest) ==> rest@ == input@.skip(1),
{
    match tag(pattern, input) {
        Ok((rest, _)) => Some(rest),
        Err(_) => None,
    }
}

} // verus!
