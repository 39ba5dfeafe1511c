//! The instruction set: operation codes, their byte values and mnemonics.

use vstd::prelude::*;
use vstd::std_specs::convert::FromSpecImpl;
use vstd::string::StrSliceExecFns;
use vstd::utf8::is_ascii_chars;

verus! {

/// The byte that stands for an operation no mnemonic names.
pub const UNKNOWN_MNEMONIC: u8 = 0xFF;

/// One operation of the machine, or a byte that names none.
#[derive(Debug, Clone, Copy, PartialEq, Eq, Structural)]
pub enum Opcode {
    HLT,
    LOAD,
    ADD,
    MUL,
    SUB,
    DIV,
    JMP,
    JMPF,
    JMPB,
    JEQ,
    EQ,
    NEQ,
    GT,
    LT,
    GTQ,
    LTQ,
    /// Not an operation; carries the byte that was found.
    IGL(u8),
}

/// What follows an operation in a statement and in its encoding.
#[derive(Debug, Clone, Copy, PartialEq, Eq, Structural)]
pub enum OperandShape {
    /// No operand.
    Nothing,
    /// One register.
    Register,
    /// Two registers.
    RegisterRegister,
    /// Three registers.
    RegisterRegisterRegister,
    /// A register, then an integer.
    RegisterInteger,
}

impl OperandShape {
    /// The number of operand bytes that follow the operation's byte: one
    /// for a register, two for an integer.
    pub open spec fn spec_width(self) -> usize {
        match self {
            OperandShape::Nothing => 0,
            OperandShape::Register => 1,
            OperandShape::RegisterRegister => 2,
            OperandShape::RegisterRegisterRegister => 3,
            OperandShape::RegisterInteger => 3,
        }
    }

    /// The number of operand bytes that follow the operation's byte.
    #[verifier::when_used_as_spec(spec_width)]
    pub fn width(self) -> (n: usize)
        ensures
            n == self.spec_width(),
    {
        match self {
            OperandShape::Nothing => 0,
            OperandShape::Register => 1,
            OperandShape::RegisterRegister => 2,
            OperandShape::RegisterRegisterRegister => 3,
            OperandShape::RegisterInteger => 3,
        }
    }
}

impl Opcode {
    /// The operands that this operation takes. A byte that names no
    /// operation takes none.
    pub open spec fn spec_shape(self) -> OperandShape {
        match self {
            Opcode::HLT | Opcode::IGL(_) => OperandShape::Nothing,
            Opcode::JMP | Opcode::JMPF | Opcode::JMPB | Opcode::JEQ => OperandShape::Register,
            Opcode::EQ | Opcode::NEQ | Opcode::GT | Opcode::LT | Opcode::GTQ | Opcode::LTQ =>
                OperandShape::RegisterRegister,
            Opcode::ADD | Opcode::SUB | Opcode::MUL | Opcode::DIV =>
                OperandShape::RegisterRegisterRegister,
            Opcode::LOAD => OperandShape::RegisterInteger,
        }
    }

    /// The operands that this operation takes.
    #[verifier::when_used_as_spec(spec_shape)]
    pub fn shape(self) -> (shape: OperandShape)
        ensures
            shape == self.spec_shape(),
    {
        match self {
            Opcode::HLT | Opcode::IGL(_) => OperandShape::Nothing,
            Opcode::JMP | Opcode::JMPF | Opcode::JMPB | Opcode::JEQ => OperandShape::Register,
            Opcode::EQ | Opcode::NEQ | Opcode::GT | Opcode::LT | Opcode::GTQ | Opcode::LTQ =>
                OperandShape::RegisterRegister,
            Opcode::ADD | Opcode::SUB | Opcode::MUL | Opcode::DIV =>
                OperandShape::RegisterRegisterRegister,
            Opcode::LOAD => OperandShape::RegisterInteger,
        }
    }

    /// Whether this is one of the sixteen operations.
    pub open spec fn is_legal(self) -> bool {
        !(self is IGL)
    }

    /// The operation that a program byte selects.
    pub open spec fn decode(v: u8) -> Opcode {
        match v {
            0 => Opcode::HLT,
            1 => Opcode::LOAD,
            2 => Opcode::ADD,
            3 => Opcode::SUB,
            4 => Opcode::MUL,
            5 => Opcode::DIV,
            6 => Opcode::JMP,
            7 => Opcode::JMPF,
            8 => Opcode::JMPB,
            9 => Opcode::JEQ,
            10 => Opcode::EQ,
            11 => Opcode::NEQ,
            12 => Opcode::GT,
            13 => Opcode::LT,
            14 => Opcode::GTQ,
            15 => Opcode::LTQ,
            _ => Opcode::IGL(v),
        }
    }

    /// The byte of an operation. `IGL` has no byte of its own: it yields
    /// `UNKNOWN_MNEMONIC`, whatever it carries.
    pub open spec fn byte(self) -> u8 {
        match self {
            Opcode::HLT => 0,
            Opcode::LOAD => 1,
            Opcode::ADD => 2,
            Opcode::SUB => 3,
            Opcode::MUL => 4,
            Opcode::DIV => 5,
            Opcode::JMP => 6,
            Opcode::JMPF => 7,
            Opcode::JMPB => 8,
            Opcode::JEQ => 9,
            Opcode::EQ => 10,
            Opcode::NEQ => 11,
            Opcode::GT => 12,
            Opcode::LT => 13,
            Opcode::GTQ => 14,
            Opcode::LTQ => 15,
            Opcode::IGL(_) => UNKNOWN_MNEMONIC,
        }
    }
}

impl From<u8> for Opcode {
    /// The operation that the program byte `v` selects: `Opcode::decode`.
    fn from(v: u8) -> (op: Opcode) {
        match v {
            0 => Opcode::HLT,
            1 => Opcode::LOAD,
            2 => Opcode::ADD,
            3 => Opcode::SUB,
            4 => Opcode::MUL,
            5 => Opcode::DIV,
            6 => Opcode::JMP,
            7 => Opcode::JMPF,
            8 => Opcode::JMPB,
            9 => Opcode::JEQ,
            10 => Opcode::EQ,
            11 => Opcode::NEQ,
            12 => Opcode::GT,
            13 => Opcode::LT,
            14 => Opcode::GTQ,
            15 => Opcode::LTQ,
            _ => Opcode::IGL(v),
        }
    }
}

impl FromSpecImpl<u8> for Opcode {
    open spec fn obeys_from_spec() -> bool {
        true
    }

    open spec fn from_spec(v: u8) -> Opcode {
        Opcode::decode(v)
    }
}

impl From<&Opcode> for u8 {
    /// The byte of the operation `op`: `Opcode::byte`.
    fn from(op: &Opcode) -> (b: u8) {
        match op {
            Opcode::HLT => 0,
            Opcode::LOAD => 1,
            Opcode::ADD => 2,
            Opcode::SUB => 3,
            Opcode::MUL => 4,
            Opcode::DIV => 5,
            Opcode::JMP => 6,
            Opcode::JMPF => 7,
            Opcode::JMPB => 8,
            Opcode::JEQ => 9,
            Opcode::EQ => 10,
            Opcode::NEQ => 11,
            Opcode::GT => 12,
            Opcode::LT => 13,
            Opcode::GTQ => 14,
            Opcode::LTQ => 15,
            Opcode::IGL(_) => UNKNOWN_MNEMONIC,
        }
    }
}

impl FromSpecImpl<&Opcode> for u8 {
    open spec fn obeys_from_spec() -> bool {
        true
    }

    open spec fn from_spec(op: &Opcode) -> u8 {
        op.byte()
    }
}

/// The capital of an ASCII small letter; any other character itself.
pub open spec fn capital(c: char) -> char {
    if 'a' <= c <= 'z' {
        ((c as u8) - 32) as char
    } else {
        c
    }
}

/// The text that `str::to_uppercase` gives for the text `s`.
pub uninterp spec fn uppercase(s: Seq<char>) -> Seq<char>;

/// ASCII text with each small letter replaced by its capital.
pub open spec fn ascii_capitals(s: Seq<char>) -> Seq<char> {
    s.map_values(|c: char| capital(c))
}

/// A mnemonic in capitals: ASCII text letter by letter, any other text as
/// `uppercase` has it.
pub open spec fn capitals(s: Seq<char>) -> Seq<char> {
    if is_ascii_chars(s) {
        ascii_capitals(s)
    } else {
        uppercase(s)
    }
}

/// The operation that `name` is the mnemonic of, letter for letter. A name
/// that is no mnemonic stands for `IGL(UNKNOWN_MNEMONIC)`.
pub open spec fn named(name: Seq<char>) -> Opcode {
    if name == "HLT"@ {
        Opcode::HLT
    } else if name == "LOAD"@ {
        Opcode::LOAD
    } else if name == "ADD"@ {
        Opcode::ADD
    } else if name == "SUB"@ {
        Opcode::SUB
    } else if name == "MUL"@ {
        Opcode::MUL
    } else if name == "DIV"@ {
        Opcode::DIV
    } else if name == "JMP"@ {
        Opcode::JMP
    } else if name == "JMPF"@ {
        Opcode::JMPF
    } else if name == "JMPB"@ {
        Opcode::JMPB
    } else if name == "JEQ"@ {
        Opcode::JEQ
    } else if name == "EQ"@ {
        Opcode::EQ
    } else if name == "NEQ"@ {
        Opcode::NEQ
    } else if name == "GT"@ {
        Opcode::GT
    } else if name == "LT"@ {
        Opcode::LT
    } else if name == "GTQ"@ {
        Opcode::GTQ
    } else if name == "LTQ"@ {
        Opcode::LTQ
    } else {
        Opcode::IGL(UNKNOWN_MNEMONIC)
    }
}

/// `str::to_uppercase`: the upper-case equivalent of `s` as a new string.
/// The contract gives the result its name and claims nothing else of it.
#[verifier::external_body]
fn to_uppercase(s: &str) -> (r: String)
    ensures
        r@ == uppercase(s@),
{
    s.to_uppercase()
}

/// The text of `name`, in capitals where `fold` is set.
spec fn spelling(name: Seq<char>, fold: bool) -> Seq<char> {
    if fold {
        ascii_capitals(name)
    } else {
        name
    }
}

/// The character of `name` at `i`, as a capital where `fold` is set.
fn letter(name: &str, i: usize, fold: bool) -> (c: char)
    requires
        i < name@.len(),
    ensures
        c == spelling(name@, fold)[i as int],
{
    let c = name.get_char(i);
    if fold && 'a' <= c && c <= 'z' {
        ((c as u8) - 32) as char
    } else {
        c
    }
}

/// The mnemonics, letter by letter.
pub proof fn lemma_mnemonics()
    ensures
        "HLT"@ =~= seq!['H', 'L', 'T'],
        "LOAD"@ =~= seq!['L', 'O', 'A', 'D'],
        "ADD"@ =~= seq!['A', 'D', 'D'],
        "SUB"@ =~= seq!['S', 'U', 'B'],
        "MUL"@ =~= seq!['M', 'U', 'L'],
        "DIV"@ =~= seq!['D', 'I', 'V'],
        "JMP"@ =~= seq!['J', 'M', 'P'],
        "JMPF"@ =~= seq!['J', 'M', 'P', 'F'],
        "JMPB"@ =~= seq!['J', 'M', 'P', 'B'],
        "JEQ"@ =~= seq!['J', 'E', 'Q'],
        "EQ"@ =~= seq!['E', 'Q'],
        "NEQ"@ =~= seq!['N', 'E', 'Q'],
        "GT"@ =~= seq!['G', 'T'],
        "LT"@ =~= seq!['L', 'T'],
        "GTQ"@ =~= seq!['G', 'T', 'Q'],
        "LTQ"@ =~= seq!['L', 'T', 'Q'],
{
    reveal_strlit("HLT");
    reveal_strlit("LOAD");
    reveal_strlit("ADD");
    reveal_strlit("SUB");
    reveal_strlit("MUL");
    reveal_strlit("DIV");
    reveal_strlit("JMP");
    reveal_strlit("JMPF");
    reveal_strlit("JMPB");
    reveal_strlit("JEQ");
    reveal_strlit("EQ");
    reveal_strlit("NEQ");
    reveal_strlit("GT");
    reveal_strlit("LT");
    reveal_strlit("GTQ");
    reveal_strlit("LTQ");
}

/// The operation that `name` is the mnemonic of, compared as it stands or,
/// where `fold` is set, in capitals.
fn lookup(name: &str, fold: bool) -> (op: Opcode)
    ensures
        op == named(spelling(name@, fold)),
{
    proof {
        lemma_mnemonics();
    }
    let ghost text = spelling(name@, fold);
    let length = name.unicode_len();
    assert(text.len() == length);
    if length < 2 || length > 4 {
        return Opcode::IGL(UNKNOWN_MNEMONIC);
    }
    let a = letter(name, 0, fold);
    let b = letter(name, 1, fold);
    if length == 2 {
        assert(text =~= seq![a, b]);
        return match (a, b) {
            ('E', 'Q') => Opcode::EQ,
            ('G', 'T') => Opcode::GT,
            ('L', 'T') => Opcode::LT,
            _ => Opcode::IGL(UNKNOWN_MNEMONIC),
        };
    }
    let c = letter(name, 2, fold);
    if length == 3 {
        assert(text =~= seq![a, b, c]);
        return match (a, b, c) {
            ('H', 'L', 'T') => Opcode::HLT,
            ('A', 'D', 'D') => Opcode::ADD,
            ('S', 'U', 'B') => Opcode::SUB,
            ('M', 'U', 'L') => Opcode::MUL,
            ('D', 'I', 'V') => Opcode::DIV,
            ('J', 'M', 'P') => Opcode::JMP,
            ('J', 'E', 'Q') => Opcode::JEQ,
            ('N', 'E', 'Q') => Opcode::NEQ,
            ('G', 'T', 'Q') => Opcode::GTQ,
            ('L', 'T', 'Q') => Opcode::LTQ,
            _ => Opcode::IGL(UNKNOWN_MNEMONIC),
        };
    }
    let d = letter(name, 3, fold);
    assert(text =~= seq![a, b, c, d]);
    match (a, b, c, d) {
        ('L', 'O', 'A', 'D') => Opcode::LOAD,
        ('J', 'M', 'P', 'F') => Opcode::JMPF,
        ('J', 'M', 'P', 'B') => Opcode::JMPB,
        _ => Opcode::IGL(UNKNOWN_MNEMONIC),
    }
}

impl Opcode {
    /// The operation that `name` is the mnemonic of, where `name` is
    /// already in capitals.
    pub fn from_uppercase(name: &str) -> (op: Opcode)
        ensures
            op == named(name@),
    {
        lookup(name, false)
    }
}

impl From<&str> for Opcode {
    /// The operation that `opcode` is the mnemonic of, whatever the case
    /// of its letters.
    fn from(opcode: &str) -> (op: Opcode) {
        if opcode.is_ascii() {
            lookup(opcode, true)
        } else {
            let upper = to_uppercase(opcode);
            Opcode::from_uppercase(upper.as_str())
        }
    }
}

impl FromSpecImpl<&str> for Opcode {
    open spec fn obeys_from_spec() -> bool {
        true
    }

    open spec fn from_spec(opcode: &str) -> Opcode {
        named(capitals(opcode@))
    }
}

/// Decoding the byte of an operation gives the operation back. The byte
/// is at most fifteen, so no operation has the byte that stands for an
/// unknown mnemonic.
pub proof fn lemma_decode_byte(op: Opcode)
    requires
        op.is_legal(),
    ensures
        op.byte() <= 15,
        op.byte() != UNKNOWN_MNEMONIC,
        Opcode::decode(op.byte()) == op,
{
}

/// A byte up to fifteen selects an operation whose byte it is; any other
/// byte selects none and is carried along unchanged.
pub proof fn lemma_byte_decode(v: u8)
    ensures
        v <= 15 ==> Opcode::decode(v).is_legal() && Opcode::decode(v).byte() == v,
        v > 15 ==> Opcode::decode(v) == Opcode::IGL(v),
{
}

} // verus!
