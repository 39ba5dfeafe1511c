//! The decisions of an interactive shell around the machine.
//!
//! The shell reads lines and prints; this file holds neither. It says what
//! one line does to the shell's state and what is to be shown for it:
//! [`REPL::enter`] takes a line as it was read, [`REPL::eval`] a line
//! without the whitespace around it.

use crate::assembler::grammar;
use crate::assembler::program_parsers::{encodable, encoding, program_parser};
use crate::assembler::ParseError;
use crate::vm::{step, Step, VmState, VM};
use vstd::prelude::*;
use vstd::string::StrSliceExecFns;

verus! {

/// The state of a shell: a machine and the lines entered so far.
pub struct REPL {
    pub vm: VM,
    pub commands_buffer: Vec<String>,
}

/// What a shell is to do for a line.
#[derive(Debug, Clone, Copy, PartialEq, Eq, Structural)]
pub enum Reply {
    /// `.quit`: leave.
    Quit,
    /// `.history`: show the lines entered so far.
    History,
    /// `.program`: show the bytes of the loaded program.
    Program,
    /// `.registers`: show the registers.
    Registers,
    /// The line was assembled and appended to the program, and the machine
    /// made one step.
    Stepped(Step),
    /// The line was assembled and appended to the program, and the step of
    /// the machine faulted with this code.
    Fault(u8),
    /// The line is a program that has no encoding. Nothing was loaded.
    NotEncodable,
    /// The line is no program. Nothing was loaded.
    Unparsable(ParseError),
}

/// The state of a shell as mathematical values.
pub struct ReplState {
    pub vm: VmState,
    pub history: Seq<Seq<char>>,
}

impl View for REPL {
    type V = ReplState;

    open spec fn view(&self) -> ReplState {
        ReplState { vm: self.vm@, history: self.commands_buffer@.map_values(|line: String| line@) }
    }
}

/// What a line that is no command does to the machine, and the reply to
/// it. A line that is a program with an encoding is appended to the
/// machine's program, and the machine makes one step.
pub open spec fn assemble(vm: VmState, line: Seq<char>) -> (VmState, Reply) {
    match grammar::program(line) {
        Ok((_, statements)) => if encodable(statements) {
            let loaded = VmState { program: vm.program + encoding(statements), ..vm };
            let (after, outcome) = step(loaded);
            match outcome {
                Ok(done) => (after, Reply::Stepped(done)),
                Err(code) => (after, Reply::Fault(code)),
            }
        } else {
            (vm, Reply::NotEncodable)
        },
        Err(error) => (vm, Reply::Unparsable(error)),
    }
}

/// What a line does to the machine, and the reply to it. The four
/// commands leave the machine as it is.
pub open spec fn evaluate(vm: VmState, line: Seq<char>) -> (VmState, Reply) {
    if line == ".quit"@ {
        (vm, Reply::Quit)
    } else if line == ".history"@ {
        (vm, Reply::History)
    } else if line == ".program"@ {
        (vm, Reply::Program)
    } else if line == ".registers"@ {
        (vm, Reply::Registers)
    } else {
        assemble(vm, line)
    }
}

/// The text that `str::trim` gives for the text `s`.
pub uninterp spec fn trimmed(s: Seq<char>) -> Seq<char>;

/// `str::trim`: `s` without the whitespace at its start and at its end.
/// The contract gives the result its name and claims nothing else of it.
#[verifier::external_body]
fn trim<'a>(s: &'a str) -> (r: &'a str)
    ensures
        r@ == trimmed(s@),
{
    s.trim()
}

/// Whether two texts are the same, character by character.
fn same(a: &str, b: &str) -> (yes: bool)
    ensures
        yes == (a@ == b@),
{
    let length = a.unicode_len();
    if length != b.unicode_len() {
        return false;
    }
    let mut i: usize = 0;
    while i < length
        invariant
            length == a@.len(),
            length == b@.len(),
            0 <= i <= length,
            a@.take(i as int) == b@.take(i as int),
        decreases length - i,
    {
        if a.get_char(i) != b.get_char(i) {
            return false;
        }
        assert(a@.take(i + 1) =~= a@.take(i as int).push(a@[i as int]));
        assert(b@.take(i + 1) =~= b@.take(i as int).push(b@[i as int]));
        i = i + 1;
    }
    assert(a@.take(length as int) =~= a@);
    assert(b@.take(length as int) =~= b@);
    true
}

impl REPL {
    /// A shell with a new machine and no line entered.
    pub fn new() -> (repl: REPL)
        ensures
            repl@ == (ReplState { vm: VmState::initial(), history: Seq::empty() }),
    {
        let repl = REPL { vm: VM::new(), commands_buffer: Vec::new() };
        assert(repl@.history =~= Seq::empty());
        repl
    }

    /// Takes one line as it was read: what `eval` does with the line
    /// without the whitespace around it.
    pub fn enter(&mut self, line: &str) -> (reply: Reply)
        ensures
            final(self)@.history == old(self)@.history.push(trimmed(line@)),
            (final(self)@.vm, reply) == evaluate(old(self)@.vm, trimmed(line@)),
    {
        self.eval(trim(line))
    }

    /// Takes one line, without the whitespace around it: records it, and
    /// carries it out as far as the machine is concerned.
    pub fn eval(&mut self, line: &str) -> (reply: Reply)
        ensures
            final(self)@.history == old(self)@.history.push(line@),
            (final(self)@.vm, reply) == evaluate(old(self)@.vm, line@),
    {
        self.commands_buffer.push(line.to_owned());
        assert(self@.history =~= old(self)@.history.push(line@));
        if same(line, ".quit") {
            Reply::Quit
        } else if same(line, ".history") {
            Reply::History
        } else if same(line, ".program") {
            Reply::Program
        } else if same(line, ".registers") {
            Reply::Registers
        } else {
            self.assemble(line)
        }
    }

    /// Assembles a line, appends its bytes to the program of the machine,
    /// and lets the machine make one step.
    fn assemble(&mut self, line: &str) -> (reply: Reply)
        ensures
            final(self)@.history == old(self)@.history,
            (final(self)@.vm, reply) == assemble(old(self)@.vm, line@),
    {
        match program_parser(line) {
            Ok((_, result)) => {
                if !result.encodable() {
                    return Reply::NotEncodable;
                }
                let bytecode = result.to_bytes();
                let mut i: usize = 0;
                while i < bytecode.len()
                    invariant
                        0 <= i <= bytecode.len(),
                        self@.history == old(self)@.history,
                        self@.vm == (VmState {
                            program: old(self)@.vm.program + bytecode@.take(i as int),
                            ..old(self)@.vm
                        }),
                    decreases bytecode.len() - i,
                {
                    self.vm.add_byte(bytecode[i]);
                    assert(old(self)@.vm.program + bytecode@.take(i + 1) =~= (old(self)@.vm.program
                        + bytecode@.take(i as int)).push(bytecode[i as int]));
                    i = i + 1;
                }
                assert(bytecode@.take(i as int) =~= bytecode@);
                match self.vm.run_once() {
                    Ok(done) => Reply::Stepped(done),
                    Err(code) => Reply::Fault(code),
                }
            },
            Err(error) => Reply::Unparsable(error),
        }
    }
}

} // verus!
