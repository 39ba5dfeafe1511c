//! The interpreter: a register file, a program counter and the
//! fetch-decode-execute step.
//!
//! What one step does is defined once, on the mathematical state
//! [`VmState`], by [`step`]. The executable [`VM::run_once`] is proved to
//! compute exactly that function, and [`VM::run_for`] to iterate it.

use crate::instructions::{Opcode, OperandShape};
use vstd::prelude::*;

verus! {

/// The number of registers.
pub const REGISTER_COUNT: usize = 32;

/// Fault: the program counter left the program, at the operation's byte or
/// within its operands.
pub const PC_OVERFLOW: u8 = 1;

/// Fault: the byte at the program counter names no operation.
pub const ILLEGAL_OPCODE: u8 = 2;

/// Fault: `DIV` with a divisor of zero.
pub const DIVISION_BY_ZERO: u8 = 3;

/// Fault: a jump by or to a negative value, a backward jump past the start
/// of the program, or a forward jump past the largest program counter.
pub const INVALID_JUMP: u8 = 4;

/// Fault: an operand byte names a register that the machine does not have.
pub const INVALID_REGISTER: u8 = 5;

/// Fault: the step budget of a run was used up before the program halted.
pub const STEP_LIMIT: u8 = 6;

/// The budget of [`VM::run`].
pub const RUN_BUDGET: u64 = 0xFFFF_FFFF_FFFF_FFFF;

/// What a step that did not fault reports.
#[derive(Debug, Clone, Copy, PartialEq, Eq, Structural)]
pub enum Step {
    /// `HLT` was executed.
    Done,
    /// An instruction was executed and the program goes on.
    Continue,
}

/// The machine.
pub struct VM {
    /// The registers.
    pub registers: [i32; 32],
    /// Program counter: the offset in `program` of the next instruction.
    pub pc: usize,
    /// The bytecode of the program being run.
    pub program: Vec<u8>,
    /// Remainder of the last division.
    pub remainder: u32,
    /// Result of the last comparison.
    pub equal_flag: bool,
}

/// The state of a machine as mathematical values.
pub struct VmState {
    pub registers: Seq<i32>,
    pub pc: nat,
    pub program: Seq<u8>,
    pub remainder: u32,
    pub equal_flag: bool,
}

impl View for VM {
    type V = VmState;

    open spec fn view(&self) -> VmState {
        VmState {
            registers: self.registers@,
            pc: self.pc as nat,
            program: self.program@,
            remainder: self.remainder,
            equal_flag: self.equal_flag,
        }
    }
}

/// The 32-bit signed integer that is congruent to `x` modulo 2^32.
pub open spec fn wrap(x: int) -> i32 {
    let low = x % 0x1_0000_0000;
    if low > i32::MAX {
        (low - 0x1_0000_0000) as i32
    } else {
        low as i32
    }
}

/// Wrapping a number that is less than 2^32 away from the 32-bit range
/// moves it by 2^32 at most once.
proof fn lemma_wrap_once(x: int)
    requires
        -0x1_0000_0000 <= x < 0x1_0000_0000,
    ensures
        wrap(x) == if x > i32::MAX {
            x - 0x1_0000_0000
        } else if x < i32::MIN {
            x + 0x1_0000_0000
        } else {
            x
        },
{
}

/// The distance of `a` from zero.
pub open spec fn magnitude(a: int) -> int {
    if a < 0 {
        -a
    } else {
        a
    }
}

/// The quotient of `a` by `b` rounded towards zero, for `b != 0`: the
/// quotient of the magnitudes, negative where the signs differ.
pub open spec fn quotient(a: int, b: int) -> int {
    let q = magnitude(a) / magnitude(b);
    if (a < 0) == (b < 0) {
        q
    } else {
        -q
    }
}

/// What a division rounded towards zero leaves, for `b != 0`: the
/// remainder of the magnitudes, with the sign of `a`.
pub open spec fn rest(a: int, b: int) -> int {
    let r = magnitude(a) % magnitude(b);
    if a < 0 {
        -r
    } else {
        r
    }
}

/// Division by a negative number, in terms of division by its magnitude.
proof fn lemma_negative_divisor(x: int, y: int)
    requires
        y < 0,
    ensures
        x / y == -(x / (-y)),
        x % y == x % (-y),
{
    let q1 = x / y;
    let m1 = x % y;
    let q2 = x / (-y);
    let m2 = x % (-y);
    assert(x == y * q1 + m1 && 0 <= m1 < -y) by (nonlinear_arith)
        requires
            q1 == x / y,
            m1 == x % y,
            y < 0,
    ;
    assert(x == (-y) * q2 + m2 && 0 <= m2 < -y) by (nonlinear_arith)
        requires
            q2 == x / (-y),
            m2 == x % (-y),
            y < 0,
    ;
    assert(q1 + q2 == 0 && m1 == m2) by (nonlinear_arith)
        requires
            x == y * q1 + m1,
            x == (-y) * q2 + m2,
            0 <= m1 < -y,
            0 <= m2 < -y,
            y < 0,
    ;
}

/// `quotient` and `rest` are the division with remainder that rounds
/// towards zero: the divisor times the quotient and the rest make up the
/// dividend, the rest is nearer to zero than the divisor and is zero or
/// has the sign of the dividend, and the quotient is no farther from zero
/// than the dividend.
pub proof fn lemma_quotient_rest(a: int, b: int)
    requires
        b != 0,
    ensures
        a == b * quotient(a, b) + rest(a, b),
        magnitude(rest(a, b)) < magnitude(b),
        rest(a, b) == 0 || (rest(a, b) < 0) == (a < 0),
        magnitude(quotient(a, b)) <= magnitude(a),
{
    let x = magnitude(a);
    let y = magnitude(b);
    assert(0 <= x / y <= x && 0 <= x % y < y && x == y * (x / y) + x % y) by (nonlinear_arith)
        requires
            x >= 0,
            y > 0,
    ;
    assert(a == b * quotient(a, b) + rest(a, b)) by (nonlinear_arith)
        requires
            x == y * (x / y) + x % y,
            x == magnitude(a),
            y == magnitude(b),
            quotient(a, b) == (if (a < 0) == (b < 0) {
                x / y
            } else {
                -(x / y)
            }),
            rest(a, b) == (if a < 0 {
                -(x % y)
            } else {
                x % y
            }),
    ;
}

/// The division and remainder of 32-bit integers in executable code are
/// `quotient` and `rest`. Verus states them through the division of
/// mathematical integers, which rounds otherwise: for a dividend that is
/// not negative as that division itself, and for a negative one as the
/// negated division of its magnitude. The quotient fits in 32 bits but for
/// the least integer divided by minus one.
proof fn lemma_machine_division(l: int, r: int)
    requires
        i32::MIN <= l <= i32::MAX,
        i32::MIN <= r <= i32::MAX,
        r != 0,
    ensures
        l >= 0 ==> l / r == quotient(l, r) && l % r == rest(l, r),
        l < 0 ==> -((-l) / r) == quotient(l, r) && -((-l) % r) == rest(l, r),
        -magnitude(r) < rest(l, r) < magnitude(r),
        l == i32::MIN && r == -1 ==> quotient(l, r) == 0x8000_0000 && rest(l, r) == 0,
        !(l == i32::MIN && r == -1) ==> i32::MIN <= quotient(l, r) <= i32::MAX,
{
    let x = magnitude(l);
    let y = magnitude(r);
    lemma_quotient_rest(l, r);
    if r < 0 {
        lemma_negative_divisor(x, r);
    }
    if quotient(l, r) == 0x8000_0000 {
        assert(r == -1) by (nonlinear_arith)
            requires
                l == r * 0x8000_0000 + rest(l, r),
                -magnitude(r) < rest(l, r) < magnitude(r),
                magnitude(r) == (if r < 0 {
                    -r
                } else {
                    r
                }),
                -0x8000_0000 <= l < 0x8000_0000,
                r != 0,
        ;
    }
    if l == i32::MIN && r == -1 {
        assert(x / y == x && x % y == 0) by (nonlinear_arith)
            requires
                y == 1,
        ;
    }
}

impl VmState {
    /// A machine that has just been made.
    pub open spec fn initial() -> VmState {
        VmState {
            registers: Seq::new(REGISTER_COUNT as nat, |i: int| 0i32),
            pc: 0,
            program: Seq::empty(),
            remainder: 0,
            equal_flag: false,
        }
    }

    /// This state with the operation's byte consumed and nothing else
    /// changed: the state in which every fault after the fetch leaves the
    /// machine.
    pub open spec fn fetched(self) -> VmState {
        VmState { pc: self.pc + 1, ..self }
    }

    /// The operation at the program counter.
    pub open spec fn opcode(self) -> Opcode {
        Opcode::decode(self.program[self.pc as int])
    }

    /// The `k`-th operand byte of the instruction at the program counter.
    pub open spec fn operand(self, k: int) -> u8 {
        self.program[self.pc + 1 + k]
    }

    /// The value of the register that the `k`-th operand byte names.
    pub open spec fn register(self, k: int) -> i32 {
        self.registers[self.operand(k) as int]
    }

    /// The program counter behind the instruction at the program counter.
    pub open spec fn behind(self) -> nat {
        self.pc + 1 + self.opcode().shape().width() as nat
    }

    /// Whether each operand byte that stands for a register names one of
    /// the machine's registers.
    pub open spec fn registers_exist(self) -> bool {
        match self.opcode().shape() {
            OperandShape::Nothing => true,
            OperandShape::Register | OperandShape::RegisterInteger => self.operand(0)
                < REGISTER_COUNT,
            OperandShape::RegisterRegister => self.operand(0) < REGISTER_COUNT && self.operand(1)
                < REGISTER_COUNT,
            OperandShape::RegisterRegisterRegister => self.operand(0) < REGISTER_COUNT
                && self.operand(1) < REGISTER_COUNT && self.operand(2) < REGISTER_COUNT,
        }
    }

    /// The value that an arithmetic instruction at the program counter
    /// stores: the exact result, wrapped into 32 bits.
    pub open spec fn computed(self) -> i32 {
        let a = self.register(0) as int;
        let b = self.register(1) as int;
        match self.opcode() {
            Opcode::ADD => wrap(a + b),
            Opcode::SUB => wrap(a - b),
            Opcode::MUL => wrap(a * b),
            _ => wrap(quotient(a, b)),
        }
    }

    /// The flag that a comparison at the program counter sets.
    pub open spec fn compared(self) -> bool {
        let a = self.register(0);
        let b = self.register(1);
        match self.opcode() {
            Opcode::EQ => a == b,
            Opcode::NEQ => a != b,
            Opcode::GT => a > b,
            Opcode::LT => a < b,
            Opcode::GTQ => a >= b,
            _ => a <= b,
        }
    }

    /// Where a jump at the program counter leads, or `None` where it
    /// faults. `JEQ` with the flag down leads behind itself, whatever its
    /// register holds.
    pub open spec fn target(self) -> Option<nat> {
        let v = self.register(0) as int;
        match self.opcode() {
            Opcode::JMP => if v >= 0 {
                Some(v as nat)
            } else {
                None
            },
            Opcode::JMPF => if 0 <= v && self.behind() + v <= usize::MAX {
                Some((self.behind() + v) as nat)
            } else {
                None
            },
            Opcode::JMPB => if 0 <= v <= self.behind() {
                Some((self.behind() - v) as nat)
            } else {
                None
            },
            _ => if !self.equal_flag {
                Some(self.behind())
            } else if v >= 0 {
                Some(v as nat)
            } else {
                None
            },
        }
    }
}

/// One step of the machine: the state it leaves and what it reports.
///
/// With the program counter outside the program nothing changes and the
/// step faults with `PC_OVERFLOW`. Otherwise the operation's byte is
/// consumed. A fault after that leaves the state of `fetched`: registers,
/// remainder and flag are as before. The faults are tested in this order:
/// no operation, operands cut off by the end of the program, a register
/// that does not exist, then what the operation itself refuses.
pub open spec fn step(s: VmState) -> (VmState, Result<Step, u8>) {
    if s.pc >= s.program.len() {
        (s, Err(PC_OVERFLOW))
    } else if s.opcode() is IGL {
        (s.fetched(), Err(ILLEGAL_OPCODE))
    } else if s.opcode() == Opcode::HLT {
        (s.fetched(), Ok(Step::Done))
    } else if s.behind() > s.program.len() {
        (s.fetched(), Err(PC_OVERFLOW))
    } else if !s.registers_exist() {
        (s.fetched(), Err(INVALID_REGISTER))
    } else {
        match s.opcode() {
            Opcode::LOAD => (
                VmState {
                    registers: s.registers.update(
                        s.operand(0) as int,
                        (s.operand(1) * 256 + s.operand(2)) as i32,
                    ),
                    pc: s.behind(),
                    ..s
                },
                Ok(Step::Continue),
            ),
            Opcode::ADD | Opcode::SUB | Opcode::MUL => (
                VmState {
                    registers: s.registers.update(s.operand(2) as int, s.computed()),
                    pc: s.behind(),
                    ..s
                },
                Ok(Step::Continue),
            ),
            Opcode::DIV => if s.register(1) == 0 {
                (s.fetched(), Err(DIVISION_BY_ZERO))
            } else {
                (
                    VmState {
                        registers: s.registers.update(s.operand(2) as int, s.computed()),
                        pc: s.behind(),
                        remainder: (rest(s.register(0) as int, s.register(1) as int)
                            % 0x1_0000_0000) as u32,
                        ..s
                    },
                    Ok(Step::Continue),
                )
            },
            Opcode::JMP | Opcode::JMPF | Opcode::JMPB | Opcode::JEQ => match s.target() {
                Some(pc) => (VmState { pc, ..s }, Ok(Step::Continue)),
                None => (s.fetched(), Err(INVALID_JUMP)),
            },
            _ => (VmState { pc: s.behind(), equal_flag: s.compared(), ..s }, Ok(Step::Continue)),
        }
    }
}

/// A run of at most `budget` steps: it ends with the first step that halts
/// or faults, and faults itself with `STEP_LIMIT` when `budget` steps have
/// all gone on.
pub open spec fn run_steps(s: VmState, budget: nat) -> (VmState, Result<(), u8>)
    decreases budget,
{
    if budget == 0 {
        (s, Err(STEP_LIMIT))
    } else {
        match step(s) {
            (after, Ok(Step::Continue)) => run_steps(after, (budget - 1) as nat),
            (after, Ok(Step::Done)) => (after, Ok(())),
            (after, Err(code)) => (after, Err(code)),
        }
    }
}

/// A step leaves the program as it is. A step that faults leaves registers,
/// remainder and flag as they are too, and moves the program counter over
/// the operation's byte where there is one; its code is one of the five
/// that a step can fault with.
pub proof fn lemma_fault_is_atomic(s: VmState)
    ensures
        step(s).0.program == s.program,
        step(s).1 matches Err(code) ==> PC_OVERFLOW <= code <= INVALID_REGISTER && step(s).0 == (
        if s.pc < s.program.len() {
            s.fetched()
        } else {
            s
        }),
{
}

/// What a step that goes on changes: `LOAD` and the arithmetic operations
/// one register, `DIV` the remainder too, a comparison the flag alone, a
/// jump nothing but the program counter.
pub proof fn lemma_step_frame(s: VmState)
    requires
        step(s).1 is Ok,
    ensures
        s.opcode().shape() == OperandShape::RegisterRegister ==> step(s).0 == (VmState {
            pc: s.behind(),
            equal_flag: step(s).0.equal_flag,
            ..s
        }),
        s.opcode().shape() == OperandShape::Register || s.opcode().shape()
            == OperandShape::Nothing ==> step(s).0 == (VmState { pc: step(s).0.pc, ..s }),
        s.opcode().shape() == OperandShape::RegisterRegisterRegister || s.opcode().shape()
            == OperandShape::RegisterInteger ==> step(s).0.equal_flag == s.equal_flag && step(
            s,
        ).0.pc == s.behind() && exists|k: int, v: i32|
            0 <= k < REGISTER_COUNT && step(s).0.registers == s.registers.update(k, v),
        s.opcode() != Opcode::DIV ==> step(s).0.remainder == s.remainder,
{
    match s.opcode().shape() {
        OperandShape::RegisterRegisterRegister => {
            assert(step(s).0.registers == s.registers.update(s.operand(2) as int, s.computed()));
        },
        OperandShape::RegisterInteger => {
            assert(step(s).0.registers == s.registers.update(
                s.operand(0) as int,
                (s.operand(1) * 256 + s.operand(2)) as i32,
            ));
        },
        _ => {},
    }
}

/// A run that ends within its budget ends in the same way with any larger
/// budget: the budget decides nothing but when a run is given up.
pub proof fn lemma_budget_suffices(s: VmState, budget: nat, larger: nat)
    requires
        budget <= larger,
        run_steps(s, budget).1 != Err::<(), u8>(STEP_LIMIT),
    ensures
        run_steps(s, larger) == run_steps(s, budget),
    decreases budget,
{
    lemma_fault_is_atomic(s);
    if budget > 0 {
        if let (after, Ok(Step::Continue)) = step(s) {
            lemma_budget_suffices(after, (budget - 1) as nat, (larger - 1) as nat);
        }
    }
}

impl VM {
    /// A machine with every register at zero, no program, the program
    /// counter at zero and the flag down.
    pub fn new() -> (vm: VM)
        ensures
            vm@ == VmState::initial(),
    {
        let vm = VM {
            registers: [0; 32],
            pc: 0,
            program: Vec::new(),
            remainder: 0,
            equal_flag: false,
        };
        assert(vm@.registers =~= VmState::initial().registers);
        vm
    }

    /// Appends one byte to the program. Nothing else changes.
    pub fn add_byte(&mut self, byte: u8)
        ensures
            final(self)@ == (VmState { program: old(self)@.program.push(byte), ..old(self)@ }),
    {
        self.program.push(byte)
    }

    /// Runs the program from the current state until it halts or faults.
    ///
    /// A program that has gone on for `RUN_BUDGET` steps is given up with
    /// `STEP_LIMIT`.
    pub fn run(&mut self) -> (r: Result<(), u8>)
        ensures
            (final(self)@, r) == run_steps(old(self)@, RUN_BUDGET as nat),
    {
        self.run_for(RUN_BUDGET)
    }

    /// Runs the program from the current state until it halts or faults,
    /// for at most `budget` steps.
    pub fn run_for(&mut self, budget: u64) -> (r: Result<(), u8>)
        ensures
            (final(self)@, r) == run_steps(old(self)@, budget as nat),
    {
        let mut left = budget;
        while left > 0
            invariant
                run_steps(old(self)@, budget as nat) == run_steps(self@, left as nat),
            decreases left,
        {
            match self.run_once() {
                Err(err) => return Err(err),
                Ok(Step::Done) => return Ok(()),
                Ok(Step::Continue) => (),
            }
            left = left - 1;
        }
        Err(STEP_LIMIT)
    }

    /// Executes the instruction at the program counter.
    pub fn run_once(&mut self) -> (r: Result<Step, u8>)
        ensures
            (final(self)@, r) == step(old(self)@),
    {
        if self.pc >= self.program.len() {
            return Err(PC_OVERFLOW);
        }
        let opcode = self.decode_opcode();
        let at = self.pc;
        if self.program.len() - at < opcode.shape().width() {
            return Err(PC_OVERFLOW);
        }
        match opcode {
            Opcode::HLT => Ok(Step::Done),
            Opcode::IGL(_) => Err(ILLEGAL_OPCODE),
            Opcode::LOAD => {
                let register = self.next_8_bits() as usize;
                let number = self.next_16_bits();
                if register >= REGISTER_COUNT {
                    self.pc = at;
                    return Err(INVALID_REGISTER);
                }
                self.registers[register] = number as i32;
                Ok(Step::Continue)
            },
            Opcode::ADD | Opcode::SUB | Opcode::MUL | Opcode::DIV => {
                let pair = self.read_registers_pair();
                let register = self.next_8_bits() as usize;
                match pair {
                    Some((reg_l, reg_r)) if register < REGISTER_COUNT => {
                        if matches!(opcode, Opcode::DIV) {
                            if reg_r == 0 {
                                self.pc = at;
                                return Err(DIVISION_BY_ZERO);
                            }
                            self.remainder = Self::remainder_of(reg_l, reg_r);
                        }
                        self.registers[register] = Self::compute(opcode, reg_l, reg_r);
                        Ok(Step::Continue)
                    },
                    _ => {
                        self.pc = at;
                        Err(INVALID_REGISTER)
                    },
                }
            },
            Opcode::JMP | Opcode::JMPF | Opcode::JMPB | Opcode::JEQ => {
                match self.read_register() {
                    Some(value) => {
                        match Self::jump(opcode, self.pc, value, self.equal_flag) {
                            Some(pc) => {
                                self.pc = pc;
                                Ok(Step::Continue)
                            },
                            None => {
                                self.pc = at;
                                Err(INVALID_JUMP)
                            },
                        }
                    },
                    None => {
                        self.pc = at;
                        Err(INVALID_REGISTER)
                    },
                }
            },
            Opcode::EQ | Opcode::NEQ | Opcode::GT | Opcode::LT | Opcode::GTQ | Opcode::LTQ => {
                match self.read_registers_pair() {
                    Some((reg_l, reg_r)) => {
                        self.equal_flag = Self::compare(opcode, reg_l, reg_r);
                        Ok(Step::Continue)
                    },
                    None => {
                        self.pc = at;
                        Err(INVALID_REGISTER)
                    },
                }
            },
        }
    }

    /// What `ADD`, `SUB`, `MUL` and `DIV` store for the operands `l` and `r`.
    fn compute(opcode: Opcode, l: i32, r: i32) -> (v: i32)
        requires
            opcode == Opcode::ADD || opcode == Opcode::SUB || opcode == Opcode::MUL || opcode
                == Opcode::DIV,
            opcode == Opcode::DIV ==> r != 0,
        ensures
            v == match opcode {
                Opcode::ADD => wrap(l + r),
                Opcode::SUB => wrap(l - r),
                Opcode::MUL => wrap(l * r),
                _ => wrap(quotient(l as int, r as int)),
            },
    {
        match opcode {
            Opcode::ADD => {
                proof {
                    lemma_wrap_once(l + r);
                }
                l.wrapping_add(r)
            },
            Opcode::SUB => {
                proof {
                    lemma_wrap_once(l - r);
                }
                l.wrapping_sub(r)
            },
            Opcode::MUL => l.wrapping_mul(r),
            _ => {
                proof {
                    lemma_machine_division(l as int, r as int);
                    lemma_wrap_once(quotient(l as int, r as int));
                }
                if l == i32::MIN && r == -1 {
                    i32::MIN
                } else {
                    l / r
                }
            },
        }
    }

    /// The remainder that `DIV` keeps for the operands `l` and `r`: what
    /// the division leaves, as an unsigned number of 32 bits.
    fn remainder_of(l: i32, r: i32) -> (v: u32)
        requires
            r != 0,
        ensures
            v == rest(l as int, r as int) % 0x1_0000_0000,
    {
        proof {
            lemma_machine_division(l as int, r as int);
        }
        if l == i32::MIN && r == -1 {
            0
        } else {
            let m = l % r;
            assert(m as u32 == (m as int) % 0x1_0000_0000) by (bit_vector);
            m as u32
        }
    }

    /// The flag that a comparison sets for the operands `l` and `r`.
    fn compare(opcode: Opcode, l: i32, r: i32) -> (flag: bool)
        ensures
            flag == match opcode {
                Opcode::EQ => l == r,
                Opcode::NEQ => l != r,
                Opcode::GT => l > r,
                Opcode::LT => l < r,
                Opcode::GTQ => l >= r,
                _ => l <= r,
            },
    {
        match opcode {
            Opcode::EQ => l == r,
            Opcode::NEQ => l != r,
            Opcode::GT => l > r,
            Opcode::LT => l < r,
            Opcode::GTQ => l >= r,
            _ => l <= r,
        }
    }

    /// Where a jump leads from behind its operand, `pc`, with `value` in
    /// its register, or `None` where it faults.
    fn jump(opcode: Opcode, pc: usize, value: i32, equal_flag: bool) -> (to: Option<usize>)
        ensures
            to matches Some(t) ==> match opcode {
                Opcode::JMP => 0 <= value == t,
                Opcode::JMPF => 0 <= value && t == pc + value,
                Opcode::JMPB => 0 <= value && t == pc - value,
                _ => if equal_flag {
                    0 <= value == t
                } else {
                    t == pc
                },
            },
            to is None ==> match opcode {
                Opcode::JMP => value < 0,
                Opcode::JMPF => value < 0 || pc + value > usize::MAX,
                Opcode::JMPB => value < 0 || value > pc,
                _ => equal_flag && value < 0,
            },
    {
        if matches!(opcode, Opcode::JMP | Opcode::JMPF | Opcode::JMPB) || equal_flag {
            if value < 0 {
                return None;
            }
            let offset = value as usize;
            match opcode {
                Opcode::JMPF => pc.checked_add(offset),
                Opcode::JMPB => pc.checked_sub(offset),
                _ => Some(offset),
            }
        } else {
            Some(pc)
        }
    }

    /// Reads the operation at the program counter and steps over it.
    fn decode_opcode(&mut self) -> (opcode: Opcode)
        requires
            old(self).pc < old(self).program.len(),
        ensures
            opcode == old(self)@.opcode(),
            final(self)@ == old(self)@.fetched(),
    {
        let opcode = Opcode::from(self.program[self.pc]);
        self.pc += 1;
        opcode
    }

    /// Reads the byte at the program counter and steps over it.
    fn next_8_bits(&mut self) -> (result: u8)
        requires
            old(self).pc < old(self).program.len(),
        ensures
            result == old(self).program[old(self).pc as int],
            final(self)@ == (VmState { pc: old(self)@.pc + 1, ..old(self)@ }),
    {
        let result = self.program[self.pc];
        self.pc += 1;
        result
    }

    /// Reads the two bytes at the program counter as one number, high byte
    /// first, and steps over them.
    fn next_16_bits(&mut self) -> (result: u16)
        requires
            old(self).pc + 1 < old(self).program.len(),
        ensures
            result == old(self).program[old(self).pc as int] * 256 + old(self).program[old(
                self,
            ).pc + 1],
            final(self)@ == (VmState { pc: old(self)@.pc + 2, ..old(self)@ }),
    {
        let high = self.program[self.pc];
        let low = self.program[self.pc + 1];
        let result = ((high as u16) << 8) | low as u16;
        assert(((high as u16) << 8) | low as u16 == high * 256 + low) by (bit_vector);
        self.pc += 2;
        result
    }

    /// Reads two registers, each named by the next byte of the program.
    fn read_registers_pair(&mut self) -> (pair: Option<(i32, i32)>)
        requires
            old(self).pc + 1 < old(self).program.len(),
        ensures
            final(self)@ == (VmState { pc: old(self)@.pc + 2, ..old(self)@ }),
            pair == if old(self).program[old(self).pc as int] < REGISTER_COUNT && old(
                self,
            ).program[old(self).pc + 1] < REGISTER_COUNT {
                Some(
                    (
                        old(self).registers[old(self).program[old(self).pc as int] as int],
                        old(self).registers[old(self).program[old(self).pc + 1] as int],
                    ),
                )
            } else {
                None
            },
    {
        let left = self.read_register();
        let right = self.read_register();
        match (left, right) {
            (Some(l), Some(r)) => Some((l, r)),
            _ => None,
        }
    }

    /// Reads the register that the next byte of the program names, or
    /// `None` where the machine has no such register.
    fn read_register(&mut self) -> (value: Option<i32>)
        requires
            old(self).pc < old(self).program.len(),
        ensures
            final(self)@ == (VmState { pc: old(self)@.pc + 1, ..old(self)@ }),
            value == if old(self).program[old(self).pc as int] < REGISTER_COUNT {
                Some(old(self).registers[old(self).program[old(self).pc as int] as int])
            } else {
                None
            },
    {
        let register = self.next_8_bits() as usize;
        if register < REGISTER_COUNT {
            Some(self.registers[register])
        } else {
            None
        }
    }
}

impl Default for VM {
    fn default() -> (vm: VM)
        ensures
            vm@ == VmState::initial(),
    {
        VM::new()
    }
}

} // verus!
