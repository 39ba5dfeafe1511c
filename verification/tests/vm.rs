use regvm::vm::{
    Step, DIVISION_BY_ZERO, ILLEGAL_OPCODE, INVALID_JUMP, INVALID_REGISTER, PC_OVERFLOW,
    STEP_LIMIT, VM,
};

#[test]
fn test_create_vm() {
    let test_vm = VM::new();
    assert_eq!(test_vm.registers[0], 0)
}

#[test]
fn test_opcode_hlt() {
    let mut test_vm = VM::new();
    let test_bytes = vec![0, 0, 0, 0];
    test_vm.program = test_bytes;
    assert_eq!(test_vm.run(), Ok(()));
    assert_eq!(test_vm.pc, 1);
}

#[test]
fn test_opcode_igl() {
    let mut test_vm = VM::new();
    let test_bytes = vec![200, 0, 0, 0];
    test_vm.program = test_bytes;
    assert_eq!(test_vm.run(), Err(2));
    assert_eq!(test_vm.pc, 1);
}

#[test]
fn test_load_opcode() {
    let mut test_vm = VM::new();
    test_vm.program = vec![1, 0, 1, 244, 0];
    assert_eq!(test_vm.run(), Ok(()));
    assert_eq!(test_vm.registers[0], 500);
}

#[test]
fn test_load_add() {
    let mut test_vm = VM::new();
    test_vm.program = vec![1, 0, 1, 244, 1, 1, 1, 245, 2, 0, 1, 4, 0];
    assert_eq!(test_vm.run(), Ok(()));
    assert_eq!(test_vm.registers[4], 1001);
}

#[test]
fn test_load_sub() {
    let mut test_vm = VM::new();
    test_vm.program = vec![1, 0, 1, 244, 1, 1, 1, 245, 3, 1, 0, 4, 0];
    assert_eq!(test_vm.run(), Ok(()));
    assert_eq!(test_vm.registers[4], 1);
}

#[test]
fn test_load_mul() {
    let mut test_vm = VM::new();
    test_vm.program = vec![1, 0, 1, 244, 1, 1, 1, 245, 4, 1, 0, 5, 0];
    assert_eq!(test_vm.run(), Ok(()));
    assert_eq!(test_vm.registers[5], 250_500);
}

#[test]
fn test_load_div() {
    let mut test_vm = VM::new();
    test_vm.program = vec![1, 0, 1, 246, 1, 1, 1, 244, 5, 0, 1, 5, 0];
    assert_eq!(test_vm.run(), Ok(()));
    assert_eq!(test_vm.registers[5], 1);
    assert_eq!(test_vm.remainder, 2);
}

#[test]
fn test_jmp_opcode() {
    let mut test_vm = VM::new();
    test_vm.registers[0] = 1;
    test_vm.program = vec![6, 0, 0, 0];
    assert!(matches!(test_vm.run_once(), Ok(Step::Continue)));
    assert_eq!(test_vm.pc, 1);
}

#[test]
fn test_jmpf_opcode() {
    let mut test_vm = VM::new();
    test_vm.registers[0] = 2;
    test_vm.program = vec![7, 0, 0, 0, 6, 0, 0, 0];
    assert!(matches!(test_vm.run_once(), Ok(Step::Continue)));
    assert_eq!(test_vm.pc, 4);
}

#[test]
fn test_jmpb_opcode() {
    let mut test_vm = VM::new();
    test_vm.registers[0] = 2;
    let jmp = 4;
    test_vm.program = vec![1, 0, 0, jmp, 8, 0, 0, 0];
    assert!(matches!(test_vm.run_once(), Ok(Step::Continue)));
    let before_jmp = test_vm.pc;
    assert!(matches!(test_vm.run_once(), Ok(Step::Continue)));
    // +2 comes from JMPB size
    assert_eq!(test_vm.pc, before_jmp - jmp as usize + 2);
}

#[test]
fn test_eq_opcode() {
    let mut test_vm = VM::new();
    test_vm.registers[5] = 7;
    test_vm.registers[6] = 7;
    test_vm.registers[7] = 0;
    test_vm.program = vec![0xA, 5, 6, 0xA, 5, 7];
    assert!(matches!(test_vm.run_once(), Ok(Step::Continue)));
    assert_eq!(test_vm.pc, 3);
    assert!(test_vm.equal_flag);
    assert!(matches!(test_vm.run_once(), Ok(Step::Continue)));
    assert_eq!(test_vm.pc, 6);
    assert!(!test_vm.equal_flag);
}

#[test]
fn test_neq_opcode() {
    let mut test_vm = VM::new();
    test_vm.registers[5] = 7;
    test_vm.registers[6] = 7;
    test_vm.registers[7] = 0;
    test_vm.program = vec![0xB, 5, 7, 0xB, 5, 6];
    assert!(matches!(test_vm.run_once(), Ok(Step::Continue)));
    assert_eq!(test_vm.pc, 3);
    assert!(test_vm.equal_flag);
    assert!(matches!(test_vm.run_once(), Ok(Step::Continue)));
    assert_eq!(test_vm.pc, 6);
    assert!(!test_vm.equal_flag);
}

#[test]
fn test_gt_opcode() {
    let mut test_vm = VM::new();
    test_vm.registers[5] = 7;
    test_vm.registers[6] = 7;
    test_vm.registers[7] = 0;
    test_vm.program = vec![0xC, 5, 7, 0xC, 5, 6];
    assert!(matches!(test_vm.run_once(), Ok(Step::Continue)));
    assert_eq!(test_vm.pc, 3);
    assert!(test_vm.equal_flag);
    assert!(matches!(test_vm.run_once(), Ok(Step::Continue)));
    assert_eq!(test_vm.pc, 6);
    assert!(!test_vm.equal_flag);
}

#[test]
fn test_lt_opcode() {
    let mut test_vm = VM::new();
    test_vm.registers[5] = 7;
    test_vm.registers[6] = 7;
    test_vm.registers[7] = 0;
    test_vm.program = vec![0xD, 7, 5, 0xD, 6, 5];
    assert!(matches!(test_vm.run_once(), Ok(Step::Continue)));
    assert_eq!(test_vm.pc, 3);
    assert!(test_vm.equal_flag);
    assert!(matches!(test_vm.run_once(), Ok(Step::Continue)));
    assert_eq!(test_vm.pc, 6);
    assert!(!test_vm.equal_flag);
}

#[test]
fn test_gtq_opcode() {
    let mut test_vm = VM::new();
    test_vm.registers[5] = 7;
    test_vm.registers[6] = 7;
    test_vm.registers[7] = 8;
    test_vm.program = vec![0xE, 5, 6, 0xE, 5, 7, 0xE, 5, 8];
    assert!(matches!(test_vm.run_once(), Ok(Step::Continue)));
    assert_eq!(test_vm.pc, 3);
    assert!(test_vm.equal_flag);
    assert!(matches!(test_vm.run_once(), Ok(Step::Continue)));
    assert_eq!(test_vm.pc, 6);
    assert!(!test_vm.equal_flag);
    assert!(matches!(test_vm.run_once(), Ok(Step::Continue)));
    assert_eq!(test_vm.pc, 9);
    assert!(test_vm.equal_flag);
}

#[test]
fn test_ltq_opcode() {
    let mut test_vm = VM::new();
    test_vm.registers[5] = 7;
    test_vm.registers[6] = 7;
    test_vm.registers[7] = 8;
    test_vm.program = vec![0xF, 5, 7, 0xF, 5, 8, 0xF, 5, 6];
    assert!(matches!(test_vm.run_once(), Ok(Step::Continue)));
    assert_eq!(test_vm.pc, 3);
    assert!(test_vm.equal_flag);
    assert!(matches!(test_vm.run_once(), Ok(Step::Continue)));
    assert_eq!(test_vm.pc, 6);
    assert!(!test_vm.equal_flag);
    assert!(matches!(test_vm.run_once(), Ok(Step::Continue)));
    assert_eq!(test_vm.pc, 9);
    assert!(test_vm.equal_flag);
}

fn machine(program: Vec<u8>) -> VM {
    let mut vm = VM::new();
    vm.program = program;
    vm
}

#[test]
fn new_machine_is_empty() {
    let vm = VM::new();
    assert_eq!(vm.registers, [0; 32]);
    assert_eq!(vm.pc, 0);
    assert!(vm.program.is_empty());
    assert_eq!(vm.remainder, 0);
    assert!(!vm.equal_flag);
    let other = VM::default();
    assert_eq!(other.registers, [0; 32]);
    assert_eq!(other.pc, 0);
    assert!(other.program.is_empty());
}

#[test]
fn add_byte_appends_and_changes_nothing_else() {
    let mut vm = VM::new();
    vm.registers[3] = 9;
    vm.pc = 2;
    vm.add_byte(7);
    vm.add_byte(8);
    assert_eq!(vm.program, vec![7, 8]);
    assert_eq!(vm.pc, 2);
    assert_eq!(vm.registers[3], 9);
}

#[test]
fn halt_alone_succeeds_and_changes_no_register() {
    let mut vm = machine(vec![0]);
    vm.registers[7] = 42;
    let before = vm.registers;
    assert_eq!(vm.run(), Ok(()));
    assert_eq!(vm.pc, 1);
    assert_eq!(vm.registers, before);
    assert_eq!(vm.remainder, 0);
    assert!(!vm.equal_flag);
}

#[test]
fn empty_program_overflows_at_once() {
    let mut vm = VM::new();
    assert_eq!(vm.run_once().unwrap_err(), PC_OVERFLOW);
    assert_eq!(vm.pc, 0);
    assert_eq!(vm.run(), Err(1));
}

#[test]
fn program_without_halt_overflows() {
    let mut vm = machine(vec![1, 0, 1, 244]);
    assert_eq!(vm.run(), Err(PC_OVERFLOW));
    assert_eq!(vm.registers[0], 500);
    assert_eq!(vm.pc, 4);
}

#[test]
fn illegal_opcode_consumes_its_byte_only() {
    let mut vm = machine(vec![16]);
    vm.registers[1] = 5;
    assert_eq!(vm.run_once().unwrap_err(), ILLEGAL_OPCODE);
    assert_eq!(vm.pc, 1);
    assert_eq!(vm.registers[1], 5);
    let mut vm = machine(vec![255, 0]);
    assert_eq!(vm.run(), Err(ILLEGAL_OPCODE));
    assert_eq!(vm.pc, 1);
}

#[test]
fn operands_cut_off_fault_with_pc_overflow() {
    for program in [vec![1u8], vec![1, 0], vec![1, 0, 1], vec![2, 0, 1], vec![6], vec![10, 1]] {
        let mut vm = machine(program);
        assert_eq!(vm.run_once().unwrap_err(), PC_OVERFLOW);
        assert_eq!(vm.pc, 1);
        assert_eq!(vm.registers, [0; 32]);
    }
}

#[test]
fn load_is_zero_extended() {
    let mut vm = machine(vec![1, 31, 255, 255]);
    assert!(matches!(vm.run_once(), Ok(Step::Continue)));
    assert_eq!(vm.registers[31], 65535);
    assert_eq!(vm.pc, 4);
}

#[test]
fn register_that_does_not_exist_faults() {
    let programs = [
        vec![1u8, 32, 0, 0],
        vec![2, 32, 0, 0],
        vec![2, 0, 32, 0],
        vec![2, 0, 0, 32],
        vec![6, 255],
        vec![9, 32],
        vec![10, 0, 200],
    ];
    for program in programs {
        let mut vm = machine(program);
        vm.registers[0] = 1;
        assert_eq!(vm.run_once().unwrap_err(), INVALID_REGISTER);
        assert_eq!(vm.pc, 1);
        assert_eq!(vm.registers[0], 1);
        assert!(!vm.equal_flag);
    }
}

#[test]
fn arithmetic_wraps() {
    let mut vm = machine(vec![2, 0, 1, 2, 3, 3, 1, 4, 4, 0, 0, 5]);
    vm.registers[0] = i32::MAX;
    vm.registers[1] = 1;
    vm.registers[3] = i32::MIN;
    assert!(matches!(vm.run_once(), Ok(Step::Continue)));
    assert_eq!(vm.registers[2], i32::MIN);
    assert!(matches!(vm.run_once(), Ok(Step::Continue)));
    assert_eq!(vm.registers[4], i32::MAX);
    assert!(matches!(vm.run_once(), Ok(Step::Continue)));
    assert_eq!(vm.registers[5], 1);
    assert_eq!(vm.pc, 12);
}

#[test]
fn multiplication_wraps_like_the_hardware() {
    let mut vm = machine(vec![4, 0, 1, 2]);
    vm.registers[0] = 123_456_789;
    vm.registers[1] = -987_654;
    assert!(matches!(vm.run_once(), Ok(Step::Continue)));
    assert_eq!(vm.registers[2], 123_456_789i32.wrapping_mul(-987_654));
}

#[test]
fn division_rounds_towards_zero() {
    let cases = [
        (7, 2, 3, 1u32),
        (-7, 2, -3, u32::MAX),
        (7, -2, -3, 1),
        (-7, -2, 3, u32::MAX),
        (0, 5, 0, 0),
        (6, 3, 2, 0),
        (i32::MIN, -1, i32::MIN, 0),
        (i32::MIN, 1, i32::MIN, 0),
        (i32::MIN, i32::MAX, -1, u32::MAX),
        (i32::MAX, i32::MIN, 0, i32::MAX as u32),
    ];
    for (a, b, quotient, remainder) in cases {
        let mut vm = machine(vec![5, 0, 1, 2]);
        vm.registers[0] = a;
        vm.registers[1] = b;
        assert!(matches!(vm.run_once(), Ok(Step::Continue)));
        assert_eq!(vm.registers[2], quotient);
        assert_eq!(vm.remainder, remainder);
        assert_eq!(vm.registers[2], a.wrapping_div(b));
        assert_eq!(vm.remainder, a.wrapping_rem(b) as u32);
    }
}

#[test]
fn division_by_zero_faults() {
    let mut vm = machine(vec![5, 0, 1, 2]);
    vm.registers[0] = 9;
    vm.registers[2] = 77;
    vm.remainder = 3;
    assert_eq!(vm.run_once().unwrap_err(), DIVISION_BY_ZERO);
    assert_eq!(vm.pc, 1);
    assert_eq!(vm.registers[2], 77);
    assert_eq!(vm.remainder, 3);
    let mut vm = machine(vec![5, 0, 1, 2]);
    assert_eq!(vm.run(), Err(3));
}

#[test]
fn backward_jump_past_the_start_faults() {
    let mut vm = machine(vec![8, 0]);
    vm.registers[0] = 3;
    assert_eq!(vm.run_once().unwrap_err(), INVALID_JUMP);
    assert_eq!(vm.pc, 1);
    assert_eq!(vm.registers[0], 3);
    let mut vm = machine(vec![8, 0]);
    vm.registers[0] = 2;
    assert!(matches!(vm.run_once(), Ok(Step::Continue)));
    assert_eq!(vm.pc, 0);
}

#[test]
fn jumps_by_negative_values_fault() {
    for opcode in [6u8, 7, 8] {
        let mut vm = machine(vec![opcode, 0]);
        vm.registers[0] = -1;
        assert_eq!(vm.run_once().unwrap_err(), INVALID_JUMP);
        assert_eq!(vm.pc, 1);
    }
    let mut vm = machine(vec![9, 0]);
    vm.registers[0] = -1;
    vm.equal_flag = true;
    assert_eq!(vm.run_once().unwrap_err(), INVALID_JUMP);
    assert_eq!(vm.pc, 1);
}

#[test]
fn conditional_jump_follows_the_flag() {
    let mut vm = machine(vec![9, 0, 0]);
    vm.registers[0] = 40;
    assert!(matches!(vm.run_once(), Ok(Step::Continue)));
    assert_eq!(vm.pc, 2);
    let mut vm = machine(vec![9, 0, 0]);
    vm.registers[0] = 40;
    vm.equal_flag = true;
    assert!(matches!(vm.run_once(), Ok(Step::Continue)));
    assert_eq!(vm.pc, 40);
    let mut vm = machine(vec![9, 0, 0]);
    vm.registers[0] = -5;
    assert!(matches!(vm.run_once(), Ok(Step::Continue)));
    assert_eq!(vm.pc, 2);
}

#[test]
fn jump_outside_the_program_overflows_at_the_next_step() {
    let mut vm = machine(vec![6, 0]);
    vm.registers[0] = 1000;
    assert!(matches!(vm.run_once(), Ok(Step::Continue)));
    assert_eq!(vm.pc, 1000);
    assert_eq!(vm.run_once().unwrap_err(), PC_OVERFLOW);
    assert_eq!(vm.pc, 1000);
}

#[test]
fn comparisons_leave_the_registers() {
    let mut vm = machine(vec![10, 5, 6]);
    vm.registers[5] = 7;
    vm.registers[6] = 7;
    let before = vm.registers;
    assert!(matches!(vm.run_once(), Ok(Step::Continue)));
    assert!(vm.equal_flag);
    assert_eq!(vm.pc, 3);
    assert_eq!(vm.registers, before);
}

#[test]
fn endless_program_uses_up_its_budget() {
    let mut vm = machine(vec![6, 0]);
    assert_eq!(vm.run_for(1000), Err(STEP_LIMIT));
    assert_eq!(vm.pc, 0);
    let mut vm = machine(vec![0]);
    assert_eq!(vm.run_for(0), Err(STEP_LIMIT));
    assert_eq!(vm.pc, 0);
    assert_eq!(vm.run_for(1), Ok(()));
}

#[test]
fn run_for_stops_at_the_first_halt() {
    let mut vm = machine(vec![1, 0, 0, 9, 0, 1, 0, 0, 1]);
    assert_eq!(vm.run_for(2), Ok(()));
    assert_eq!(vm.pc, 5);
    assert_eq!(vm.registers[0], 9);
}

#[test]
fn steps_are_deterministic() {
    let program = vec![1, 0, 1, 244, 1, 1, 1, 245, 2, 0, 1, 4, 5, 4, 1, 6, 0];
    let mut first = machine(program.clone());
    let mut second = machine(program);
    assert_eq!(first.run(), second.run());
    assert_eq!(first.registers, second.registers);
    assert_eq!(first.pc, second.pc);
    assert_eq!(first.remainder, second.remainder);
    assert_eq!(first.equal_flag, second.equal_flag);
}

#[test]
fn a_larger_budget_changes_no_finished_run() {
    let program = vec![1, 0, 1, 244, 1, 1, 1, 245, 2, 0, 1, 4, 0];
    let mut small = machine(program.clone());
    let mut large = machine(program);
    assert_eq!(small.run_for(4), Ok(()));
    assert_eq!(large.run_for(4000), Ok(()));
    assert_eq!(small.registers, large.registers);
    assert_eq!(small.pc, large.pc);
    let mut short = machine(vec![1, 0, 1, 244, 1, 1, 1, 245, 2, 0, 1, 4, 0]);
    assert_eq!(short.run_for(3), Err(STEP_LIMIT));
    assert_eq!(short.registers[4], 1001);
    assert_eq!(short.pc, 12);
}
