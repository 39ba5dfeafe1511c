use regvm::assembler::program_parsers::program_parser;
use regvm::vm::{Step, INVALID_JUMP, VM};

fn assemble(text: &str) -> VM {
    let (rest, program) = program_parser(text).unwrap();
    assert_eq!(rest, "");
    assert!(program.encodable());
    let mut vm = VM::new();
    for byte in program.to_bytes() {
        vm.add_byte(byte);
    }
    vm
}

#[test]
fn assembled_halt_runs() {
    let mut vm = assemble("HLT");
    assert_eq!(vm.program, vec![0]);
    assert_eq!(vm.run(), Ok(()));
    assert_eq!(vm.pc, 1);
    assert_eq!(vm.registers, [0; 32]);
}

#[test]
fn assembled_load_sets_its_register() {
    let mut vm = assemble("LOAD $0 #500");
    assert_eq!(vm.program, vec![1, 0, 1, 244]);
    assert!(matches!(vm.run_once(), Ok(Step::Continue)));
    assert_eq!(vm.registers[0], 500);
    let mut vm = assemble("LOAD $0 #500\nHLT");
    assert_eq!(vm.run(), Ok(()));
    assert_eq!(vm.registers[0], 500);
}

#[test]
fn assembled_sum() {
    let mut vm = assemble("LOAD $0 #500\nLOAD $1 #501\nADD $0 $1 $4\nHLT");
    assert_eq!(vm.run(), Ok(()));
    assert_eq!(vm.registers[4], 1001);
    assert_eq!(vm.registers[0], 500);
    assert_eq!(vm.registers[1], 501);
}

#[test]
fn assembled_comparison() {
    let mut vm = assemble("EQ $5 $6");
    vm.registers[5] = 7;
    vm.registers[6] = 7;
    assert!(matches!(vm.run_once(), Ok(Step::Continue)));
    assert!(vm.equal_flag);
    assert_eq!(vm.pc, 3);
}

#[test]
fn assembled_backward_jump_past_the_start() {
    let mut vm = assemble("JMPB $0");
    vm.registers[0] = 100;
    assert_eq!(vm.run_once().unwrap_err(), INVALID_JUMP);
    assert_eq!(vm.pc, 1);
    assert_eq!(vm.registers[0], 100);
    let mut vm = assemble("JMPB $0");
    vm.registers[0] = 100;
    assert_eq!(vm.run(), Err(4));
}

#[test]
fn assembled_loop_counts_down() {
    let text = "load $0 #5\nload $1 #1\nload $2 #0\nload $3 #20\nload $4 #31\n\
                sub $0 $1 $0\neq $0 $2\njeq $4\njmp $3\nhlt";
    let mut vm = assemble(text);
    assert_eq!(vm.program.len(), 32);
    assert_eq!(vm.run(), Ok(()));
    assert_eq!(vm.registers[0], 0);
    assert_eq!(vm.pc, 32);
    assert!(vm.equal_flag);
}
