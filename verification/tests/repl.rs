use regvm::assembler::ParseError;
use regvm::repl::{Reply, REPL};
use regvm::vm::Step;

#[test]
fn new_shell_is_empty() {
    let repl = REPL::new();
    assert!(repl.commands_buffer.is_empty());
    assert!(repl.vm.program.is_empty());
    assert_eq!(repl.vm.pc, 0);
    assert_eq!(repl.vm.registers, [0; 32]);
}

#[test]
fn commands_leave_the_machine() {
    let mut repl = REPL::new();
    assert_eq!(repl.eval(".history"), Reply::History);
    assert_eq!(repl.eval(".program"), Reply::Program);
    assert_eq!(repl.eval(".registers"), Reply::Registers);
    assert_eq!(repl.eval(".quit"), Reply::Quit);
    assert!(repl.vm.program.is_empty());
    assert_eq!(repl.vm.pc, 0);
    assert_eq!(repl.commands_buffer, vec![".history", ".program", ".registers", ".quit"]);
}

#[test]
fn every_line_is_recorded() {
    let mut repl = REPL::new();
    repl.eval("load $0 #1");
    repl.eval("");
    repl.eval("$$$");
    repl.eval(".quit ");
    assert_eq!(repl.commands_buffer, vec!["load $0 #1", "", "$$$", ".quit "]);
}

#[test]
fn a_line_is_assembled_loaded_and_stepped() {
    let mut repl = REPL::new();
    assert_eq!(repl.eval("load $0 #100"), Reply::Stepped(Step::Continue));
    assert_eq!(repl.vm.program, vec![1, 0, 0, 100]);
    assert_eq!(repl.vm.registers[0], 100);
    assert_eq!(repl.vm.pc, 4);
    assert_eq!(repl.eval("load $1 #7\nadd $0 $1 $2"), Reply::Stepped(Step::Continue));
    assert_eq!(repl.vm.program, vec![1, 0, 0, 100, 1, 1, 0, 7, 2, 0, 1, 2]);
    assert_eq!(repl.vm.registers[1], 7);
    assert_eq!(repl.vm.registers[2], 0);
    assert_eq!(repl.vm.pc, 8);
    assert_eq!(repl.eval("hlt"), Reply::Stepped(Step::Continue));
    assert_eq!(repl.vm.registers[2], 107);
    assert_eq!(repl.vm.pc, 12);
    assert_eq!(repl.eval("hlt"), Reply::Stepped(Step::Done));
}

#[test]
fn a_fault_is_reported_with_its_code() {
    let mut repl = REPL::new();
    assert_eq!(repl.eval("div $0 $1 $2"), Reply::Fault(3));
    assert_eq!(repl.vm.pc, 1);
    let mut repl = REPL::new();
    assert_eq!(repl.eval("jmp $40"), Reply::Fault(5));
}

#[test]
fn what_is_not_loaded() {
    let mut repl = REPL::new();
    assert_eq!(repl.eval("load $0"), Reply::Unparsable(ParseError::Mark));
    assert_eq!(repl.eval(".Quit"), Reply::NotEncodable);
    assert_eq!(repl.eval(".data 'x'"), Reply::NotEncodable);
    assert_eq!(repl.eval("nop"), Reply::NotEncodable);
    assert_eq!(repl.eval("hlt\nnop"), Reply::NotEncodable);
    assert_eq!(repl.eval(""), Reply::Unparsable(ParseError::Mark));
    assert!(repl.vm.program.is_empty());
    assert_eq!(repl.vm.pc, 0);
}

#[test]
fn a_line_is_entered_without_the_whitespace_around_it() {
    let mut repl = REPL::new();
    assert_eq!(repl.enter("  .quit \n"), Reply::Quit);
    assert_eq!(repl.enter("\tload $0 #100\r\n"), Reply::Stepped(Step::Continue));
    assert_eq!(repl.enter("\n"), Reply::Unparsable(ParseError::Mark));
    assert_eq!(repl.enter(". quit"), Reply::Unparsable(ParseError::AlphaNumeric));
    assert_eq!(repl.commands_buffer, vec![".quit", "load $0 #100", "", ". quit"]);
    assert_eq!(repl.vm.registers[0], 100);
}
