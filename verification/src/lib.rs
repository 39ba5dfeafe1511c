//! An assembler and a bytecode interpreter for a small register machine.
//!
//! Assembly text is parsed into a [`assembler::program_parsers::Program`],
//! encoded into a flat byte stream, and executed by a [`vm::VM`] that owns
//! thirty-two signed registers, a program counter and a comparison flag.
//!
//! - [`instructions`]: the operations, their bytes, mnemonics and operands.
//! - [`assembler`]: the grammar, the parsers and the encoder.
//! - [`vm`]: the machine and its step.
//! - [`agreement`]: that the machine reads what the encoder writes.
//! - [`repl`]: what a line entered in a shell does.

pub mod agreement;
pub mod assembler;
pub mod instructions;
pub mod repl;
pub mod vm;
