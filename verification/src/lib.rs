//! A minimal register-based virtual machine.
//!
//! Instructions arrive as raw bytes appended to a growable program buffer;
//! the engine decodes one opcode at a time at the program counter, consumes
//! the operand bytes that opcode requires, applies its effect to a fixed
//! bank of 32 signed 32-bit registers, and either continues or stops.

pub mod instruction;
pub mod repl;
pub mod vm;
