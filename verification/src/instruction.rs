//! The opcode table: the closed set of operations and the total decoding
//! function from a single byte to an operation.

use vstd::prelude::*;

verus! {

/// The operation selector decoded from the first byte of an instruction.
///
/// Bytes 0 through 9 select the first ten variants in declared order; every
/// other byte collapses to `IGL`, the explicit catch-all for unrecognized
/// values.
#[derive(Clone, Copy, Debug, PartialEq, Eq, Structural)]
pub enum Opcode {
    HLT,
    LOAD,
    ADD,
    SUB,
    MUL,
    DIV,
    MOV,
    JMP,
    JMPB,
    JMPF,
    IGL,
}

/// The decoding table as a mathematical function: total over all 256 byte
/// values, so decoding has no failure mode.
pub open spec fn decoded(v: u8) -> Opcode {
    if v == 0 {
        Opcode::HLT
    } else if v == 1 {
        Opcode::LOAD
    } else if v == 2 {
        Opcode::ADD
    } else if v == 3 {
        Opcode::SUB
    } else if v == 4 {
        Opcode::MUL
    } else if v == 5 {
        Opcode::DIV
    } else if v == 6 {
        Opcode::MOV
    } else if v == 7 {
        Opcode::JMP
    } else if v == 8 {
        Opcode::JMPB
    } else if v == 9 {
        Opcode::JMPF
    } else {
        Opcode::IGL
    }
}

impl From<u8> for Opcode {
    fn from(v: u8) -> (op: Opcode) {
        match v {
            0 => Opcode::HLT,
            1 => Opcode::LOAD,
            2 => Opcode::ADD,
            3 => Opcode::SUB,
            4 => Opcode::MUL,
            5 => Opcode::DIV,
            6 => Opcode::MOV,
            7 => Opcode::JMP,
            8 => Opcode::JMPB,
            9 => Opcode::JMPF,
            _ => Opcode::IGL,
        }
    }
}

impl vstd::std_specs::convert::FromSpecImpl<u8> for Opcode {
    open spec fn obeys_from_spec() -> bool {
        true
    }

    open spec fn from_spec(v: u8) -> Opcode {
        decoded(v)
    }
}

/// Decoding is total and deterministic: it is a spec function, so the same
/// byte always yields the same opcode; bytes 0 through 9 yield the ten named
/// opcodes in their declared order, and every other byte yields `IGL`.
pub proof fn lemma_decode_total(v: u8)
    ensures
        decoded(0) == Opcode::HLT,
        decoded(1) == Opcode::LOAD,
        decoded(2) == Opcode::ADD,
        decoded(3) == Opcode::SUB,
        decoded(4) == Opcode::MUL,
        decoded(5) == Opcode::DIV,
        decoded(6) == Opcode::MOV,
        decoded(7) == Opcode::JMP,
        decoded(8) == Opcode::JMPB,
        decoded(9) == Opcode::JMPF,
        v > 9 ==> decoded(v) == Opcode::IGL,
{
}

/// A decoded instruction: the operation selector. Operand bytes are consumed
/// directly from the program buffer by the engine.
#[derive(Debug, PartialEq, Eq, Structural)]
pub struct Instruction {
    pub opcode: Opcode,
}

impl Instruction {
    pub fn new(opcode: Opcode) -> (ins: Instruction)
        ensures
            ins.opcode == opcode,
    {
        Instruction { opcode }
    }
}

} // verus!
