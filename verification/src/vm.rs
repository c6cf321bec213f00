//! The execution engine: the register file, the program counter, the
//! remainder register, the growable instruction byte buffer, and the
//! fetch-decode-execute cycle.
//!
//! The engine's transition relation is stated once, as the spec function
//! [`spec_step`], and every execution entry point is proved against it.
//!
//! Fault policy (rather than leaving these conditions to whatever the host
//! integer and array semantics would do, this engine fixes a policy and
//! documents it):
//! - `ADD`/`SUB`/`MUL` wrap on overflow (two's complement), and `DIV` of
//!   `i32::MIN` by `-1` wraps to `i32::MIN` with remainder `0`;
//! - division by zero is a reported fault that stops execution;
//! - a register index outside `0..32`, an instruction with fewer operand
//!   bytes than it needs, and jump arithmetic that would move the program
//!   counter below zero or above `usize::MAX` are reported faults as well;
//! - a fault never changes the register file or the remainder register.
//!
//! The jump family reads the register as an unsigned 32-bit value (the bit
//! pattern of the signed register), and applies it to the program counter as
//! it stands after the jump's own opcode and operand byte were consumed.

use vstd::prelude::*;

use crate::instruction::{decoded, Opcode};

verus! {

/// The mathematical model of the engine: what a [`VM`] looks like in
/// contracts.
pub ghost struct VmState {
    /// The register file: 32 signed 32-bit integers.
    pub regs: Seq<i32>,
    /// The program counter: an offset into `program`.
    pub pc: nat,
    /// The program buffer: every instruction byte fed so far.
    pub program: Seq<u8>,
    /// The remainder of the most recent division.
    pub remainder: u32,
}

impl VmState {
    /// The register file never changes size.
    pub open spec fn wf(self) -> bool {
        self.regs.len() == 32
    }
}

/// How a single fetch-decode-execute cycle ended.
#[derive(Clone, Copy, Debug, PartialEq, Eq, Structural)]
pub enum StepStatus {
    /// An instruction completed and execution may continue.
    Progress,
    /// The program counter already pointed at or past the end of the
    /// program buffer; nothing was executed.
    OffEnd,
    /// A `HLT` instruction stopped the run.
    Halted,
    /// An unrecognized opcode stopped the run.
    Illegal,
    /// The buffer ended before the instruction's operand bytes did.
    Truncated,
    /// An operand named a register outside the 32-slot file.
    BadRegister,
    /// A `DIV` instruction met a zero divisor.
    DivideByZero,
    /// A jump would have moved the program counter below zero or above
    /// `usize::MAX`.
    PcOutOfRange,
}

/// The quotient of Rust's truncating signed division, wrapping on the one
/// overflowing case (`i32::MIN / -1`).
pub open spec fn wrapped_quotient(x: i32, d: i32) -> i32
    recommends
        d != 0,
{
    match x.checked_div(d) {
        Some(q) => q,
        None => i32::MIN,
    }
}

/// The remainder matching [`wrapped_quotient`]: it takes the sign of the
/// dividend, and is `0` on the one overflowing case.
pub open spec fn wrapped_remainder(x: i32, d: i32) -> i32
    recommends
        d != 0,
{
    match x.checked_rem(d) {
        Some(r) => r,
        None => 0,
    }
}

/// The result an arithmetic opcode writes to its destination register.
pub open spec fn arith_value(op: Opcode, x: i32, y: i32) -> i32
    recommends
        op == Opcode::DIV ==> y != 0,
{
    match op {
        Opcode::ADD => x.wrapping_add(y),
        Opcode::SUB => x.wrapping_sub(y),
        Opcode::MUL => x.wrapping_mul(y),
        _ => wrapped_quotient(x, y),
    }
}

/// The effect of `LOAD`, starting from the state just past the opcode byte:
/// one register-index byte, then a big-endian 16-bit immediate.
pub open spec fn spec_load(s: VmState) -> (VmState, StepStatus) {
    if s.pc + 3 > s.program.len() {
        (s, StepStatus::Truncated)
    } else {
        let r = s.program[s.pc as int];
        let imm = s.program[s.pc as int + 1] as int * 256 + s.program[s.pc as int + 2] as int;
        let t = VmState { pc: (s.pc + 3) as nat, ..s };
        if r >= 32 {
            (t, StepStatus::BadRegister)
        } else {
            (VmState { regs: s.regs.update(r as int, imm as i32), ..t }, StepStatus::Progress)
        }
    }
}

/// The effect of `ADD`, `SUB`, `MUL` and `DIV`, starting from the state just
/// past the opcode byte: two source register indices, then the destination.
pub open spec fn spec_arith(s: VmState, op: Opcode) -> (VmState, StepStatus) {
    if s.pc + 3 > s.program.len() {
        (s, StepStatus::Truncated)
    } else {
        let a = s.program[s.pc as int];
        let b = s.program[s.pc as int + 1];
        let c = s.program[s.pc as int + 2];
        let t = VmState { pc: (s.pc + 3) as nat, ..s };
        if a >= 32 || b >= 32 || c >= 32 {
            (t, StepStatus::BadRegister)
        } else {
            let x = s.regs[a as int];
            let y = s.regs[b as int];
            if op == Opcode::DIV && y == 0 {
                (t, StepStatus::DivideByZero)
            } else {
                let u = VmState { regs: s.regs.update(c as int, arith_value(op, x, y)), ..t };
                if op == Opcode::DIV {
                    (
                        VmState { remainder: wrapped_remainder(x, y) as u32, ..u },
                        StepStatus::Progress,
                    )
                } else {
                    (u, StepStatus::Progress)
                }
            }
        }
    }
}

/// The effect of `MOV`, starting from the state just past the opcode byte:
/// the destination register index, then the source.
pub open spec fn spec_move(s: VmState) -> (VmState, StepStatus) {
    if s.pc + 2 > s.program.len() {
        (s, StepStatus::Truncated)
    } else {
        let d = s.program[s.pc as int];
        let src = s.program[s.pc as int + 1];
        let t = VmState { pc: (s.pc + 2) as nat, ..s };
        if d >= 32 || src >= 32 {
            (t, StepStatus::BadRegister)
        } else {
            (
                VmState { regs: s.regs.update(d as int, s.regs[src as int]), ..t },
                StepStatus::Progress,
            )
        }
    }
}

/// The effect of the jump family, starting from the state just past the
/// opcode byte: one register-index byte, whose register's bit pattern is the
/// unsigned target (`JMP`) or displacement (`JMPB`, `JMPF`). Displacements
/// apply to the program counter as it stands past the operand byte.
pub open spec fn spec_jump(s: VmState, op: Opcode) -> (VmState, StepStatus) {
    if s.pc + 1 > s.program.len() {
        (s, StepStatus::Truncated)
    } else {
        let r = s.program[s.pc as int];
        let t = VmState { pc: (s.pc + 1) as nat, ..s };
        if r >= 32 {
            (t, StepStatus::BadRegister)
        } else {
            let disp = s.regs[r as int] as u32;
            if op == Opcode::JMP {
                (VmState { pc: disp as nat, ..s }, StepStatus::Progress)
            } else if op == Opcode::JMPB {
                if disp > t.pc {
                    (t, StepStatus::PcOutOfRange)
                } else {
                    (VmState { pc: (t.pc - disp) as nat, ..s }, StepStatus::Progress)
                }
            } else {
                if t.pc + disp > usize::MAX {
                    (t, StepStatus::PcOutOfRange)
                } else {
                    (VmState { pc: (t.pc + disp) as nat, ..s }, StepStatus::Progress)
                }
            }
        }
    }
}

/// One fetch-decode-execute cycle as a mathematical transition: the state
/// after the cycle, and how the cycle ended.
pub open spec fn spec_step(s: VmState) -> (VmState, StepStatus) {
    if s.pc >= s.program.len() {
        (s, StepStatus::OffEnd)
    } else {
        let op = decoded(s.program[s.pc as int]);
        let t = VmState { pc: (s.pc + 1) as nat, ..s };
        match op {
            Opcode::HLT => (t, StepStatus::Halted),
            Opcode::IGL => (t, StepStatus::Illegal),
            Opcode::LOAD => spec_load(t),
            Opcode::ADD => spec_arith(t, op),
            Opcode::SUB => spec_arith(t, op),
            Opcode::MUL => spec_arith(t, op),
            Opcode::DIV => spec_arith(t, op),
            Opcode::MOV => spec_move(t),
            Opcode::JMP => spec_jump(t, op),
            Opcode::JMPB => spec_jump(t, op),
            Opcode::JMPF => spec_jump(t, op),
        }
    }
}

/// `s1` is reached from `s0` by exactly `n` cycles, every one of which made
/// progress.
pub open spec fn reaches(s0: VmState, s1: VmState, n: nat) -> bool
    decreases n,
{
    if n == 0 {
        s0 == s1
    } else {
        spec_step(s0).1 == StepStatus::Progress && reaches(spec_step(s0).0, s1, (n - 1) as nat)
    }
}

/// A progress chain can be extended by one more progressing cycle.
pub proof fn lemma_reaches_extend(s0: VmState, s1: VmState, n: nat)
    requires
        reaches(s0, s1, n),
        spec_step(s1).1 == StepStatus::Progress,
    ensures
        reaches(s0, spec_step(s1).0, n + 1),
    decreases n,
{
    if n == 0 {
        assert(reaches(spec_step(s1).0, spec_step(s1).0, 0));
        assert(reaches(s0, spec_step(s1).0, 1));
    } else {
        lemma_reaches_extend(spec_step(s0).0, s1, (n - 1) as nat);
        assert(reaches(spec_step(s0).0, spec_step(s1).0, n));
        assert(reaches(s0, spec_step(s1).0, n + 1));
    }
}

/// Stepping with the program counter already at or past the end of the
/// program buffer returns the stop signal and leaves the whole state —
/// registers, remainder, program and program counter — unchanged.
pub proof fn lemma_step_off_end(s: VmState)
    requires
        s.pc >= s.program.len(),
    ensures
        spec_step(s) == (s, StepStatus::OffEnd),
{
}

/// A cycle ends `Halted` exactly by decoding a `HLT` opcode, and then the
/// program counter lands one byte past that opcode, with registers,
/// remainder and program untouched.
pub proof fn lemma_halted_one_past_opcode(s: VmState)
    requires
        spec_step(s).1 == StepStatus::Halted,
    ensures
        s.pc < s.program.len(),
        decoded(s.program[s.pc as int]) == Opcode::HLT,
        spec_step(s).0 == (VmState { pc: (s.pc + 1) as nat, ..s }),
{
}

/// A run that stops on `HLT` — in particular, one that reaches the final
/// `HALT` instruction of its program — ends with the program counter
/// pointing exactly one byte past the `HALT` opcode.
pub proof fn lemma_run_stops_past_halt(s0: VmState, s: VmState, n: nat)
    requires
        reaches(s0, s, n),
        spec_step(s).1 == StepStatus::Halted,
    ensures
        s.pc < s.program.len(),
        decoded(s.program[s.pc as int]) == Opcode::HLT,
        spec_step(s).0.pc == s.pc + 1,
        spec_step(s).0.regs == s.regs,
        spec_step(s).0.program == s.program,
        spec_step(s).0.remainder == s.remainder,
{
    lemma_halted_one_past_opcode(s);
}

/// LOAD round trip: loading immediate value `V` into register `R` and then
/// reading register `R` yields exactly `V` — the unsigned 16-bit big-endian
/// immediate reinterpreted as a signed 32-bit value.
pub proof fn lemma_load_round_trip(s: VmState, r: u8, hi: u8, lo: u8)
    requires
        s.wf(),
        s.pc + 4 <= s.program.len(),
        decoded(s.program[s.pc as int]) == Opcode::LOAD,
        s.program[s.pc as int + 1] == r,
        s.program[s.pc as int + 2] == hi,
        s.program[s.pc as int + 3] == lo,
        r < 32,
    ensures
        spec_step(s).1 == StepStatus::Progress,
        spec_step(s).0.regs[r as int] == hi as int * 256 + lo as int,
        spec_step(s).0.pc == s.pc + 4,
{
}

/// Forward jump displacement: the displacement in the register applies to
/// the program counter as it stands past the jump's own opcode and operand
/// byte, so a `JMPF` at offset `P` lands at `P + 2 + displacement`.
pub proof fn lemma_jump_forward_lands(s: VmState, r: u8)
    requires
        s.wf(),
        s.pc + 2 <= s.program.len(),
        decoded(s.program[s.pc as int]) == Opcode::JMPF,
        s.program[s.pc as int + 1] == r,
        r < 32,
        s.regs[r as int] >= 0,
        s.pc + 2 + s.regs[r as int] <= usize::MAX,
    ensures
        spec_step(s).1 == StepStatus::Progress,
        spec_step(s).0.pc == s.pc + 2 + s.regs[r as int],
        spec_step(s).0.regs == s.regs,
{
}

/// Backward jump displacement: a `JMPB` at offset `P` lands at
/// `P + 2 - displacement`, the displacement counting from the byte just
/// past the jump's own encoding.
pub proof fn lemma_jump_back_lands(s: VmState, r: u8)
    requires
        s.wf(),
        s.pc + 2 <= s.program.len(),
        decoded(s.program[s.pc as int]) == Opcode::JMPB,
        s.program[s.pc as int + 1] == r,
        r < 32,
        s.regs[r as int] >= 0,
        s.regs[r as int] <= s.pc + 2,
    ensures
        spec_step(s).1 == StepStatus::Progress,
        spec_step(s).0.pc == s.pc + 2 - s.regs[r as int],
        spec_step(s).0.regs == s.regs,
{
}

/// The program buffer's length is a `usize`, so advancing the program
/// counter inside the buffer cannot overflow.
proof fn lemma_program_len_fits(v: &Vec<u8>)
    ensures
        v@.len() <= usize::MAX,
{
    assert(v.len() == v@.len());
}

/// The execution engine.
pub struct VM {
    /// The register file: 32 signed 32-bit integers, all zero at creation.
    pub registers: Vec<i32>,
    /// The program counter: the offset of the next byte to decode.
    pub pc: usize,
    /// The program buffer: append-only from the embedder's side.
    pub program: Vec<u8>,
    /// The remainder of the most recent division.
    pub remainder: u32,
}

impl View for VM {
    type V = VmState;

    open spec fn view(&self) -> VmState {
        VmState {
            regs: self.registers@,
            pc: self.pc as nat,
            program: self.program@,
            remainder: self.remainder,
        }
    }
}

impl VM {
    /// The register file holds exactly its 32 slots.
    pub open spec fn wf(self) -> bool {
        self@.wf()
    }

    /// A fresh engine: 32 zeroed registers, an empty program buffer, the
    /// program counter and the remainder register at zero.
    pub fn new() -> (vm: VM)
        ensures
            vm.wf(),
            vm@.pc == 0,
            vm@.remainder == 0,
            vm@.program == Seq::<u8>::empty(),
            forall|i: int| 0 <= i < 32 ==> vm@.regs[i] == 0i32,
    {
        let mut registers: Vec<i32> = Vec::new();
        let mut i: usize = 0;
        while i < 32
            invariant
                i <= 32,
                registers@.len() == i,
                forall|j: int| 0 <= j < i ==> registers@[j] == 0i32,
            decreases 32 - i,
        {
            registers.push(0);
            i = i + 1;
        }
        VM { registers, pc: 0, program: Vec::new(), remainder: 0 }
    }

    /// Appends one byte to the end of the program buffer. Nothing else
    /// changes; the buffer may transiently hold a partial instruction.
    pub fn add_byte(&mut self, byte: u8)
        ensures
            final(self)@ == (VmState { program: old(self)@.program.push(byte), ..old(self)@ }),
    {
        self.program.push(byte);
    }

    /// Decodes the opcode byte at the program counter and advances past it.
    fn decode_opcode(&mut self) -> (op: Opcode)
        requires
            old(self)@.pc < old(self)@.program.len(),
        ensures
            op == decoded(old(self)@.program[old(self)@.pc as int]),
            final(self)@ == (VmState { pc: (old(self)@.pc + 1) as nat, ..old(self)@ }),
    {
        proof {
            lemma_program_len_fits(&self.program);
        }
        let opcode = Opcode::from(self.program[self.pc]);
        self.pc += 1;
        opcode
    }

    /// Returns the byte at the program counter and advances past it.
    fn next_byte(&mut self) -> (b: u8)
        requires
            old(self)@.pc < old(self)@.program.len(),
        ensures
            b == old(self)@.program[old(self)@.pc as int],
            final(self)@ == (VmState { pc: (old(self)@.pc + 1) as nat, ..old(self)@ }),
    {
        proof {
            lemma_program_len_fits(&self.program);
        }
        let result = self.program[self.pc];
        self.pc += 1;
        result
    }

    /// Returns the big-endian pair of bytes at the program counter and
    /// advances past both.
    fn next_short(&mut self) -> (v: u16)
        requires
            old(self)@.pc + 2 <= old(self)@.program.len(),
        ensures
            v as int == old(self)@.program[old(self)@.pc as int] as int * 256 + old(
                self,
            )@.program[old(self)@.pc as int + 1] as int,
            final(self)@ == (VmState { pc: (old(self)@.pc + 2) as nat, ..old(self)@ }),
    {
        proof {
            lemma_program_len_fits(&self.program);
        }
        let hi = self.program[self.pc];
        let lo = self.program[self.pc + 1];
        let result: u16 = (hi as u16) * 256 + (lo as u16);
        self.pc += 2;
        result
    }

    /// One fetch-decode-execute cycle: decodes the opcode at the program
    /// counter, consumes its operand bytes, applies its effect, and says how
    /// the cycle ended — exactly as [`spec_step`] describes.
    fn execute_instruction(&mut self) -> (st: StepStatus)
        requires
            old(self).wf(),
        ensures
            final(self).wf(),
            final(self)@ == spec_step(old(self)@).0,
            st == spec_step(old(self)@).1,
    {
        // Ensure PC is not invalid
        if self.pc >= self.program.len() {
            return StepStatus::OffEnd;
        }

        // Match opcodes
        match self.decode_opcode() {
            Opcode::HLT => StepStatus::Halted,
            Opcode::IGL => StepStatus::Illegal,
            Opcode::LOAD => {
                if self.program.len() - self.pc < 3 {
                    StepStatus::Truncated
                } else {
                    let register = self.next_byte();
                    let number = self.next_short();
                    if register >= 32 {
                        StepStatus::BadRegister
                    } else {
                        self.registers[register as usize] = number as i32;
                        StepStatus::Progress
                    }
                }
            },
            Opcode::ADD => {
                if self.program.len() - self.pc < 3 {
                    StepStatus::Truncated
                } else {
                    let r1 = self.next_byte();
                    let r2 = self.next_byte();
                    let dst = self.next_byte();
                    if r1 >= 32 || r2 >= 32 || dst >= 32 {
                        StepStatus::BadRegister
                    } else {
                        let reg1 = self.registers[r1 as usize];
                        let reg2 = self.registers[r2 as usize];
                        self.registers[dst as usize] = reg1.wrapping_add(reg2);
                        StepStatus::Progress
                    }
                }
            },
            Opcode::SUB => {
                if self.program.len() - self.pc < 3 {
                    StepStatus::Truncated
                } else {
                    let r1 = self.next_byte();
                    let r2 = self.next_byte();
                    let dst = self.next_byte();
                    if r1 >= 32 || r2 >= 32 || dst >= 32 {
                        StepStatus::BadRegister
                    } else {
                        let reg1 = self.registers[r1 as usize];
                        let reg2 = self.registers[r2 as usize];
                        self.registers[dst as usize] = reg1.wrapping_sub(reg2);
                        StepStatus::Progress
                    }
                }
            },
            Opcode::MUL => {
                if self.program.len() - self.pc < 3 {
                    StepStatus::Truncated
                } else {
                    let r1 = self.next_byte();
                    let r2 = self.next_byte();
                    let dst = self.next_byte();
                    if r1 >= 32 || r2 >= 32 || dst >= 32 {
                        StepStatus::BadRegister
                    } else {
                        let reg1 = self.registers[r1 as usize];
                        let reg2 = self.registers[r2 as usize];
                        self.registers[dst as usize] = reg1.wrapping_mul(reg2);
                        StepStatus::Progress
                    }
                }
            },
            Opcode::DIV => {
                if self.program.len() - self.pc < 3 {
                    StepStatus::Truncated
                } else {
                    let r1 = self.next_byte();
                    let r2 = self.next_byte();
                    let dst = self.next_byte();
                    if r1 >= 32 || r2 >= 32 || dst >= 32 {
                        StepStatus::BadRegister
                    } else {
                        let reg1 = self.registers[r1 as usize];
                        let reg2 = self.registers[r2 as usize];
                        if reg2 == 0 {
                            StepStatus::DivideByZero
                        } else {
                            let quotient = match reg1.checked_div(reg2) {
                                Some(q) => q,
                                None => i32::MIN,
                            };
                            let rem = match reg1.checked_rem(reg2) {
                                Some(r) => r,
                                None => 0,
                            };
                            self.registers[dst as usize] = quotient;
                            self.remainder = #[verifier::truncate] (rem as u32);
                            StepStatus::Progress
                        }
                    }
                }
            },
            Opcode::MOV => {
                if self.program.len() - self.pc < 2 {
                    StepStatus::Truncated
                } else {
                    let dst = self.next_byte();
                    let src = self.next_byte();
                    if dst >= 32 || src >= 32 {
                        StepStatus::BadRegister
                    } else {
                        let value = self.registers[src as usize];
                        self.registers[dst as usize] = value;
                        StepStatus::Progress
                    }
                }
            },
            Opcode::JMP => {
                if self.program.len() - self.pc < 1 {
                    StepStatus::Truncated
                } else {
                    let reg = self.next_byte();
                    if reg >= 32 {
                        StepStatus::BadRegister
                    } else {
                        let target = #[verifier::truncate] (self.registers[reg as usize] as u32);
                        self.pc = target as usize;
                        StepStatus::Progress
                    }
                }
            },
            Opcode::JMPB => {
                if self.program.len() - self.pc < 1 {
                    StepStatus::Truncated
                } else {
                    let reg = self.next_byte();
                    if reg >= 32 {
                        StepStatus::BadRegister
                    } else {
                        let value = #[verifier::truncate] (self.registers[reg as usize] as u32);
                        let back = value as usize;
                        if back > self.pc {
                            StepStatus::PcOutOfRange
                        } else {
                            self.pc -= back;
                            StepStatus::Progress
                        }
                    }
                }
            },
            Opcode::JMPF => {
                if self.program.len() - self.pc < 1 {
                    StepStatus::Truncated
                } else {
                    let reg = self.next_byte();
                    if reg >= 32 {
                        StepStatus::BadRegister
                    } else {
                        let value = #[verifier::truncate] (self.registers[reg as usize] as u32);
                        match self.pc.checked_add(value as usize) {
                            Some(landing) => {
                                self.pc = landing;
                                StepStatus::Progress
                            },
                            None => StepStatus::PcOutOfRange,
                        }
                    }
                }
            },
        }
    }

    /// Executes exactly one instruction; meant for controlled, stepwise
    /// execution. The returned status says whether the cycle made progress
    /// or why it stopped, so the embedder can report `Halted` or `Illegal`.
    pub fn run_once(&mut self) -> (st: StepStatus)
        requires
            old(self).wf(),
        ensures
            final(self).wf(),
            final(self)@ == spec_step(old(self)@).0,
            st == spec_step(old(self)@).1,
    {
        self.execute_instruction()
    }

    /// Executes instructions until one fails to make progress, and returns
    /// that final status: the engine's state is then the result of stepping
    /// a progress chain from the starting state into a state whose next
    /// cycle stops. A program that jumps in a cycle is cut off after
    /// `usize::MAX` instructions — a count no real run reaches — and the
    /// returned status is then `Progress`.
    pub fn run(&mut self) -> (st: StepStatus)
        requires
            old(self).wf(),
        ensures
            final(self).wf(),
            st != StepStatus::Progress ==> exists|s: VmState, n: nat|
                reaches(old(self)@, s, n) && spec_step(s).1 == st && final(self)@ == spec_step(
                    s,
                ).0,
            st == StepStatus::Progress ==> reaches(old(self)@, final(self)@, usize::MAX as nat),
    {
        let ghost start = self@;
        let ghost mut steps: nat = 0;
        let mut fuel: usize = usize::MAX;
        loop
            invariant
                self.wf(),
                reaches(start, self@, steps),
                start == old(self)@,
                steps + fuel == usize::MAX,
            decreases fuel,
        {
            if fuel == 0 {
                return StepStatus::Progress;
            }
            let ghost before = self@;
            let status = self.execute_instruction();
            if status != StepStatus::Progress {
                proof {
                    assert(reaches(start, before, steps) && spec_step(before).1 == status
                        && self@ == spec_step(before).0);
                }
                return status;
            }
            fuel = fuel - 1;
            proof {
                lemma_reaches_extend(start, before, steps);
                steps = steps + 1;
            }
        }
    }
}

} // verus!
