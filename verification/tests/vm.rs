use firefaith::vm::{StepStatus, VM};

fn get_test_vm() -> VM {
    let mut test_vm = VM::new();
    test_vm.registers[0] = 10;
    test_vm.registers[1] = 20;
    test_vm
}

#[test]
fn test_create_vm() {
    let test_vm = VM::new();
    assert_eq!(test_vm.registers[0], 0);
    assert_eq!(test_vm.pc, 0);
}

#[test]
fn test_opcode_hlt() {
    let mut test_vm = VM::new();
    let test_bytes = vec![0, 0, 0, 0];
    test_vm.program = test_bytes;
    test_vm.run_once();
    assert_eq!(test_vm.pc, 1);
}

#[test]
fn test_opcode_igl() {
    let mut test_vm = VM::new();
    let test_bytes = vec![255, 0, 0, 0];
    test_vm.program = test_bytes;
    test_vm.run_once();
    assert_eq!(test_vm.pc, 1);
}

#[test]
fn test_opcode_load() {
    let mut test_vm = VM::new();
    // [1,244] is 0x1f4 in little endian, which is 500
    let test_bytes = vec![1, 0, 1, 244]; // LOAD $0 0x1f4
    test_vm.program = test_bytes;
    test_vm.run();
    assert_eq!(test_vm.registers[0], 500);
}

#[test]
fn test_opcode_add() {
    let mut test_vm = get_test_vm();
    let test_bytes = vec![2, 0, 1, 2]; // ADD $0 $1 $2
    test_vm.program = test_bytes;
    test_vm.run();
    assert_eq!(test_vm.registers[2], 0x1e);
}

#[test]
fn test_opcode_sub() {
    let mut test_vm = get_test_vm();
    let test_bytes = vec![3, 1, 0, 2]; // SUB $1 $0 $2
    test_vm.program = test_bytes;
    test_vm.run();
    assert_eq!(test_vm.registers[2], 0x0a);
}

#[test]
fn test_opcode_mul() {
    let mut test_vm = get_test_vm();
    let test_bytes = vec![4, 0, 1, 2]; // MUL $0 $1 $2
    test_vm.program = test_bytes;
    test_vm.run();
    assert_eq!(test_vm.registers[2], 0xc8);
}

#[test]
fn test_opcode_div_without_remainder() {
    let mut test_vm = get_test_vm();
    let test_bytes = vec![5, 1, 0, 2]; // DIV $1 $0 $2
    test_vm.program = test_bytes;
    test_vm.run();
    assert_eq!(test_vm.registers[2], 0x2);
}

#[test]
fn test_opcode_div_with_remainder() {
    let mut test_vm = get_test_vm();
    let test_bytes = vec![5, 0, 1, 2]; // DIV $0 $1 $2
    test_vm.program = test_bytes;
    test_vm.run();
    assert_eq!(test_vm.registers[2], 0);
    assert_eq!(test_vm.remainder, 10);
}

#[test]
fn test_opcode_mov() {
    let mut test_vm = get_test_vm();
    let test_bytes = vec![6, 0, 1, 0]; // MOV $0 $1
    println!("{} {}", test_vm.registers[0], test_vm.registers[1]);
    test_vm.program = test_bytes;
    test_vm.run();
    println!("{} {}", test_vm.registers[0], test_vm.registers[1]);
    assert_eq!(test_vm.registers[0], 0x14);
    assert_eq!(test_vm.registers[1], 0x14);
}

#[test]
fn test_opcode_jmp() {
    let mut test_vm = get_test_vm();
    let test_bytes = vec![7, 0, 0, 0]; // JMP $0
    test_vm.program = test_bytes;
    test_vm.pc = 0;
    test_vm.run_once();
    assert_eq!(test_vm.pc, 10);
}

#[test]
fn test_opcode_jmpb() {
    let mut test_vm = get_test_vm();
    let test_bytes = vec![0, 0, 0, 0, 0, 0, 0, 0, 0, 0, 0, 0, 8, 0, 0, 0]; // JMPB $0
    test_vm.program = test_bytes;
    test_vm.pc = 12;
    test_vm.run_once();
    assert_eq!(test_vm.pc, 4); // pc gets incremented by 2 before the JMPB
}

#[test]
fn test_opcode_jmpf() {
    let mut test_vm = get_test_vm();
    let test_bytes = vec![9, 0, 0, 0]; // JMPB $0
    test_vm.program = test_bytes;
    test_vm.run_once();
    assert_eq!(test_vm.pc, 12); // pc gets incremented by 2 before the JMPF
}

#[test]
fn test_run_stops_one_past_halt() {
    let mut test_vm = VM::new();
    // LOAD $0 2, ADD $0 $0 $1, HLT
    test_vm.program = vec![1, 0, 0, 2, 2, 0, 0, 1, 0];
    let status = test_vm.run();
    assert_eq!(status, StepStatus::Halted);
    assert_eq!(test_vm.pc, 9);
    assert_eq!(test_vm.registers[1], 4);
}

#[test]
fn test_load_round_trip_full_immediate() {
    let mut test_vm = VM::new();
    test_vm.program = vec![1, 3, 255, 255]; // LOAD $3 0xffff
    assert_eq!(test_vm.run_once(), StepStatus::Progress);
    assert_eq!(test_vm.registers[3], 65535);
}

#[test]
fn test_step_off_end_mutates_nothing() {
    let mut test_vm = get_test_vm();
    test_vm.program = vec![1, 0];
    test_vm.remainder = 7;
    test_vm.pc = 2;
    let status = test_vm.run_once();
    assert_eq!(status, StepStatus::OffEnd);
    assert_eq!(test_vm.pc, 2);
    assert_eq!(test_vm.remainder, 7);
    assert_eq!(test_vm.registers[0], 10);
    assert_eq!(test_vm.registers[1], 20);
    assert_eq!(test_vm.program, vec![1, 0]);
}

#[test]
fn test_inspection_is_idempotent() {
    let mut test_vm = get_test_vm();
    test_vm.program = vec![0, 1, 2, 3];
    let registers_before = test_vm.registers.clone();
    let program_before = test_vm.program.clone();
    let pc_before = test_vm.pc;
    let remainder_before = test_vm.remainder;
    let mut total: i64 = 0;
    for value in &test_vm.registers {
        total += *value as i64;
    }
    assert_eq!(total, 30);
    for byte in &test_vm.program {
        total += *byte as i64;
    }
    assert_eq!(total, 36);
    assert_eq!(test_vm.registers, registers_before);
    assert_eq!(test_vm.program, program_before);
    assert_eq!(test_vm.pc, pc_before);
    assert_eq!(test_vm.remainder, remainder_before);
}

#[test]
fn test_truncated_instruction_faults() {
    let mut test_vm = VM::new();
    test_vm.program = vec![1, 0]; // LOAD missing its immediate
    let status = test_vm.run_once();
    assert_eq!(status, StepStatus::Truncated);
    assert_eq!(test_vm.pc, 1);
    assert_eq!(test_vm.registers[0], 0);
}

#[test]
fn test_bad_register_faults() {
    let mut test_vm = VM::new();
    test_vm.program = vec![2, 200, 0, 1]; // ADD with register 200
    let status = test_vm.run_once();
    assert_eq!(status, StepStatus::BadRegister);
    assert_eq!(test_vm.pc, 4);
    assert_eq!(test_vm.registers[1], 0);
}

#[test]
fn test_divide_by_zero_faults() {
    let mut test_vm = get_test_vm();
    test_vm.program = vec![5, 0, 2, 3]; // DIV $0 $2 $3 with $2 == 0
    let status = test_vm.run_once();
    assert_eq!(status, StepStatus::DivideByZero);
    assert_eq!(test_vm.registers[3], 0);
    assert_eq!(test_vm.remainder, 0);
}

#[test]
fn test_jump_back_underflow_faults() {
    let mut test_vm = get_test_vm();
    test_vm.program = vec![8, 0]; // JMPB $0 with displacement 10 from offset 2
    let status = test_vm.run_once();
    assert_eq!(status, StepStatus::PcOutOfRange);
    assert_eq!(test_vm.pc, 2);
}

#[test]
fn test_add_wraps_on_overflow() {
    let mut test_vm = VM::new();
    test_vm.registers[0] = i32::MAX;
    test_vm.registers[1] = 1;
    test_vm.program = vec![2, 0, 1, 2]; // ADD $0 $1 $2
    assert_eq!(test_vm.run_once(), StepStatus::Progress);
    assert_eq!(test_vm.registers[2], i32::MIN);
}

#[test]
fn test_div_min_by_minus_one_wraps() {
    let mut test_vm = VM::new();
    test_vm.registers[0] = i32::MIN;
    test_vm.registers[1] = -1;
    test_vm.program = vec![5, 0, 1, 2]; // DIV $0 $1 $2
    assert_eq!(test_vm.run_once(), StepStatus::Progress);
    assert_eq!(test_vm.registers[2], i32::MIN);
    assert_eq!(test_vm.remainder, 0);
}

#[test]
fn test_div_remainder_takes_sign_of_dividend() {
    let mut test_vm = VM::new();
    test_vm.registers[0] = -7;
    test_vm.registers[1] = 2;
    test_vm.program = vec![5, 0, 1, 2]; // DIV $0 $1 $2
    assert_eq!(test_vm.run_once(), StepStatus::Progress);
    assert_eq!(test_vm.registers[2], -3);
    assert_eq!(test_vm.remainder, (-1i32) as u32);
}

#[test]
fn test_jump_target_is_unsigned_reinterpretation() {
    let mut test_vm = VM::new();
    test_vm.registers[0] = -1;
    test_vm.program = vec![7, 0]; // JMP $0
    assert_eq!(test_vm.run_once(), StepStatus::Progress);
    assert_eq!(test_vm.pc, u32::MAX as usize);
}

#[test]
fn test_add_byte_appends() {
    let mut test_vm = VM::new();
    test_vm.add_byte(1);
    test_vm.add_byte(0);
    test_vm.add_byte(1);
    test_vm.add_byte(244);
    assert_eq!(test_vm.program, vec![1, 0, 1, 244]);
    assert_eq!(test_vm.pc, 0);
}
