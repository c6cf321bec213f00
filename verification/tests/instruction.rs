use firefaith::instruction::{Instruction, Opcode};

#[test]
fn test_create_opcode() {
    let opcode = Opcode::HLT;
    assert_eq!(opcode, Opcode::HLT);
}

#[test]
fn test_create_instruction() {
    let instruction = Instruction::new(Opcode::HLT);
    assert_eq!(instruction.opcode, Opcode::HLT);
}

#[test]
fn test_decode_table_in_order() {
    assert_eq!(Opcode::from(0), Opcode::HLT);
    assert_eq!(Opcode::from(1), Opcode::LOAD);
    assert_eq!(Opcode::from(2), Opcode::ADD);
    assert_eq!(Opcode::from(3), Opcode::SUB);
    assert_eq!(Opcode::from(4), Opcode::MUL);
    assert_eq!(Opcode::from(5), Opcode::DIV);
    assert_eq!(Opcode::from(6), Opcode::MOV);
    assert_eq!(Opcode::from(7), Opcode::JMP);
    assert_eq!(Opcode::from(8), Opcode::JMPB);
    assert_eq!(Opcode::from(9), Opcode::JMPF);
}

#[test]
fn test_decode_unknown_bytes_are_illegal() {
    assert_eq!(Opcode::from(10), Opcode::IGL);
    assert_eq!(Opcode::from(100), Opcode::IGL);
    assert_eq!(Opcode::from(255), Opcode::IGL);
}

#[test]
fn test_decode_deterministic() {
    for byte in 0..=255u8 {
        assert_eq!(Opcode::from(byte), Opcode::from(byte));
    }
}
