use stack_asm::instruction::{Instruction, RECORD_LEN};
use stack_asm::opcode::{Opcode, OPCODE_COUNT};

#[test]
fn record_has_five_bytes() {
    assert_eq!(RECORD_LEN, 5);
    let record = Instruction { opcode: Opcode::Halt, operand: None }.encode();
    assert_eq!(record.len(), RECORD_LEN);
}

#[test]
fn operand_is_little_endian() {
    let encode =
        |operand: u32| Instruction { opcode: Opcode::Pushl, operand: Some(operand) }.encode();
    assert_eq!(encode(0), [0, 0, 0, 0, 0]);
    assert_eq!(encode(10), [0, 10, 0, 0, 0]);
    assert_eq!(encode(255), [0, 255, 0, 0, 0]);
    assert_eq!(encode(256), [0, 0, 1, 0, 0]);
    assert_eq!(encode(300), [0, 0x2c, 0x01, 0, 0]);
    assert_eq!(encode(65536), [0, 0, 0, 1, 0]);
    assert_eq!(encode(16777216), [0, 0, 0, 0, 1]);
    assert_eq!(encode(0x12345678), [0, 0x78, 0x56, 0x34, 0x12]);
    assert_eq!(encode(u32::MAX), [0, 255, 255, 255, 255]);
}

#[test]
fn operand_bytes_agree_with_the_standard_library() {
    let samples =
        [0u32, 1, 255, 256, 300, 65535, 65536, 16777215, 16777216, 0xdeadbeef, u32::MAX];
    for operand in samples {
        let record = Instruction { opcode: Opcode::Call, operand: Some(operand) }.encode();
        assert_eq!(record[0], 22);
        assert_eq!(&record[1..], &operand.to_le_bytes()[..]);
        assert_eq!(u32::from_le_bytes([record[1], record[2], record[3], record[4]]), operand);
    }
}

#[test]
fn absent_operand_is_zero_filled() {
    assert_eq!(Instruction { opcode: Opcode::Ret, operand: None }.encode(), [23, 0, 0, 0, 0]);
    assert_eq!(Instruction { opcode: Opcode::Addi, operand: None }.encode(), [3, 0, 0, 0, 0]);
}

#[test]
fn first_byte_is_always_in_the_table() {
    for id in 0..OPCODE_COUNT {
        let opcode = Opcode::from_id(id).unwrap();
        let operand = if opcode.takes_operand() { Some(0xa1b2c3d4) } else { None };
        let record = Instruction { opcode, operand }.encode();
        assert!(record[0] < OPCODE_COUNT);
        assert_eq!(Opcode::from_id(record[0]), Some(opcode));
    }
}

#[test]
fn decode_inverts_encode() {
    for id in 0..OPCODE_COUNT {
        let opcode = Opcode::from_id(id).unwrap();
        let operands: Vec<Option<u32>> = if opcode.takes_operand() {
            vec![Some(0), Some(1), Some(300), Some(0x01020304), Some(u32::MAX)]
        } else {
            vec![None]
        };
        for operand in operands {
            let instruction = Instruction { opcode, operand };
            assert_eq!(Instruction::decode(&instruction.encode()), Some(instruction));
        }
    }
}

#[test]
fn encode_inverts_decode() {
    let samples =
        [[0u8, 1, 2, 3, 4], [25, 0, 0, 0, 0], [11, 0x2c, 1, 0, 0], [22, 255, 255, 255, 255]];
    for record in samples {
        assert_eq!(Instruction::decode(&record).unwrap().encode(), record);
    }
}

#[test]
fn decode_refuses_what_is_no_record() {
    assert_eq!(Instruction::decode(&[26, 0, 0, 0, 0]), None);
    assert_eq!(Instruction::decode(&[255, 0, 0, 0, 0]), None);
    assert_eq!(Instruction::decode(&[25, 1, 0, 0, 0]), None);
    assert_eq!(Instruction::decode(&[3, 0, 0, 0, 1]), None);
}

#[test]
fn decode_reads_the_operand() {
    assert_eq!(
        Instruction::decode(&[11, 0x2c, 0x01, 0, 0]),
        Some(Instruction { opcode: Opcode::Jmp, operand: Some(300) })
    );
    assert_eq!(
        Instruction::decode(&[0, 0, 0, 0, 0]),
        Some(Instruction { opcode: Opcode::Pushl, operand: Some(0) })
    );
    assert_eq!(
        Instruction::decode(&[25, 0, 0, 0, 0]),
        Some(Instruction { opcode: Opcode::Halt, operand: None })
    );
}
