use stack_asm::error::AsmError;
use stack_asm::instruction::Instruction;
use stack_asm::opcode::{Opcode, OPCODE_COUNT};
use stack_asm::parser::line_to_instruction;

fn parse(line: &str) -> Result<Instruction, AsmError> {
    line_to_instruction(&line.to_string())
}

fn arity(mnemonic: &str, expected: usize, actual: usize) -> Result<Instruction, AsmError> {
    Err(AsmError::ArityMismatch { mnemonic: mnemonic.to_string(), expected, actual })
}

#[test]
fn instruction_without_operand() {
    assert_eq!(parse("HALT"), Ok(Instruction { opcode: Opcode::Halt, operand: None }));
    assert_eq!(parse("ADDF"), Ok(Instruction { opcode: Opcode::Addf, operand: None }));
}

#[test]
fn instruction_with_operand() {
    assert_eq!(parse("PUSHL 10"), Ok(Instruction { opcode: Opcode::Pushl, operand: Some(10) }));
    assert_eq!(parse("JMP 300"), Ok(Instruction { opcode: Opcode::Jmp, operand: Some(300) }));
    assert_eq!(
        parse("CALL 4294967295"),
        Ok(Instruction { opcode: Opcode::Call, operand: Some(u32::MAX) })
    );
    assert_eq!(parse("POP +1"), Ok(Instruction { opcode: Opcode::Pop, operand: Some(1) }));
}

#[test]
fn every_opcode_with_operand_asks_for_exactly_one() {
    for id in 0..OPCODE_COUNT {
        let opcode = Opcode::from_id(id).unwrap();
        if !opcode.takes_operand() {
            continue;
        }
        let name = opcode.mnemonic();
        assert_eq!(parse(name), arity(name, 1, 1));
        assert_eq!(parse(&format!("{} 1 2", name)), arity(name, 1, 3));
        assert_eq!(parse(&format!("{} 1 2 3", name)), arity(name, 1, 4));
        assert_eq!(parse(&format!("{} x y", name)), arity(name, 1, 3));
        assert_eq!(parse(&format!("{} 77", name)), Ok(Instruction { opcode, operand: Some(77) }));
    }
}

#[test]
fn every_opcode_without_operand_refuses_one() {
    for id in 0..OPCODE_COUNT {
        let opcode = Opcode::from_id(id).unwrap();
        if opcode.takes_operand() {
            continue;
        }
        let name = opcode.mnemonic();
        assert_eq!(parse(name), Ok(Instruction { opcode, operand: None }));
        assert_eq!(parse(&format!("{} 1", name)), arity(name, 0, 2));
        assert_eq!(parse(&format!("{} 1 2", name)), arity(name, 0, 3));
        assert_eq!(parse(&format!("{} ", name)), arity(name, 0, 2));
    }
}

#[test]
fn unknown_mnemonic_whatever_follows() {
    assert_eq!(parse("FOO"), Err(AsmError::UnknownMnemonic("FOO".to_string())));
    assert_eq!(parse("FOO 1"), Err(AsmError::UnknownMnemonic("FOO".to_string())));
    assert_eq!(parse("FOO 1 2 3"), Err(AsmError::UnknownMnemonic("FOO".to_string())));
    assert_eq!(parse(""), Err(AsmError::UnknownMnemonic(String::new())));
    assert_eq!(parse(" HALT"), Err(AsmError::UnknownMnemonic(String::new())));
}

#[test]
fn a_line_is_taken_as_it_stands() {
    assert_eq!(parse("halt"), Err(AsmError::UnknownMnemonic("halt".to_string())));
    assert_eq!(parse("HALT\n"), Err(AsmError::UnknownMnemonic("HALT\n".to_string())));
}

#[test]
fn operand_that_is_no_number() {
    assert_eq!(parse("PUSHL ten"), Err(AsmError::OperandParseFailure("ten".to_string())));
    assert_eq!(parse("PUSHL -1"), Err(AsmError::OperandParseFailure("-1".to_string())));
    assert_eq!(parse("PUSHL 1.5"), Err(AsmError::OperandParseFailure("1.5".to_string())));
    assert_eq!(
        parse("PUSHL 4294967296"),
        Err(AsmError::OperandParseFailure("4294967296".to_string()))
    );
    assert_eq!(parse("PUSHL "), Err(AsmError::OperandParseFailure(String::new())));
}

#[test]
fn arity_is_checked_before_the_operand() {
    assert_eq!(parse("PUSHL ten 2"), arity("PUSHL", 1, 3));
    assert_eq!(parse("PUSHL  10"), arity("PUSHL", 1, 3));
}

#[test]
fn messages_name_the_token() {
    assert_eq!(parse("FOO 1").unwrap_err().message(), "Invalid opcode: FOO");
    assert_eq!(parse("PUSHL").unwrap_err().message(), "Instruction PUSHL, must have one operand.");
    assert_eq!(
        parse("HALT 1").unwrap_err().message(),
        "Instruction HALT, must not have any operands."
    );
    assert_eq!(parse("PUSHL ten").unwrap_err().message(), "Invalid operand: ten");
}
