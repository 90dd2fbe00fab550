use stack_asm::error::AsmError;
use stack_asm::opcode::{lookup, Opcode, OPCODE_COUNT};

const TABLE: [(Opcode, &str, bool); 26] = [
    (Opcode::Pushl, "PUSHL", true),
    (Opcode::Pusha, "PUSHA", true),
    (Opcode::Pop, "POP", true),
    (Opcode::Addi, "ADDI", false),
    (Opcode::Addf, "ADDF", false),
    (Opcode::Subi, "SUBI", false),
    (Opcode::Subf, "SUBF", false),
    (Opcode::Muli, "MULI", false),
    (Opcode::Mulf, "MULF", false),
    (Opcode::Divi, "DIVI", false),
    (Opcode::Divf, "DIVF", false),
    (Opcode::Jmp, "JMP", true),
    (Opcode::Jz, "JZ", true),
    (Opcode::Jnz, "JNZ", true),
    (Opcode::Jg, "JG", true),
    (Opcode::Jge, "JGE", true),
    (Opcode::Jl, "JL", true),
    (Opcode::Jle, "JLE", true),
    (Opcode::And, "AND", false),
    (Opcode::Or, "OR", false),
    (Opcode::Not, "NOT", false),
    (Opcode::Xor, "XOR", false),
    (Opcode::Call, "CALL", true),
    (Opcode::Ret, "RET", false),
    (Opcode::Out, "OUT", false),
    (Opcode::Halt, "HALT", false),
];

#[test]
fn identifiers_follow_the_fixed_order() {
    assert_eq!(OPCODE_COUNT, 26);
    for (position, (opcode, _, _)) in TABLE.iter().enumerate() {
        assert_eq!(opcode.id() as usize, position);
    }
}

#[test]
fn from_id_inverts_id() {
    for (opcode, _, _) in TABLE.iter() {
        assert_eq!(Opcode::from_id(opcode.id()), Some(*opcode));
    }
    for id in 26..=255u8 {
        assert_eq!(Opcode::from_id(id), None);
    }
}

#[test]
fn mnemonics_are_spelled_as_listed() {
    for (opcode, mnemonic, _) in TABLE.iter() {
        assert_eq!(opcode.mnemonic(), *mnemonic);
    }
}

#[test]
fn lookup_inverts_mnemonic() {
    for (opcode, mnemonic, _) in TABLE.iter() {
        assert_eq!(lookup(mnemonic), Ok(*opcode));
    }
}

#[test]
fn lookup_is_case_sensitive() {
    assert_eq!(lookup("halt"), Err(AsmError::UnknownMnemonic("halt".to_string())));
    assert_eq!(lookup("Halt"), Err(AsmError::UnknownMnemonic("Halt".to_string())));
}

#[test]
fn lookup_refuses_what_is_no_mnemonic() {
    for name in ["", "FOO", "PUSH", "PUSHLL", "HAL", "HALTS", " HALT", "J", "JGEE", "O"] {
        assert_eq!(lookup(name), Err(AsmError::UnknownMnemonic(name.to_string())));
    }
}

#[test]
fn operand_is_taken_by_the_listed_opcodes_only() {
    let mut with_operand = 0;
    for (opcode, _, takes) in TABLE.iter() {
        assert_eq!(opcode.takes_operand(), *takes);
        assert_eq!(opcode.arity(), if *takes { 1 } else { 0 });
        if opcode.takes_operand() {
            with_operand += 1;
        }
    }
    assert_eq!(with_operand, 11);
}
