//! The instruction set: identifiers, mnemonics and operand arity.

use vstd::prelude::*;
use vstd::string::*;
use crate::error::{AsmError, SpecAsmError};
use crate::strings::{chars_of, spells};

verus! {

/// Number of instruction kinds; identifiers are `0..OPCODE_COUNT`.
pub const OPCODE_COUNT: u8 = 26;

/// An instruction kind. The declaration order is the wire order: it fixes
/// each kind's identifier, see [`Opcode::id`].
#[derive(Clone, Copy, Debug, PartialEq, Eq, Structural)]
pub enum Opcode {
    Pushl,
    Pusha,
    Pop,
    Addi,
    Addf,
    Subi,
    Subf,
    Muli,
    Mulf,
    Divi,
    Divf,
    Jmp,
    Jz,
    Jnz,
    Jg,
    Jge,
    Jl,
    Jle,
    And,
    Or,
    Not,
    Xor,
    Call,
    Ret,
    Out,
    Halt,
}

impl Opcode {
    /// The identifier that stands for this opcode in a record.
    pub open spec fn spec_id(self) -> u8 {
        match self {
            Opcode::Pushl => 0,
            Opcode::Pusha => 1,
            Opcode::Pop => 2,
            Opcode::Addi => 3,
            Opcode::Addf => 4,
            Opcode::Subi => 5,
            Opcode::Subf => 6,
            Opcode::Muli => 7,
            Opcode::Mulf => 8,
            Opcode::Divi => 9,
            Opcode::Divf => 10,
            Opcode::Jmp => 11,
            Opcode::Jz => 12,
            Opcode::Jnz => 13,
            Opcode::Jg => 14,
            Opcode::Jge => 15,
            Opcode::Jl => 16,
            Opcode::Jle => 17,
            Opcode::And => 18,
            Opcode::Or => 19,
            Opcode::Not => 20,
            Opcode::Xor => 21,
            Opcode::Call => 22,
            Opcode::Ret => 23,
            Opcode::Out => 24,
            Opcode::Halt => 25,
        }
    }

    /// The identifier that stands for this opcode in a record.
    #[verifier::when_used_as_spec(spec_id)]
    pub fn id(self) -> (id: u8)
        ensures
            id == self.spec_id(),
            id < OPCODE_COUNT,
    {
        match self {
            Opcode::Pushl => 0,
            Opcode::Pusha => 1,
            Opcode::Pop => 2,
            Opcode::Addi => 3,
            Opcode::Addf => 4,
            Opcode::Subi => 5,
            Opcode::Subf => 6,
            Opcode::Muli => 7,
            Opcode::Mulf => 8,
            Opcode::Divi => 9,
            Opcode::Divf => 10,
            Opcode::Jmp => 11,
            Opcode::Jz => 12,
            Opcode::Jnz => 13,
            Opcode::Jg => 14,
            Opcode::Jge => 15,
            Opcode::Jl => 16,
            Opcode::Jle => 17,
            Opcode::And => 18,
            Opcode::Or => 19,
            Opcode::Not => 20,
            Opcode::Xor => 21,
            Opcode::Call => 22,
            Opcode::Ret => 23,
            Opcode::Out => 24,
            Opcode::Halt => 25,
        }
    }

    /// The opcode that `id` stands for, if any.
    pub open spec fn spec_from_id(id: u8) -> Option<Opcode> {
        match id {
            0 => Some(Opcode::Pushl),
            1 => Some(Opcode::Pusha),
            2 => Some(Opcode::Pop),
            3 => Some(Opcode::Addi),
            4 => Some(Opcode::Addf),
            5 => Some(Opcode::Subi),
            6 => Some(Opcode::Subf),
            7 => Some(Opcode::Muli),
            8 => Some(Opcode::Mulf),
            9 => Some(Opcode::Divi),
            10 => Some(Opcode::Divf),
            11 => Some(Opcode::Jmp),
            12 => Some(Opcode::Jz),
            13 => Some(Opcode::Jnz),
            14 => Some(Opcode::Jg),
            15 => Some(Opcode::Jge),
            16 => Some(Opcode::Jl),
            17 => Some(Opcode::Jle),
            18 => Some(Opcode::And),
            19 => Some(Opcode::Or),
            20 => Some(Opcode::Not),
            21 => Some(Opcode::Xor),
            22 => Some(Opcode::Call),
            23 => Some(Opcode::Ret),
            24 => Some(Opcode::Out),
            25 => Some(Opcode::Halt),
            _ => None,
        }
    }

    /// The opcode that `id` stands for: there is one exactly for the
    /// identifiers below `OPCODE_COUNT`.
    #[verifier::when_used_as_spec(spec_from_id)]
    pub fn from_id(id: u8) -> (found: Option<Opcode>)
        ensures
            found == Opcode::spec_from_id(id),
    {
        match id {
            0 => Some(Opcode::Pushl),
            1 => Some(Opcode::Pusha),
            2 => Some(Opcode::Pop),
            3 => Some(Opcode::Addi),
            4 => Some(Opcode::Addf),
            5 => Some(Opcode::Subi),
            6 => Some(Opcode::Subf),
            7 => Some(Opcode::Muli),
            8 => Some(Opcode::Mulf),
            9 => Some(Opcode::Divi),
            10 => Some(Opcode::Divf),
            11 => Some(Opcode::Jmp),
            12 => Some(Opcode::Jz),
            13 => Some(Opcode::Jnz),
            14 => Some(Opcode::Jg),
            15 => Some(Opcode::Jge),
            16 => Some(Opcode::Jl),
            17 => Some(Opcode::Jle),
            18 => Some(Opcode::And),
            19 => Some(Opcode::Or),
            20 => Some(Opcode::Not),
            21 => Some(Opcode::Xor),
            22 => Some(Opcode::Call),
            23 => Some(Opcode::Ret),
            24 => Some(Opcode::Out),
            25 => Some(Opcode::Halt),
            _ => None,
        }
    }

    /// Whether an instruction of this kind carries an operand.
    pub open spec fn spec_takes_operand(self) -> bool {
        match self {
            Opcode::Pushl
            | Opcode::Pusha
            | Opcode::Pop
            | Opcode::Jmp
            | Opcode::Jz
            | Opcode::Jnz
            | Opcode::Jg
            | Opcode::Jge
            | Opcode::Jl
            | Opcode::Jle
            | Opcode::Call => true,
            _ => false,
        }
    }

    /// Whether an instruction of this kind carries an operand.
    #[verifier::when_used_as_spec(spec_takes_operand)]
    pub fn takes_operand(self) -> (takes: bool)
        ensures
            takes == self.spec_takes_operand(),
    {
        match self {
            Opcode::Pushl
            | Opcode::Pusha
            | Opcode::Pop
            | Opcode::Jmp
            | Opcode::Jz
            | Opcode::Jnz
            | Opcode::Jg
            | Opcode::Jge
            | Opcode::Jl
            | Opcode::Jle
            | Opcode::Call => true,
            _ => false,
        }
    }

    /// How many operands an instruction of this kind carries: one or none.
    pub open spec fn spec_arity(self) -> usize {
        if self.takes_operand() {
            1
        } else {
            0
        }
    }

    /// How many operands an instruction of this kind carries: one or none.
    #[verifier::when_used_as_spec(spec_arity)]
    pub fn arity(self) -> (count: usize)
        ensures
            count == self.spec_arity(),
    {
        if self.takes_operand() {
            1
        } else {
            0
        }
    }

    /// The mnemonic, in upper case, that names this opcode in source text.
    pub open spec fn spec_mnemonic(self) -> Seq<char> {
        match self {
            Opcode::Pushl => "PUSHL"@,
            Opcode::Pusha => "PUSHA"@,
            Opcode::Pop => "POP"@,
            Opcode::Addi => "ADDI"@,
            Opcode::Addf => "ADDF"@,
            Opcode::Subi => "SUBI"@,
            Opcode::Subf => "SUBF"@,
            Opcode::Muli => "MULI"@,
            Opcode::Mulf => "MULF"@,
            Opcode::Divi => "DIVI"@,
            Opcode::Divf => "DIVF"@,
            Opcode::Jmp => "JMP"@,
            Opcode::Jz => "JZ"@,
            Opcode::Jnz => "JNZ"@,
            Opcode::Jg => "JG"@,
            Opcode::Jge => "JGE"@,
            Opcode::Jl => "JL"@,
            Opcode::Jle => "JLE"@,
            Opcode::And => "AND"@,
            Opcode::Or => "OR"@,
            Opcode::Not => "NOT"@,
            Opcode::Xor => "XOR"@,
            Opcode::Call => "CALL"@,
            Opcode::Ret => "RET"@,
            Opcode::Out => "OUT"@,
            Opcode::Halt => "HALT"@,
        }
    }

    /// The mnemonic, in upper case, that names this opcode in source text.
    pub fn mnemonic(self) -> (name: &'static str)
        ensures
            name@ == self.spec_mnemonic(),
    {
        match self {
            Opcode::Pushl => "PUSHL",
            Opcode::Pusha => "PUSHA",
            Opcode::Pop => "POP",
            Opcode::Addi => "ADDI",
            Opcode::Addf => "ADDF",
            Opcode::Subi => "SUBI",
            Opcode::Subf => "SUBF",
            Opcode::Muli => "MULI",
            Opcode::Mulf => "MULF",
            Opcode::Divi => "DIVI",
            Opcode::Divf => "DIVF",
            Opcode::Jmp => "JMP",
            Opcode::Jz => "JZ",
            Opcode::Jnz => "JNZ",
            Opcode::Jg => "JG",
            Opcode::Jge => "JGE",
            Opcode::Jl => "JL",
            Opcode::Jle => "JLE",
            Opcode::And => "AND",
            Opcode::Or => "OR",
            Opcode::Not => "NOT",
            Opcode::Xor => "XOR",
            Opcode::Call => "CALL",
            Opcode::Ret => "RET",
            Opcode::Out => "OUT",
            Opcode::Halt => "HALT",
        }
    }
}

/// The opcode whose mnemonic is `name`, if there is one. The comparison is
/// exact: a mnemonic is written in upper case.
pub open spec fn spec_lookup(name: Seq<char>) -> Option<Opcode> {
    if exists|op: Opcode| #[trigger] op.spec_mnemonic() == name {
        Some(choose|op: Opcode| #[trigger] op.spec_mnemonic() == name)
    } else {
        None
    }
}

/// No two opcodes share a mnemonic.
pub proof fn lemma_mnemonics_distinct(a: Opcode, b: Opcode)
    requires
        a.spec_mnemonic() == b.spec_mnemonic(),
    ensures
        a == b,
{
    reveal_strlit("PUSHL");
    reveal_strlit("PUSHA");
    reveal_strlit("POP");
    reveal_strlit("ADDI");
    reveal_strlit("ADDF");
    reveal_strlit("SUBI");
    reveal_strlit("SUBF");
    reveal_strlit("MULI");
    reveal_strlit("MULF");
    reveal_strlit("DIVI");
    reveal_strlit("DIVF");
    reveal_strlit("JMP");
    reveal_strlit("JZ");
    reveal_strlit("JNZ");
    reveal_strlit("JG");
    reveal_strlit("JGE");
    reveal_strlit("JL");
    reveal_strlit("JLE");
    reveal_strlit("AND");
    reveal_strlit("OR");
    reveal_strlit("NOT");
    reveal_strlit("XOR");
    reveal_strlit("CALL");
    reveal_strlit("RET");
    reveal_strlit("OUT");
    reveal_strlit("HALT");
    let s = a.spec_mnemonic();
    let t = b.spec_mnemonic();
    assert(s.len() == t.len() && s[0] == t[0] && s[1] == t[1] && s.last() == t.last());
}

/// A mnemonic is a word of two to five capital letters.
pub proof fn lemma_mnemonic_shape(op: Opcode)
    ensures
        2 <= op.spec_mnemonic().len() <= 5,
        forall|i: int|
            0 <= i < op.spec_mnemonic().len() ==> 'A' <= #[trigger] op.spec_mnemonic()[i] <= 'Z',
{
    reveal_strlit("PUSHL");
    reveal_strlit("PUSHA");
    reveal_strlit("POP");
    reveal_strlit("ADDI");
    reveal_strlit("ADDF");
    reveal_strlit("SUBI");
    reveal_strlit("SUBF");
    reveal_strlit("MULI");
    reveal_strlit("MULF");
    reveal_strlit("DIVI");
    reveal_strlit("DIVF");
    reveal_strlit("JMP");
    reveal_strlit("JZ");
    reveal_strlit("JNZ");
    reveal_strlit("JG");
    reveal_strlit("JGE");
    reveal_strlit("JL");
    reveal_strlit("JLE");
    reveal_strlit("AND");
    reveal_strlit("OR");
    reveal_strlit("NOT");
    reveal_strlit("XOR");
    reveal_strlit("CALL");
    reveal_strlit("RET");
    reveal_strlit("OUT");
    reveal_strlit("HALT");
}

/// Looking an opcode's mnemonic up gives the opcode back.
pub proof fn lemma_lookup_of_mnemonic(op: Opcode)
    ensures
        spec_lookup(op.spec_mnemonic()) == Some(op),
{
    let found = choose|other: Opcode| #[trigger] other.spec_mnemonic() == op.spec_mnemonic();
    lemma_mnemonics_distinct(found, op);
}

/// Finds the opcode that the mnemonic `name` stands for. The name has to be
/// in upper case already.
pub fn lookup(name: &str) -> (found: Result<Opcode, AsmError>)
    ensures
        match spec_lookup(name@) {
            Some(op) => found matches Ok(opcode) && opcode == op,
            None => found matches Err(error) && error@ == SpecAsmError::UnknownMnemonic(name@),
        },
{
    let chars = chars_of(name);
    let mut id: u8 = 0;
    while id < OPCODE_COUNT
        invariant
            id <= OPCODE_COUNT,
            chars@ == name@,
            forall|op: Opcode| op.spec_id() < id ==> #[trigger] op.spec_mnemonic() != name@,
        decreases OPCODE_COUNT - id,
    {
        if let Some(op) = Opcode::from_id(id) {
            if spells(&chars, op.mnemonic()) {
                proof {
                    lemma_lookup_of_mnemonic(op);
                }
                return Ok(op);
            }
        }
        proof {
            assert forall|op: Opcode| op.spec_id() < id + 1 implies #[trigger] op.spec_mnemonic()
                != name@ by {
                lemma_from_id_of_id(op);
            }
        }
        id += 1;
    }
    proof {
        assert forall|op: Opcode| #[trigger] op.spec_mnemonic() != name@ by {
            lemma_from_id_of_id(op);
        }
    }
    Err(AsmError::UnknownMnemonic(String::from_str(name)))
}

/// No two opcodes share an identifier: looking an opcode's identifier up
/// gives the opcode back.
pub proof fn lemma_from_id_of_id(op: Opcode)
    ensures
        op.spec_id() < OPCODE_COUNT,
        Opcode::spec_from_id(op.spec_id()) == Some(op),
{
}

/// An identifier stands for an opcode exactly if it is below `OPCODE_COUNT`,
/// and that opcode has the identifier.
pub proof fn lemma_id_of_from_id(id: u8)
    ensures
        Opcode::spec_from_id(id) is Some <==> id < OPCODE_COUNT,
        Opcode::spec_from_id(id) matches Some(op) ==> op.spec_id() == id,
{
}

} // verus!
