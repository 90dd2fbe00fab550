//! The ways in which a source line can be refused.

use vstd::prelude::*;
use vstd::string::*;

verus! {

/// Why a line could not be turned into an instruction.
#[derive(Debug, PartialEq, Eq)]
pub enum AsmError {
    /// The first token names no instruction. Holds that token.
    UnknownMnemonic(String),
    /// The instruction has the wrong number of operands.
    ArityMismatch {
        /// The first token of the line.
        mnemonic: String,
        /// How many operands the instruction takes: 0 or 1.
        expected: usize,
        /// How many tokens the line holds, the mnemonic included.
        actual: usize,
    },
    /// The operand is not an unsigned 32-bit decimal number. Holds the operand token.
    OperandParseFailure(String),
}

/// The mathematical content of an [`AsmError`].
pub enum SpecAsmError {
    UnknownMnemonic(Seq<char>),
    ArityMismatch { mnemonic: Seq<char>, expected: nat, actual: nat },
    OperandParseFailure(Seq<char>),
}

impl View for AsmError {
    type V = SpecAsmError;

    open spec fn view(&self) -> SpecAsmError {
        match self {
            AsmError::UnknownMnemonic(token) => SpecAsmError::UnknownMnemonic(token@),
            AsmError::ArityMismatch { mnemonic, expected, actual } => SpecAsmError::ArityMismatch {
                mnemonic: mnemonic@,
                expected: *expected as nat,
                actual: *actual as nat,
            },
            AsmError::OperandParseFailure(token) => SpecAsmError::OperandParseFailure(token@),
        }
    }
}

impl SpecAsmError {
    /// The sentence that describes the error to a user.
    pub open spec fn message(self) -> Seq<char> {
        match self {
            SpecAsmError::UnknownMnemonic(token) => "Invalid opcode: "@ + token,
            SpecAsmError::ArityMismatch { mnemonic, expected, actual } => if expected == 0 {
                "Instruction "@ + mnemonic + ", must not have any operands."@
            } else {
                "Instruction "@ + mnemonic + ", must have one operand."@
            },
            SpecAsmError::OperandParseFailure(token) => "Invalid operand: "@ + token,
        }
    }
}

impl AsmError {
    /// The sentence that describes the error to a user.
    pub fn message(&self) -> (text: String)
        ensures
            text@ == self@.message(),
    {
        match self {
            AsmError::UnknownMnemonic(token) => {
                String::from_str("Invalid opcode: ").concat(token.as_str())
            },
            AsmError::ArityMismatch { mnemonic, expected, actual } => {
                let head = String::from_str("Instruction ").concat(mnemonic.as_str());
                if *expected == 0 {
                    head.concat(", must not have any operands.")
                } else {
                    head.concat(", must have one operand.")
                }
            },
            AsmError::OperandParseFailure(token) => {
                String::from_str("Invalid operand: ").concat(token.as_str())
            },
        }
    }
}

} // verus!
