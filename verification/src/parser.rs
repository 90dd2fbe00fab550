//! Parsing one normalized line into an instruction.

use vstd::prelude::*;
use crate::decimal::{parse_u32, spec_parse_u32};
use crate::error::{AsmError, SpecAsmError};
use crate::instruction::Instruction;
use crate::opcode::{lemma_lookup_of_mnemonic, lemma_mnemonic_shape, lookup, spec_lookup, Opcode};
use crate::text::{free_of, join, lemma_split_join, split, split_text};

verus! {

/// What parsing a line gives: the instruction, or the reason why there is none.
pub type Parsed = Result<Instruction, SpecAsmError>;

/// The instruction that `line` denotes, or the reason why it denotes none.
///
/// The line is split at every space. Its first token has to be a mnemonic,
/// and after it there have to be as many tokens as the opcode takes operands:
/// one or none. An operand is a decimal literal. The line is taken as it
/// stands: its letters are expected in upper case, and a space at either end,
/// or two in a row, make an empty token.
pub open spec fn parse_line(line: Seq<char>) -> Parsed {
    let tokens = split(line, ' ');
    match spec_lookup(tokens[0]) {
        None => Err(SpecAsmError::UnknownMnemonic(tokens[0])),
        Some(opcode) => if tokens.len() != 1 + opcode.arity() {
            Err(
                SpecAsmError::ArityMismatch {
                    mnemonic: tokens[0],
                    expected: opcode.arity() as nat,
                    actual: tokens.len(),
                },
            )
        } else if opcode.takes_operand() {
            match spec_parse_u32(tokens[1]) {
                Some(value) => Ok(Instruction { opcode, operand: Some(value) }),
                None => Err(SpecAsmError::OperandParseFailure(tokens[1])),
            }
        } else {
            Ok(Instruction { opcode, operand: None })
        },
    }
}

/// Parses one line, already trimmed and in upper case.
pub fn line_to_instruction(line: &String) -> (parsed: Result<Instruction, AsmError>)
    ensures
        match parse_line(line@) {
            Ok(instruction) => parsed matches Ok(found) && found == instruction
                && instruction.well_formed(),
            Err(reason) => parsed matches Err(error) && error@ == reason,
        },
{
    let tokens = split_text(line.as_str(), ' ');
    let opcode = match lookup(tokens[0].as_str()) {
        Ok(opcode) => opcode,
        Err(error) => {
            return Err(error);
        },
    };
    if tokens.len() != 1 + opcode.arity() {
        return Err(
            AsmError::ArityMismatch {
                mnemonic: tokens[0].clone(),
                expected: opcode.arity(),
                actual: tokens.len(),
            },
        );
    }
    if opcode.takes_operand() {
        match parse_u32(tokens[1].as_str()) {
            Some(value) => Ok(Instruction { opcode, operand: Some(value) }),
            None => Err(AsmError::OperandParseFailure(tokens[1].clone())),
        }
    } else {
        Ok(Instruction { opcode, operand: None })
    }
}

/// A line that parses gives a well-formed instruction: an operand is present
/// exactly where the opcode takes one.
pub proof fn lemma_parse_well_formed(line: Seq<char>)
    ensures
        parse_line(line) matches Ok(instruction) ==> instruction.well_formed(),
{
}

/// The line made of a mnemonic and of operand tokens, with one space between
/// each two, has the mnemonic as its first token and the operand tokens as
/// the others.
pub proof fn lemma_tokens_of_line(op: Opcode, operands: Seq<Seq<char>>)
    requires
        forall|k: int| 0 <= k < operands.len() ==> free_of(#[trigger] operands[k], ' '),
    ensures
        split(join(seq![op.spec_mnemonic()] + operands, ' '), ' ') == seq![op.spec_mnemonic()]
            + operands,
{
    let tokens = seq![op.spec_mnemonic()] + operands;
    lemma_mnemonic_shape(op);
    assert forall|k: int| 0 <= k < tokens.len() implies free_of(#[trigger] tokens[k], ' ') by {
        if k > 0 {
            assert(tokens[k] == operands[k - 1]);
        }
    }
    lemma_split_join(tokens, ' ');
}

/// A line whose first token is the mnemonic of an opcode that takes an
/// operand: with no operand token, or with two or more, it is refused for
/// its arity; with exactly one, it parses if that token is a decimal literal
/// and is refused for its operand otherwise.
pub proof fn lemma_operand_required(op: Opcode, line: Seq<char>)
    requires
        op.takes_operand(),
        split(line, ' ')[0] == op.spec_mnemonic(),
    ensures
        ({
            let tokens = split(line, ' ');
            &&& tokens.len() != 2 ==> parse_line(line) == Parsed::Err(
                SpecAsmError::ArityMismatch {
                    mnemonic: op.spec_mnemonic(),
                    expected: 1,
                    actual: tokens.len(),
                },
            )
            &&& tokens.len() == 2 ==> parse_line(line) == match spec_parse_u32(tokens[1]) {
                Some(value) => Parsed::Ok(Instruction { opcode: op, operand: Some(value) }),
                None => Parsed::Err(SpecAsmError::OperandParseFailure(tokens[1])),
            }
        }),
{
    lemma_lookup_of_mnemonic(op);
}

/// A line whose first token is the mnemonic of an opcode that takes no
/// operand parses if it holds nothing else, and is refused for its arity if
/// any token follows.
pub proof fn lemma_no_operand(op: Opcode, line: Seq<char>)
    requires
        !op.takes_operand(),
        split(line, ' ')[0] == op.spec_mnemonic(),
    ensures
        ({
            let tokens = split(line, ' ');
            &&& tokens.len() != 1 ==> parse_line(line) == Parsed::Err(
                SpecAsmError::ArityMismatch {
                    mnemonic: op.spec_mnemonic(),
                    expected: 0,
                    actual: tokens.len(),
                },
            )
            &&& tokens.len() == 1 ==> parse_line(line) == Parsed::Ok(
                Instruction { opcode: op, operand: None },
            )
        }),
{
    lemma_lookup_of_mnemonic(op);
}

/// A line whose first token is no mnemonic is refused as such, whatever
/// follows the token.
pub proof fn lemma_unknown_mnemonic(line: Seq<char>)
    requires
        forall|op: Opcode| #[trigger] op.spec_mnemonic() != split(line, ' ')[0],
    ensures
        parse_line(line) == Parsed::Err(SpecAsmError::UnknownMnemonic(split(line, ' ')[0])),
{
}

} // verus!
