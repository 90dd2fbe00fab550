//! Instructions and their five-byte records.

use vstd::arithmetic::div_mod::lemma_fundamental_div_mod_converse;
use vstd::prelude::*;
use crate::opcode::{lemma_from_id_of_id, lemma_id_of_from_id, Opcode, OPCODE_COUNT};

verus! {

/// Length of a record in bytes.
pub const RECORD_LEN: usize = 5;

/// One instruction of a program.
#[derive(Clone, Copy, Debug, PartialEq, Eq, Structural)]
pub struct Instruction {
    pub opcode: Opcode,
    pub operand: Option<u32>,
}

/// The four bytes of `value`, least significant first.
pub open spec fn le_bytes(value: u32) -> Seq<u8> {
    seq![
        (value % 256) as u8,
        (value / 256 % 256) as u8,
        (value / 65536 % 256) as u8,
        (value / 16777216) as u8,
    ]
}

/// The number whose four bytes, least significant first, are `bytes`.
pub open spec fn le_value(bytes: Seq<u8>) -> int {
    bytes[0] + 256 * bytes[1] + 65536 * bytes[2] + 16777216 * bytes[3]
}

impl Instruction {
    /// An operand is present exactly where the opcode takes one.
    pub open spec fn well_formed(self) -> bool {
        self.operand is Some <==> self.opcode.takes_operand()
    }

    /// The number in the operand field of the record: the operand, or zero.
    pub open spec fn operand_field(self) -> u32 {
        match self.operand {
            Some(value) => value,
            None => 0,
        }
    }

    /// The record of this instruction: the opcode's identifier, then the
    /// operand field in little-endian order.
    pub open spec fn spec_encode(self) -> Seq<u8> {
        seq![self.opcode.id()] + le_bytes(self.operand_field())
    }

    /// The record of this instruction.
    pub fn encode(&self) -> (record: [u8; 5])
        ensures
            record@ == self.spec_encode(),
    {
        let field: u32 = match self.operand {
            Some(value) => value,
            None => 0,
        };
        [
            self.opcode.id(),
            (field % 256) as u8,
            (field / 256 % 256) as u8,
            (field / 65536 % 256) as u8,
            (field / 16777216) as u8,
        ]
    }

    /// The instruction that `record` stands for. There is one where the
    /// record has five bytes, the first is the identifier of an opcode, and
    /// the operand field is zero unless that opcode takes an operand.
    pub open spec fn spec_decode(record: Seq<u8>) -> Option<Instruction> {
        if record.len() != RECORD_LEN {
            None
        } else {
            match Opcode::from_id(record[0]) {
                None => None,
                Some(opcode) => {
                    let field = le_value(record.subrange(1, 5));
                    if opcode.takes_operand() {
                        Some(Instruction { opcode, operand: Some(field as u32) })
                    } else if field == 0 {
                        Some(Instruction { opcode, operand: None })
                    } else {
                        None
                    }
                },
            }
        }
    }

    /// Reads a record back: the inverse of [`Instruction::encode`].
    pub fn decode(record: &[u8; 5]) -> (decoded: Option<Instruction>)
        ensures
            decoded == Instruction::spec_decode(record@),
            decoded matches Some(instruction) ==> instruction.well_formed(),
    {
        let ghost fields = record@.subrange(1, 5);
        assert(fields[0] == record[1] && fields[1] == record[2] && fields[2] == record[3]
            && fields[3] == record[4]);
        match Opcode::from_id(record[0]) {
            None => None,
            Some(opcode) => {
                let low: u32 = record[1] as u32 + 256 * (record[2] as u32);
                let high: u32 = record[3] as u32 + 256 * (record[4] as u32);
                let field: u32 = low + 65536 * high;
                if opcode.takes_operand() {
                    Some(Instruction { opcode, operand: Some(field) })
                } else if field == 0 {
                    Some(Instruction { opcode, operand: None })
                } else {
                    None
                }
            },
        }
    }
}

/// A record has five bytes, and the first is the identifier of its opcode.
pub proof fn lemma_record_shape(instruction: Instruction)
    ensures
        instruction.spec_encode().len() == RECORD_LEN,
        instruction.spec_encode()[0] == instruction.opcode.id(),
        instruction.spec_encode()[0] < OPCODE_COUNT,
        instruction.spec_encode().subrange(1, 5) == le_bytes(instruction.operand_field()),
{
}

/// Reading the four operand bytes as a little-endian number gives the
/// number back that they were made from.
pub proof fn lemma_le_round_trip(value: u32)
    ensures
        le_bytes(value).len() == 4,
        le_value(le_bytes(value)) == value,
{
    let v = value as int;
    assert(v == v % 256 + 256 * (v / 256));
    assert(v / 256 == v / 256 % 256 + 256 * (v / 65536));
    assert(v / 65536 == v / 65536 % 256 + 256 * (v / 16777216));
}

/// Decoding the record of a well-formed instruction gives that instruction
/// back: its first byte names the opcode, and for an instruction with an
/// operand the other four hold the operand.
pub proof fn lemma_decode_encode(instruction: Instruction)
    requires
        instruction.well_formed(),
    ensures
        Instruction::spec_decode(instruction.spec_encode()) == Some(instruction),
        Opcode::spec_from_id(instruction.spec_encode()[0]) == Some(instruction.opcode),
        le_value(instruction.spec_encode().subrange(1, 5)) == instruction.operand_field(),
{
    lemma_record_shape(instruction);
    lemma_le_round_trip(instruction.operand_field());
    lemma_from_id_of_id(instruction.opcode);
}

/// The little-endian bytes of a number made from four bytes are those bytes.
pub proof fn lemma_le_bytes_of_value(bytes: Seq<u8>)
    requires
        bytes.len() == 4,
    ensures
        0 <= le_value(bytes) <= u32::MAX,
        le_bytes(le_value(bytes) as u32) == bytes,
{
    let value = le_value(bytes);
    let b0 = bytes[0] as int;
    let b1 = bytes[1] as int;
    let b2 = bytes[2] as int;
    let b3 = bytes[3] as int;
    let high1 = b1 + 256 * b2 + 65536 * b3;
    let high2 = b2 + 256 * b3;
    lemma_fundamental_div_mod_converse(value, 256, high1, b0);
    lemma_fundamental_div_mod_converse(high1, 256, high2, b1);
    lemma_fundamental_div_mod_converse(high2, 256, b3, b2);
    lemma_fundamental_div_mod_converse(value, 65536, high2, b0 + 256 * b1);
    lemma_fundamental_div_mod_converse(value, 16777216, b3, b0 + 256 * b1 + 65536 * b2);
    assert(le_bytes(value as u32) =~= bytes);
}

/// Encoding what a record decodes to gives the record back.
pub proof fn lemma_encode_decode(record: Seq<u8>)
    requires
        Instruction::spec_decode(record) is Some,
    ensures
        Instruction::spec_decode(record)->0.spec_encode() == record,
        Instruction::spec_decode(record)->0.well_formed(),
{
    lemma_id_of_from_id(record[0]);
    lemma_le_bytes_of_value(record.subrange(1, 5));
}

} // verus!
