//! Assembling source text into the byte stream of a program.

use vstd::prelude::*;
use crate::error::{AsmError, SpecAsmError};
use crate::instruction::{lemma_decode_encode, lemma_record_shape, Instruction, RECORD_LEN};
use crate::opcode::{lemma_mnemonic_shape, Opcode};
use crate::parser::{
    lemma_parse_well_formed, lemma_unknown_mnemonic, line_to_instruction, parse_line,
};
use crate::strings::{texts, uppercase, uppercase_of};
use crate::text::{lemma_split_single, lines, split_lines, trim, trim_text};

verus! {

/// What assembling gives: the bytes, or the error of a line.
pub type Assembled = Result<Seq<u8>, SpecAsmError>;

/// The record of a line whose letters are in upper case already: the line is
/// trimmed, parsed and encoded.
pub open spec fn spec_assemble_upper(upper: Seq<char>) -> Assembled {
    match parse_line(trim(upper)) {
        Ok(instruction) => Ok(instruction.spec_encode()),
        Err(error) => Err(error),
    }
}

/// The record of a source line: its letters are put in upper case first.
pub open spec fn spec_assemble_line(line: Seq<char>) -> Assembled {
    spec_assemble_upper(uppercase_of(line))
}

/// The records of `source_lines`, one after the other, or the error of the
/// first line that has one.
pub open spec fn assemble_lines(source_lines: Seq<Seq<char>>) -> Assembled
    decreases source_lines.len(),
{
    if source_lines.len() == 0 {
        Ok(Seq::empty())
    } else {
        match assemble_lines(source_lines.drop_last()) {
            Err(error) => Err(error),
            Ok(bytes) => match spec_assemble_line(source_lines.last()) {
                Err(error) => Err(error),
                Ok(record) => Ok(bytes + record),
            },
        }
    }
}

/// The program that `source` denotes: the records of its lines in order, or
/// the error of its first faulty line.
pub open spec fn spec_assemble(source: Seq<char>) -> Assembled {
    assemble_lines(lines(source))
}

/// Assembles one line whose letters are in upper case already.
pub fn assemble_upper(upper: &str) -> (assembled: Result<[u8; 5], AsmError>)
    ensures
        match spec_assemble_upper(upper@) {
            Ok(bytes) => assembled matches Ok(record) && record@ == bytes,
            Err(reason) => assembled matches Err(error) && error@ == reason,
        },
{
    let trimmed = trim_text(upper);
    match line_to_instruction(&trimmed) {
        Ok(instruction) => Ok(instruction.encode()),
        Err(error) => Err(error),
    }
}

/// Assembles one source line, in any mix of upper and lower case.
pub fn assemble_line(line: &str) -> (assembled: Result<[u8; 5], AsmError>)
    ensures
        match spec_assemble_line(line@) {
            Ok(bytes) => assembled matches Ok(record) && record@ == bytes,
            Err(reason) => assembled matches Err(error) && error@ == reason,
        },
{
    let upper = uppercase(line);
    assemble_upper(upper.as_str())
}

/// Assembles a whole source text. Every line has to hold an instruction:
/// at the first line that does not, assembly stops with that line's error
/// and gives no bytes.
pub fn assemble(source: &str) -> (assembled: Result<Vec<u8>, AsmError>)
    ensures
        match spec_assemble(source@) {
            Ok(program) => assembled matches Ok(bytes) && bytes@ == program && bytes.len()
                == RECORD_LEN * lines(source@).len(),
            Err(reason) => assembled matches Err(error) && error@ == reason,
        },
{
    let source_lines = split_lines(source);
    let ghost all = lines(source@);
    let mut bytes: Vec<u8> = Vec::new();
    let mut i: usize = 0;
    while i < source_lines.len()
        invariant
            i <= source_lines.len(),
            all == lines(source@),
            texts(source_lines@) == all,
            assemble_lines(all.take(i as int)) == Assembled::Ok(bytes@),
        decreases source_lines.len() - i,
    {
        assert(all.take(i + 1).drop_last() == all.take(i as int));
        match assemble_line(source_lines[i].as_str()) {
            Ok(record) => {
                let ghost before = bytes@;
                bytes.extend_from_slice(record.as_slice());
                assert(bytes@ == before + record@);
            },
            Err(error) => {
                proof {
                    lemma_error_stays(all, i + 1);
                }
                return Err(error);
            },
        }
        i += 1;
    }
    proof {
        assert(all.take(i as int) == all);
        lemma_records_in_order(all);
    }
    Ok(bytes)
}

/// Once the first `n` lines have an error, the whole text has that error.
pub proof fn lemma_error_stays(source_lines: Seq<Seq<char>>, n: int)
    requires
        0 <= n <= source_lines.len(),
        assemble_lines(source_lines.take(n)) is Err,
    ensures
        assemble_lines(source_lines) == assemble_lines(source_lines.take(n)),
    decreases source_lines.len() - n,
{
    if n == source_lines.len() {
        assert(source_lines.take(n) == source_lines);
    } else {
        assert(source_lines.take(n + 1).drop_last() == source_lines.take(n));
        lemma_error_stays(source_lines, n + 1);
    }
}

/// A line that assembles gives a record of five bytes.
pub proof fn lemma_assembled_line_length(upper: Seq<char>)
    ensures
        spec_assemble_upper(upper) matches Ok(record) ==> record.len() == RECORD_LEN,
{
    if let Ok(instruction) = parse_line(trim(upper)) {
        lemma_record_shape(instruction);
    }
}

/// A line that holds nothing but whitespace is refused: its one token is
/// empty, and no mnemonic is.
pub proof fn lemma_blank_line_refused(upper: Seq<char>)
    requires
        trim(upper).len() == 0,
    ensures
        spec_assemble_upper(upper) == Assembled::Err(SpecAsmError::UnknownMnemonic(Seq::empty())),
{
    let line = trim(upper);
    lemma_split_single(line, ' ');
    assert(line == Seq::<char>::empty());
    assert forall|op: Opcode| #[trigger] op.spec_mnemonic() != line by {
        lemma_mnemonic_shape(op);
    }
    lemma_unknown_mnemonic(line);
}

/// Lines that differ in the case of their letters only, so that their
/// upper-case forms agree, assemble alike.
pub proof fn lemma_case_insensitive(first: Seq<char>, second: Seq<char>)
    requires
        uppercase_of(first) == uppercase_of(second),
    ensures
        spec_assemble_line(first) == spec_assemble_line(second),
{
}

/// Where every line assembles, the text does.
pub proof fn lemma_all_lines_assemble(source_lines: Seq<Seq<char>>)
    requires
        forall|k: int|
            0 <= k < source_lines.len() ==> spec_assemble_line(#[trigger] source_lines[k]) is Ok,
    ensures
        assemble_lines(source_lines) is Ok,
    decreases source_lines.len(),
{
    if source_lines.len() > 0 {
        let front = source_lines.drop_last();
        assert forall|k: int| 0 <= k < front.len() implies spec_assemble_line(
            #[trigger] front[k],
        ) is Ok by {
            assert(front[k] == source_lines[k]);
        }
        lemma_all_lines_assemble(front);
    }
}

/// The bytes of a text that assembles: five for each line, and the record
/// of line `k` stands at offset `5 * k`, so the records keep the order of
/// their lines.
pub proof fn lemma_records_in_order(source_lines: Seq<Seq<char>>)
    requires
        assemble_lines(source_lines) is Ok,
    ensures
        assemble_lines(source_lines)->Ok_0.len() == RECORD_LEN * source_lines.len(),
        forall|k: int|
            0 <= k < source_lines.len() ==> spec_assemble_line(#[trigger] source_lines[k])
                == Assembled::Ok(assemble_lines(source_lines)->Ok_0.subrange(5 * k, 5 * k + 5)),
    decreases source_lines.len(),
{
    if source_lines.len() > 0 {
        let front = source_lines.drop_last();
        let last = source_lines.last();
        let bytes = assemble_lines(source_lines)->Ok_0;
        let front_bytes = assemble_lines(front)->Ok_0;
        let record = spec_assemble_line(last)->Ok_0;
        lemma_records_in_order(front);
        lemma_assembled_line_length(uppercase_of(last));
        assert forall|k: int| 0 <= k < source_lines.len() implies spec_assemble_line(
            #[trigger] source_lines[k],
        ) == Assembled::Ok(bytes.subrange(5 * k, 5 * k + 5)) by {
            if k < front.len() {
                assert(front[k] == source_lines[k]);
                assert(bytes.subrange(5 * k, 5 * k + 5) == front_bytes.subrange(5 * k, 5 * k + 5));
            } else {
                assert(bytes.subrange(5 * k, 5 * k + 5) == record);
            }
        }
    }
}

/// In a program, the five bytes at offset `5 * k` decode to the instruction
/// that line `k` denotes.
pub proof fn lemma_program_decodes(source_lines: Seq<Seq<char>>, k: int)
    requires
        assemble_lines(source_lines) is Ok,
        0 <= k < source_lines.len(),
    ensures
        parse_line(trim(uppercase_of(source_lines[k]))) matches Ok(instruction)
            && Instruction::spec_decode(
            assemble_lines(source_lines)->Ok_0.subrange(5 * k, 5 * k + 5),
        ) == Some(instruction),
{
    lemma_records_in_order(source_lines);
    let line = trim(uppercase_of(source_lines[k]));
    assert(spec_assemble_line(source_lines[k]) is Ok);
    lemma_parse_well_formed(line);
    lemma_decode_encode(parse_line(line)->Ok_0);
}

/// Where line `k` is the first that does not assemble, the text has the
/// error of that line.
pub proof fn lemma_first_error_wins(source_lines: Seq<Seq<char>>, k: int)
    requires
        0 <= k < source_lines.len(),
        forall|j: int| 0 <= j < k ==> spec_assemble_line(#[trigger] source_lines[j]) is Ok,
        spec_assemble_line(source_lines[k]) is Err,
    ensures
        assemble_lines(source_lines) == Assembled::Err(spec_assemble_line(source_lines[k])->Err_0),
{
    let front = source_lines.take(k);
    assert forall|j: int| 0 <= j < front.len() implies spec_assemble_line(#[trigger] front[j])
        is Ok by {
        assert(front[j] == source_lines[j]);
    }
    lemma_all_lines_assemble(front);
    assert(source_lines.take(k + 1).drop_last() == front);
    lemma_error_stays(source_lines, k + 1);
}

/// A text that does not assemble has a first line that does not, and the
/// error is that line's.
pub proof fn lemma_error_is_of_first_faulty_line(source_lines: Seq<Seq<char>>) -> (k: int)
    requires
        assemble_lines(source_lines) is Err,
    ensures
        0 <= k < source_lines.len(),
        forall|j: int| 0 <= j < k ==> spec_assemble_line(#[trigger] source_lines[j]) is Ok,
        spec_assemble_line(source_lines[k]) == Assembled::Err(assemble_lines(source_lines)->Err_0),
    decreases source_lines.len(),
{
    let front = source_lines.drop_last();
    if assemble_lines(front) is Err {
        let k = lemma_error_is_of_first_faulty_line(front);
        assert forall|j: int| 0 <= j < k implies spec_assemble_line(#[trigger] source_lines[j])
            is Ok by {
            assert(front[j] == source_lines[j]);
        }
        k
    } else {
        lemma_records_in_order(front);
        assert forall|j: int| 0 <= j < front.len() implies spec_assemble_line(
            #[trigger] source_lines[j],
        ) is Ok by {
            assert(front[j] == source_lines[j]);
        }
        source_lines.len() - 1
    }
}

} // verus!
