//! A single-pass assembler for a small stack machine.
//!
//! Source text holds one instruction per line: a mnemonic, followed for some
//! instructions by one unsigned decimal operand. Every instruction becomes a
//! five-byte record: the opcode's identifier and the operand in little-endian
//! order. A program is the records of its lines, in order, and nothing else.
//!
//! The modules, leaf first:
//! - [`strings`]: strings as character sequences, and case folding;
//! - [`error`]: the ways in which a line can be refused;
//! - [`text`]: lines, trimming and tokens;
//! - [`decimal`]: operand literals;
//! - [`opcode`]: the instruction set, its identifiers, mnemonics and arity;
//! - [`instruction`]: instructions and their records;
//! - [`parser`]: one line to one instruction;
//! - [`assembler`]: a whole source text to its bytes.

pub mod assembler;
pub mod decimal;
pub mod error;
pub mod instruction;
pub mod opcode;
pub mod parser;
pub mod strings;
pub mod text;

pub use assembler::{assemble, assemble_line, assemble_upper};
pub use error::AsmError;
pub use instruction::Instruction;
pub use opcode::Opcode;
pub use parser::line_to_instruction;
