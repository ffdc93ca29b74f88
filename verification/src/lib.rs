//! A small register-based virtual machine together with the two-phase
//! assembler that turns its textual instruction language into the fixed
//! binary encoding the machine executes.
//!
//! The crate is organised the way the data flows: `parse` turns source
//! text into instruction records, `assembler` resolves labels and emits
//! bytes, and `vm` runs the bytes.  `instruction` holds the opcode table
//! both sides share, and `repl` the state an interactive session keeps.

pub mod assembler;
pub mod instruction;
pub mod parse;
pub mod repl;
pub mod text;
pub mod vm;
