//! A toolchain for a 16-bit instruction set: a line-oriented text assembler
//! and a CPU emulator with memory-mapped peripheral cells.
//!
//! The pipeline: source text is parsed line by line into an instruction
//! sequence and a label map (`tokens`), symbolic jump and call targets are
//! rewritten to concrete addresses (`label_resolver`), and the resolved
//! program is executed by a fetch-decode-execute loop (`emu`). Named
//! constants come from a definitions source loaded before parsing
//! (`location_resolver`). Every instruction has a fixed 3-byte encoding and
//! a canonical textual form (`instr_repr`).

pub mod errors;
pub mod text;
pub mod instr_repr;
pub mod source_cursor;
pub mod name_map;
pub mod tokens;
pub mod label_resolver;
pub mod location_resolver;
pub mod emu;
