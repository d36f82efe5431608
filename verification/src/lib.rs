//! A minimal instruction-set simulator for a MIPS-like 32-bit word
//! architecture.
//!
//! The library interprets a sequence of pre-assembled 32-bit machine words
//! against a register file of 32 signed registers. Three operations are
//! implemented: `addi`, `beq` and `bne`; every other opcode (including the
//! R-type encoding, opcode 0) is rejected as unimplemented. The whole
//! transition semantics is written down as spec-level functions
//! ([`machine::step_spec`], [`run::run_spec`]), and every executable entry
//! point is proved to return exactly what those functions describe.
//!
//! Reading the instruction file, command-line handling and printing of trace
//! lines are left to the embedding program; the library works on plain bytes,
//! strings and words and hands back structured trace records.

pub mod args;
pub mod decode;
pub mod laws;
pub mod loader;
pub mod machine;
pub mod run;
