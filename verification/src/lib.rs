//! A virtual machine for an eight-instruction, tape-based esoteric language.
//!
//! Source text is translated character by character into instructions
//! ([`instr`]); a [`machine::program`] then executes the instruction sequence
//! against a fixed-size circular byte tape, collecting everything the program
//! prints into an output buffer. Looping is implemented by a lazy linear
//! bracket-matching scan at every loop boundary, never by a precomputed jump
//! table. The mathematical model of execution lives in [`state`], and the
//! general laws of the machine are proved in [`laws`].

pub mod instr;
pub mod laws;
pub mod machine;
pub mod state;
