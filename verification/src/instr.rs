//! The translator: maps raw source characters to instructions.

use vstd::prelude::*;

verus! {

/// One decoded unit of behavior, corresponding to one source character.
///
/// `Replace` (the "read a byte" opcode) is recognized but deliberately never
/// performed, and `Unknown` stands for every non-opcode character; both are
/// no-ops during execution.
#[derive(Debug, Copy, Clone, PartialEq, Eq, Structural)]
pub enum Instr {
    MvPtrRight,
    MvPtrLeft,
    Add,
    Sub,
    Print,
    Replace,
    Open,
    Close,
    Unknown,
}

/// The instruction a source character denotes: one variant for each of the
/// eight opcode characters, `Unknown` for every other character.
pub open spec fn spec_instr(c: char) -> Instr {
    if c == '>' {
        Instr::MvPtrRight
    } else if c == '<' {
        Instr::MvPtrLeft
    } else if c == '+' {
        Instr::Add
    } else if c == '-' {
        Instr::Sub
    } else if c == '.' {
        Instr::Print
    } else if c == ',' {
        Instr::Replace
    } else if c == '[' {
        Instr::Open
    } else if c == ']' {
        Instr::Close
    } else {
        Instr::Unknown
    }
}

/// Translates one source character into an instruction. Total: every possible
/// character maps to exactly one variant, with no error path and no side
/// effect.
#[verifier::when_used_as_spec(spec_instr)]
pub fn instr(c: char) -> (i: Instr)
    ensures
        i == spec_instr(c),
{
    match c {
        '>' => Instr::MvPtrRight,
        '<' => Instr::MvPtrLeft,
        '+' => Instr::Add,
        '-' => Instr::Sub,
        '.' => Instr::Print,
        ',' => Instr::Replace,
        '[' => Instr::Open,
        ']' => Instr::Close,
        _ => Instr::Unknown,
    }
}

} // verus!
