//! The mathematical model of execution: machine states as ghost values, one
//! small-step transition per fetched instruction, the bracket-matching scans,
//! and a fuel-bounded run function. The contracts of [`crate::machine`] are
//! stated over this model.

use vstd::prelude::*;

use crate::instr::Instr;

verus! {

/// The complete execution state of one machine: the decoded instruction
/// sequence, the program counter, the data pointer, the tape, and everything
/// output so far. A single value of this type fully captures a run.
#[verifier::ext_equal]
pub ghost struct State {
    pub file: Seq<Instr>,
    pub pc: int,
    pub pointer: int,
    pub tape: Seq<u8>,
    pub output: Seq<u8>,
}

/// The data pointer after one move right on a circular tape of length `size`:
/// advance by one, wrapping to 0 at the end of the tape.
pub open spec fn right_of(ptr: int, size: int) -> int {
    if ptr + 1 == size {
        0
    } else {
        ptr + 1
    }
}

/// The data pointer after one move left on a circular tape of length `size`:
/// retreat by one, wrapping to `size - 1` at the start of the tape.
pub open spec fn left_of(ptr: int, size: int) -> int {
    if ptr == 0 {
        size - 1
    } else {
        ptr - 1
    }
}

/// Wrapping 8-bit increment: 255 + 1 gives 0.
pub open spec fn inc8(x: u8) -> u8 {
    if x == 255 {
        0
    } else {
        (x + 1) as u8
    }
}

/// Wrapping 8-bit decrement: 0 - 1 gives 255.
pub open spec fn dec8(x: u8) -> u8 {
    if x == 0 {
        255
    } else {
        (x - 1) as u8
    }
}

/// The index of the loop-close that matches a loop-open, found by scanning
/// forward from `pc` at nesting depth `depth`: each loop-open deepens the
/// nesting, a loop-close at depth 0 is the match, and every other instruction
/// is skipped. When the scan runs off the end of the sequence (unbalanced
/// brackets), the result is `file.len()`, which halts the fetch-execute loop.
pub open spec fn match_forward(file: Seq<Instr>, pc: int, depth: int) -> int
    decreases file.len() - pc,
{
    if pc < 0 || pc >= file.len() {
        file.len() as int
    } else {
        match file[pc] {
            Instr::Open => match_forward(file, pc + 1, depth + 1),
            Instr::Close => if depth == 0 {
                pc
            } else {
                match_forward(file, pc + 1, depth - 1)
            },
            _ => match_forward(file, pc + 1, depth),
        }
    }
}

/// The index of the loop-open that matches a loop-close, found by scanning
/// backward from `pc` at nesting depth `depth`: each loop-close deepens the
/// nesting, a loop-open at depth 0 is the match, and every other instruction
/// is skipped. When the scan runs past the start of the sequence (unbalanced
/// brackets), the result is `file.len()`: the machine's chosen halting
/// behavior for this degenerate input.
pub open spec fn match_backward(file: Seq<Instr>, pc: int, depth: int) -> int
    decreases pc + 1,
{
    if pc < 0 || pc >= file.len() {
        file.len() as int
    } else {
        match file[pc] {
            Instr::Close => match_backward(file, pc - 1, depth + 1),
            Instr::Open => if depth == 0 {
                pc
            } else {
                match_backward(file, pc - 1, depth - 1)
            },
            _ => match_backward(file, pc - 1, depth),
        }
    }
}

/// The loop-open effect, applied after the fetch step has already advanced the
/// counter past the loop-open: with a non-zero current cell nothing happens
/// (the loop body is entered); with a zero cell the counter jumps to the
/// matching loop-close, so that the next fetch advances past it.
pub open spec fn fwd_jump(s: State) -> State {
    if s.tape[s.pointer] != 0 {
        s
    } else {
        State { pc: match_forward(s.file, s.pc, 0), ..s }
    }
}

/// The loop-close effect, applied after the fetch step has already advanced
/// the counter past the loop-close: with a zero current cell nothing happens
/// (the loop is exited); with a non-zero cell the counter rewinds by two (to
/// the instruction just before the loop-close) and the backward scan finds the
/// matching loop-open. A counter below two rewinds past the start of the
/// sequence, which `match_backward` turns into a halt.
pub open spec fn bwd_jump(s: State) -> State {
    if s.tape[s.pointer] == 0 {
        s
    } else {
        State { pc: match_backward(s.file, s.pc - 2, 0), ..s }
    }
}

/// The effect of one already-fetched instruction on the state, the counter
/// having been advanced by the fetch step. `Replace` and `Unknown` change
/// nothing.
pub open spec fn step_instr(s: State, i: Instr) -> State {
    match i {
        Instr::MvPtrRight => State { pointer: right_of(s.pointer, s.tape.len() as int), ..s },
        Instr::MvPtrLeft => State { pointer: left_of(s.pointer, s.tape.len() as int), ..s },
        Instr::Add => State { tape: s.tape.update(s.pointer, inc8(s.tape[s.pointer])), ..s },
        Instr::Sub => State { tape: s.tape.update(s.pointer, dec8(s.tape[s.pointer])), ..s },
        Instr::Print => State { output: s.output.push(s.tape[s.pointer]), ..s },
        Instr::Open => fwd_jump(s),
        Instr::Close => bwd_jump(s),
        Instr::Replace => s,
        Instr::Unknown => s,
    }
}

/// Whether the fetch-execute loop is done: the counter no longer indexes the
/// instruction sequence. This is the sole termination condition; there is no
/// halt opcode.
pub open spec fn halted(s: State) -> bool {
    !(0 <= s.pc < s.file.len())
}

/// One fetch-execute step: fetch the instruction at the counter, advance the
/// counter by one, then apply the instruction's effect.
pub open spec fn step(s: State) -> State
    recommends
        !halted(s),
{
    step_instr(State { pc: s.pc + 1, ..s }, s.file[s.pc])
}

/// The state after at most `fuel` fetch-execute steps: stepping stops early
/// the moment the machine halts.
pub open spec fn run_fuel(s: State, fuel: nat) -> State
    decreases fuel,
{
    if fuel == 0 || halted(s) {
        s
    } else {
        run_fuel(step(s), (fuel - 1) as nat)
    }
}

/// The forward bracket scan never moves the counter backward and never past
/// the end of the sequence, and when it finds a match, the match is a
/// loop-close.
pub proof fn lemma_match_forward_range(file: Seq<Instr>, pc: int, depth: int)
    requires
        0 <= pc <= file.len(),
    ensures
        pc <= match_forward(file, pc, depth) <= file.len(),
        match_forward(file, pc, depth) < file.len() ==> file[match_forward(
            file,
            pc,
            depth,
        )] == Instr::Close,
    decreases file.len() - pc,
{
    if pc < file.len() {
        match file[pc] {
            Instr::Open => lemma_match_forward_range(file, pc + 1, depth + 1),
            Instr::Close => if depth != 0 {
                lemma_match_forward_range(file, pc + 1, depth - 1)
            },
            _ => lemma_match_forward_range(file, pc + 1, depth),
        }
    }
}

/// Running for `a + b` fuel is running for `a` fuel and then for `b` more:
/// fuel-bounded execution composes.
pub proof fn lemma_run_fuel_compose(s: State, a: nat, b: nat)
    ensures
        run_fuel(s, a + b) == run_fuel(run_fuel(s, a), b),
    decreases a,
{
    if a == 0 {
    } else if halted(s) {
        lemma_run_fuel_halted(s, a);
        lemma_run_fuel_halted(s, a + b);
        lemma_run_fuel_halted(s, b);
    } else {
        lemma_run_fuel_compose(step(s), (a - 1) as nat, b);
    }
}

/// A halted state no longer changes, however much fuel is left.
pub proof fn lemma_run_fuel_halted(s: State, fuel: nat)
    requires
        halted(s),
    ensures
        run_fuel(s, fuel) == s,
{
}

} // verus!
