//! The machine: the decoded instruction sequence, the circular byte tape, the
//! data pointer and the program counter, executed by a fetch-execute loop.
//! Every method's contract is stated over the model in [`crate::state`].

use vstd::prelude::*;
use vstd::string::*;

use crate::instr::instr;
use crate::instr::spec_instr;
use crate::instr::Instr;
use crate::state::bwd_jump;
use crate::state::fwd_jump;
use crate::state::match_backward;
use crate::state::match_forward;
use crate::state::run_fuel;
use crate::state::step;
use crate::state::step_instr;
use crate::state::State;

verus! {

/// One virtual machine: a decoded program, a tape of zero-initialized byte
/// cells, the data pointer, the program counter, and the bytes output so far.
/// Output is collected here as a buffer; writing it to a real sink is the
/// caller's business.
#[allow(non_camel_case_types)]
pub struct program {
    pub pc: usize,
    pub pointer: usize,
    pub tape: Vec<u8>,
    pub file: Vec<Instr>,
    pub output: Vec<u8>,
}

impl View for program {
    type V = State;

    open spec fn view(&self) -> State {
        State {
            file: self.file@,
            pc: self.pc as int,
            pointer: self.pointer as int,
            tape: self.tape@,
            output: self.output@,
        }
    }
}

impl program {
    /// Well-formedness: the tape is non-empty, the data pointer indexes the
    /// tape, and the program counter is at most one past the last instruction.
    /// Established by `new` and preserved by every method.
    pub open spec fn wf(&self) -> bool {
        &&& self.tape@.len() >= 1
        &&& self.pointer < self.tape@.len()
        &&& self.pc <= self.file@.len()
    }

    /// Builds a machine: a tape of `tape_size` zeroed cells, pointer and
    /// counter at zero, and the program obtained by translating every
    /// character of `file_data` in source order, non-opcode characters
    /// included (each occupies one `Unknown` slot). Bracket balance is not
    /// validated.
    pub fn new(tape_size: usize, file_data: String) -> (p: program)
        requires
            tape_size >= 1,
        ensures
            p.wf(),
            p@.pc == 0,
            p@.pointer == 0,
            p@.tape == Seq::new(tape_size as nat, |i: int| 0u8),
            p@.file == file_data@.map_values(|c: char| spec_instr(c)),
            p@.output == Seq::<u8>::empty(),
    {
        let mut tape: Vec<u8> = Vec::new();
        let mut i: usize = 0;
        while i < tape_size
            invariant
                i <= tape_size,
                tape@.len() == i,
                forall|k: int| 0 <= k < i ==> tape@[k] == 0u8,
            decreases tape_size - i,
        {
            tape.push(0);
            i += 1;
        }
        proof {
            assert(tape@ =~= Seq::new(tape_size as nat, |j: int| 0u8));
        }

        let mut file: Vec<Instr> = Vec::new();
        let text = file_data.as_str();
        let n = text.unicode_len();
        let mut j: usize = 0;
        while j < n
            invariant
                j <= n,
                n == text@.len(),
                text@ == file_data@,
                file@ == text@.subrange(0, j as int).map_values(|c: char| spec_instr(c)),
            decreases n - j,
        {
            let c = text.get_char(j);
            file.push(instr(c));
            proof {
                assert(text@.subrange(0, j + 1).map_values(|c: char| spec_instr(c)) =~= text@
                    .subrange(0, j as int)
                    .map_values(|c: char| spec_instr(c))
                    .push(spec_instr(text@[j as int])));
            }
            j += 1;
        }
        proof {
            assert(text@.subrange(0, n as int) =~= text@);
        }

        program { pc: 0, pointer: 0, tape, file, output: Vec::new() }
    }

    /// Executes one already-fetched instruction, the counter having been
    /// advanced by the fetch step: exactly one atomic effect on the state, as
    /// `step_instr` describes it. Move instructions wrap around the circular
    /// tape, cell arithmetic wraps modulo 256, `Print` appends the current
    /// cell to the output buffer, the brackets invoke the matching scans, and
    /// `Replace` and `Unknown` do nothing.
    pub fn run_intr(&mut self, instr: Instr)
        requires
            old(self).wf(),
        ensures
            final(self).wf(),
            final(self)@ == step_instr(old(self)@, instr),
    {
        match instr {
            Instr::MvPtrLeft => {
                if self.pointer >= 1 {
                    self.pointer -= 1;
                } else {
                    self.pointer = self.tape.len() - 1;
                }
            },
            Instr::MvPtrRight => {
                if self.pointer < self.tape.len() - 1 {
                    self.pointer += 1;
                } else {
                    self.pointer = 0;
                }
            },
            Instr::Add => {
                let x = self.tape[self.pointer];
                self.tape[self.pointer] = x.wrapping_add(1);
            },
            Instr::Sub => {
                let x = self.tape[self.pointer];
                self.tape[self.pointer] = x.wrapping_sub(1);
            },
            Instr::Open => {
                self.jump_if_zero();
            },
            Instr::Close => {
                self.jump_if_not_zero();
            },
            Instr::Print => {
                let x = self.tape[self.pointer];
                self.output.push(x);
            },
            _ => {},
        }
    }

    /// The fetch-execute loop: while the counter indexes an instruction,
    /// fetch it, advance the counter by one, and execute it — for at most
    /// `fuel` steps. Reaching or passing the end of the sequence is the sole
    /// termination condition; there is no halt opcode. The final state is
    /// exactly `run_fuel` of the initial one, so a caller that supplies
    /// enough fuel for its program to halt gets the complete run.
    pub fn start(&mut self, fuel: u64)
        requires
            old(self).wf(),
        ensures
            final(self).wf(),
            final(self)@ == run_fuel(old(self)@, fuel as nat),
    {
        let ghost s0 = self@;
        let mut remaining: u64 = fuel;
        while self.pc < self.file.len() && remaining > 0
            invariant
                self.wf(),
                run_fuel(s0, fuel as nat) == run_fuel(self@, remaining as nat),
            decreases remaining,
        {
            let ghost prev = self@;
            let instr = self.file[self.pc];
            self.pc += 1;
            self.run_intr(instr);
            remaining -= 1;
            proof {
                assert(step(prev) == self@);
                assert(run_fuel(prev, (remaining + 1) as nat) == run_fuel(self@, remaining as nat));
            }
        }
        proof {
            assert(run_fuel(self@, remaining as nat) == self@);
        }
    }

    /// The loop-open effect: with a non-zero current cell, nothing (the loop
    /// body is entered). With a zero cell, scan forward for the matching
    /// loop-close, counting nesting depth, and leave the counter on the
    /// match so the next fetch advances past it; an unbalanced program runs
    /// the counter off the end of the sequence, which halts execution.
    pub fn jump_if_zero(&mut self)
        requires
            old(self).wf(),
        ensures
            final(self).wf(),
            final(self)@ == fwd_jump(old(self)@),
    {
        if self.tape[self.pointer] != 0 {
            return;
        }

        let ghost s0 = self@;
        let mut depth: usize = 0;

        while self.pc < self.file.len()
            invariant
                self.wf(),
                self@.file == s0.file,
                self@.tape == s0.tape,
                self@.pointer == s0.pointer,
                self@.output == s0.output,
                0 <= s0.pc <= self@.pc,
                depth <= self@.pc - s0.pc,
                match_forward(s0.file, s0.pc, 0) == match_forward(s0.file, self@.pc, depth as int),
            ensures
                self.wf(),
                self@.file == s0.file,
                self@.tape == s0.tape,
                self@.pointer == s0.pointer,
                self@.output == s0.output,
                self@.pc == match_forward(s0.file, s0.pc, 0),
            decreases self.file@.len() - self.pc,
        {
            match self.file[self.pc] {
                Instr::Open => {
                    depth += 1;
                },
                Instr::Close => {
                    if depth == 0 {
                        break;
                    }
                    depth -= 1;
                },
                _ => {},
            }

            self.pc += 1;
        }
    }

    /// The loop-close effect: with a zero current cell, nothing (the loop is
    /// exited). With a non-zero cell, rewind the counter by two — onto the
    /// instruction just before the loop-close — and scan backward for the
    /// matching loop-open, counting nesting depth. A scan that would pass the
    /// start of the sequence without a match (unbalanced brackets) instead
    /// sets the counter to the sequence length, halting execution: the
    /// documented behavior for this degenerate input.
    pub fn jump_if_not_zero(&mut self)
        requires
            old(self).wf(),
        ensures
            final(self).wf(),
            final(self)@ == bwd_jump(old(self)@),
    {
        if self.tape[self.pointer] == 0 {
            return;
        }

        let ghost s0 = self@;

        if self.pc < 2 {
            self.pc = self.file.len();
            return;
        }

        let mut depth: usize = 0;
        self.pc -= 2;

        loop
            invariant_except_break
                0 <= self@.pc < self@.file.len(),
                depth <= s0.pc - 2 - self@.pc,
                match_backward(s0.file, s0.pc - 2, 0) == match_backward(
                    s0.file,
                    self@.pc,
                    depth as int,
                ),
            invariant
                self.wf(),
                self@.file == s0.file,
                self@.tape == s0.tape,
                self@.pointer == s0.pointer,
                self@.output == s0.output,
                2 <= s0.pc <= usize::MAX,
            ensures
                self.wf(),
                self@.file == s0.file,
                self@.tape == s0.tape,
                self@.pointer == s0.pointer,
                self@.output == s0.output,
                self@.pc == match_backward(s0.file, s0.pc - 2, 0),
            decreases self.pc,
        {
            let ghost pc_at = self@.pc;
            let ghost depth0 = depth;

            match self.file[self.pc] {
                Instr::Close => {
                    depth += 1;
                },
                Instr::Open => {
                    if depth == 0 {
                        break;
                    }
                    depth -= 1;
                },
                _ => {},
            }

            proof {
                assert(match_backward(s0.file, pc_at, depth0 as int) == match_backward(
                    s0.file,
                    pc_at - 1,
                    depth as int,
                ));
            }

            if self.pc == 0 {
                proof {
                    assert(match_backward(s0.file, -1, depth as int) == s0.file.len());
                }
                self.pc = self.file.len();
                break;
            }

            self.pc -= 1;
        }
    }
}

} // verus!
