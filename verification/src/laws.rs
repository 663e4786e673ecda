//! General laws of the machine, each proved against the model in
//! [`crate::state`]: circular pointer arithmetic, wrapping cell arithmetic,
//! the behavior of loops and of bracket matching, the end-to-end effect of a
//! few whole programs, and the inertness of non-opcode characters.

use vstd::prelude::*;

use crate::instr::spec_instr;
use crate::instr::Instr;
use crate::state::dec8;
use crate::state::halted;
use crate::state::inc8;
use crate::state::lemma_run_fuel_compose;
use crate::state::match_backward;
use crate::state::match_forward;
use crate::state::run_fuel;
use crate::state::step;
use crate::state::step_instr;
use crate::state::State;

verus! {

/// The state after executing the move-right instruction `k` times in a row
/// (each application is the instruction's effect alone, as during a run of a
/// program of `k` consecutive move-rights).
pub open spec fn move_right_n(s: State, k: nat) -> State
    decreases k,
{
    if k == 0 {
        s
    } else {
        step_instr(move_right_n(s, (k - 1) as nat), Instr::MvPtrRight)
    }
}

/// Moving right `k` times advances the pointer by `k` modulo the tape length,
/// wrapping at most once while `k` is at most the tape length, and touches
/// nothing else in the state.
proof fn lemma_move_right_n_wraps_once(s: State, k: nat)
    requires
        0 <= s.pointer < s.tape.len(),
        k <= s.tape.len(),
    ensures
        move_right_n(s, k) == (State {
            pointer: if s.pointer + k < s.tape.len() {
                s.pointer + k
            } else {
                s.pointer + k - s.tape.len()
            },
            ..s
        }),
    decreases k,
{
    if k > 0 {
        lemma_move_right_n_wraps_once(s, (k - 1) as nat);
    }
}

/// Pointer arithmetic is circular: on a tape of any length `N >= 1`, moving
/// right `N` times from any starting pointer returns the machine to exactly
/// the state it started in.
pub proof fn lemma_pointer_wraps_to_start(s: State)
    requires
        s.tape.len() >= 1,
        0 <= s.pointer < s.tape.len(),
    ensures
        move_right_n(s, s.tape.len()) == s,
{
    lemma_move_right_n_wraps_once(s, s.tape.len());
}

/// Decrement is the inverse of increment modulo 256, for every cell value.
pub proof fn lemma_decrement_inverts_increment(x: u8)
    ensures
        dec8(inc8(x)) == x,
{
}

/// A loop whose controlling cell is zero when its loop-open executes never
/// runs its body: two steps later (the forward jump to the matching
/// loop-close, then the loop-close itself, a no-op on a zero cell) the
/// counter stands immediately after the loop-close, and the tape, pointer and
/// output are untouched — whatever the body would have done.
pub proof fn lemma_zero_cell_skips_loop_body(s: State)
    requires
        !halted(s),
        s.file[s.pc] == Instr::Open,
        0 <= s.pointer < s.tape.len(),
        s.tape[s.pointer] == 0,
        match_forward(s.file, s.pc + 1, 0) < s.file.len(),
    ensures
        run_fuel(s, 2) == (State { pc: match_forward(s.file, s.pc + 1, 0) + 1, ..s }),
{
    reveal_with_fuel(run_fuel, 3);
    let m = match_forward(s.file, s.pc + 1, 0);
    crate::state::lemma_match_forward_range(s.file, s.pc + 1, 0);
    let s1 = State { pc: m, ..s };
    assert(step(s) == s1);
    assert(step(s1) == (State { pc: m + 1, ..s }));
    assert(run_fuel(s, 2) == run_fuel(s1, 1));
}

/// A countdown loop `[-]` standing at positions `k`, `k + 1`, `k + 2` of the
/// program, entered with its controlling cell at `v`, runs its body exactly
/// `v` times — one iteration being the three steps loop-open, decrement,
/// loop-close — and leaves the counter just past the loop-close with the cell
/// at zero. A cell already at zero skips the loop in two steps.
pub proof fn lemma_countdown_loop_iterations(s: State, k: int)
    requires
        0 <= k,
        k + 3 <= s.file.len(),
        s.file[k] == Instr::Open,
        s.file[k + 1] == Instr::Sub,
        s.file[k + 2] == Instr::Close,
        s.pc == k,
        0 <= s.pointer < s.tape.len(),
    ensures
        s.tape[s.pointer] == 0 ==> run_fuel(s, 2) == (State { pc: k + 3, ..s }),
        s.tape[s.pointer] > 0 ==> run_fuel(s, (3 * s.tape[s.pointer]) as nat) == (State {
            pc: k + 3,
            tape: s.tape.update(s.pointer, 0),
            ..s
        }),
    decreases s.tape[s.pointer],
{
    reveal_with_fuel(run_fuel, 4);
    reveal_with_fuel(match_backward, 3);
    let v = s.tape[s.pointer];
    if v == 0 {
        assert(match_forward(s.file, k + 2, 0) == k + 2);
        assert(match_forward(s.file, k + 1, 0) == k + 2);
        let s1 = State { pc: k + 2, ..s };
        assert(step(s) == s1);
        assert(step(s1) == (State { pc: k + 3, ..s }));
        assert(run_fuel(s, 2) == run_fuel(s1, 1));
    } else {
        let s1 = State { pc: k + 1, ..s };
        assert(step(s) == s1);
        let s2 = State { pc: k + 2, tape: s.tape.update(s.pointer, dec8(v)), ..s };
        assert(step(s1) == s2);
        if v == 1 {
            let s3 = State { pc: k + 3, tape: s.tape.update(s.pointer, 0), ..s };
            assert(step(s2) == s3);
            assert(run_fuel(s, 3) == run_fuel(s1, 2));
            assert(run_fuel(s1, 2) == run_fuel(s2, 1));
            assert(run_fuel(s2, 1) == s3);
        } else {
            assert(match_backward(s.file, k + 1, 0) == k);
            let s3 = State { pc: k, tape: s.tape.update(s.pointer, (v - 1) as u8), ..s };
            assert(step(s2) == s3);
            assert(run_fuel(s, 3) == run_fuel(s1, 2));
            assert(run_fuel(s1, 2) == run_fuel(s2, 1));
            assert(run_fuel(s2, 1) == s3);
            lemma_countdown_loop_iterations(s3, k);
            lemma_run_fuel_compose(s, 3, (3 * v - 3) as nat);
            assert(s3.tape.update(s3.pointer, 0) =~= s.tape.update(s.pointer, 0));
            assert(run_fuel(s, (3 * v) as nat) == run_fuel(s3, (3 * v - 3) as nat));
        }
    }
}

/// Bracket matching is correctly nested: running the program `[[-]]` from its
/// outer loop-open with a non-zero controlling cell exits, once the cell has
/// counted down, with the counter immediately after the outer loop-close
/// (position 5), not after the inner one (which would be position 4).
pub proof fn lemma_nested_loop_exits_after_outer_close(s: State)
    requires
        s.file == seq![Instr::Open, Instr::Open, Instr::Sub, Instr::Close, Instr::Close],
        s.pc == 0,
        0 <= s.pointer < s.tape.len(),
        s.tape[s.pointer] >= 1,
    ensures
        run_fuel(s, (3 * s.tape[s.pointer] + 2) as nat) == (State {
            pc: 5,
            tape: s.tape.update(s.pointer, 0),
            ..s
        }),
{
    reveal_with_fuel(run_fuel, 3);
    let v = s.tape[s.pointer];
    let s1 = State { pc: 1, ..s };
    assert(step(s) == s1);
    assert(run_fuel(s, 1) == s1);
    lemma_countdown_loop_iterations(s1, 1);
    let s2 = State { pc: 4, tape: s.tape.update(s.pointer, 0), ..s };
    assert(run_fuel(s1, (3 * v) as nat) == s2);
    lemma_run_fuel_compose(s, 1, (3 * v) as nat);
    let s3 = State { pc: 5, tape: s.tape.update(s.pointer, 0), ..s };
    assert(step(s2) == s3);
    assert(run_fuel(s2, 1) == s3);
    lemma_run_fuel_compose(s, (3 * v + 1) as nat, 1);
}

/// End to end: the program `++.` on an all-zero tape of any size at least 1
/// halts after its three instructions having output exactly one byte, the
/// value 2.
pub proof fn lemma_increment_twice_print(s: State)
    requires
        s.file == "++."@.map_values(|c: char| spec_instr(c)),
        s.pc == 0,
        s.pointer == 0,
        s.tape.len() >= 1,
        forall|i: int| 0 <= i < s.tape.len() ==> s.tape[i] == 0u8,
        s.output == Seq::<u8>::empty(),
    ensures
        run_fuel(s, 3) == (State { pc: 3, tape: s.tape.update(0, 2u8), output: seq![2u8], ..s }),
        halted(run_fuel(s, 3)),
{
    reveal_with_fuel(run_fuel, 4);
    reveal_strlit("++.");
    assert(s.file =~= seq![Instr::Add, Instr::Add, Instr::Print]);
    let s1 = State { pc: 1, tape: s.tape.update(0, 1u8), ..s };
    assert(step(s) == s1);
    let s2 = State { pc: 2, tape: s.tape.update(0, 1u8).update(0, 2u8), ..s };
    assert(step(s1) == s2);
    let s3 = State { pc: 3, tape: s2.tape, output: s.output.push(2u8), ..s };
    assert(step(s2) == s3);
    assert(run_fuel(s, 3) == run_fuel(s1, 2));
    assert(run_fuel(s1, 2) == run_fuel(s2, 1));
    assert(run_fuel(s2, 1) == s3);
    assert(s.tape.update(0, 1u8).update(0, 2u8) =~= s.tape.update(0, 2u8));
    assert(s.output.push(2u8) =~= seq![2u8]);
}

/// End to end: the program `+[-]` halts — the loop runs exactly once,
/// decrementing the cell from 1 back to 0 — and produces no output. Four
/// steps: the increment, then one three-step loop iteration.
pub proof fn lemma_increment_then_countdown_terminates(s: State)
    requires
        s.file == "+[-]"@.map_values(|c: char| spec_instr(c)),
        s.pc == 0,
        0 <= s.pointer < s.tape.len(),
        s.tape[s.pointer] == 0,
    ensures
        run_fuel(s, 4) == (State { pc: 4, ..s }),
        halted(run_fuel(s, 4)),
        run_fuel(s, 4).output == s.output,
{
    reveal_with_fuel(run_fuel, 3);
    reveal_strlit("+[-]");
    assert(s.file =~= seq![Instr::Add, Instr::Open, Instr::Sub, Instr::Close]);
    let s1 = State { pc: 1, tape: s.tape.update(s.pointer, 1u8), ..s };
    assert(step(s) == s1);
    assert(run_fuel(s, 1) == s1);
    lemma_countdown_loop_iterations(s1, 1);
    assert(run_fuel(s1, 3) == (State { pc: 4, tape: s1.tape.update(s.pointer, 0u8), ..s }));
    lemma_run_fuel_compose(s, 1, 3);
    assert(s.tape.update(s.pointer, 1u8).update(s.pointer, 0u8) =~= s.tape);
}

/// From any counter position, a run of the remaining instructions that are
/// all `Unknown` only walks the counter off the end of the sequence: tape,
/// pointer and output stay exactly as they were.
pub proof fn lemma_unknown_tail_only_advances_counter(s: State)
    requires
        0 <= s.pc <= s.file.len(),
        forall|i: int| s.pc <= i < s.file.len() ==> s.file[i] == Instr::Unknown,
    ensures
        run_fuel(s, (s.file.len() - s.pc) as nat) == (State { pc: s.file.len() as int, ..s }),
    decreases s.file.len() - s.pc,
{
    if s.pc < s.file.len() {
        let s1 = State { pc: s.pc + 1, ..s };
        assert(step(s) == s1);
        lemma_unknown_tail_only_advances_counter(s1);
    }
}

/// End to end: a source text containing only non-opcode characters (a
/// comment, say) produces no output and terminates immediately — the run is
/// nothing but the counter skipping one `Unknown` slot per character.
pub proof fn lemma_comment_only_source_does_nothing(src: Seq<char>, s: State)
    requires
        forall|i: int| 0 <= i < src.len() ==> spec_instr(src[i]) == Instr::Unknown,
        s.file == src.map_values(|c: char| spec_instr(c)),
        s.pc == 0,
    ensures
        run_fuel(s, src.len()) == (State { pc: src.len() as int, ..s }),
        halted(run_fuel(s, src.len())),
        run_fuel(s, src.len()).output == s.output,
        run_fuel(s, src.len()).tape == s.tape,
{
    assert(forall|i: int| 0 <= i < s.file.len() ==> s.file[i] == Instr::Unknown);
    lemma_unknown_tail_only_advances_counter(s);
}

/// Every character outside the eight recognized opcodes translates to
/// `Unknown`.
pub proof fn lemma_non_opcode_char_is_unknown(c: char)
    requires
        c != '>',
        c != '<',
        c != '+',
        c != '-',
        c != '.',
        c != ',',
        c != '[',
        c != ']',
    ensures
        spec_instr(c) == Instr::Unknown,
{
}

/// Executing an `Unknown` slot, wherever it stands in the program, never
/// alters the tape, the pointer or the output: the step advances the counter
/// by one and does nothing else.
pub proof fn lemma_unknown_step_changes_nothing_but_counter(s: State)
    requires
        !halted(s),
        s.file[s.pc] == Instr::Unknown,
    ensures
        step(s) == (State { pc: s.pc + 1, ..s }),
{
}

} // verus!
