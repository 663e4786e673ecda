use tapevm::instr::instr;
use tapevm::instr::Instr;
use tapevm::machine::program;

#[test]
fn translate_all_opcodes() {
    assert_eq!(instr('>'), Instr::MvPtrRight);
    assert_eq!(instr('<'), Instr::MvPtrLeft);
    assert_eq!(instr('+'), Instr::Add);
    assert_eq!(instr('-'), Instr::Sub);
    assert_eq!(instr('.'), Instr::Print);
    assert_eq!(instr(','), Instr::Replace);
    assert_eq!(instr('['), Instr::Open);
    assert_eq!(instr(']'), Instr::Close);
}

#[test]
fn translate_non_opcodes_to_unknown() {
    assert_eq!(instr('a'), Instr::Unknown);
    assert_eq!(instr(' '), Instr::Unknown);
    assert_eq!(instr('\n'), Instr::Unknown);
    assert_eq!(instr('0'), Instr::Unknown);
}

#[test]
fn new_machine_starts_zeroed() {
    let p = program::new(4, String::from("+-"));
    assert_eq!(p.pc, 0);
    assert_eq!(p.pointer, 0);
    assert_eq!(p.tape, vec![0, 0, 0, 0]);
    assert_eq!(p.file.len(), 2);
    assert!(p.output.is_empty());
}

#[test]
fn pointer_wraps_right_full_cycle() {
    let mut p = program::new(5, String::from(">>>>>"));
    p.start(u64::MAX);
    assert_eq!(p.pointer, 0);
}

#[test]
fn pointer_wraps_right_on_size_one() {
    let mut p = program::new(1, String::from(">"));
    p.start(u64::MAX);
    assert_eq!(p.pointer, 0);
}

#[test]
fn pointer_wraps_left_from_zero() {
    let mut p = program::new(4, String::from("<"));
    p.start(u64::MAX);
    assert_eq!(p.pointer, 3);
}

#[test]
fn increment_then_decrement_restores_cell() {
    let mut p = program::new(1, String::from("+-"));
    p.start(u64::MAX);
    assert_eq!(p.tape[0], 0);
}

#[test]
fn decrement_wraps_below_zero() {
    let mut p = program::new(1, String::from("-"));
    p.start(u64::MAX);
    assert_eq!(p.tape[0], 255);
}

#[test]
fn increment_wraps_at_256() {
    let mut p = program::new(1, "+".repeat(256));
    p.start(u64::MAX);
    assert_eq!(p.tape[0], 0);
}

#[test]
fn zero_cell_skips_loop_body() {
    let mut p = program::new(2, String::from("[+>]."));
    p.start(u64::MAX);
    assert_eq!(p.tape, vec![0, 0]);
    assert_eq!(p.pointer, 0);
    assert_eq!(p.output, vec![0]);
}

#[test]
fn countdown_loop_clears_cell() {
    let mut p = program::new(1, String::from("+++[-]"));
    p.start(u64::MAX);
    assert_eq!(p.tape[0], 0);
    assert_eq!(p.pc, p.file.len());
}

#[test]
fn nested_brackets_exit_after_outer_close() {
    let mut p = program::new(1, String::from("[[-]]"));
    p.tape[0] = 3;
    p.start(u64::MAX);
    assert_eq!(p.pc, 5);
    assert_eq!(p.tape[0], 0);
}

#[test]
fn end_to_end_two_increments_print() {
    let mut p = program::new(1, String::from("++."));
    p.start(u64::MAX);
    assert_eq!(p.output, vec![2]);

    let mut q = program::new(7, String::from("++."));
    q.start(u64::MAX);
    assert_eq!(q.output, vec![2]);
}

#[test]
fn end_to_end_increment_countdown_silent() {
    let mut p = program::new(3, String::from("+[-]"));
    p.start(u64::MAX);
    assert!(p.output.is_empty());
    assert_eq!(p.pc, 4);
    assert_eq!(p.tape, vec![0, 0, 0]);
}

#[test]
fn comment_only_source_does_nothing() {
    let mut p = program::new(4, String::from("hello world"));
    p.start(u64::MAX);
    assert!(p.output.is_empty());
    assert_eq!(p.tape, vec![0, 0, 0, 0]);
    assert_eq!(p.pointer, 0);
    assert_eq!(p.pc, p.file.len());
}

#[test]
fn non_opcodes_among_opcodes_are_ignored() {
    let mut p = program::new(1, String::from("a+b+c."));
    p.start(u64::MAX);
    assert_eq!(p.output, vec![2]);
    let mut q = program::new(1, String::from("++."));
    q.start(u64::MAX);
    assert_eq!(p.output, q.output);
    assert_eq!(p.tape, q.tape);
    assert_eq!(p.pointer, q.pointer);
}

#[test]
fn replace_opcode_is_a_noop() {
    let mut p = program::new(1, String::from("+,."));
    p.start(u64::MAX);
    assert_eq!(p.output, vec![1]);
    assert_eq!(p.tape[0], 1);
}

#[test]
fn unmatched_open_runs_off_the_end() {
    let mut p = program::new(1, String::from("[+"));
    p.start(u64::MAX);
    assert!(p.output.is_empty());
    assert_eq!(p.tape[0], 0);
    assert_eq!(p.pc, p.file.len());
}

#[test]
fn unmatched_close_halts() {
    let mut p = program::new(1, String::from("+]"));
    p.start(u64::MAX);
    assert_eq!(p.pc, 2);
    assert_eq!(p.tape[0], 1);
    assert!(p.output.is_empty());
}

#[test]
fn zero_fuel_leaves_machine_unchanged() {
    let mut p = program::new(1, String::from("+."));
    p.start(0);
    assert_eq!(p.pc, 0);
    assert_eq!(p.tape[0], 0);
    assert!(p.output.is_empty());
}

#[test]
fn pointer_wraps_while_computing() {
    let mut p = program::new(2, String::from("+>+>+."));
    p.start(u64::MAX);
    assert_eq!(p.output, vec![2]);
    assert_eq!(p.tape, vec![2, 1]);
}

#[test]
fn empty_source_terminates_immediately() {
    let mut p = program::new(1, String::new());
    p.start(u64::MAX);
    assert_eq!(p.pc, 0);
    assert!(p.output.is_empty());
}
