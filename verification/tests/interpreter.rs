use simple_bf::BrainfuckFault;
use simple_bf::BrainfuckMachine;
use simple_bf::RunResult;

fn run_source(source: &str, input: Vec<u8>) -> RunResult {
    let mut machine = BrainfuckMachine::new();
    machine.load_program(source);
    machine.run(&input)
}

#[test]
fn three_increments_output_three() {
    let result = run_source("+++.", Vec::new());
    assert_eq!(result.fault, None);
    assert_eq!(result.output, vec![3u8]);
}

#[test]
fn cell_increment_wraps_to_zero() {
    // One decrement takes the fresh cell to 255; the increment then wraps
    // 255 + 1 to 0.
    let result = run_source("-+.", Vec::new());
    assert_eq!(result.fault, None);
    assert_eq!(result.output, vec![0u8]);
}

#[test]
fn cell_decrement_wraps_to_255() {
    let result = run_source("-.", Vec::new());
    assert_eq!(result.fault, None);
    assert_eq!(result.output, vec![255u8]);
}

#[test]
fn nested_loop_multiplication_outputs_64() {
    let result = run_source("++++++++[>++++++++<-]>.", Vec::new());
    assert_eq!(result.fault, None);
    assert_eq!(result.output, vec![64u8]);
}

#[test]
fn empty_loop_on_zero_cell_enters_once_and_halts() {
    // Loop-start pushes unconditionally, so the empty body is entered once;
    // the loop-end then sees cell 0, pops, and the run halts normally.
    let result = run_source("[]", Vec::new());
    assert_eq!(result.fault, None);
    assert_eq!(result.output, Vec::<u8>::new());
}

#[test]
fn clear_loop_on_zero_cell_terminates() {
    // `[-]` entered with the cell at 0 runs the body once, wraps the cell to
    // 255, and then counts it back down to 0 before halting.
    let result = run_source("[-].", Vec::new());
    assert_eq!(result.fault, None);
    assert_eq!(result.output, vec![0u8]);
}

#[test]
fn lone_loop_end_faults_unbalanced() {
    let result = run_source("]", Vec::new());
    assert_eq!(result.fault, Some(BrainfuckFault::UnbalancedLoopFault));
    assert_eq!(result.output, Vec::<u8>::new());
}

#[test]
fn loop_end_with_nonzero_cell_and_empty_stack_faults_unbalanced() {
    let result = run_source("+]", Vec::new());
    assert_eq!(result.fault, Some(BrainfuckFault::UnbalancedLoopFault));
}

#[test]
fn pointer_past_last_cell_faults_bounds() {
    // The tape has 4096 cells; the 4096th `>` pushes the pointer out of
    // range and faults.
    let source = ">".repeat(4096);
    let result = run_source(&source, Vec::new());
    assert_eq!(result.fault, Some(BrainfuckFault::BoundsFault));
    assert_eq!(result.output, Vec::<u8>::new());
}

#[test]
fn pointer_to_last_cell_is_in_range() {
    let source = ">".repeat(4095);
    let result = run_source(&source, Vec::new());
    assert_eq!(result.fault, None);
}

#[test]
fn pointer_below_zero_faults_bounds() {
    let result = run_source("<", Vec::new());
    assert_eq!(result.fault, Some(BrainfuckFault::BoundsFault));
}

#[test]
fn input_byte_is_stored_and_echoed() {
    let result = run_source(",.", vec![65u8]);
    assert_eq!(result.fault, None);
    assert_eq!(result.output, vec![65u8]);
}

#[test]
fn input_on_exhausted_stream_faults() {
    let result = run_source(",", Vec::new());
    assert_eq!(result.fault, Some(BrainfuckFault::InputExhaustionFault));
}

#[test]
fn second_input_past_end_faults() {
    let result = run_source(",.,.", vec![7u8]);
    assert_eq!(result.fault, Some(BrainfuckFault::InputExhaustionFault));
    assert_eq!(result.output, vec![7u8]);
}

#[test]
fn rerun_of_restoring_program_gives_identical_output() {
    // The program puts the touched cell back to 0 and leaves the address
    // stack empty, so the machine ends the run exactly as it started it and
    // a second run reproduces the first.
    let mut machine = BrainfuckMachine::new();
    machine.load_program("+++.---");
    let first = machine.run(&Vec::new());
    let second = machine.run(&Vec::new());
    assert_eq!(first.fault, None);
    assert_eq!(second.fault, None);
    assert_eq!(first.output, vec![3u8]);
    assert_eq!(second.output, vec![3u8]);
}

#[test]
fn rerun_resets_pointers_but_tape_persists() {
    // run() resets the two pointers, not the tape: a second run of `+.`
    // increments the same cell again.
    let mut machine = BrainfuckMachine::new();
    machine.load_program("+.");
    let first = machine.run(&Vec::new());
    let second = machine.run(&Vec::new());
    assert_eq!(first.output, vec![1u8]);
    assert_eq!(second.output, vec![2u8]);
}

#[test]
fn rerun_after_fault_executes_from_the_start() {
    let mut machine = BrainfuckMachine::new();
    machine.load_program("+.<");
    let first = machine.run(&Vec::new());
    assert_eq!(first.fault, Some(BrainfuckFault::BoundsFault));
    assert_eq!(first.output, vec![1u8]);
    let second = machine.run(&Vec::new());
    assert_eq!(second.fault, Some(BrainfuckFault::BoundsFault));
    assert_eq!(second.output, vec![2u8]);
}

#[test]
fn output_preserves_emission_order() {
    let result = run_source("+.+.+.", Vec::new());
    assert_eq!(result.fault, None);
    assert_eq!(result.output, vec![1u8, 2u8, 3u8]);
}

#[test]
fn fault_reports_output_emitted_before_it() {
    let result = run_source("++.]", Vec::new());
    assert_eq!(result.fault, Some(BrainfuckFault::UnbalancedLoopFault));
    assert_eq!(result.output, vec![2u8]);
}

#[test]
fn loop_moves_value_between_cells() {
    // `[->+<]` drains cell 0 into cell 1 once cell 0 is non-zero.
    let result = run_source("+++++[->+<]>.", Vec::new());
    assert_eq!(result.fault, None);
    assert_eq!(result.output, vec![5u8]);
}
