use tapelang::Operation;
use tapelang::decode::operations;
use tapelang::machine::Machine;
use tapelang::machine::Step;
use tapelang::machine::TAPE_LEN;
use tapelang::run::execute;
use tapelang::run::RunStatus;

const FUEL: usize = 1_000_000;

fn run_source(source: &str, input: &[u8]) -> (Vec<u8>, RunStatus) {
    execute(operations(source.to_string()), input.to_vec(), FUEL)
}

#[test]
fn identity_program_outputs_one() {
    let (out, status) = run_source("+.", &[]);
    assert_eq!(out, vec![1]);
    assert_eq!(status, RunStatus::Completed);
}

#[test]
fn sixty_five_increments_output_letter_a() {
    let source = format!("{}.", "+".repeat(65));
    let (out, status) = run_source(&source, &[]);
    assert_eq!(out, vec![65]);
    assert_eq!(status, RunStatus::Completed);
}

#[test]
fn decrement_wraps_zero_to_255() {
    let (out, status) = run_source("-.", &[]);
    assert_eq!(out, vec![255]);
    assert_eq!(status, RunStatus::Completed);
}

#[test]
fn increment_wraps_255_to_zero() {
    let (out, status) = run_source("-+.", &[]);
    assert_eq!(out, vec![0]);
    assert_eq!(status, RunStatus::Completed);
}

#[test]
fn cell_stays_a_byte_over_many_increments() {
    let source = format!("{}.", "+".repeat(300));
    let (out, status) = run_source(&source, &[]);
    assert_eq!(out, vec![44]);
    assert_eq!(status, RunStatus::Completed);
}

#[test]
fn empty_loop_on_zero_cell_terminates_immediately() {
    let (out, status) = run_source("[]", &[]);
    assert_eq!(out, vec![]);
    assert_eq!(status, RunStatus::Completed);
}

#[test]
fn loop_body_on_zero_cell_is_skipped() {
    let (out, status) = run_source("[.]", &[]);
    assert_eq!(out, vec![]);
    assert_eq!(status, RunStatus::Completed);
}

#[test]
fn loop_repeats_until_cell_is_zero() {
    let (out, status) = run_source("+++[-.]", &[]);
    assert_eq!(out, vec![2, 1, 0]);
    assert_eq!(status, RunStatus::Completed);
}

#[test]
fn nested_loops_resolve_to_their_own_boundaries() {
    let (out, status) = run_source("++[>++[>+<-]<-]>>.", &[]);
    assert_eq!(out, vec![4]);
    assert_eq!(status, RunStatus::Completed);
}

#[test]
fn accept_stores_the_input_byte() {
    let (out, status) = run_source(",+.", &[65]);
    assert_eq!(out, vec![66]);
    assert_eq!(status, RunStatus::Completed);
}

#[test]
fn accept_reads_bytes_in_program_order() {
    let (out, status) = run_source(",.>,.", &[3, 9]);
    assert_eq!(out, vec![3, 9]);
    assert_eq!(status, RunStatus::Completed);
}

#[test]
fn accept_on_exhausted_input_is_fatal() {
    let (out, status) = run_source(",.", &[]);
    assert_eq!(out, vec![]);
    assert_eq!(status, RunStatus::InputExhausted);
}

#[test]
fn output_before_a_fatal_accept_is_kept() {
    let (out, status) = run_source(".+,.", &[]);
    assert_eq!(out, vec![0]);
    assert_eq!(status, RunStatus::InputExhausted);
}

#[test]
fn moving_left_from_cell_zero_is_fatal() {
    let (out, status) = run_source("<", &[]);
    assert_eq!(out, vec![]);
    assert_eq!(status, RunStatus::OutOfBounds);
}

#[test]
fn moving_right_past_the_last_cell_is_fatal() {
    let source = ">".repeat(TAPE_LEN);
    let (out, status) = run_source(&source, &[]);
    assert_eq!(out, vec![]);
    assert_eq!(status, RunStatus::OutOfBounds);
}

#[test]
fn the_last_cell_is_reachable() {
    let source = format!("{}+.", ">".repeat(TAPE_LEN - 1));
    let (out, status) = run_source(&source, &[]);
    assert_eq!(out, vec![1]);
    assert_eq!(status, RunStatus::Completed);
}

#[test]
fn unmatched_forward_bracket_falls_back_to_zero() {
    let (out, status) = run_source("[", &[]);
    assert_eq!(out, vec![]);
    assert_eq!(status, RunStatus::Completed);
}

#[test]
fn unmatched_backward_bracket_falls_back_to_zero() {
    let (out, status) = run_source("+]", &[]);
    assert_eq!(out, vec![]);
    assert_eq!(status, RunStatus::Completed);
}

#[test]
fn an_endless_loop_exhausts_the_budget() {
    let (out, status) = execute(operations("+[]".to_string()), vec![], 100);
    assert_eq!(out, vec![]);
    assert_eq!(status, RunStatus::Running);
}

#[test]
fn step_reports_each_effect_in_turn() {
    let mut m = Machine::new(operations("+.".to_string()));
    assert_eq!(m.step(), Step::Stepped);
    assert_eq!(m.step(), Step::Emitted(1));
    assert_eq!(m.step(), Step::Halted);
    assert_eq!(m.step(), Step::Halted);
}

#[test]
fn step_waits_for_input_until_it_is_supplied() {
    let mut m = Machine::new(vec![Operation::Accept, Operation::Output]);
    assert!(m.awaiting_input());
    assert_eq!(m.step(), Step::AwaitingInput);
    assert_eq!(m.step(), Step::AwaitingInput);
    m.supply_input(9);
    assert!(!m.awaiting_input());
    assert_eq!(m.step(), Step::Emitted(9));
    assert_eq!(m.step(), Step::Halted);
}

#[test]
fn a_refused_move_leaves_the_machine_unchanged() {
    let mut m = Machine::new(vec![Operation::Left]);
    assert_eq!(m.step(), Step::OutOfBounds);
    assert_eq!(m.pointer, 0);
    assert_eq!(m.index, 0);
    assert_eq!(m.step(), Step::OutOfBounds);
}

#[test]
fn a_new_machine_is_fully_zeroed() {
    let m = Machine::new(vec![]);
    assert_eq!(m.tape.len(), TAPE_LEN);
    assert!(m.tape.iter().all(|&b| b == 0));
    assert_eq!(m.pointer, 0);
    assert_eq!(m.index, 0);
}
