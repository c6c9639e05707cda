use brainrust::instruction::Command;
use brainrust::machine::{Machine, RunError, RunState, TAPE_SIZE};
use brainrust::parser::ParseError;

fn machine(src: &str, tape_size: usize) -> Machine {
    Machine::with_tape_size(src.to_string(), tape_size).unwrap()
}

#[test]
fn new_machine_starts_clean() {
    let m = Machine::new("+>.".to_string()).unwrap();
    assert_eq!(m.tape().len(), TAPE_SIZE);
    assert!(m.tape().iter().all(|&c| c == 0));
    assert_eq!(m.prog_ctr(), 0);
    assert_eq!(m.data_ptr(), 0);
    assert_eq!(m.state(), RunState::Running);
    assert!(m.output().is_empty());
    assert_eq!(m.instructions().len(), 3);
}

#[test]
fn unbalanced_source_builds_no_machine() {
    assert_eq!(Machine::new("+]".to_string()).err(), Some(ParseError::UnmatchedCloseBracket));
    assert_eq!(Machine::new("[+".to_string()).err(), Some(ParseError::UnmatchedOpenBracket));
}

#[test]
fn empty_source_completes_at_once() {
    let mut m = Machine::new(String::new()).unwrap();
    assert!(m.instructions().is_empty());
    assert_eq!(m.run_to_completion(10), RunState::Completed);
    assert!(m.output().is_empty());
}

#[test]
fn input_on_empty_sink_stores_zero() {
    let mut m = machine("+,", 4);
    assert_eq!(m.advance(), RunState::Running);
    assert_eq!(m.tape()[0], 1);
    assert!(m.needs_input());
    assert_eq!(m.advance(), RunState::Completed);
    assert_eq!(m.tape()[0], 0);
}

#[test]
fn single_input_with_empty_sink() {
    let mut m = Machine::new(",".to_string()).unwrap();
    assert_eq!(m.run_to_completion(10), RunState::Completed);
    assert_eq!(m.tape()[0], 0);
    assert!(m.output().is_empty());
}

#[test]
fn input_bytes_are_read_in_order() {
    let mut m = machine(",.>,.,.", 4);
    m.push_input(7);
    m.push_input(200);
    assert!(!m.needs_input());
    assert_eq!(m.run_to_completion(100), RunState::Completed);
    assert_eq!(m.output(), &vec![7, 200, 0]);
    assert_eq!(m.tape()[1], 0);
}

#[test]
fn increment_wraps_to_zero() {
    let src = "+".repeat(255);
    let mut m = machine(&src, 2);
    m.run_to_completion(1000);
    assert_eq!(m.tape()[0], 255);
    let mut m = machine(&format!("{}+", src), 2);
    assert_eq!(m.run_to_completion(1000), RunState::Completed);
    assert_eq!(m.tape()[0], 0);
}

#[test]
fn decrement_wraps_to_255() {
    let mut m = machine("-", 2);
    assert_eq!(m.advance(), RunState::Completed);
    assert_eq!(m.tape()[0], 255);
}

#[test]
fn move_left_of_cell_zero_fails() {
    let mut m = machine("+<", 3);
    assert_eq!(m.run_to_completion(10), RunState::Failed(RunError::TapeUnderflow));
    assert_eq!(m.tape(), &vec![1, 0, 0]);
    assert_eq!(m.data_ptr(), 0);
    assert_eq!(m.prog_ctr(), 1);
}

#[test]
fn move_right_of_last_cell_fails() {
    let mut m = machine(">+>", 2);
    assert_eq!(m.run_to_completion(10), RunState::Failed(RunError::TapeOverflow));
    assert_eq!(m.tape(), &vec![0, 1]);
    assert_eq!(m.data_ptr(), 1);
}

#[test]
fn failed_machine_does_not_step_again() {
    let mut m = machine("<+", 2);
    assert_eq!(m.advance(), RunState::Failed(RunError::TapeUnderflow));
    assert_eq!(m.advance(), RunState::Failed(RunError::TapeUnderflow));
    assert_eq!(m.tape(), &vec![0, 0]);
}

#[test]
fn noops_are_skipped_within_one_step() {
    let mut m = machine("a b\n+ c>", 2);
    assert_eq!(m.advance(), RunState::Running);
    assert_eq!(m.tape()[0], 1);
    assert_eq!(m.prog_ctr(), 7);
    assert_eq!(m.advance(), RunState::Completed);
    assert_eq!(m.data_ptr(), 1);
}

#[test]
fn last_instruction_before_trailing_noops_completes() {
    let mut m = machine("+a \n", 2);
    assert_eq!(m.advance(), RunState::Completed);
    assert_eq!(m.tape()[0], 1);
    assert_eq!(m.prog_ctr(), 4);
}

#[test]
fn execute_runs_only_the_command() {
    let mut m = machine("+[+]", 2);
    m.execute();
    assert_eq!(m.tape()[0], 1);
    assert_eq!(m.prog_ctr(), 0);
    m.jmp_eq(3);
    assert_eq!(m.prog_ctr(), 0);
    m.jmp_ne(3);
    assert_eq!(m.prog_ctr(), 3);
}

#[test]
fn current_instruction_gives_its_source_position() {
    let mut m = machine("+\n >", 2);
    assert_eq!(m.current_instruction().unwrap().command, Command::IncData);
    m.advance();
    let ins = m.current_instruction().unwrap();
    assert_eq!(ins.command, Command::IncPtr);
    assert_eq!((ins.line, ins.column), (1, 1));
    assert_eq!(m.advance(), RunState::Completed);
    assert_eq!(m.data_ptr(), 1);
    assert!(m.current_instruction().is_none());
}

#[test]
fn clear_loop_takes_three_steps_per_unit() {
    let mut m = machine("+++++[-]", 4);
    assert_eq!(m.run_to_completion(19), RunState::Running);
    assert_eq!(m.tape()[0], 0);
    assert_eq!(m.prog_ctr(), 7);
    assert_eq!(m.advance(), RunState::Completed);
    assert_eq!(m.tape(), &vec![0, 0, 0, 0]);
}

#[test]
fn clear_loop_on_zero_cell_skips_body() {
    let mut m = machine("[-]+", 2);
    assert_eq!(m.advance(), RunState::Running);
    assert_eq!(m.prog_ctr(), 2);
    assert_eq!(m.run_to_completion(10), RunState::Completed);
    assert_eq!(m.tape()[0], 1);
}

#[test]
fn output_loop_scenario() {
    let mut m = machine("++++[-.+>+<]", 2);
    assert_eq!(m.run_to_completion(5), RunState::Running);
    assert_eq!(m.tape(), &vec![4, 0]);
    assert_eq!(m.prog_ctr(), 5);
    m.advance();
    assert_eq!(m.tape(), &vec![3, 0]);
    m.advance();
    assert_eq!(m.output(), &vec![3]);
    assert_eq!(m.run_to_completion(93), RunState::Running);
    assert_eq!(m.tape(), &vec![4, 12]);
    assert_eq!(m.data_ptr(), 0);
    assert_eq!(m.prog_ctr(), 4);
    assert_eq!(m.output(), &vec![3u8; 12]);
    assert_eq!(m.active_extent(), 1);
}

#[test]
fn hello_world_prefix_prints_h() {
    let src = "++++++++[>++++[>++>+++>+++>+<<<<-]>+>+>->>+[<]<-]>>.";
    let mut m = Machine::new(src.to_string()).unwrap();
    assert_eq!(m.run_to_completion(100_000), RunState::Completed);
    assert_eq!(m.output(), &vec![72]);
    assert_eq!(&m.tape()[..7], &[0, 0, 72, 104, 88, 32, 8]);
    assert_eq!(m.active_extent(), 6);
}

#[test]
fn active_extent_tracks_highest_nonzero_cell() {
    let mut m = machine(">>+<+>-<<+>-", 5);
    assert_eq!(m.active_extent(), 0);
    m.run_to_completion(3);
    assert_eq!(m.active_extent(), 2);
    m.run_to_completion(2);
    assert_eq!(m.active_extent(), 2);
    m.run_to_completion(2);
    assert_eq!(m.tape(), &vec![0, 1, 0, 0, 0]);
    assert_eq!(m.active_extent(), 1);
    m.run_to_completion(5);
    assert_eq!(m.tape(), &vec![1, 0, 0, 0, 0]);
    assert_eq!(m.active_extent(), 0);
}

#[test]
fn decrement_wrap_beyond_extent_extends_it() {
    let mut m = machine(">>-", 4);
    m.run_to_completion(10);
    assert_eq!(m.tape()[2], 255);
    assert_eq!(m.active_extent(), 2);
}

#[test]
fn increment_wrap_at_extent_keeps_it() {
    let src = format!(">{}", "+".repeat(256));
    let mut m = machine(&src, 3);
    assert_eq!(m.run_to_completion(1000), RunState::Completed);
    assert_eq!(m.tape(), &vec![0, 0, 0]);
    assert_eq!(m.active_extent(), 1);
}
