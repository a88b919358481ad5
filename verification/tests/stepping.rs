use brainfuck::{Brainfuck, Command, RunStatus, StepOutcome};

#[test]
fn fresh_interpreter_starts_on_one_zero_cell() {
    let interpreter = Brainfuck::new("+".to_string());
    assert_eq!(interpreter.instruction_pointer(), 0);
    assert_eq!(interpreter.cell_pointer(), 0);
    assert_eq!(interpreter.tape_len(), 1);
    assert_eq!(interpreter.current_cell(), 0);
    assert_eq!(interpreter.loop_depth(), 0);
}

#[test]
fn tape_grows_only_when_pointer_is_at_highest_index() {
    let mut interpreter = Brainfuck::new("><><><".to_string());
    assert_eq!(interpreter.tape_len(), 1);
    assert!(matches!(interpreter.step(), StepOutcome::Running));
    assert_eq!(interpreter.tape_len(), 2);
    assert_eq!(interpreter.cell_pointer(), 1);
    assert!(matches!(interpreter.step(), StepOutcome::Running));
    assert_eq!(interpreter.tape_len(), 2);
    assert_eq!(interpreter.cell_pointer(), 0);
    match interpreter.run(1_000) {
        RunStatus::Completed(out) => assert_eq!(out, ""),
        other => panic!("expected completion, got {:?}", other),
    }
    assert_eq!(interpreter.tape_len(), 2);
}

#[test]
fn tape_grows_once_per_new_highest_index() {
    let mut interpreter = Brainfuck::new(">>>".to_string());
    match interpreter.run(1_000) {
        RunStatus::Completed(out) => assert_eq!(out, ""),
        other => panic!("expected completion, got {:?}", other),
    }
    assert_eq!(interpreter.tape_len(), 4);
    assert_eq!(interpreter.cell_pointer(), 3);
}

#[test]
fn nested_close_jumps_to_stack_top_without_popping() {
    let mut interpreter = Brainfuck::new("++[[-]-]".to_string());
    let mut steps: u32 = 0;
    while interpreter.instruction_pointer() != 7 {
        assert!(matches!(interpreter.step(), StepOutcome::Running));
        steps += 1;
        assert!(steps < 100);
    }
    assert_eq!(interpreter.loop_depth(), 2);
    assert_eq!(interpreter.current_cell(), 255);
    assert!(matches!(interpreter.step(), StepOutcome::Running));
    assert_eq!(interpreter.instruction_pointer(), 4);
}

#[test]
fn unbounded_repetition_exhausts_any_budget() {
    let mut interpreter = Brainfuck::new("+[]".to_string());
    assert!(matches!(interpreter.run(1_000), RunStatus::Exhausted));
    assert!(matches!(interpreter.run(1_000), RunStatus::Exhausted));
}

#[test]
fn run_resumes_where_the_budget_ran_out() {
    let mut interpreter = Brainfuck::new("++++++++[>++++++++<-]>.".to_string());
    let mut slices: u32 = 0;
    loop {
        match interpreter.run(10) {
            RunStatus::Exhausted => {
                slices += 1;
                assert!(slices < 100);
            }
            RunStatus::Completed(out) => {
                assert_eq!(out, "@");
                break;
            }
            other => panic!("expected completion, got {:?}", other),
        }
    }
    assert!(slices > 0);
}

#[test]
fn zero_budget_is_always_exhausted() {
    let mut interpreter = Brainfuck::new(String::new());
    assert!(matches!(interpreter.run(0), RunStatus::Exhausted));
    match interpreter.run(1) {
        RunStatus::Completed(out) => assert_eq!(out, ""),
        other => panic!("expected completion, got {:?}", other),
    }
}

#[test]
fn stepping_past_the_end_reports_completed() {
    let mut interpreter = Brainfuck::new(String::new());
    assert!(matches!(interpreter.step(), StepOutcome::Completed));
    assert!(matches!(interpreter.step(), StepOutcome::Completed));
    assert_eq!(interpreter.instruction_pointer(), 0);
}

#[test]
fn command_carries_the_source_path() {
    let command = Command { filename: "program.bf".to_string() };
    assert_eq!(command.filename, "program.bf");
}
