use brainfuck::{Brainfuck, RunStatus};

const FUEL: u64 = 1_000_000;

fn run_to_end(source: &str) -> RunStatus {
    let mut interpreter = Brainfuck::new(source.to_string());
    interpreter.run(FUEL)
}

fn expect_output(source: &str) -> String {
    match run_to_end(source) {
        RunStatus::Completed(out) => out,
        other => panic!("expected completion, got {:?}", other),
    }
}

#[test]
fn empty_program_completes_with_no_output() {
    assert_eq!(expect_output(""), "");
}

#[test]
fn single_increment_then_output() {
    assert_eq!(expect_output("+."), "\u{1}");
}

#[test]
fn wraparound_after_256_increments() {
    let mut source = "+".repeat(256);
    source.push('.');
    assert_eq!(expect_output(&source), "\u{0}");
}

#[test]
fn decrement_wraps_to_255() {
    assert_eq!(expect_output("-."), "\u{ff}");
}

#[test]
fn output_reads_the_value_path() {
    assert_eq!(expect_output("+.+.-."), "\u{1}\u{2}\u{1}");
}

#[test]
fn unrecognized_bytes_are_ignored() {
    assert_eq!(expect_output("+a b\nc."), "\u{1}");
}

#[test]
fn clear_loop_drains_cell_and_exits() {
    let mut interpreter = Brainfuck::new("+++[-]".to_string());
    match interpreter.run(FUEL) {
        RunStatus::Completed(out) => assert_eq!(out, ""),
        other => panic!("expected completion, got {:?}", other),
    }
    assert_eq!(interpreter.instruction_pointer(), 6);
    assert_eq!(interpreter.current_cell(), 0);
    assert_eq!(interpreter.tape_len(), 1);
}

#[test]
fn clear_loop_on_zero_cell_wraps_through_all_values() {
    let mut interpreter = Brainfuck::new("[-]".to_string());
    match interpreter.run(FUEL) {
        RunStatus::Completed(out) => assert_eq!(out, ""),
        other => panic!("expected completion, got {:?}", other),
    }
    assert_eq!(interpreter.instruction_pointer(), 3);
    assert_eq!(interpreter.current_cell(), 0);
}

#[test]
fn multiplication_loop_outputs_sixty_four() {
    assert_eq!(expect_output("++++++++[>++++++++<-]>."), "@");
}
