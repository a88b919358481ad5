use brainfuck::{Brainfuck, RunError, RunStatus};

fn run_to_end(source: &str) -> RunStatus {
    let mut interpreter = Brainfuck::new(source.to_string());
    interpreter.run(1_000)
}

#[test]
fn immediate_left_fails_out_of_bounds_at_position_zero() {
    match run_to_end("<") {
        RunStatus::Failed(RunError::OutOfBounds { position, instruction }) => {
            assert_eq!(position, 0);
            assert_eq!(instruction, b'<');
        }
        other => panic!("expected OutOfBounds, got {:?}", other),
    }
}

#[test]
fn left_at_origin_fails_whatever_came_before() {
    match run_to_end("+><<") {
        RunStatus::Failed(RunError::OutOfBounds { position, instruction }) => {
            assert_eq!(position, 3);
            assert_eq!(instruction, b'<');
        }
        other => panic!("expected OutOfBounds, got {:?}", other),
    }
}

#[test]
fn close_without_open_fails_no_loop_found() {
    match run_to_end("+]") {
        RunStatus::Failed(RunError::NoLoopFound { position, instruction }) => {
            assert_eq!(position, 1);
            assert_eq!(instruction, b']');
        }
        other => panic!("expected NoLoopFound, got {:?}", other),
    }
}

#[test]
fn close_on_zero_cell_is_skipped_even_without_open() {
    match run_to_end("]") {
        RunStatus::Completed(out) => assert_eq!(out, ""),
        other => panic!("expected completion, got {:?}", other),
    }
}

#[test]
fn input_instruction_is_unsupported() {
    match run_to_end(",") {
        RunStatus::Failed(RunError::Unsupported { position, instruction }) => {
            assert_eq!(position, 0);
            assert_eq!(instruction, b',');
        }
        other => panic!("expected Unsupported, got {:?}", other),
    }
}

#[test]
fn debug_marker_is_unsupported_wherever_it_stands() {
    match run_to_end("+.#") {
        RunStatus::Failed(RunError::Unsupported { position, instruction }) => {
            assert_eq!(position, 2);
            assert_eq!(instruction, b'#');
        }
        other => panic!("expected Unsupported, got {:?}", other),
    }
}

#[test]
fn failure_discards_output_accumulated_before_it() {
    match run_to_end(".<") {
        RunStatus::Failed(RunError::OutOfBounds { position, instruction }) => {
            assert_eq!(position, 1);
            assert_eq!(instruction, b'<');
        }
        other => panic!("expected OutOfBounds, got {:?}", other),
    }
}
