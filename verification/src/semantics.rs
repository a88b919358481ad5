//! The mathematical model of the engine: machine states, the single-step
//! transition function over them, and its bounded iteration.
//!
//! The executable interpreter in [`crate::machine`] is specified entirely in
//! terms of this model: its view is a [`MachineV`], and each call to `step`
//! performs exactly one application of [`step1`].

use vstd::prelude::*;

verus! {

/// The labeled failures an execution can end in. Each one identifies the
/// instruction pointer at the moment of failure and the instruction byte
/// found there.
#[derive(Clone, Copy, Debug, PartialEq, Eq, Structural)]
pub enum RunError {
    /// The cell pointer would move below the starting cell of the tape.
    OutOfBounds { position: usize, instruction: u8 },
    /// A loop-close instruction would jump backward with no recorded
    /// loop start on the stack.
    NoLoopFound { position: usize, instruction: u8 },
    /// An input-read or debug-marker instruction, for which the engine has
    /// no implementation.
    Unsupported { position: usize, instruction: u8 },
}

/// A machine state: the immutable instruction stream, the instruction
/// pointer into it, the tape of byte cells with the cell pointer, the stack
/// of recorded loop starts, and the output accumulated so far.
#[verifier::ext_equal]
pub ghost struct MachineV {
    pub instructions: Seq<u8>,
    pub instruction_index: usize,
    pub cells: Seq<u8>,
    pub cell_index: usize,
    pub loops: Seq<usize>,
    pub output: Seq<char>,
}

/// The status of an execution: still running in some machine state,
/// completed with the accumulated output, or failed.
#[verifier::ext_equal]
pub ghost enum Status {
    Running(MachineV),
    Done(Seq<char>),
    Failed(RunError),
}

impl MachineV {
    /// Well-formedness: the tape always has at least one cell, the cell
    /// pointer is a valid tape index, the instruction pointer never passes
    /// one past the end of the stream, and every recorded loop start is the
    /// index of an instruction. The length bounds record that both sequences
    /// live in a machine's memory.
    pub open spec fn wf(self) -> bool {
        &&& 1 <= self.cells.len() <= usize::MAX
        &&& self.cell_index < self.cells.len()
        &&& self.instruction_index <= self.instructions.len()
        &&& self.instructions.len() <= usize::MAX
        &&& forall|i: int|
            0 <= i < self.loops.len() ==> (#[trigger] self.loops[i]) < self.instructions.len()
    }

    /// The instruction byte at the instruction pointer.
    pub open spec fn current_instruction(self) -> u8 {
        self.instructions[self.instruction_index as int]
    }

    /// The value of the cell under the cell pointer.
    pub open spec fn current_cell(self) -> u8 {
        self.cells[self.cell_index as int]
    }
}

/// The state a fresh interpreter starts in: instruction pointer 0, a tape of
/// one zero cell, cell pointer 0, no recorded loop starts, empty output.
pub open spec fn initial_machine(instructions: Seq<u8>) -> MachineV {
    MachineV {
        instructions,
        instruction_index: 0,
        cells: seq![0u8],
        cell_index: 0,
        loops: Seq::empty(),
        output: Seq::empty(),
    }
}

/// Increment of a cell value with 8-bit wraparound.
pub open spec fn inc_cell(v: u8) -> u8 {
    if v == 255 {
        0
    } else {
        (v + 1) as u8
    }
}

/// Decrement of a cell value with 8-bit wraparound.
pub open spec fn dec_cell(v: u8) -> u8 {
    if v == 0 {
        255
    } else {
        (v - 1) as u8
    }
}

/// One step of the dispatch loop, from the state `s`.
///
/// When the instruction pointer has reached or passed the end of the stream,
/// the run is complete and its output is the accumulated output. Otherwise
/// the byte under the instruction pointer is dispatched:
///
/// - `>` appends a zero cell if the cell pointer is at the last tape index,
///   then moves the cell pointer right;
/// - `<` moves the cell pointer left, or fails with `OutOfBounds` at the
///   starting cell;
/// - `+` and `-` change the current cell with 8-bit wraparound;
/// - `[` pushes the current instruction pointer onto the loop-start stack
///   (the current cell is not consulted);
/// - `]` jumps back to just after the top-of-stack loop start if the current
///   cell is non-zero (the stack is not popped on either path), fails with
///   `NoLoopFound` if the jump is owed but the stack is empty, and does
///   nothing if the current cell is zero;
/// - `.` appends the current cell, read as a character, to the output;
/// - `,` and `#` always fail with `Unsupported`;
/// - every other byte is ignored.
///
/// Every instruction that does not fail, including a taken backward jump, is
/// followed by the advance of the instruction pointer by exactly one, which
/// is folded into the successor state here. A failing instruction leaves the
/// state exactly as it was.
pub open spec fn step1(s: MachineV) -> Status {
    if s.instruction_index >= s.instructions.len() {
        Status::Done(s.output)
    } else {
        let b = s.current_instruction();
        if b == '>' as u8 {
            Status::Running(MachineV {
                cells: if s.cell_index == s.cells.len() - 1 {
                    s.cells.push(0u8)
                } else {
                    s.cells
                },
                cell_index: (s.cell_index + 1) as usize,
                instruction_index: (s.instruction_index + 1) as usize,
                ..s
            })
        } else if b == '<' as u8 {
            if s.cell_index == 0 {
                Status::Failed(RunError::OutOfBounds { position: s.instruction_index, instruction: b })
            } else {
                Status::Running(MachineV {
                    cell_index: (s.cell_index - 1) as usize,
                    instruction_index: (s.instruction_index + 1) as usize,
                    ..s
                })
            }
        } else if b == '+' as u8 {
            Status::Running(MachineV {
                cells: s.cells.update(s.cell_index as int, inc_cell(s.current_cell())),
                instruction_index: (s.instruction_index + 1) as usize,
                ..s
            })
        } else if b == '-' as u8 {
            Status::Running(MachineV {
                cells: s.cells.update(s.cell_index as int, dec_cell(s.current_cell())),
                instruction_index: (s.instruction_index + 1) as usize,
                ..s
            })
        } else if b == '[' as u8 {
            Status::Running(MachineV {
                loops: s.loops.push(s.instruction_index),
                instruction_index: (s.instruction_index + 1) as usize,
                ..s
            })
        } else if b == ']' as u8 {
            if s.current_cell() != 0 {
                if s.loops.len() > 0 {
                    Status::Running(MachineV {
                        instruction_index: (s.loops.last() + 1) as usize,
                        ..s
                    })
                } else {
                    Status::Failed(RunError::NoLoopFound {
                        position: s.instruction_index,
                        instruction: b,
                    })
                }
            } else {
                Status::Running(MachineV {
                    instruction_index: (s.instruction_index + 1) as usize,
                    ..s
                })
            }
        } else if b == '.' as u8 {
            Status::Running(MachineV {
                output: s.output.push(s.current_cell() as char),
                instruction_index: (s.instruction_index + 1) as usize,
                ..s
            })
        } else if b == ',' as u8 || b == '#' as u8 {
            Status::Failed(RunError::Unsupported { position: s.instruction_index, instruction: b })
        } else {
            Status::Running(MachineV {
                instruction_index: (s.instruction_index + 1) as usize,
                ..s
            })
        }
    }
}

/// One step of a whole execution: a running machine takes one dispatch step;
/// a terminal status stays as it is.
pub open spec fn step_status(st: Status) -> Status {
    match st {
        Status::Running(m) => step1(m),
        _ => st,
    }
}

/// The status after `n` steps from `st`.
pub open spec fn run_steps(st: Status, n: nat) -> Status
    decreases n,
{
    if n == 0 {
        st
    } else {
        step_status(run_steps(st, (n - 1) as nat))
    }
}

/// Unfolding: zero steps change nothing.
pub proof fn lemma_run_steps_zero(st: Status)
    ensures
        run_steps(st, 0) == st,
{
}

/// Unfolding: `n + 1` steps are `n` steps followed by one more.
pub proof fn lemma_run_steps_succ(st: Status, n: nat)
    ensures
        run_steps(st, n + 1) == step_status(run_steps(st, n)),
{
    assert((n + 1 - 1) as nat == n);
}

/// Iteration splits: stepping `a + b` times is stepping `a` times, then `b`
/// times.
pub proof fn lemma_run_steps_add(st: Status, a: nat, b: nat)
    ensures
        run_steps(st, a + b) == run_steps(run_steps(st, a), b),
    decreases b,
{
    if b > 0 {
        lemma_run_steps_add(st, a, (b - 1) as nat);
        assert(a + b - 1 == a + (b - 1) as nat);
    }
}

/// A terminal status is stable: once an execution has completed or failed,
/// no number of further steps changes it. In particular, no output is
/// produced past a failure.
pub proof fn lemma_terminal_stable(st: Status, n: nat)
    requires
        !(st is Running),
    ensures
        run_steps(st, n) == st,
    decreases n,
{
    if n > 0 {
        lemma_terminal_stable(st, (n - 1) as nat);
    }
}

} // verus!
