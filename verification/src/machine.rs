//! The executable interpreter.
//!
//! A [`Brainfuck`] instance is built from one source text and run once. Its
//! view is the model state [`MachineV`](crate::semantics::MachineV), and each
//! executed instruction corresponds to exactly one application of the
//! transition function [`step1`](crate::semantics::step1).

use vstd::prelude::*;
use vstd::string::StrSliceExecFns;

use crate::semantics::{
    initial_machine, lemma_run_steps_succ, run_steps, step1, MachineV, RunError, Status,
};

verus! {

broadcast use vstd::std_specs::vec::group_vec_axioms;

/// The result of executing a single instruction.
#[derive(Clone, Copy, Debug, PartialEq, Eq, Structural)]
pub enum StepOutcome {
    /// An instruction was dispatched and the machine advanced.
    Running,
    /// The instruction pointer is past the end of the stream; the machine
    /// did not change.
    Completed,
    /// A fatal condition was hit; the machine did not change.
    Failed(RunError),
}

/// The outcome of running the dispatch loop under a step budget.
#[derive(Debug, PartialEq, Eq)]
pub enum RunStatus {
    /// The instruction stream was exhausted; the accumulated output.
    Completed(String),
    /// A fatal condition was hit.
    Failed(RunError),
    /// The step budget ran out before the run reached a terminal outcome.
    Exhausted,
}

/// The invocation surface around the engine: the one positional argument, a
/// path to the file holding the program source. The surrounding tool reads
/// that file and hands the engine its text.
pub struct Command {
    pub filename: String,
}

/// The interpreter: instruction stream, instruction pointer, tape, cell
/// pointer, loop-start stack, and the output accumulated so far. All of it
/// is created fresh for a single run of one source text.
pub struct Brainfuck {
    cell_index: usize,
    cells: Vec<u8>,
    loops: Vec<usize>,
    instructions: Vec<u8>,
    instruction_index: usize,
    output: String,
}

impl View for Brainfuck {
    type V = MachineV;

    closed spec fn view(&self) -> MachineV {
        MachineV {
            instructions: self.instructions@,
            instruction_index: self.instruction_index,
            cells: self.cells@,
            cell_index: self.cell_index,
            loops: self.loops@,
            output: self.output@,
        }
    }
}

/// Relies on `String::push` from std: appends exactly the given character to
/// the end of the string.
#[verifier::external_body]
fn push_char(out: &mut String, c: char)
    ensures
        final(out)@ == old(out)@.push(c),
{
    out.push(c);
}

impl Brainfuck {
    /// Builds an interpreter over the raw bytes of `source`: instruction
    /// pointer 0, a tape of one zero cell, cell pointer 0, an empty
    /// loop-start stack, and empty output.
    pub fn new(source: String) -> (r: Brainfuck)
        ensures
            r@ == initial_machine(vstd::utf8::encode_utf8(source@)),
            r@.wf(),
    {
        let instructions: Vec<u8> = source.as_str().as_bytes_vec();
        let mut cells: Vec<u8> = Vec::new();
        cells.push(0u8);
        let r = Brainfuck {
            cell_index: 0,
            cells,
            loops: Vec::new(),
            instructions,
            instruction_index: 0,
            output: String::new(),
        };
        proof {
            assert(vstd::std_specs::vec::spec_vec_len(&r.instructions) == r.instructions@.len());
            assert(r@ =~= initial_machine(vstd::utf8::encode_utf8(source@)));
        }
        r
    }

    /// Executes at most one instruction: exactly one application of the
    /// transition function `step1` to the machine's state. A machine whose
    /// instruction pointer has passed the end of the stream reports
    /// `Completed` and does not change; a failing instruction reports the
    /// failure and leaves the machine as it was.
    pub fn step(&mut self) -> (r: StepOutcome)
        requires
            old(self)@.wf(),
        ensures
            final(self)@.wf(),
            final(self)@.instructions == old(self)@.instructions,
            (match r {
                StepOutcome::Running => step1(old(self)@) == Status::Running(final(self)@),
                StepOutcome::Completed => final(self)@ == old(self)@ && step1(old(self)@)
                    == Status::Done(old(self)@.output),
                StepOutcome::Failed(e) => final(self)@ == old(self)@ && step1(old(self)@)
                    == Status::Failed(e),
            }),
    {
        if self.instruction_index >= self.instructions.len() {
            return StepOutcome::Completed;
        }
        let instruction: u8 = self.instructions[self.instruction_index];
        if instruction == '>' as u8 {
            if self.cell_index == self.cells.len() - 1 {
                self.cells.push(0u8);
            }
            self.cell_index = self.cell_index + 1;
        } else if instruction == '<' as u8 {
            if self.cell_index == 0 {
                return StepOutcome::Failed(RunError::OutOfBounds {
                    position: self.instruction_index,
                    instruction,
                });
            }
            self.cell_index = self.cell_index - 1;
        } else if instruction == '+' as u8 {
            let v: u8 = self.cells[self.cell_index];
            self.cells[self.cell_index] = v.wrapping_add(1);
        } else if instruction == '-' as u8 {
            let v: u8 = self.cells[self.cell_index];
            self.cells[self.cell_index] = v.wrapping_sub(1);
        } else if instruction == '[' as u8 {
            self.loops.push(self.instruction_index);
        } else if instruction == ']' as u8 {
            if self.cells[self.cell_index] != 0 {
                if self.loops.len() == 0 {
                    return StepOutcome::Failed(RunError::NoLoopFound {
                        position: self.instruction_index,
                        instruction,
                    });
                }
                self.instruction_index = self.loops[self.loops.len() - 1];
                proof {
                    assert(self@.instruction_index < self@.instructions.len());
                }
            }
        } else if instruction == '.' as u8 {
            let c: char = self.cells[self.cell_index] as char;
            push_char(&mut self.output, c);
        } else if instruction == ',' as u8 || instruction == '#' as u8 {
            return StepOutcome::Failed(RunError::Unsupported {
                position: self.instruction_index,
                instruction,
            });
        }
        proof {
            assert(vstd::std_specs::vec::spec_vec_len(&self.cells) == self.cells@.len());
            assert(vstd::std_specs::vec::spec_vec_len(&self.loops) == self.loops@.len());
        }
        self.instruction_index = self.instruction_index + 1;
        StepOutcome::Running
    }

    /// Runs the dispatch loop for at most `fuel` instructions.
    ///
    /// The result is exactly what iterating the transition function from the
    /// machine's starting state yields: `Completed` carries the accumulated
    /// output of a run whose instruction stream was exhausted within the
    /// budget, `Failed` the error of a run that hit a fatal condition within
    /// the budget, and `Exhausted` means the machine was still running after
    /// `fuel` steps. The machine is left in the state the last step reached,
    /// so a further call resumes the run.
    #[verifier::loop_isolation(false)]
    pub fn run(&mut self, fuel: u64) -> (r: RunStatus)
        requires
            old(self)@.wf(),
        ensures
            final(self)@.wf(),
            final(self)@.instructions == old(self)@.instructions,
            (match r {
                RunStatus::Completed(out) => exists|n: nat|
                    n <= fuel && #[trigger] run_steps(Status::Running(old(self)@), n)
                        == Status::Running(final(self)@) && step1(final(self)@)
                        == Status::Done(out@),
                RunStatus::Failed(e) => exists|n: nat|
                    n <= fuel && #[trigger] run_steps(Status::Running(old(self)@), n)
                        == Status::Running(final(self)@) && step1(final(self)@)
                        == Status::Failed(e),
                RunStatus::Exhausted => run_steps(Status::Running(old(self)@), fuel as nat)
                    == Status::Running(final(self)@),
            }),
    {
        let mut i: u64 = 0;
        while i < fuel
            invariant
                i <= fuel,
                self@.wf(),
                self@.instructions == old(self)@.instructions,
                run_steps(Status::Running(old(self)@), i as nat) == Status::Running(self@),
            decreases fuel - i,
        {
            match self.step() {
                StepOutcome::Running => {
                    proof {
                        lemma_run_steps_succ(Status::Running(old(self)@), i as nat);
                        assert((i + 1) as nat == i as nat + 1);
                    }
                    i = i + 1;
                },
                StepOutcome::Completed => {
                    return RunStatus::Completed(self.output.clone());
                },
                StepOutcome::Failed(e) => {
                    return RunStatus::Failed(e);
                },
            }
        }
        RunStatus::Exhausted
    }

    /// The current instruction pointer.
    pub fn instruction_pointer(&self) -> (r: usize)
        ensures
            r == self@.instruction_index,
    {
        self.instruction_index
    }

    /// The current cell pointer.
    pub fn cell_pointer(&self) -> (r: usize)
        ensures
            r == self@.cell_index,
    {
        self.cell_index
    }

    /// The number of cells the tape has grown to.
    pub fn tape_len(&self) -> (r: usize)
        ensures
            r == self@.cells.len(),
    {
        self.cells.len()
    }

    /// The value of the cell under the cell pointer.
    pub fn current_cell(&self) -> (r: u8)
        requires
            self@.wf(),
        ensures
            r == self@.current_cell(),
    {
        self.cells[self.cell_index]
    }

    /// The number of loop starts recorded on the stack.
    pub fn loop_depth(&self) -> (r: usize)
        ensures
            r == self@.loops.len(),
    {
        self.loops.len()
    }
}

} // verus!
