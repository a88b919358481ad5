//! General properties of the engine, stated over the model of
//! [`crate::semantics`] and proved once and for all.

use vstd::prelude::*;

use crate::semantics::{
    dec_cell, inc_cell, lemma_run_steps_add, lemma_run_steps_succ, lemma_run_steps_zero, run_steps,
    step1, MachineV, RunError, Status,
};

verus! {

/// An instruction byte of a straight-line program: an increment, a
/// decrement, or an output instruction. None of these moves a pointer,
/// touches the loop-start stack, or fails.
pub open spec fn is_arith_instruction(b: u8) -> bool {
    b == '+' as u8 || b == '-' as u8 || b == '.' as u8
}

/// The output of a straight-line program over one cell that starts at `v`:
/// the cell's value path traced through wraparound arithmetic, read off at
/// each output instruction.
pub open spec fn arith_trace(program: Seq<u8>, v: u8) -> Seq<char>
    decreases program.len(),
{
    if program.len() == 0 {
        Seq::empty()
    } else if program[0] == '+' as u8 {
        arith_trace(program.drop_first(), inc_cell(v))
    } else if program[0] == '-' as u8 {
        arith_trace(program.drop_first(), dec_cell(v))
    } else {
        seq![v as char] + arith_trace(program.drop_first(), v)
    }
}

/// A run whose remaining instructions are all increments, decrements and
/// output instructions completes, and its output extends the output so far
/// by exactly the wraparound value path of the current cell, read off at
/// each output instruction.
pub proof fn lemma_straight_line_output(m: MachineV)
    requires
        m.wf(),
        forall|i: int|
            m.instruction_index <= i < m.instructions.len() ==> is_arith_instruction(
                #[trigger] m.instructions[i],
            ),
    ensures
        exists|k: nat|
            #[trigger] run_steps(Status::Running(m), k) == Status::Done(
                m.output + arith_trace(
                    m.instructions.skip(m.instruction_index as int),
                    m.current_cell(),
                ),
            ),
    decreases m.instructions.len() - m.instruction_index,
{
    let rest = m.instructions.skip(m.instruction_index as int);
    let v = m.current_cell();
    lemma_run_steps_zero(Status::Running(m));
    lemma_run_steps_succ(Status::Running(m), 0);
    if m.instruction_index >= m.instructions.len() {
        assert(m.output + arith_trace(rest, v) =~= m.output);
        assert(run_steps(Status::Running(m), 1) == Status::Done(
            m.output + arith_trace(rest, v),
        ));
    } else {
        let b = m.current_instruction();
        assert(is_arith_instruction(b));
        assert(rest[0] == b);
        assert(rest.drop_first() =~= m.instructions.skip(m.instruction_index + 1));
        if b == '+' as u8 {
            let m2 = MachineV {
                cells: m.cells.update(m.cell_index as int, inc_cell(v)),
                instruction_index: (m.instruction_index + 1) as usize,
                ..m
            };
            assert(step1(m) == Status::Running(m2));
            lemma_straight_line_output(m2);
            let k2 = choose|k: nat|
                #[trigger] run_steps(Status::Running(m2), k) == Status::Done(
                    m2.output + arith_trace(
                        m2.instructions.skip(m2.instruction_index as int),
                        m2.current_cell(),
                    ),
                );
            lemma_run_steps_add(Status::Running(m), 1, k2);
            assert(run_steps(Status::Running(m), 1) == Status::Running(m2));
            assert(run_steps(Status::Running(m), 1 + k2) == Status::Done(
                m.output + arith_trace(rest, v),
            ));
        } else if b == '-' as u8 {
            let m2 = MachineV {
                cells: m.cells.update(m.cell_index as int, dec_cell(v)),
                instruction_index: (m.instruction_index + 1) as usize,
                ..m
            };
            assert(step1(m) == Status::Running(m2));
            lemma_straight_line_output(m2);
            let k2 = choose|k: nat|
                #[trigger] run_steps(Status::Running(m2), k) == Status::Done(
                    m2.output + arith_trace(
                        m2.instructions.skip(m2.instruction_index as int),
                        m2.current_cell(),
                    ),
                );
            lemma_run_steps_add(Status::Running(m), 1, k2);
            assert(run_steps(Status::Running(m), 1) == Status::Running(m2));
            assert(run_steps(Status::Running(m), 1 + k2) == Status::Done(
                m.output + arith_trace(rest, v),
            ));
        } else {
            let m2 = MachineV {
                output: m.output.push(v as char),
                instruction_index: (m.instruction_index + 1) as usize,
                ..m
            };
            assert(step1(m) == Status::Running(m2));
            lemma_straight_line_output(m2);
            let k2 = choose|k: nat|
                #[trigger] run_steps(Status::Running(m2), k) == Status::Done(
                    m2.output + arith_trace(
                        m2.instructions.skip(m2.instruction_index as int),
                        m2.current_cell(),
                    ),
                );
            assert(m.output + arith_trace(rest, v) =~= m2.output + arith_trace(
                m.instructions.skip(m.instruction_index + 1),
                v,
            ));
            lemma_run_steps_add(Status::Running(m), 1, k2);
            assert(run_steps(Status::Running(m), 1) == Status::Running(m2));
            assert(run_steps(Status::Running(m), 1 + k2) == Status::Done(
                m.output + arith_trace(rest, v),
            ));
        }
    }
}

/// A left move with the cell pointer at the starting cell always fails with
/// `OutOfBounds`, whatever instructions came before and whatever else the
/// state holds. By [`crate::semantics::lemma_terminal_stable`], no further
/// output is produced past the failure.
pub proof fn lemma_left_at_origin_fails(m: MachineV)
    requires
        m.instruction_index < m.instructions.len(),
        m.current_instruction() == '<' as u8,
        m.cell_index == 0,
    ensures
        step1(m) == Status::Failed(
            (RunError::OutOfBounds { position: m.instruction_index, instruction: '<' as u8 }),
        ),
{
}

/// A loop close whose jump is owed (current cell non-zero) always fails with
/// `NoLoopFound` when the loop-start stack is empty.
pub proof fn lemma_close_without_open_fails(m: MachineV)
    requires
        m.instruction_index < m.instructions.len(),
        m.current_instruction() == ']' as u8,
        m.loops.len() == 0,
        m.current_cell() != 0,
    ensures
        step1(m) == Status::Failed(
            (RunError::NoLoopFound { position: m.instruction_index, instruction: ']' as u8 }),
        ),
{
}

/// An input-read or debug-marker instruction always fails with
/// `Unsupported`, wherever it stands in the stream and whatever the rest of
/// the state holds.
pub proof fn lemma_unsupported_always_fails(m: MachineV)
    requires
        m.instruction_index < m.instructions.len(),
        m.current_instruction() == ',' as u8 || m.current_instruction() == '#' as u8,
    ensures
        step1(m) == Status::Failed(
            (RunError::Unsupported {
                position: m.instruction_index,
                instruction: m.current_instruction(),
            }),
        ),
{
}

/// A step grows the tape by exactly one cell when and only when it executes
/// a right move with the cell pointer at the highest tape index; every other
/// step leaves the tape length unchanged.
pub proof fn lemma_tape_growth(m: MachineV)
    requires
        m.wf(),
    ensures
        step1(m) matches Status::Running(m2) ==> m2.cells.len() == (
        if m.instruction_index < m.instructions.len() && m.current_instruction() == '>' as u8
            && m.cell_index == m.cells.len() - 1 {
            m.cells.len() + 1
        } else {
            m.cells.len()
        }),
{
    if m.instruction_index < m.instructions.len() {
        let b = m.current_instruction();
        if b == '>' as u8 {
            if m.cell_index == m.cells.len() - 1 {
                assert(m.cells.push(0u8).len() == m.cells.len() + 1);
            }
        } else if b == '+' as u8 || b == '-' as u8 {
            assert(step1(m) matches Status::Running(m2) ==> m2.cells.len() == m.cells.len());
        }
    }
}

/// The instruction stream `[-]`.
pub open spec fn clear_loop_program() -> Seq<u8> {
    seq!['[' as u8, '-' as u8, ']' as u8]
}

/// From just inside a clearing loop (`[-]`, instruction pointer on the
/// decrement, the loop start recorded), the run reaches the state whose one
/// cell is zero and whose instruction pointer is just past the loop close.
proof fn lemma_clear_loop_from(m: MachineV)
    requires
        m.instructions == clear_loop_program(),
        m.instruction_index == 1,
        m.cells.len() == 1,
        m.cell_index == 0,
        m.loops == seq![0usize],
    ensures
        exists|k: nat|
            #[trigger] run_steps(Status::Running(m), k) == Status::Running(
                (MachineV { instruction_index: 3, cells: seq![0u8], ..m }),
            ),
    decreases (if m.cells[0] == 0 {
        256int
    } else {
        m.cells[0] as int
    }),
{
    let target = MachineV { instruction_index: 3, cells: seq![0u8], ..m };
    let c = m.cells[0];
    let d = dec_cell(c);
    let ma = MachineV { cells: m.cells.update(0, d), instruction_index: 2, ..m };
    lemma_run_steps_zero(Status::Running(m));
    lemma_run_steps_succ(Status::Running(m), 0);
    lemma_run_steps_succ(Status::Running(m), 1);
    assert(m.current_instruction() == '-' as u8);
    assert(step1(m) == Status::Running(ma));
    assert(ma.current_instruction() == ']' as u8);
    assert(ma.current_cell() == d);
    if d == 0 {
        let mb = MachineV { instruction_index: 3, ..ma };
        assert(step1(ma) == Status::Running(mb));
        assert(mb =~= target);
        assert(run_steps(Status::Running(m), 2) == Status::Running(target));
    } else {
        assert(ma.loops.last() == 0usize);
        let mb = MachineV { instruction_index: 1, ..ma };
        assert(step1(ma) == Status::Running(mb));
        lemma_clear_loop_from(mb);
        let k2 = choose|k: nat|
            #[trigger] run_steps(Status::Running(mb), k) == Status::Running(
                (MachineV { instruction_index: 3, cells: seq![0u8], ..mb }),
            );
        lemma_run_steps_add(Status::Running(m), 2, k2);
        assert(run_steps(Status::Running(m), 2) == Status::Running(mb));
        assert(MachineV { instruction_index: 3, cells: seq![0u8], ..mb } =~= target);
        assert(run_steps(Status::Running(m), 2 + k2) == Status::Running(target));
    }
}

/// A single well-formed clearing loop `[-]`, started on a tape of one cell
/// holding any value, drains that cell to zero and then exits: the run
/// reaches the state whose instruction pointer is just past the loop close
/// (the close sees zero and does not jump), and the next step completes the
/// run with empty output.
pub proof fn lemma_clear_loop_drains_cell(n: u8)
    ensures
        ({
            let start = MachineV {
                instructions: clear_loop_program(),
                instruction_index: 0,
                cells: seq![n],
                cell_index: 0,
                loops: Seq::empty(),
                output: Seq::empty(),
            };
            let done = MachineV {
                instruction_index: 3,
                cells: seq![0u8],
                loops: seq![0usize],
                ..start
            };
            &&& exists|k: nat| #[trigger] run_steps(Status::Running(start), k)
                == Status::Running(done)
            &&& step1(done) == Status::Done(Seq::empty())
        }),
{
    let start = MachineV {
        instructions: clear_loop_program(),
        instruction_index: 0,
        cells: seq![n],
        cell_index: 0,
        loops: Seq::empty(),
        output: Seq::empty(),
    };
    let done = MachineV { instruction_index: 3, cells: seq![0u8], loops: seq![0usize], ..start };
    let m1 = MachineV { loops: start.loops.push(0usize), instruction_index: 1, ..start };
    lemma_run_steps_zero(Status::Running(start));
    lemma_run_steps_succ(Status::Running(start), 0);
    assert(start.current_instruction() == '[' as u8);
    assert(step1(start) == Status::Running(m1));
    assert(m1.loops =~= seq![0usize]);
    lemma_clear_loop_from(m1);
    let k2 = choose|k: nat|
        #[trigger] run_steps(Status::Running(m1), k) == Status::Running(
            (MachineV { instruction_index: 3, cells: seq![0u8], ..m1 }),
        );
    lemma_run_steps_add(Status::Running(start), 1, k2);
    assert(run_steps(Status::Running(start), 1) == Status::Running(m1));
    assert(MachineV { instruction_index: 3, cells: seq![0u8], ..m1 } =~= done);
    assert(run_steps(Status::Running(start), 1 + k2) == Status::Running(done));
}

} // verus!
