//! A verified execution engine for a tape-based, instruction-pointer-driven
//! esoteric programming language.
//!
//! A program is a raw byte stream; an interpreter instance owns an
//! auto-growing tape of wrapping byte cells, a cell pointer, an instruction
//! pointer, and a stack of recorded loop starts. Execution is a single pass
//! over the instruction stream that accumulates printable output and either
//! completes with that output or aborts on the first fatal condition.
//!
//! The module [`semantics`] gives the mathematical model: machine states and
//! a single-step transition function. The module [`machine`] holds the
//! executable interpreter, whose contracts tie every run to that model. The
//! module [`laws`] states and proves the general properties of the engine.

pub mod laws;
pub mod machine;
pub mod semantics;

pub use machine::Brainfuck;
pub use machine::Command;
pub use machine::RunStatus;
pub use machine::StepOutcome;
pub use semantics::RunError;
