//! Error taxonomy of the interpreter.
//!
//! Loading can fail before execution starts; a run can fail fatally at an
//! instruction. Runtime errors carry the cursor position (column, row) at
//! the time of failure.

use vstd::prelude::*;

verus! {

/// The source text does not fit the fixed program grid.
#[derive(Clone, Copy, PartialEq, Eq, Structural, Debug)]
pub enum LoadError {
    /// Some line of the source would place a character past the last column.
    ProgramTooWide,
    /// The source would place a character below the last row.
    ProgramTooTall,
}

/// A fatal condition raised while executing. Each variant carries the
/// cursor position (column `x`, row `y`) at the time of failure.
#[derive(Clone, Copy, PartialEq, Eq, Structural, Debug)]
pub enum RuntimeError {
    /// An instruction popped from an empty stack.
    StackUnderflow { x: usize, y: usize },
    /// A put instruction addressed a cell outside the grid.
    BoundsError { x: usize, y: usize },
    /// Division or modulo by zero.
    ArithmeticError { x: usize, y: usize },
    /// Malformed or exhausted input on a read instruction.
    InputError { x: usize, y: usize },
}

} // verus!
