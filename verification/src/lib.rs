//! A verified interpreter for the Befunge-93 esoteric programming language.
//!
//! The interpreter executes a program laid out on a fixed 25 x 80 grid of
//! cells. An instruction pointer with a direction of travel walks the grid
//! toroidally; each visited cell is dispatched as a single-character opcode
//! acting on an operand stack.

use vstd::prelude::*;

pub mod environment;
pub mod errors;
pub mod load;
mod rng;
pub mod semantics;
pub mod state;
pub mod textio;

pub use environment::Befunge93Interpreter;
pub use environment::Environment;
pub use errors::LoadError;
pub use errors::RuntimeError;
pub use semantics::RunResult;
pub use semantics::StepOutcome;

verus! {

/// Number of columns in the program grid.
pub const GRID_WIDTH: usize = 80;

/// Number of rows in the program grid.
pub const GRID_HEIGHT: usize = 25;

} // verus!
