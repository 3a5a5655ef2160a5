//! The mathematical model of the machine.
//!
//! A [`VmState`] holds everything the dispatcher acts on: the 25 x 80 grid
//! of cells (row-major), the operand stack, the cursor position and
//! direction, the string-mode and running flags, and the bytes written so
//! far. Executable state lives in `Environment`, whose view is a `VmState`.

use vstd::prelude::*;

verus! {

/// Direction of travel of the instruction pointer: one of the four
/// cardinal unit vectors. East increases the column, South increases the
/// row (rows grow downwards).
#[derive(Clone, Copy, PartialEq, Eq, Structural, Debug)]
pub enum Direction {
    East,
    West,
    North,
    South,
}

impl Direction {
    /// Horizontal component of the unit vector.
    pub open spec fn dx(self) -> int {
        match self {
            Direction::East => 1,
            Direction::West => -1,
            Direction::North => 0,
            Direction::South => 0,
        }
    }

    /// Vertical component of the unit vector.
    pub open spec fn dy(self) -> int {
        match self {
            Direction::East => 0,
            Direction::West => 0,
            Direction::North => -1,
            Direction::South => 1,
        }
    }
}

/// One coordinate moved by one velocity component with toroidal wrap:
/// leaving the axis below zero reappears at `max`, leaving past `max`
/// reappears at zero.
pub open spec fn wrapped(coord: int, delta: int, max: int) -> int {
    if coord + delta < 0 {
        max
    } else if coord + delta > max {
        0
    } else {
        coord + delta
    }
}

/// The whole machine as a mathematical value.
#[verifier::ext_equal]
pub ghost struct VmState {
    /// Grid cells, row-major: the cell at column `x`, row `y` is
    /// `grid[y * 80 + x]`.
    pub grid: Seq<usize>,
    /// Operand stack; the last element is the top.
    pub stack: Seq<usize>,
    /// Cursor column, in `[0, 80)`.
    pub x: int,
    /// Cursor row, in `[0, 25)`.
    pub y: int,
    /// Direction of travel.
    pub dir: Direction,
    /// While set, cells are pushed literally instead of dispatched.
    pub string_mode: bool,
    /// Cleared only by the halt instruction (or a fatal error).
    pub running: bool,
    /// Bytes written by the output instructions, in order.
    pub out: Seq<u8>,
}

impl VmState {
    /// Structural invariant: full grid, cursor within bounds.
    pub open spec fn wf(self) -> bool {
        &&& self.grid.len() == 2000
        &&& 0 <= self.x < 80
        &&& 0 <= self.y < 25
    }

    /// The cell at column `x`, row `y`.
    pub open spec fn cell(self, x: int, y: int) -> usize {
        self.grid[y * 80 + x]
    }

    /// The cell under the cursor: the next instruction.
    pub open spec fn current(self) -> usize {
        self.cell(self.x, self.y)
    }

    /// The state with `v` pushed onto the stack.
    pub open spec fn pushed(self, v: usize) -> VmState {
        VmState { stack: self.stack.push(v), ..self }
    }

    /// The state with the top `n` stack elements removed.
    pub open spec fn popped(self, n: int) -> VmState {
        VmState { stack: self.stack.take(self.stack.len() - n), ..self }
    }

    /// The state with the direction of travel replaced.
    pub open spec fn with_dir(self, d: Direction) -> VmState {
        VmState { dir: d, ..self }
    }

    /// The state after one cursor move: both axes step by the velocity
    /// component and wrap toroidally, independently of each other.
    pub open spec fn advanced(self) -> VmState {
        VmState {
            x: wrapped(self.x, self.dir.dx(), 79),
            y: wrapped(self.y, self.dir.dy(), 24),
            ..self
        }
    }
}

/// The state a run starts from: as given, with the running flag set.
pub open spec fn started(s: VmState) -> VmState {
    VmState { running: true, ..s }
}

/// The initial machine over a freshly loaded grid: cursor at the origin
/// heading east, empty stack, normal mode, not yet running, no output.
pub open spec fn start_vm(grid: Seq<usize>) -> VmState {
    VmState {
        grid,
        stack: Seq::empty(),
        x: 0,
        y: 0,
        dir: Direction::East,
        string_mode: false,
        running: false,
        out: Seq::empty(),
    }
}

/// Law: advancing the cursor from an edge position, with the velocity
/// pointing off that edge, wraps to the opposite edge on that axis only;
/// the other axis is unaffected. From any non-edge position the cursor
/// moves by exactly one cell.
pub proof fn lemma_toroidal_wrap(s: VmState)
    requires
        s.wf(),
    ensures
        s.dir == Direction::West && s.x == 0 ==> s.advanced().x == 79 && s.advanced().y == s.y,
        s.dir == Direction::East && s.x == 79 ==> s.advanced().x == 0 && s.advanced().y == s.y,
        s.dir == Direction::North && s.y == 0 ==> s.advanced().y == 24 && s.advanced().x == s.x,
        s.dir == Direction::South && s.y == 24 ==> s.advanced().y == 0 && s.advanced().x == s.x,
        s.advanced().x == wrapped(s.x, s.dir.dx(), 79),
        s.advanced().y == wrapped(s.y, s.dir.dy(), 24),
        s.advanced().wf(),
{
}

} // verus!
