//! The grid loader.
//!
//! Source text is laid onto the fixed 25 x 80 grid: newlines delimit rows,
//! every other character — spaces included — occupies the next cell of the
//! current row, and cells no character reaches keep the blank value zero.
//! A character that would land past the last column or row is a load
//! error, never a silent truncation.

use vstd::prelude::*;
use vstd::string::StrSliceExecFns;

use crate::errors::LoadError;

verus! {

/// The grid an empty program loads to: every cell blank.
pub open spec fn blank_grid() -> Seq<usize> {
    Seq::new(2000, |i: int| 0usize)
}

/// One pass over the source from position `i`, filling `grid` at `row`,
/// `col`: the exact meaning of loading.
pub open spec fn load_rec(code: Seq<char>, i: int, grid: Seq<usize>, row: int, col: int) -> Result<
    Seq<usize>,
    LoadError,
>
    decreases code.len() - i,
{
    if i < 0 || i >= code.len() {
        Ok(grid)
    } else {
        let c = code[i];
        if c == '\n' {
            load_rec(code, i + 1, grid, row + 1, 0)
        } else if row >= 25 {
            Err(LoadError::ProgramTooTall)
        } else if col >= 80 {
            Err(LoadError::ProgramTooWide)
        } else {
            load_rec(code, i + 1, grid.update(row * 80 + col, c as usize), row, col + 1)
        }
    }
}

/// What loading the whole source yields: the filled grid, or the error
/// for the first character that does not fit. A source errs if and only
/// if some character would land past the last row (too tall) or past the
/// last column of its row (too wide).
pub open spec fn load_spec(code: Seq<char>) -> Result<Seq<usize>, LoadError> {
    load_rec(code, 0, blank_grid(), 0, 0)
}

/// The row the character at position `i` belongs to: the number of
/// newlines before it.
pub open spec fn row_of(code: Seq<char>, i: int) -> int
    decreases i,
{
    if i <= 0 {
        0
    } else if code[i - 1] == '\n' {
        row_of(code, i - 1) + 1
    } else {
        row_of(code, i - 1)
    }
}

/// The column the character at position `i` belongs to: its distance
/// from the newline before it.
pub open spec fn col_of(code: Seq<char>, i: int) -> int
    decreases i,
{
    if i <= 0 {
        0
    } else if code[i - 1] == '\n' {
        0
    } else {
        col_of(code, i - 1) + 1
    }
}

/// A source fits the grid when every character that occupies a cell —
/// newlines do not — lands within the fixed extent.
pub open spec fn fits(code: Seq<char>) -> bool {
    forall|i: int|
        0 <= i < code.len() && #[trigger] code[i] != '\n' ==> row_of(code, i) < 25 && col_of(
            code,
            i,
        ) < 80
}

proof fn lemma_load_rec_ok(code: Seq<char>, i: int, grid: Seq<usize>, row: int, col: int)
    requires
        0 <= i <= code.len(),
        row == row_of(code, i),
        col == col_of(code, i),
    ensures
        load_rec(code, i, grid, row, col) is Ok <==> (forall|j: int|
            i <= j < code.len() && #[trigger] code[j] != '\n' ==> row_of(code, j) < 25 && col_of(
                code,
                j,
            ) < 80),
    decreases code.len() - i,
{
    if i < code.len() {
        let c = code[i];
        if c == '\n' {
            assert(row_of(code, i + 1) == row + 1);
            assert(col_of(code, i + 1) == 0);
            lemma_load_rec_ok(code, i + 1, grid, row + 1, 0);
        } else if row >= 25 || col >= 80 {
            assert(i <= i < code.len() && code[i] != '\n' && !(row_of(code, i) < 25 && col_of(
                code,
                i,
            ) < 80));
        } else {
            assert(row_of(code, i + 1) == row);
            assert(col_of(code, i + 1) == col + 1);
            let grid2 = grid.update(row * 80 + col, c as usize);
            lemma_load_rec_ok(code, i + 1, grid2, row, col + 1);
            if load_rec(code, i, grid, row, col) is Ok {
                assert forall|j: int|
                    i <= j < code.len() && #[trigger] code[j] != '\n' implies row_of(code, j) < 25
                    && col_of(code, j) < 80 by {
                    if j == i {
                        assert(row_of(code, i) < 25 && col_of(code, i) < 80);
                    }
                }
            } else {
                assert(!(forall|j: int|
                    i + 1 <= j < code.len() && #[trigger] code[j] != '\n' ==> row_of(code, j) < 25
                        && col_of(code, j) < 80));
                let j = choose|j: int|
                    i + 1 <= j < code.len() && #[trigger] code[j] != '\n' && !(row_of(code, j) < 25
                        && col_of(code, j) < 80);
                assert(i <= j < code.len() && code[j] != '\n' && !(row_of(code, j) < 25 && col_of(
                    code,
                    j,
                ) < 80));
            }
        }
    }
}

/// Law: loading fails exactly when some character would land past the
/// last row or column: a program wider or taller than the grid fails
/// with a load error, and one that exactly fits does not.
pub proof fn lemma_load_bounds(code: Seq<char>)
    ensures
        load_spec(code) is Ok <==> fits(code),
{
    lemma_load_rec_ok(code, 0, blank_grid(), 0, 0);
}

/// Loads the source into a grid vector, exactly as [`load_spec`] says.
pub fn load_grid(code: &str) -> (r: Result<Vec<usize>, LoadError>)
    ensures
        (match r {
            Ok(g) => load_spec(code@) == Ok::<Seq<usize>, LoadError>(g@) && g@.len() == 2000,
            Err(e) => load_spec(code@) == Err::<Seq<usize>, LoadError>(e),
        }),
{
    let n = code.unicode_len();
    let mut grid: Vec<usize> = Vec::new();
    while grid.len() < 2000
        invariant
            grid@.len() <= 2000,
            grid@ == Seq::new(grid@.len(), |i: int| 0usize),
        decreases 2000 - grid@.len(),
    {
        grid.push(0);
        proof {
            assert(grid@ =~= Seq::new(grid@.len(), |i: int| 0usize));
        }
    }
    proof {
        assert(grid@ =~= blank_grid());
    }
    let mut row: usize = 0;
    let mut col: usize = 0;
    let mut i: usize = 0;
    while i < n
        invariant
            i <= n,
            n == code@.len(),
            row <= i,
            col <= i,
            grid@.len() == 2000,
            load_rec(code@, i as int, grid@, row as int, col as int) == load_spec(code@),
        decreases n - i,
    {
        let c = code.get_char(i);
        if c == '\n' {
            row = row + 1;
            col = 0;
        } else if row >= crate::GRID_HEIGHT {
            return Err(LoadError::ProgramTooTall);
        } else if col >= crate::GRID_WIDTH {
            return Err(LoadError::ProgramTooWide);
        } else {
            let idx = row * crate::GRID_WIDTH + col;
            grid[idx] = c as usize;
            col = col + 1;
        }
        i = i + 1;
    }
    Ok(grid)
}

} // verus!
