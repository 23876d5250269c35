//! The transition function: one simultaneous step of Conway's rules over the
//! whole board, specified cell by cell over the previous generation.

use vstd::prelude::*;
use crate::grid::Grid;

verus! {

/// Does the board hold a live cell at (r, c)? A position outside the board
/// is never alive.
pub open spec fn alive(g: Seq<Seq<u8>>, r: int, c: int) -> bool {
    0 <= r < g.len() && 0 <= c < g[r].len() && g[r][c] == 1
}

/// 1 when (r, c) is alive, 0 otherwise.
pub open spec fn ind(g: Seq<Seq<u8>>, r: int, c: int) -> int {
    if alive(g, r, c) {
        1
    } else {
        0
    }
}

/// The number of live cells in the Moore neighborhood of (r, c): the eight
/// surrounding positions, the cell itself excluded. Positions outside the
/// board contribute nothing.
pub open spec fn neighbor_count(g: Seq<Seq<u8>>, r: int, c: int) -> int {
    ind(g, r - 1, c - 1) + ind(g, r - 1, c) + ind(g, r - 1, c + 1) + ind(g, r, c - 1) + ind(
        g,
        r,
        c + 1,
    ) + ind(g, r + 1, c - 1) + ind(g, r + 1, c) + ind(g, r + 1, c + 1)
}

/// Conway's rule for one cell: a live cell survives exactly when it has two
/// or three live neighbors; a dead cell comes alive exactly when it has
/// three.
pub open spec fn rule(cur: u8, n: int) -> u8 {
    if cur == 1 {
        if n == 2 || n == 3 {
            1u8
        } else {
            0u8
        }
    } else {
        if n == 3 {
            1u8
        } else {
            0u8
        }
    }
}

/// The next value of the cell at (r, c), read entirely from the previous
/// generation `g`.
pub open spec fn next_cell(g: Seq<Seq<u8>>, r: int, c: int) -> u8 {
    rule(g[r][c], neighbor_count(g, r, c))
}

/// One generation: every cell advanced simultaneously from the old board.
pub open spec fn step(g: Seq<Seq<u8>>) -> Seq<Seq<u8>> {
    Seq::new(g.len(), |r: int| Seq::new(g[r].len(), |c: int| next_cell(g, r, c)))
}

/// Counts the live neighbors of an in-bounds cell; the count can never
/// exceed the eight positions of the Moore neighborhood.
pub fn count_live_neighbors(grid: &Grid, row: usize, col: usize) -> (n: u8)
    requires
        grid.wf(),
        row < grid.rows(),
        col < grid.cols(),
    ensures
        n == neighbor_count(grid@, row as int, col as int),
        n <= 8,
{
    let rows = grid.num_rows();
    let cols = grid.num_cols();
    let mut n: u8 = 0;
    if row > 0 {
        if col > 0 {
            n = n + grid.cell_at(row - 1, col - 1);
        }
        n = n + grid.cell_at(row - 1, col);
        if col + 1 < cols {
            n = n + grid.cell_at(row - 1, col + 1);
        }
    }
    if col > 0 {
        n = n + grid.cell_at(row, col - 1);
    }
    if col + 1 < cols {
        n = n + grid.cell_at(row, col + 1);
    }
    if row + 1 < rows {
        if col > 0 {
            n = n + grid.cell_at(row + 1, col - 1);
        }
        n = n + grid.cell_at(row + 1, col);
        if col + 1 < cols {
            n = n + grid.cell_at(row + 1, col + 1);
        }
    }
    n
}

/// Applies Conway's rule to one cell value and its live-neighbor count.
pub fn next_value(cur: u8, n: u8) -> (v: u8)
    requires
        cur <= 1,
        n <= 8,
    ensures
        v == rule(cur, n as int),
{
    if cur == 1 {
        if n == 2 || n == 3 {
            1
        } else {
            0
        }
    } else {
        if n == 3 {
            1
        } else {
            0
        }
    }
}

/// The next generation of the given board: a fresh board of the same
/// dimensions where every cell was advanced by Conway's rule, reading only
/// the previous generation. The input is untouched.
pub fn future_generation(grid: &Grid) -> (out: Grid)
    requires
        grid.wf(),
    ensures
        out.wf(),
        out.rows() == grid.rows(),
        out.cols() == grid.cols(),
        out@ == step(grid@),
{
    let rows = grid.num_rows();
    let cols = grid.num_cols();
    let mut future = Grid::new(rows, cols);
    let mut r: usize = 0;
    while r < rows
        invariant
            grid.wf(),
            future.wf(),
            rows == grid.rows(),
            cols == grid.cols(),
            future.rows() == rows,
            future.cols() == cols,
            r <= rows,
            forall|i: int, j: int|
                0 <= i < r && 0 <= j < cols ==> #[trigger] future@[i][j] == next_cell(grid@, i, j),
            forall|i: int, j: int|
                r <= i < rows && 0 <= j < cols ==> #[trigger] future@[i][j] == 0,
        decreases rows - r,
    {
        let mut c: usize = 0;
        while c < cols
            invariant
                grid.wf(),
                future.wf(),
                rows == grid.rows(),
                cols == grid.cols(),
                future.rows() == rows,
                future.cols() == cols,
                r < rows,
                c <= cols,
                forall|i: int, j: int|
                    0 <= i < r && 0 <= j < cols ==> #[trigger] future@[i][j] == next_cell(
                        grid@,
                        i,
                        j,
                    ),
                forall|j: int| 0 <= j < c ==> #[trigger] future@[r as int][j] == next_cell(
                    grid@,
                    r as int,
                    j,
                ),
                forall|j: int| c <= j < cols ==> #[trigger] future@[r as int][j] == 0,
                forall|i: int, j: int|
                    r < i < rows && 0 <= j < cols ==> #[trigger] future@[i][j] == 0,
            decreases cols - c,
        {
            let cur = grid.cell_at(r, c);
            let n = count_live_neighbors(grid, r, c);
            let v = next_value(cur, n);
            future.set_cell(r, c, v);
            c = c + 1;
        }
        r = r + 1;
    }
    proof {
        assert(future@ =~~= step(grid@));
    }
    future
}

} // verus!
