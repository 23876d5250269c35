//! Laws of the transition function, proved once over every board rather
//! than observed on samples.

use vstd::prelude::*;
use crate::engine::{alive, ind, neighbor_count, next_cell, step};
use crate::grid::{all_binary, all_dead, rows_rectangular};

verus! {

/// Law: one step preserves the shape of the board — the row count, the
/// length of every row — and yields only binary cells.
pub proof fn lemma_step_preserves_shape(g: Seq<Seq<u8>>, cols: nat)
    requires
        rows_rectangular(g, cols),
    ensures
        step(g).len() == g.len(),
        rows_rectangular(step(g), cols),
        all_binary(step(g)),
{
    assert forall|r: int| 0 <= r < step(g).len() implies (#[trigger] step(g)[r]).len() == cols by {
        assert(g[r].len() == cols);
    }
}

/// Law: a live-neighbor count never leaves 0..=8 — there are only eight
/// positions in a Moore neighborhood.
pub proof fn lemma_neighbor_count_in_range(g: Seq<Seq<u8>>, r: int, c: int)
    ensures
        0 <= neighbor_count(g, r, c) <= 8,
{
}

/// Law: a position outside the board contributes nothing to any neighbor
/// count — there is no wraparound and no dead-but-counted border.
pub proof fn lemma_outside_position_adds_nothing(g: Seq<Seq<u8>>, i: int, j: int)
    requires
        !(0 <= i < g.len() && 0 <= j < g[i].len()),
    ensures
        ind(g, i, j) == 0,
{
}

/// Law: a fully dead board steps to itself — no spontaneous life.
pub proof fn lemma_dead_grid_stays_dead(g: Seq<Seq<u8>>)
    requires
        all_dead(g),
    ensures
        step(g) == g,
{
    assert forall|r: int, c: int|
        0 <= r < g.len() && 0 <= c < g[r].len() implies #[trigger] step(g)[r][c] == g[r][c] by {
        assert(g[r][c] == 0);
        assert(neighbor_count(g, r, c) == 0);
    }
    assert(step(g) =~~= g);
}

/// Law: a live cell whose whole Moore neighborhood is dead (or off the
/// board) dies in the next generation.
pub proof fn lemma_isolated_cell_dies(g: Seq<Seq<u8>>, r: int, c: int)
    requires
        alive(g, r, c),
        forall|i: int, j: int|
            r - 1 <= i <= r + 1 && c - 1 <= j <= c + 1 && !(i == r && j == c) ==> !alive(g, i, j),
    ensures
        next_cell(g, r, c) == 0,
        step(g)[r][c] == 0,
{
    assert(neighbor_count(g, r, c) == 0);
}

/// Exactly the four cells (r, c), (r, c+1), (r+1, c), (r+1, c+1) of the
/// board are alive.
pub open spec fn lone_block(g: Seq<Seq<u8>>, r: int, c: int) -> bool {
    forall|i: int, j: int|
        0 <= i < g.len() && 0 <= j < g[i].len() ==> ((#[trigger] g[i][j]) == 1 <==> (r <= i <= r
            + 1 && c <= j <= c + 1))
}

/// Law: a 2 x 2 block of live cells away from the boundary, alone on the
/// board, is a still life — one step returns the very same board.
pub proof fn lemma_block_still_life(g: Seq<Seq<u8>>, r: int, c: int, cols: nat)
    requires
        rows_rectangular(g, cols),
        all_binary(g),
        lone_block(g, r, c),
        1 <= r,
        r + 3 <= g.len(),
        1 <= c,
        c + 3 <= cols,
    ensures
        step(g) == g,
{
    assert forall|i: int, j: int|
        0 <= i < g.len() && 0 <= j < g[i].len() implies #[trigger] step(g)[i][j] == g[i][j] by {
        assert(g[i].len() == cols);
    }
    assert(step(g) =~~= g);
}

/// Exactly the three cells (r, c-1), (r, c), (r, c+1) of the board are
/// alive: a horizontal line of three.
pub open spec fn lone_hline3(g: Seq<Seq<u8>>, r: int, c: int) -> bool {
    forall|i: int, j: int|
        0 <= i < g.len() && 0 <= j < g[i].len() ==> ((#[trigger] g[i][j]) == 1 <==> (i == r && c - 1
            <= j <= c + 1))
}

/// Exactly the three cells (r-1, c), (r, c), (r+1, c) of the board are
/// alive: a vertical line of three.
pub open spec fn lone_vline3(g: Seq<Seq<u8>>, r: int, c: int) -> bool {
    forall|i: int, j: int|
        0 <= i < g.len() && 0 <= j < g[i].len() ==> ((#[trigger] g[i][j]) == 1 <==> (j == c && r - 1
            <= i <= r + 1))
}

/// Law: a lone horizontal blinker away from the boundary becomes the
/// vertical line of three through its center in one step.
pub proof fn lemma_blinker_flips(g: Seq<Seq<u8>>, r: int, c: int, cols: nat)
    requires
        rows_rectangular(g, cols),
        all_binary(g),
        lone_hline3(g, r, c),
        1 <= r,
        r + 2 <= g.len(),
        1 <= c,
        c + 2 <= cols,
    ensures
        step(g).len() == g.len(),
        rows_rectangular(step(g), cols),
        all_binary(step(g)),
        lone_vline3(step(g), r, c),
{
    lemma_step_preserves_shape(g, cols);
    assert forall|i: int, j: int|
        0 <= i < step(g).len() && 0 <= j < step(g)[i].len() implies ((#[trigger] step(g)[i][j]) == 1
        <==> (j == c && r - 1 <= i <= r + 1)) by {
        assert(g[i].len() == cols);
    }
}

/// Law: a lone vertical blinker away from the boundary becomes the
/// horizontal line of three through its center in one step.
pub proof fn lemma_blinker_flips_back(g: Seq<Seq<u8>>, r: int, c: int, cols: nat)
    requires
        rows_rectangular(g, cols),
        all_binary(g),
        lone_vline3(g, r, c),
        1 <= r,
        r + 2 <= g.len(),
        1 <= c,
        c + 2 <= cols,
    ensures
        step(g).len() == g.len(),
        rows_rectangular(step(g), cols),
        all_binary(step(g)),
        lone_hline3(step(g), r, c),
{
    lemma_step_preserves_shape(g, cols);
    assert forall|i: int, j: int|
        0 <= i < step(g).len() && 0 <= j < step(g)[i].len() implies ((#[trigger] step(g)[i][j]) == 1
        <==> (i == r && c - 1 <= j <= c + 1)) by {
        assert(g[i].len() == cols);
    }
}

/// Law: a lone blinker oscillates with period two — two steps return the
/// very same board.
pub proof fn lemma_blinker_period_two(g: Seq<Seq<u8>>, r: int, c: int, cols: nat)
    requires
        rows_rectangular(g, cols),
        all_binary(g),
        lone_hline3(g, r, c),
        1 <= r,
        r + 2 <= g.len(),
        1 <= c,
        c + 2 <= cols,
    ensures
        step(step(g)) == g,
{
    lemma_blinker_flips(g, r, c, cols);
    lemma_blinker_flips_back(step(g), r, c, cols);
    assert(step(step(g)) =~~= g);
}

} // verus!
