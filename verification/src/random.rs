//! Randomizing the board: each cell is redrawn independently, alive with
//! three chances in ten. The draw comes from an injected random source; the
//! decision it feeds is verified for every value the draw can take.

use vstd::prelude::*;
use crate::grid::Grid;
use rand::rngs::ThreadRng;
use rand_distr::{Distribution, Uniform};

verus! {

/// Declares `rand::rngs::ThreadRng`, the process-wide random generator the
/// caller hands in, so that it can stand in signatures.
#[verifier::external_type_specification]
#[verifier::external_body]
pub struct ExThreadRng(ThreadRng);

/// Relies on rand's `Uniform::new_inclusive` and `Distribution::sample`: a
/// sample from `Uniform::new_inclusive(low, high)` lies between `low` and
/// `high`. The distribution is built afresh for the call; `new_inclusive`
/// only fails when `low > high`, which the precondition excludes.
#[verifier::external_body]
fn sample_inclusive(rng: &mut ThreadRng, low: u8, high: u8) -> (d: u8)
    requires
        low <= high,
    ensures
        low <= d <= high,
{
    let dist = Uniform::new_inclusive(low, high).expect("low <= high");
    dist.sample(rng)
}

/// The randomize policy: a draw from 1..=10 makes a cell alive when it is
/// less than 4 — three of the ten outcomes — and dead otherwise.
pub open spec fn cell_from_draw(d: u8) -> u8 {
    if d < 4 {
        1u8
    } else {
        0u8
    }
}

/// Turns one draw into a cell value. Exact over every possible draw, so a
/// fixed draw sequence yields a fixed board.
pub fn alive_from_draw(d: u8) -> (v: u8)
    ensures
        v == cell_from_draw(d),
{
    if d < 4 {
        1
    } else {
        0
    }
}

/// A cell's position in the row-major draw sequence lies within it.
proof fn lemma_row_major_index_bound(r: int, c: int, rows: int, cols: int)
    requires
        0 <= r < rows,
        0 <= c < cols,
    ensures
        0 <= r * cols + c < rows * cols,
{
    assert(0 <= r * cols + c < rows * cols) by (nonlinear_arith)
        requires
            0 <= r < rows,
            0 <= c < cols,
    ;
}

impl Grid {
    /// Fills the board from an explicit draw sequence, one draw per cell in
    /// row-major order: the deterministic half of `randomize`, so a fixed
    /// sequence yields exactly one board.
    pub fn fill_from_draws(&mut self, draws: &Vec<u8>)
        requires
            old(self).wf(),
            draws@.len() == old(self).rows() * old(self).cols(),
        ensures
            final(self).wf(),
            final(self).rows() == old(self).rows(),
            final(self).cols() == old(self).cols(),
            forall|r: int, c: int|
                0 <= r < old(self).rows() && 0 <= c < old(self).cols()
                    ==> #[trigger] final(self)@[r][c] == cell_from_draw(
                    draws@[r * old(self).cols() + c],
                ),
    {
        let rows = self.num_rows();
        let cols = self.num_cols();
        let mut k: usize = 0;
        let mut r: usize = 0;
        while r < rows
            invariant
                self.wf(),
                self.rows() == rows,
                self.cols() == cols,
                r <= rows,
                k == r * cols,
                draws@.len() == rows * cols,
                forall|i: int, j: int|
                    0 <= i < r && 0 <= j < cols ==> #[trigger] self@[i][j] == cell_from_draw(
                        draws@[i * cols + j],
                    ),
            decreases rows - r,
        {
            let mut c: usize = 0;
            while c < cols
                invariant
                    self.wf(),
                    self.rows() == rows,
                    self.cols() == cols,
                    r < rows,
                    c <= cols,
                    k == r * cols + c,
                    draws@.len() == rows * cols,
                    forall|i: int, j: int|
                        0 <= i < r && 0 <= j < cols ==> #[trigger] self@[i][j] == cell_from_draw(
                            draws@[i * cols + j],
                        ),
                    forall|j: int|
                        0 <= j < c ==> #[trigger] self@[r as int][j] == cell_from_draw(
                            draws@[r as int * cols + j],
                        ),
                decreases cols - c,
            {
                proof {
                    lemma_row_major_index_bound(r as int, c as int, rows as int, cols as int);
                }
                let v = alive_from_draw(draws[k]);
                self.set_cell(r, c, v);
                k = k + 1;
                c = c + 1;
            }
            proof {
                assert((r + 1) * cols == r * cols + cols) by (nonlinear_arith);
            }
            r = r + 1;
        }
    }

    /// Redraws every cell independently from the given random source: alive
    /// with three chances in ten. Whatever the source returns, the board
    /// keeps its dimensions and stays well formed.
    pub fn randomize(&mut self, rng: &mut ThreadRng)
        requires
            old(self).wf(),
        ensures
            final(self).wf(),
            final(self).rows() == old(self).rows(),
            final(self).cols() == old(self).cols(),
    {
        let rows = self.num_rows();
        let cols = self.num_cols();
        let total = rows * cols;
        let mut draws: Vec<u8> = Vec::new();
        while draws.len() < total
            invariant
                draws@.len() <= total,
            decreases total - draws@.len(),
        {
            let d = sample_inclusive(rng, 1, 10);
            draws.push(d);
        }
        self.fill_from_draws(&draws);
    }
}

} // verus!
