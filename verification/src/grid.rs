//! The board: a rectangular array of binary cells backed by
//! `array2d::Array2D`, modelled in specifications as a sequence of rows.

use vstd::prelude::*;
use array2d::Array2D;

verus! {

/// Declares `array2d::Array2D`, the fixed-size two-dimensional array that
/// backs the board, so that it can stand in fields and signatures.
#[verifier::external_type_specification]
#[verifier::external_body]
#[verifier::reject_recursive_types(T)]
pub struct ExArray2D<T>(Array2D<T>);

/// The elements of a cell array, row by row.
pub uninterp spec fn cells_of(a: Array2D<u8>) -> Seq<Seq<u8>>;

/// The column count the cell array was created with. Kept separately from
/// `cells_of` because an array with zero rows still has a column count.
pub uninterp spec fn cols_of(a: Array2D<u8>) -> nat;

/// Relies on `array2d::Array2D::filled_with`: builds a `rows` x `cols` array
/// with every element equal to `value`. Its body computes `rows * cols`, so
/// the product must fit in `usize`.
#[verifier::external_body]
fn a2d_filled_with(value: u8, rows: usize, cols: usize) -> (a: Array2D<u8>)
    requires
        rows * cols <= usize::MAX,
    ensures
        cells_of(a) == Seq::new(rows as nat, |r: int| Seq::new(cols as nat, |c: int| value)),
        cols_of(a) == cols,
{
    Array2D::filled_with(value, rows, cols)
}

/// Relies on `array2d::Array2D::num_rows`: the number of rows.
#[verifier::external_body]
fn a2d_num_rows(a: &Array2D<u8>) -> (r: usize)
    ensures
        r == cells_of(*a).len(),
{
    a.num_rows()
}

/// Relies on `array2d::Array2D::num_columns`: the number of columns.
#[verifier::external_body]
fn a2d_num_columns(a: &Array2D<u8>) -> (r: usize)
    ensures
        r == cols_of(*a),
{
    a.num_columns()
}

/// Relies on `array2d::Array2D::get`: `Some` of the element at (row, col)
/// exactly when both indices are in bounds, `None` otherwise.
#[verifier::external_body]
fn a2d_get(a: &Array2D<u8>, row: usize, col: usize) -> (r: Option<u8>)
    ensures
        r == (if row < cells_of(*a).len() && col < cols_of(*a) {
            Some(cells_of(*a)[row as int][col as int])
        } else {
            None::<u8>
        }),
{
    a.get(row, col).copied()
}

/// Relies on `array2d::Array2D::set`: overwrites the element at (row, col)
/// and moves no other element; with both indices in bounds it returns `Ok`,
/// so the discarded error never arises here.
#[verifier::external_body]
fn a2d_set(a: &mut Array2D<u8>, row: usize, col: usize, value: u8)
    requires
        row < cells_of(*old(a)).len(),
        col < cols_of(*old(a)),
    ensures
        cells_of(*final(a)) == cells_of(*old(a)).update(
            row as int,
            cells_of(*old(a))[row as int].update(col as int, value),
        ),
        cols_of(*final(a)) == cols_of(*old(a)),
{
    let _ = a.set(row, col, value);
}

/// Every row of `g` has exactly `cols` cells.
pub open spec fn rows_rectangular(g: Seq<Seq<u8>>, cols: nat) -> bool {
    forall|r: int| 0 <= r < g.len() ==> (#[trigger] g[r]).len() == cols
}

/// Every cell of `g` is 0 (dead) or 1 (alive).
pub open spec fn all_binary(g: Seq<Seq<u8>>) -> bool {
    forall|r: int, c: int|
        0 <= r < g.len() && 0 <= c < g[r].len() ==> (#[trigger] g[r][c]) <= 1
}

/// Every cell of `g` is dead.
pub open spec fn all_dead(g: Seq<Seq<u8>>) -> bool {
    forall|r: int, c: int|
        0 <= r < g.len() && 0 <= c < g[r].len() ==> (#[trigger] g[r][c]) == 0
}

/// The flip the toggle operation applies: dead becomes alive, anything else
/// becomes dead.
pub open spec fn flipped(v: u8) -> u8 {
    if v == 0 {
        1u8
    } else {
        0u8
    }
}

/// `g` with the single cell (r, c) flipped.
pub open spec fn toggled(g: Seq<Seq<u8>>, r: int, c: int) -> Seq<Seq<u8>> {
    g.update(r, g[r].update(c, flipped(g[r][c])))
}

/// A rectangular board of binary cells: 1 is alive, 0 is dead.
pub struct Grid {
    cells: Array2D<u8>,
}

impl View for Grid {
    type V = Seq<Seq<u8>>;

    closed spec fn view(&self) -> Seq<Seq<u8>> {
        cells_of(self.cells)
    }
}

impl Grid {
    /// The number of rows.
    pub open spec fn rows(&self) -> nat {
        self@.len()
    }

    /// The number of columns.
    pub closed spec fn cols(&self) -> nat {
        cols_of(self.cells)
    }

    /// Well-formedness: the board is rectangular, every cell is binary, and
    /// the cell count fits the machine.
    pub open spec fn wf(&self) -> bool {
        &&& rows_rectangular(self@, self.cols())
        &&& all_binary(self@)
        &&& self.rows() * self.cols() <= usize::MAX
    }

    /// A `rows` x `cols` board with every cell dead.
    pub fn new(rows: usize, cols: usize) -> (g: Grid)
        requires
            rows * cols <= usize::MAX,
        ensures
            g.wf(),
            g.rows() == rows,
            g.cols() == cols,
            all_dead(g@),
    {
        Grid { cells: a2d_filled_with(0, rows, cols) }
    }

    pub fn num_rows(&self) -> (r: usize)
        ensures
            r == self.rows(),
    {
        a2d_num_rows(&self.cells)
    }

    pub fn num_cols(&self) -> (r: usize)
        ensures
            r == self.cols(),
    {
        a2d_num_columns(&self.cells)
    }

    /// The cell value at (row, col): `Some` exactly when in bounds.
    pub fn get(&self, row: usize, col: usize) -> (r: Option<u8>)
        ensures
            r == (if row < self.rows() && col < self.cols() {
                Some(self@[row as int][col as int])
            } else {
                None::<u8>
            }),
    {
        a2d_get(&self.cells, row, col)
    }

    /// The cell value at an in-bounds coordinate.
    pub fn cell_at(&self, row: usize, col: usize) -> (v: u8)
        requires
            self.wf(),
            row < self.rows(),
            col < self.cols(),
        ensures
            v == self@[row as int][col as int],
            v <= 1,
    {
        self.get(row, col).unwrap()
    }

    /// Overwrites one in-bounds cell with a binary value.
    pub(crate) fn set_cell(&mut self, row: usize, col: usize, value: u8)
        requires
            old(self).wf(),
            row < old(self).rows(),
            col < old(self).cols(),
            value <= 1,
        ensures
            final(self).wf(),
            final(self)@ == old(self)@.update(
                row as int,
                old(self)@[row as int].update(col as int, value),
            ),
            final(self).rows() == old(self).rows(),
            final(self).cols() == old(self).cols(),
    {
        a2d_set(&mut self.cells, row, col, value);
    }

    /// Flips the cell at (row, col): dead becomes alive and alive becomes
    /// dead. An out-of-range coordinate leaves the board unchanged.
    pub fn toggle_cell(&mut self, row: usize, col: usize)
        requires
            old(self).wf(),
        ensures
            final(self).wf(),
            final(self).rows() == old(self).rows(),
            final(self).cols() == old(self).cols(),
            row < old(self).rows() && col < old(self).cols() ==> final(self)@ == toggled(
                old(self)@,
                row as int,
                col as int,
            ),
            !(row < old(self).rows() && col < old(self).cols()) ==> final(self)@ == old(self)@,
    {
        if row < self.num_rows() && col < self.num_cols() {
            let cur = self.cell_at(row, col);
            let v: u8 = if cur == 0 {
                1
            } else {
                0
            };
            self.set_cell(row, col, v);
        }
    }

    /// Kills every cell, keeping the dimensions.
    pub fn clear(&mut self)
        requires
            old(self).wf(),
        ensures
            final(self).wf(),
            final(self).rows() == old(self).rows(),
            final(self).cols() == old(self).cols(),
            all_dead(final(self)@),
    {
        let rows = self.num_rows();
        let cols = self.num_cols();
        self.cells = a2d_filled_with(0, rows, cols);
    }
}

/// Law: toggling a cell of a valid board flips exactly that cell.
/// (This restates `toggled` pointwise, so callers need not unfold it.)
pub proof fn lemma_toggle_pointwise(g: Seq<Seq<u8>>, r: int, c: int)
    requires
        0 <= r < g.len(),
        0 <= c < g[r].len(),
    ensures
        toggled(g, r, c).len() == g.len(),
        toggled(g, r, c)[r].len() == g[r].len(),
        toggled(g, r, c)[r][c] == flipped(g[r][c]),
        forall|i: int, j: int|
            0 <= i < g.len() && 0 <= j < g[i].len() && !(i == r && j == c)
                ==> #[trigger] toggled(g, r, c)[i][j] == g[i][j],
{
}

/// Law: toggling the same coordinate of a valid board twice restores the
/// original board.
pub proof fn lemma_toggle_twice(g: Seq<Seq<u8>>, r: int, c: int)
    requires
        all_binary(g),
        0 <= r < g.len(),
        0 <= c < g[r].len(),
    ensures
        toggled(toggled(g, r, c), r, c) == g,
{
    let g1 = toggled(g, r, c);
    assert(g1[r] == g[r].update(c, flipped(g[r][c])));
    assert(flipped(flipped(g[r][c])) == g[r][c]);
    assert(toggled(g1, r, c) =~~= g);
}

} // verus!
