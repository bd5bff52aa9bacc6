//! What every storage kind offers.

use vstd::prelude::*;
use crate::grid::Grid;

verus! {

/// A matrix of fixed shape whose cells can be read and written one at a time.
///
/// The view of an implementor is the [`Grid`] it stands for; how the cells
/// are stored is the implementor's own matter.
pub trait Matrix<T: Copy>: View<V = Grid<T>> {
    /// The number of rows. The grid of a matrix is always well-formed, and
    /// the shape accessors say so.
    fn get_n_rows(&self) -> (n: usize)
        ensures
            n == self@.rows,
            self@.wf(),
    ;

    /// The number of columns.
    fn get_n_cols(&self) -> (n: usize)
        ensures
            n == self@.cols,
            self@.wf(),
    ;

    /// Reads cell `(row, col)`, which must lie inside the matrix.
    fn get(&self, row: usize, col: usize) -> (value: T)
        requires
            self@.in_bounds(row as int, col as int),
        ensures
            value == self@.at(row as int, col as int),
    ;

    /// Writes `value` to cell `(row, col)`, which must lie inside the
    /// matrix. The cell then reads back `value`; the shape and all other
    /// cells stay as they were.
    fn set(&mut self, row: usize, col: usize, value: T)
        requires
            old(self)@.in_bounds(row as int, col as int),
        ensures
            final(self)@ == old(self)@.update(row as int, col as int, value),
            final(self)@.wf(),
            final(self)@.rows == old(self)@.rows,
            final(self)@.cols == old(self)@.cols,
            final(self)@.at(row as int, col as int) == value,
            forall|other_row: int, other_col: int|
                old(self)@.in_bounds(other_row, other_col) && (other_row != row || other_col != col)
                    ==> #[trigger] final(self)@.at(other_row, other_col) == old(self)@.at(
                    other_row,
                    other_col,
                ),
    ;
}

/// Whether `(row, col)` addresses a cell of `matrix`: the condition under
/// which the cell can be read and written.
pub fn has_cell<T: Copy, M: Matrix<T> + ?Sized>(matrix: &M, row: usize, col: usize) -> (inside:
    bool)
    ensures
        inside == matrix@.in_bounds(row as int, col as int),
{
    row < matrix.get_n_rows() && col < matrix.get_n_cols()
}

} // verus!
