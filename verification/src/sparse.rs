//! Sparse storage: only the cells that were written are held.

use std::collections::HashMap;
use vstd::prelude::*;
use crate::grid::{lemma_filled_at, lemma_offset_bounds, lemma_update_others, Grid};
use crate::matrix::Matrix;
use crate::scalar::Scalar;

verus! {

/// A matrix that stores the cells that were written, keyed by their
/// row-major position; every other cell is zero.
///
/// A written cell stays stored whatever value it was given, zero included.
/// Positions are 128 bits wide, so that `row * n_cols + col` fits for every
/// shape.
pub struct UnstructuredSparseMatrix<T> {
    row_major_data: HashMap<u128, T>,
    n_rows: usize,
    n_cols: usize,
}

impl<T: Scalar> UnstructuredSparseMatrix<T> {
    /// The cells that were written so far, by position, each with the value
    /// last written to it.
    pub closed spec fn entries(&self) -> Map<u128, T> {
        self.row_major_data@
    }

    /// The shape, as `(rows, cols)`.
    pub closed spec fn shape(&self) -> (nat, nat) {
        (self.n_rows as nat, self.n_cols as nat)
    }

    /// The value that the cell at `position` reads: the stored one where
    /// there is one, else zero.
    pub open spec fn cell(&self, position: int) -> T {
        if self.entries().contains_key(position as u128) {
            self.entries()[position as u128]
        } else {
            T::zero_spec()
        }
    }
}

impl<T: Scalar> View for UnstructuredSparseMatrix<T> {
    type V = Grid<T>;

    /// The full grid, with zero in every cell that is not stored.
    open spec fn view(&self) -> Grid<T> {
        Grid {
            rows: self.shape().0,
            cols: self.shape().1,
            cells: Seq::new(self.shape().0 * self.shape().1, |position: int| self.cell(position)),
        }
    }
}

impl<T: Scalar> Matrix<T> for UnstructuredSparseMatrix<T> {
    fn get_n_rows(&self) -> (n: usize) {
        self.n_rows
    }

    fn get_n_cols(&self) -> (n: usize) {
        self.n_cols
    }

    fn get(&self, row: usize, col: usize) -> (value: T) {
        proof {
            lemma_position_fits(self.n_rows, self.n_cols, row, col);
        }
        let index: u128 = (row as u128) * (self.n_cols as u128) + (col as u128);
        match self.row_major_data.get(&index) {
            Some(value) => *value,
            None => T::zero(),
        }
    }

    fn set(&mut self, row: usize, col: usize, value: T)
        ensures
            final(self).entries() == old(self).entries().insert(
                (row * old(self)@.cols + col) as u128,
                value,
            ),
    {
        proof {
            lemma_position_fits(self.n_rows, self.n_cols, row, col);
        }
        let index: u128 = (row as u128) * (self.n_cols as u128) + (col as u128);
        self.row_major_data.insert(index, value);
        proof {
            assert(self@.cells =~= old(self)@.update(row as int, col as int, value).cells);
            lemma_update_others(old(self)@, row as int, col as int, value);
        }
    }
}

/// The position of a cell inside the matrix lies below `n_rows * n_cols`,
/// and that in turn fits in 128 bits.
proof fn lemma_position_fits(n_rows: usize, n_cols: usize, row: usize, col: usize)
    requires
        row < n_rows,
        col < n_cols,
    ensures
        0 <= row * n_cols + col < n_rows * n_cols <= u128::MAX,
{
    lemma_offset_bounds(n_rows as nat, n_cols as nat, row as int, col as int);
    assert(n_rows * n_cols <= 0xffff_ffff_ffff_ffff * 0xffff_ffff_ffff_ffff) by (nonlinear_arith)
        requires
            0 <= n_rows <= 0xffff_ffff_ffff_ffff,
            0 <= n_cols <= 0xffff_ffff_ffff_ffff,
    ;
}

/// A `rows` by `cols` sparse matrix with no stored cell: every cell reads
/// zero.
pub fn create_all_zeros_ustructured_sparse_matrix<T: Scalar>(rows: usize, cols: usize) -> (matrix:
    UnstructuredSparseMatrix<T>)
    ensures
        matrix@ == Grid::filled(rows as nat, cols as nat, T::zero_spec()),
        matrix@.wf(),
        matrix.entries() == Map::<u128, T>::empty(),
        forall|row: int, col: int|
            matrix@.in_bounds(row, col) ==> #[trigger] matrix@.at(row, col) == T::zero_spec(),
{
    let matrix = UnstructuredSparseMatrix {
        row_major_data: HashMap::new(),
        n_rows: rows,
        n_cols: cols,
    };
    proof {
        assert(matrix@.cells =~= Grid::filled(rows as nat, cols as nat, T::zero_spec()).cells);
        assert forall|row: int, col: int| matrix@.in_bounds(row, col) implies #[trigger] matrix@.at(
            row,
            col,
        ) == T::zero_spec() by {
            lemma_filled_at(rows as nat, cols as nat, T::zero_spec(), row, col);
        }
    }
    matrix
}

} // verus!
