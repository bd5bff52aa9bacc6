//! Dense storage: every cell is held in one row-major buffer.

use vstd::prelude::*;
use crate::grid::{lemma_filled_at, lemma_offset_bounds, lemma_update_others, Grid};
use crate::matrix::Matrix;
use crate::scalar::Scalar;

verus! {

/// A matrix that stores all of its `n_rows * n_cols` cells, row by row.
pub struct DenseMatrix<T> {
    row_major_data: Vec<T>,
    n_rows: usize,
    n_cols: usize,
}

impl<T> View for DenseMatrix<T> {
    type V = Grid<T>;

    /// The buffer itself, together with the shape.
    closed spec fn view(&self) -> Grid<T> {
        Grid {
            rows: self.n_rows as nat,
            cols: self.n_cols as nat,
            cells: self.row_major_data@,
        }
    }
}

impl<T> DenseMatrix<T> {
    /// The buffer holds exactly one element for each cell.
    #[verifier::type_invariant]
    spec fn buffer_matches_shape(&self) -> bool {
        self@.wf()
    }

    /// The buffer, in row-major order.
    pub fn row_major_data(&self) -> (data: &Vec<T>)
        ensures
            data@ == self@.cells,
            self@.wf(),
    {
        proof {
            use_type_invariant(self);
        }
        &self.row_major_data
    }
}

impl<T: Copy> Matrix<T> for DenseMatrix<T> {
    fn get_n_rows(&self) -> (n: usize) {
        proof {
            use_type_invariant(self);
        }
        self.n_rows
    }

    fn get_n_cols(&self) -> (n: usize) {
        proof {
            use_type_invariant(self);
        }
        self.n_cols
    }

    fn get(&self, row: usize, col: usize) -> (value: T) {
        proof {
            use_type_invariant(self);
            lemma_offset_bounds(self@.rows, self@.cols, row as int, col as int);
            assert(row * self.n_cols + col < self.row_major_data.len());
        }
        self.row_major_data[row * self.n_cols + col]
    }

    fn set(&mut self, row: usize, col: usize, value: T) {
        proof {
            use_type_invariant(&*self);
            lemma_offset_bounds(self@.rows, self@.cols, row as int, col as int);
            assert(row * self.n_cols + col < self.row_major_data.len());
        }
        let index: usize = row * self.n_cols + col;
        self.row_major_data[index] = value;
        proof {
            lemma_update_others(old(self)@, row as int, col as int, value);
        }
    }
}

/// Whether the cells of a `rows` by `cols` matrix can be counted in a
/// `usize`: the condition under which a dense matrix of that shape can be
/// made.
pub fn shape_fits(rows: usize, cols: usize) -> (fits: bool)
    ensures
        fits == (rows * cols <= usize::MAX),
{
    rows.checked_mul(cols).is_some()
}

/// Whether a buffer of `len` elements holds exactly one element for each
/// cell of a `rows` by `cols` matrix.
pub fn fills_shape(len: usize, rows: usize, cols: usize) -> (fills: bool)
    ensures
        fills == (len == rows * cols),
{
    match rows.checked_mul(cols) {
        Some(cells) => cells == len,
        None => false,
    }
}

/// A `rows` by `cols` dense matrix whose every cell is zero. The number of
/// cells must fit in a `usize`.
pub fn create_all_zeros_dense_matrix<T: Scalar>(rows: usize, cols: usize) -> (matrix: DenseMatrix<
    T,
>)
    requires
        rows * cols <= usize::MAX,
    ensures
        matrix@ == Grid::filled(rows as nat, cols as nat, T::zero_spec()),
        matrix@.wf(),
        forall|row: int, col: int|
            matrix@.in_bounds(row, col) ==> #[trigger] matrix@.at(row, col) == T::zero_spec(),
{
    let len: usize = rows * cols;
    let zero: T = T::zero();
    let mut row_major_data: Vec<T> = Vec::with_capacity(len);
    while row_major_data.len() < len
        invariant
            row_major_data.len() <= len,
            zero == T::zero_spec(),
            forall|i: int| 0 <= i < row_major_data.len() ==> row_major_data[i] == zero,
        decreases len - row_major_data.len(),
    {
        row_major_data.push(zero);
    }
    let matrix = DenseMatrix { row_major_data, n_rows: rows, n_cols: cols };
    proof {
        assert(matrix@.cells =~= Grid::filled(rows as nat, cols as nat, T::zero_spec()).cells);
        assert forall|row: int, col: int| matrix@.in_bounds(row, col) implies #[trigger] matrix@.at(
            row,
            col,
        ) == T::zero_spec() by {
            lemma_filled_at(rows as nat, cols as nat, T::zero_spec(), row, col);
        }
    }
    matrix
}

/// The `rows` by `cols` dense matrix whose cells are the elements of `data`,
/// taken row by row. `data` must hold exactly one element for each cell.
pub fn dense_matric_from_vector<T>(data: Vec<T>, rows: usize, cols: usize) -> (matrix: DenseMatrix<
    T,
>)
    requires
        data.len() == rows * cols,
    ensures
        matrix@ == (Grid { rows: rows as nat, cols: cols as nat, cells: data@ }),
        matrix@.wf(),
{
    DenseMatrix { row_major_data: data, n_rows: rows, n_cols: cols }
}

} // verus!
