//! The product of two matrices.

use vstd::prelude::*;
use crate::dense::{create_all_zeros_dense_matrix, shape_fits, DenseMatrix};
use crate::grid::{lemma_new_at, lemma_position_row_col, lemma_same_content_equal, Grid};
use crate::sparse::UnstructuredSparseMatrix;
use crate::matrix::Matrix;
use crate::scalar::Scalar;

verus! {

/// The sum of the first `n` terms `a[row, k] * b[k, col]`, added up one
/// after the other from `k = 0` on, starting at zero.
///
/// The order is part of the definition: addition need not be associative.
pub open spec fn dot<T: Scalar>(a: Grid<T>, b: Grid<T>, row: int, col: int, n: nat) -> T
    decreases n,
{
    if n == 0 {
        T::zero_spec()
    } else {
        dot(a, b, row, col, (n - 1) as nat).plus_spec(
            a.at(row, n - 1).times_spec(b.at(n - 1, col)),
        )
    }
}

/// The product of `a` and `b`: it has the rows of `a` and the columns of
/// `b`, and its cell `(row, col)` is the sum over all `k` of
/// `a[row, k] * b[k, col]`.
pub open spec fn product<T: Scalar>(a: Grid<T>, b: Grid<T>) -> Grid<T> {
    Grid::new(a.rows, b.cols, |row: int, col: int| dot(a, b, row, col, a.cols))
}

/// A product has the rows of its left factor and the columns of its right
/// factor, and is well-formed.
pub proof fn lemma_product_shape<T: Scalar>(a: Grid<T>, b: Grid<T>)
    ensures
        product(a, b).rows == a.rows,
        product(a, b).cols == b.cols,
        product(a, b).wf(),
{
}

/// Cell `(row, col)` of a product is the sum of the products of row `row`
/// of the left factor with column `col` of the right factor.
pub proof fn lemma_product_at<T: Scalar>(a: Grid<T>, b: Grid<T>, row: int, col: int)
    requires
        0 <= row < a.rows,
        0 <= col < b.cols,
    ensures
        product(a, b).at(row, col) == dot(a, b, row, col, a.cols),
{
    lemma_new_at(a.rows, b.cols, |row: int, col: int| dot(a, b, row, col, a.cols), row, col);
}

/// Where the left factor has no column, and the right factor no row, every
/// cell of the product is a sum of no terms: zero.
pub proof fn lemma_product_over_no_terms<T: Scalar>(a: Grid<T>, b: Grid<T>)
    requires
        a.cols == 0,
    ensures
        product(a, b) == Grid::filled(a.rows, b.cols, T::zero_spec()),
{
    assert(product(a, b).cells =~= Grid::filled(a.rows, b.cols, T::zero_spec()).cells);
}

/// Where the left factor is a single column and the right factor a single
/// row, cell `(row, col)` of the product is `0 + a[row, 0] * b[0, col]`.
pub proof fn lemma_product_over_one_term<T: Scalar>(a: Grid<T>, b: Grid<T>, row: int, col: int)
    requires
        a.cols == 1,
        0 <= row < a.rows,
        0 <= col < b.cols,
    ensures
        product(a, b).at(row, col) == T::zero_spec().plus_spec(
            a.at(row, 0).times_spec(b.at(0, col)),
        ),
{
    lemma_product_at(a, b, row, col);
    reveal_with_fuel(dot, 2);
}

/// The product of two one-by-one matrices `[x]` and `[y]` is the
/// one-by-one matrix `[0 + x * y]`.
pub proof fn lemma_product_one_by_one<T: Scalar>(a: Grid<T>, b: Grid<T>)
    requires
        a.rows == 1 && a.cols == 1,
        b.rows == 1 && b.cols == 1,
    ensures
        product(a, b).rows == 1,
        product(a, b).cols == 1,
        product(a, b).cells == seq![
            T::zero_spec().plus_spec(a.at(0, 0).times_spec(b.at(0, 0))),
        ],
{
    reveal_with_fuel(dot, 2);
    assert(product(a, b).cells =~= seq![
        T::zero_spec().plus_spec(a.at(0, 0).times_spec(b.at(0, 0))),
    ]);
}

/// Where adding `x * y` to zero gives `x * y` itself, the product of the
/// one-by-one matrices `[x]` and `[y]` is `[x * y]`.
pub proof fn lemma_product_one_by_one_neutral_zero<T: Scalar>(a: Grid<T>, b: Grid<T>)
    requires
        a.rows == 1 && a.cols == 1,
        b.rows == 1 && b.cols == 1,
        T::zero_spec().plus_spec(a.at(0, 0).times_spec(b.at(0, 0))) == a.at(0, 0).times_spec(
            b.at(0, 0),
        ),
    ensures
        product(a, b).cells == seq![a.at(0, 0).times_spec(b.at(0, 0))],
{
    lemma_product_one_by_one(a, b);
}

/// A product depends on the content of its factors alone.
pub proof fn lemma_product_of_same_content<T: Scalar>(
    a: Grid<T>,
    b: Grid<T>,
    other_a: Grid<T>,
    other_b: Grid<T>,
)
    requires
        a.wf() && other_a.wf(),
        b.wf() && other_b.wf(),
        a.same_content(other_a),
        b.same_content(other_b),
    ensures
        product(a, b) == product(other_a, other_b),
{
    lemma_same_content_equal(a, other_a);
    lemma_same_content_equal(b, other_b);
}

/// How a matrix is stored does not show in a product: with a dense matrix
/// and a sparse matrix of the same content, the four products of one with
/// itself or with the other are the same.
pub proof fn lemma_product_ignores_storage<T: Scalar>(
    dense: DenseMatrix<T>,
    sparse: UnstructuredSparseMatrix<T>,
)
    requires
        dense@.wf(),
        dense@.same_content(sparse@),
    ensures
        product(dense@, sparse@) == product(dense@, dense@),
        product(sparse@, dense@) == product(dense@, dense@),
        product(sparse@, sparse@) == product(dense@, dense@),
{
    lemma_same_content_equal(dense@, sparse@);
}

/// Whether `a` can be multiplied by `b`: `a` has as many columns as `b` has
/// rows, and the cells of the product can be counted in a `usize`.
pub fn can_multiply<T: Scalar, A: Matrix<T> + ?Sized, B: Matrix<T> + ?Sized>(a: &A, b: &B) -> (can:
    bool)
    ensures
        can == (a@.cols == b@.rows && a@.rows * b@.cols <= usize::MAX),
{
    a.get_n_cols() == b.get_n_rows() && shape_fits(a.get_n_rows(), b.get_n_cols())
}

/// Multiplies `a` by `b` into a new dense matrix, whatever the storage of
/// the two. `a` must have as many columns as `b` has rows, and the result
/// must have no more cells than a buffer can hold.
pub fn matmul<T: Scalar, A: Matrix<T> + ?Sized, B: Matrix<T> + ?Sized>(a: &A, b: &B) -> (result:
    DenseMatrix<T>)
    requires
        a@.cols == b@.rows,
        a@.rows * b@.cols <= usize::MAX,
    ensures
        result@ == product(a@, b@),
        result@.wf(),
        result@.rows == a@.rows,
        result@.cols == b@.cols,
{
    let result_n_rows: usize = a.get_n_rows();
    let result_n_cols: usize = b.get_n_cols();
    let inner: usize = a.get_n_cols();
    let mut result = create_all_zeros_dense_matrix::<T>(result_n_rows, result_n_cols);

    for result_row in 0..result_n_rows
        invariant
            a@.rows == result_n_rows,
            a@.cols == inner,
            b@.rows == inner,
            b@.cols == result_n_cols,
            result@.wf(),
            result@.rows == result_n_rows,
            result@.cols == result_n_cols,
            forall|row: int, col: int|
                0 <= row < result_row && 0 <= col < result_n_cols ==> #[trigger] result@.at(
                    row,
                    col,
                ) == dot(a@, b@, row, col, inner as nat),
    {
        for result_col in 0..result_n_cols
            invariant
                a@.rows == result_n_rows,
                a@.cols == inner,
                b@.rows == inner,
                b@.cols == result_n_cols,
                result_row < result_n_rows,
                result@.wf(),
                result@.rows == result_n_rows,
                result@.cols == result_n_cols,
                forall|row: int, col: int|
                    0 <= row < result_row && 0 <= col < result_n_cols ==> #[trigger] result@.at(
                        row,
                        col,
                    ) == dot(a@, b@, row, col, inner as nat),
                forall|col: int|
                    0 <= col < result_col ==> #[trigger] result@.at(result_row as int, col) == dot(
                        a@,
                        b@,
                        result_row as int,
                        col,
                        inner as nat,
                    ),
        {
            let mut value: T = T::zero();
            for summation_idx in 0..inner
                invariant
                    a@.rows == result_n_rows,
                    a@.cols == inner,
                    b@.rows == inner,
                    b@.cols == result_n_cols,
                    result_row < result_n_rows,
                    result_col < result_n_cols,
                    value == dot(
                        a@,
                        b@,
                        result_row as int,
                        result_col as int,
                        summation_idx as nat,
                    ),
            {
                let a_element: T = a.get(result_row, summation_idx);
                let b_element: T = b.get(summation_idx, result_col);
                value = value.plus(a_element.times(b_element));
            }
            result.set(result_row, result_col, value);
        }
    }
    proof {
        assert forall|position: int|
            0 <= position < result@.cells.len() implies result@.cells[position] == product(
            a@,
            b@,
        ).cells[position] by {
            lemma_position_row_col(result@.rows, result@.cols, position);
            let row = position / (result_n_cols as int);
            let col = position % (result_n_cols as int);
            assert(result@.at(row, col) == dot(a@, b@, row, col, inner as nat));
        }
        assert(result@.cells =~= product(a@, b@).cells);
    }
    result
}

} // verus!
