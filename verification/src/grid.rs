//! The mathematical content of a matrix.

use vstd::prelude::*;

verus! {

/// A matrix as a mathematical value: its shape, and its cells laid out row by
/// row, so that cell `(row, col)` stands at position `row * cols + col`.
pub struct Grid<T> {
    pub rows: nat,
    pub cols: nat,
    pub cells: Seq<T>,
}

impl<T> Grid<T> {
    /// There is exactly one cell for each pair of a row and a column.
    pub open spec fn wf(self) -> bool {
        self.cells.len() == self.rows * self.cols
    }

    /// `(row, col)` addresses a cell of this grid.
    pub open spec fn in_bounds(self, row: int, col: int) -> bool {
        0 <= row < self.rows && 0 <= col < self.cols
    }

    /// The position of cell `(row, col)` in `cells`.
    pub open spec fn offset(self, row: int, col: int) -> int {
        row * self.cols + col
    }

    /// The value of cell `(row, col)`.
    pub open spec fn at(self, row: int, col: int) -> T {
        self.cells[self.offset(row, col)]
    }

    /// This grid with cell `(row, col)` replaced by `value`.
    pub open spec fn update(self, row: int, col: int, value: T) -> Grid<T> {
        Grid {
            rows: self.rows,
            cols: self.cols,
            cells: self.cells.update(self.offset(row, col), value),
        }
    }

    /// `self` and `other` have the same shape and agree on every cell.
    pub open spec fn same_content(self, other: Grid<T>) -> bool {
        &&& self.rows == other.rows
        &&& self.cols == other.cols
        &&& forall|row: int, col: int|
            self.in_bounds(row, col) ==> #[trigger] self.at(row, col) == other.at(row, col)
    }

    /// The grid of the given shape whose cell `(row, col)` holds
    /// `cell(row, col)`.
    pub open spec fn new(rows: nat, cols: nat, cell: spec_fn(int, int) -> T) -> Grid<T> {
        Grid {
            rows,
            cols,
            cells: Seq::new(
                rows * cols,
                |position: int| cell(position / (cols as int), position % (cols as int)),
            ),
        }
    }

    /// The grid of the given shape whose every cell holds `value`.
    pub open spec fn filled(rows: nat, cols: nat, value: T) -> Grid<T> {
        Grid::new(rows, cols, |row: int, col: int| value)
    }
}

/// A cell inside an `rows` by `cols` grid has a position below `rows * cols`.
pub proof fn lemma_offset_bounds(rows: nat, cols: nat, row: int, col: int)
    requires
        0 <= row < rows,
        0 <= col < cols,
    ensures
        0 <= row * cols + col < rows * cols,
{
    assert(row * cols >= 0) by (nonlinear_arith)
        requires
            row >= 0,
            cols >= 0,
    ;
    assert((row + 1) * cols <= rows * cols) by (nonlinear_arith)
        requires
            row + 1 <= rows,
            cols >= 0,
    ;
    assert((row + 1) * cols == row * cols + cols) by (nonlinear_arith);
}

/// A position determines its row and its column: they are its quotient and
/// its remainder by the number of columns.
pub proof fn lemma_offset_row_col(cols: nat, row: int, col: int)
    requires
        0 <= row,
        0 <= col < cols,
    ensures
        (row * cols + col) / (cols as int) == row,
        (row * cols + col) % (cols as int) == col,
{
    vstd::arithmetic::div_mod::lemma_fundamental_div_mod_converse(
        row * cols + col,
        cols as int,
        row,
        col,
    );
    assert(row * cols == cols * row) by (nonlinear_arith);
}

/// Two cells of one grid that share a position are the same cell.
pub proof fn lemma_offset_injective(cols: nat, row1: int, col1: int, row2: int, col2: int)
    requires
        0 <= row1,
        0 <= col1 < cols,
        0 <= row2,
        0 <= col2 < cols,
        row1 * cols + col1 == row2 * cols + col2,
    ensures
        row1 == row2,
        col1 == col2,
{
    lemma_offset_row_col(cols, row1, col1);
    lemma_offset_row_col(cols, row2, col2);
}

/// Every position below `rows * cols` is that of a cell inside the grid.
pub proof fn lemma_position_row_col(rows: nat, cols: nat, position: int)
    requires
        0 <= position < rows * cols,
    ensures
        cols > 0,
        0 <= position / (cols as int) < rows,
        0 <= position % (cols as int) < cols,
        (position / (cols as int)) * cols + position % (cols as int) == position,
{
    assert(cols > 0) by (nonlinear_arith)
        requires
            0 < rows * cols,
    ;
    let c = cols as int;
    vstd::arithmetic::div_mod::lemma_fundamental_div_mod(position, c);
    vstd::arithmetic::div_mod::lemma_mod_bound(position, c);
    vstd::arithmetic::div_mod::lemma_div_pos_is_pos(position, c);
    let q = position / c;
    assert(c * q == q * c) by (nonlinear_arith);
    assert(q < rows) by (nonlinear_arith)
        requires
            q * c <= position,
            position < rows * c,
            c > 0,
            q >= 0,
    ;
}

/// Two well-formed grids of the same content are the same grid.
pub proof fn lemma_same_content_equal<T>(grid: Grid<T>, other: Grid<T>)
    requires
        grid.wf(),
        other.wf(),
        grid.same_content(other),
    ensures
        grid == other,
{
    assert forall|position: int| 0 <= position < grid.cells.len() implies grid.cells[position]
        == other.cells[position] by {
        lemma_position_row_col(grid.rows, grid.cols, position);
        let row = position / (grid.cols as int);
        let col = position % (grid.cols as int);
        assert(grid.at(row, col) == other.at(row, col));
    }
    assert(grid.cells =~= other.cells);
}

/// Writing a cell of a well-formed grid keeps its shape and leaves it
/// well-formed.
pub proof fn lemma_update_shape<T>(grid: Grid<T>, row: int, col: int, value: T)
    requires
        grid.wf(),
        grid.in_bounds(row, col),
    ensures
        grid.update(row, col, value).rows == grid.rows,
        grid.update(row, col, value).cols == grid.cols,
        grid.update(row, col, value).wf(),
{
    lemma_offset_bounds(grid.rows, grid.cols, row, col);
}

/// A cell that was written reads back the value written.
pub proof fn lemma_update_same<T>(grid: Grid<T>, row: int, col: int, value: T)
    requires
        grid.wf(),
        grid.in_bounds(row, col),
    ensures
        grid.update(row, col, value).at(row, col) == value,
{
    lemma_offset_bounds(grid.rows, grid.cols, row, col);
}

/// Writing a cell leaves every other cell as it was.
pub proof fn lemma_update_others<T>(grid: Grid<T>, row: int, col: int, value: T)
    requires
        grid.wf(),
        grid.in_bounds(row, col),
    ensures
        forall|other_row: int, other_col: int|
            grid.in_bounds(other_row, other_col) && (other_row != row || other_col != col)
                ==> #[trigger] grid.update(row, col, value).at(other_row, other_col)
                == grid.at(other_row, other_col),
{
    lemma_offset_bounds(grid.rows, grid.cols, row, col);
    assert forall|other_row: int, other_col: int|
        grid.in_bounds(other_row, other_col) && (other_row != row || other_col != col)
        implies #[trigger] grid.update(row, col, value).at(other_row, other_col)
        == grid.at(other_row, other_col) by {
        lemma_offset_bounds(grid.rows, grid.cols, other_row, other_col);
        if row * grid.cols + col == other_row * grid.cols + other_col {
            lemma_offset_injective(grid.cols, row, col, other_row, other_col);
        }
    }
}

/// A grid made from a function of the row and the column is well-formed,
/// and its cell `(row, col)` holds the function's value there.
pub proof fn lemma_new_at<T>(
    rows: nat,
    cols: nat,
    cell: spec_fn(int, int) -> T,
    row: int,
    col: int,
)
    requires
        0 <= row < rows,
        0 <= col < cols,
    ensures
        Grid::new(rows, cols, cell).wf(),
        Grid::new(rows, cols, cell).at(row, col) == cell(row, col),
{
    lemma_offset_bounds(rows, cols, row, col);
    lemma_offset_row_col(cols, row, col);
}

/// Every cell of a filled grid holds the fill value.
pub proof fn lemma_filled_at<T>(rows: nat, cols: nat, value: T, row: int, col: int)
    requires
        0 <= row < rows,
        0 <= col < cols,
    ensures
        Grid::filled(rows, cols, value).wf(),
        Grid::filled(rows, cols, value).at(row, col) == value,
{
    lemma_new_at(rows, cols, |row: int, col: int| value, row, col);
}

} // verus!
