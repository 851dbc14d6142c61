//! What the library relies on from `easy_ml::matrices::Matrix`, which stores
//! the weights. A cell holds a number as its bit pattern.

use easy_ml::matrices::Matrix;
use vstd::prelude::*;

verus! {

/// `easy_ml::matrices::Matrix`, a rectangular grid of cells of at least one
/// row and one column.
#[verifier::external_type_specification]
#[verifier::external_body]
#[verifier::reject_recursive_types(T)]
pub struct ExMatrix<T>(Matrix<T>);

/// The cells of a matrix, row by row.
pub uninterp spec fn grid(matrix: Matrix<u64>) -> Seq<Seq<u64>>;

/// A grid of `rows` rows and `columns` columns.
pub open spec fn shaped(cells: Seq<Seq<u64>>, rows: int, columns: int) -> bool {
    &&& cells.len() == rows
    &&& forall|row: int| 0 <= row < rows ==> (#[trigger] cells[row]).len() == columns
}

/// `Matrix::empty`: a matrix of the given size with `value` in every cell.
/// The outside function refuses a size without rows or columns; the bound
/// keeps the allocation of `rows * columns` cells of eight bytes in range.
#[verifier::external_body]
pub(crate) fn filled(value: u64, rows: usize, columns: usize) -> (matrix: Matrix<u64>)
    requires
        0 < rows,
        0 < columns,
        rows * columns * 8 <= isize::MAX,
    ensures
        grid(matrix) == Seq::new(rows as nat, |row: int| Seq::new(columns as nat, |column: int| value)),
{
    Matrix::empty(value, (rows, columns))
}

/// `Matrix::size`: the number of rows, and the number of columns, which is
/// the length of every row.
#[verifier::external_body]
pub(crate) fn dimensions(matrix: &Matrix<u64>) -> (size: (usize, usize))
    ensures
        shaped(grid(*matrix), size.0 as int, size.1 as int),
{
    matrix.size()
}

/// `Matrix::get`: a copy of the cell at `row` and `column`, both counted
/// from 0. The outside function panics on an index out of range.
#[verifier::external_body]
pub(crate) fn cell(matrix: &Matrix<u64>, row: usize, column: usize) -> (value: u64)
    requires
        row < grid(*matrix).len(),
        column < grid(*matrix)[row as int].len(),
    ensures
        value == grid(*matrix)[row as int][column as int],
{
    matrix.get(row, column)
}

/// `Matrix::set`: writes `value` to the cell at `row` and `column` and leaves
/// every other cell as it was. The outside function panics on an index out
/// of range.
#[verifier::external_body]
pub(crate) fn store(matrix: &mut Matrix<u64>, row: usize, column: usize, value: u64)
    requires
        row < grid(*old(matrix)).len(),
        column < grid(*old(matrix))[row as int].len(),
    ensures
        grid(*final(matrix)) == grid(*old(matrix)).update(
            row as int,
            grid(*old(matrix))[row as int].update(column as int, value),
        ),
{
    matrix.set(row, column, value)
}

} // verus!
