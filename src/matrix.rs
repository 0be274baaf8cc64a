//! A dense matrix stored row by row, with fixed dimensions.

use vstd::prelude::*;

verus! {

/// A `rows x cols` matrix, stored row-major. Its dimensions are fixed when it is
/// built: every transformation returns a new matrix.
#[derive(Debug, PartialEq)]
pub struct Matrix<T> {
    no_rows: usize,
    no_cols: usize,
    data: Vec<T>,
}

impl<T> Matrix<T> {
    /// Both dimensions are positive and the data holds one value per entry.
    #[verifier::type_invariant]
    spec fn shape_ok(&self) -> bool {
        &&& self.no_rows > 0
        &&& self.no_cols > 0
        &&& self.data@.len() == self.no_rows * self.no_cols
    }

    /// The number of rows.
    pub closed spec fn nrows(&self) -> nat {
        self.no_rows as nat
    }

    /// The number of columns.
    pub closed spec fn ncols(&self) -> nat {
        self.no_cols as nat
    }

    /// The entries, row after row.
    pub closed spec fn flat(&self) -> Seq<T> {
        self.data@
    }

    /// The entry at row `i` and column `j`.
    pub open spec fn entry(&self, i: int, j: int) -> T {
        self.flat()[i * self.ncols() + j]
    }
}

/// Row `i` of a `rows x cols` layout starts at `i * cols`, and its entries stay
/// inside the data.
pub proof fn lemma_index_in_bounds(i: int, j: int, rows: int, cols: int)
    requires
        0 <= i < rows,
        0 <= j < cols,
    ensures
        0 <= i * cols + j < rows * cols,
        i * cols + j < (i + 1) * cols,
        i * cols <= i * cols + j,
{
    assert(0 <= i * cols) by (nonlinear_arith)
        requires
            0 <= i,
            0 <= j < cols,
    ;
    assert((i + 1) * cols <= rows * cols) by (nonlinear_arith)
        requires
            i + 1 <= rows,
            0 <= j < cols,
    ;
    assert((i + 1) * cols == i * cols + cols) by (nonlinear_arith);
}

impl<T: Copy> Matrix<T> {
    /// Builds a `rows x cols` matrix from its entries, given row after row.
    pub fn new(rows: usize, cols: usize, data: Vec<T>) -> (m: Matrix<T>)
        requires
            rows > 0,
            cols > 0,
            data@.len() == rows * cols,
        ensures
            m.nrows() == rows,
            m.ncols() == cols,
            m.flat() == data@,
    {
        Matrix { no_rows: rows, no_cols: cols, data }
    }

    /// The number of rows.
    pub fn rows(&self) -> (r: usize)
        ensures
            r == self.nrows(),
            r > 0,
    {
        proof {
            use_type_invariant(self);
        }
        self.no_rows
    }

    /// The number of columns.
    pub fn cols(&self) -> (r: usize)
        ensures
            r == self.ncols(),
            r > 0,
    {
        proof {
            use_type_invariant(self);
        }
        self.no_cols
    }

    /// The entries, row after row.
    pub fn get_data(&self) -> (r: &Vec<T>)
        ensures
            r@ == self.flat(),
            r@.len() == self.nrows() * self.ncols(),
    {
        proof {
            use_type_invariant(self);
        }
        &self.data
    }

    /// The entry at row `row` and column `col`.
    pub fn get(&self, row: usize, col: usize) -> (r: T)
        requires
            row < self.nrows(),
            col < self.ncols(),
        ensures
            r == self.entry(row as int, col as int),
    {
        proof {
            use_type_invariant(self);
            lemma_index_in_bounds(row as int, col as int, self.no_rows as int, self.no_cols as int);
        }
        let len = self.data.len();
        assert(row * self.no_cols + col < len);
        self.data[row * self.no_cols + col]
    }

    /// The transpose: entry `(i, j)` of the result is entry `(j, i)` of `self`.
    ///
    /// Relies on `la::Matrix::t`, which copies the entries column by column
    /// into a matrix with the dimensions swapped.
    #[verifier::external_body]
    pub fn t(&self) -> (r: Matrix<T>)
        ensures
            r.nrows() == self.ncols(),
            r.ncols() == self.nrows(),
            forall|i: int, j: int|
                0 <= i < r.nrows() && 0 <= j < r.ncols() ==> #[trigger] r.entry(i, j)
                    == self.entry(j, i),
    {
        let m = la::Matrix::new(self.no_rows, self.no_cols, self.data.clone()).t();
        Matrix { no_rows: m.rows(), no_cols: m.cols(), data: m.get_data().clone() }
    }

    /// The rows of `self` listed in `indices`, in that order.
    ///
    /// Relies on `la::Matrix::get_rows` with a slice of row indices: row `i` of
    /// the result is row `indices[i]` of `self`.
    #[verifier::external_body]
    pub fn get_rows(&self, indices: &[usize]) -> (r: Matrix<T>)
        requires
            indices@.len() > 0,
            forall|k: int| 0 <= k < indices@.len() ==> #[trigger] indices@[k] < self.nrows(),
        ensures
            r.nrows() == indices@.len(),
            r.ncols() == self.ncols(),
            forall|i: int, j: int|
                0 <= i < r.nrows() && 0 <= j < r.ncols() ==> #[trigger] r.entry(i, j)
                    == self.entry(indices@[i] as int, j),
    {
        let m = la::Matrix::new(self.no_rows, self.no_cols, self.data.clone()).get_rows(indices);
        Matrix { no_rows: m.rows(), no_cols: m.cols(), data: m.get_data().clone() }
    }

    /// The columns of `self` listed in `indices`, in that order.
    ///
    /// Relies on `la::Matrix::get_columns` with a slice of column indices:
    /// column `j` of the result is column `indices[j]` of `self`.
    #[verifier::external_body]
    pub fn get_columns(&self, indices: &[usize]) -> (r: Matrix<T>)
        requires
            indices@.len() > 0,
            forall|k: int| 0 <= k < indices@.len() ==> #[trigger] indices@[k] < self.ncols(),
        ensures
            r.nrows() == self.nrows(),
            r.ncols() == indices@.len(),
            forall|i: int, j: int|
                0 <= i < r.nrows() && 0 <= j < r.ncols() ==> #[trigger] r.entry(i, j)
                    == self.entry(i, indices@[j] as int),
    {
        let m = la::Matrix::new(self.no_rows, self.no_cols, self.data.clone()).get_columns(
            indices,
        );
        Matrix { no_rows: m.rows(), no_cols: m.cols(), data: m.get_data().clone() }
    }

    /// `other` stacked below `self`.
    ///
    /// Relies on `la::Matrix::cb`, which copies the entries of `self` and then
    /// those of `other`.
    #[verifier::external_body]
    pub fn row_concat(&self, other: Matrix<T>) -> (r: Matrix<T>)
        requires
            self.ncols() == other.ncols(),
        ensures
            r.nrows() == self.nrows() + other.nrows(),
            r.ncols() == self.ncols(),
            r.flat() == self.flat() + other.flat(),
    {
        let a = la::Matrix::new(self.no_rows, self.no_cols, self.data.clone());
        let m = a.cb(&la::Matrix::new(other.no_rows, other.no_cols, other.data));
        Matrix { no_rows: m.rows(), no_cols: m.cols(), data: m.get_data().clone() }
    }

    /// `other` placed to the right of `self`.
    ///
    /// Relies on `la::Matrix::cr`, which copies each row of `self` followed by
    /// the same row of `other`.
    #[verifier::external_body]
    pub fn col_concat(&self, other: Matrix<T>) -> (r: Matrix<T>)
        requires
            self.nrows() == other.nrows(),
        ensures
            r.nrows() == self.nrows(),
            r.ncols() == self.ncols() + other.ncols(),
            forall|i: int, j: int|
                0 <= i < r.nrows() && 0 <= j < r.ncols() ==> #[trigger] r.entry(i, j) == if j
                    < self.ncols() {
                    self.entry(i, j)
                } else {
                    other.entry(i, j - self.ncols())
                },
    {
        let a = la::Matrix::new(self.no_rows, self.no_cols, self.data.clone());
        let m = a.cr(&la::Matrix::new(other.no_rows, other.no_cols, other.data));
        Matrix { no_rows: m.rows(), no_cols: m.cols(), data: m.get_data().clone() }
    }

    /// Each row of `self` as a `1 x cols` matrix, from the first row to the last.
    pub fn row_iter(&self) -> (r: Vec<Matrix<T>>)
        ensures
            r@.len() == self.nrows(),
            forall|k: int| 0 <= k < r@.len() ==> (#[trigger] r@[k]).nrows() == 1,
            forall|k: int| 0 <= k < r@.len() ==> (#[trigger] r@[k]).ncols() == self.ncols(),
            forall|k: int, j: int|
                0 <= k < r@.len() && 0 <= j < self.ncols() ==> #[trigger] r@[k].entry(0, j)
                    == self.entry(k, j),
    {
        let n = self.rows();
        let mut out: Vec<Matrix<T>> = Vec::new();
        let mut i: usize = 0;
        while i < n
            invariant
                n == self.nrows(),
                i <= n,
                out@.len() == i,
                forall|k: int| 0 <= k < i ==> (#[trigger] out@[k]).nrows() == 1,
                forall|k: int| 0 <= k < i ==> (#[trigger] out@[k]).ncols() == self.ncols(),
                forall|k: int, j: int|
                    0 <= k < i && 0 <= j < self.ncols() ==> #[trigger] out@[k].entry(0, j)
                        == self.entry(k, j),
            decreases n - i,
        {
            let index = vec![i];
            let row = self.get_rows(index.as_slice());
            out.push(row);
            i = i + 1;
        }
        out
    }

    /// Each column of `self` as a `rows x 1` matrix, from the first column to
    /// the last.
    pub fn col_iter(&self) -> (r: Vec<Matrix<T>>)
        ensures
            r@.len() == self.ncols(),
            forall|k: int| 0 <= k < r@.len() ==> (#[trigger] r@[k]).nrows() == self.nrows(),
            forall|k: int| 0 <= k < r@.len() ==> (#[trigger] r@[k]).ncols() == 1,
            forall|k: int, i: int|
                0 <= k < r@.len() && 0 <= i < self.nrows() ==> #[trigger] r@[k].entry(i, 0)
                    == self.entry(i, k),
    {
        let n = self.cols();
        let mut out: Vec<Matrix<T>> = Vec::new();
        let mut j: usize = 0;
        while j < n
            invariant
                n == self.ncols(),
                j <= n,
                out@.len() == j,
                forall|k: int| 0 <= k < j ==> (#[trigger] out@[k]).nrows() == self.nrows(),
                forall|k: int| 0 <= k < j ==> (#[trigger] out@[k]).ncols() == 1,
                forall|k: int, i: int|
                    0 <= k < j && 0 <= i < self.nrows() ==> #[trigger] out@[k].entry(i, 0)
                        == self.entry(i, k),
            decreases n - j,
        {
            let index = vec![j];
            let col = self.get_columns(index.as_slice());
            out.push(col);
            j = j + 1;
        }
        out
    }
}

} // verus!
