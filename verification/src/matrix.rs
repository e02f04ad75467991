use vstd::prelude::*;

use crate::errors::MathError;

verus! {

/// A dense two-dimensional matrix: a table of scalars stored row by row,
/// together with the declared row and column counts.
///
/// The fields are public and a matrix may be built directly, so nothing
/// forces the table to match the declared dimensions; [`Matrix::is_valid`]
/// reports whether it does. Every operation below assumes a well-formed
/// matrix (see [`Matrix::wf`]) and promises to return one.
///
/// The element type is a parameter, and the operations that combine or
/// rescale elements take the scalar arithmetic as a closure, so the
/// structural bookkeeping here is independent of the scalar representation
/// a caller chooses.
#[derive(Debug)]
pub struct Matrix<T> {
    pub elements: Vec<Vec<T>>,
    pub rows: usize,
    pub columns: usize,
}

impl<T> Matrix<T> {
    /// Well-formedness: the table has exactly `rows` rows and every row has
    /// exactly `columns` elements.
    pub open spec fn wf(self) -> bool {
        &&& self.elements@.len() == self.rows
        &&& forall|i: int|
            0 <= i < self.elements@.len() ==> (#[trigger] self.elements@[i]@.len())
                == self.columns
    }

    /// The element in row `i`, column `j`, both zero-indexed.
    pub open spec fn entry(self, i: int, j: int) -> T {
        self.elements@[i]@[j]
    }

    /// Whether position `(i, j)` lies inside the declared dimensions.
    pub open spec fn in_bounds(self, i: int, j: int) -> bool {
        0 <= i < self.rows && 0 <= j < self.columns
    }

    /// Whether two matrices declare the same dimensions.
    pub open spec fn same_shape(self, other: Matrix<T>) -> bool {
        self.rows == other.rows && self.columns == other.columns
    }
}

impl<T: Copy> Matrix<T> {
    /// Returns the declared dimensions as a `(rows, columns)` pair.
    pub fn get_dimensions(&self) -> (r: (usize, usize))
        ensures
            r == (self.rows, self.columns),
    {
        (self.rows, self.columns)
    }

    /// Reports whether the stored table matches the declared dimensions:
    /// every row has length `columns` and the number of rows is `rows`.
    ///
    /// This is the check a caller runs after building a matrix directly
    /// from its fields; it never fails, it only answers.
    pub fn is_valid(&self) -> (r: bool)
        ensures
            r == self.wf(),
    {
        if self.elements.len() != self.rows {
            return false;
        }
        let mut i: usize = 0;
        while i < self.elements.len()
            invariant
                self.elements@.len() == self.rows,
                i <= self.elements@.len(),
                forall|k: int|
                    0 <= k < i ==> (#[trigger] self.elements@[k]@.len()) == self.columns,
            decreases self.elements@.len() - i,
        {
            if self.elements[i].len() != self.columns {
                return false;
            }
            i += 1;
        }
        true
    }

    /// Returns the element at `(row, column)`, or `IndexOutOfBounds` when
    /// the position lies outside the declared dimensions.
    pub fn index_val(&self, row: usize, column: usize) -> (r: Result<T, MathError>)
        requires
            self.wf(),
        ensures
            self.in_bounds(row as int, column as int) ==> r == Ok::<T, MathError>(
                self.entry(row as int, column as int),
            ),
            !self.in_bounds(row as int, column as int) ==> r == Err::<T, MathError>(
                MathError::IndexOutOfBounds,
            ),
    {
        if row >= self.rows || column >= self.columns {
            return Err(MathError::IndexOutOfBounds);
        }
        Ok(self.elements[row][column])
    }

    /// Replaces the element at `(row, column)` with `val`, or returns
    /// `IndexOutOfBounds`, leaving the matrix unchanged, when the position
    /// lies outside the declared dimensions.
    pub fn change_val(&mut self, val: T, row: usize, column: usize) -> (r: Result<
        (),
        MathError,
    >)
        requires
            old(self).wf(),
        ensures
            final(self).wf(),
            final(self).rows == old(self).rows,
            final(self).columns == old(self).columns,
            old(self).in_bounds(row as int, column as int) <==> r == Ok::<(), MathError>(()),
            !old(self).in_bounds(row as int, column as int) ==> r == Err::<(), MathError>(
                MathError::IndexOutOfBounds,
            ) && *final(self) == *old(self),
            r is Ok ==> final(self).entry(row as int, column as int) == val,
            forall|i: int, j: int|
                old(self).in_bounds(i, j) && (i != row || j != column)
                    ==> #[trigger] final(self).entry(i, j) == old(self).entry(i, j),
    {
        if row >= self.rows || column >= self.columns {
            return Err(MathError::IndexOutOfBounds);
        }
        self.elements[row][column] = val;
        Ok(())
    }

    /// Rescales every element in place: each element `x` is replaced by
    /// `op(x)`. A caller multiplying a matrix by a scalar `c` passes the
    /// closure `x -> x * c`.
    pub fn multiply_by_value<F: Fn(T) -> T>(&mut self, op: F)
        requires
            old(self).wf(),
            forall|i: int, j: int|
                old(self).in_bounds(i, j) ==> op.requires((old(self).entry(i, j),)),
        ensures
            final(self).wf(),
            final(self).rows == old(self).rows,
            final(self).columns == old(self).columns,
            forall|i: int, j: int|
                old(self).in_bounds(i, j) ==> op.ensures(
                    (old(self).entry(i, j),),
                    #[trigger] final(self).entry(i, j),
                ),
    {
        let rows = self.rows;
        let columns = self.columns;
        let mut scaled: Vec<Vec<T>> = Vec::new();
        let mut i: usize = 0;
        while i < rows
            invariant
                *self == *old(self),
                self.wf(),
                rows == self.rows,
                columns == self.columns,
                forall|i2: int, j2: int|
                    old(self).in_bounds(i2, j2) ==> op.requires((old(self).entry(i2, j2),)),
                i <= rows,
                scaled@.len() == i,
                forall|k: int| 0 <= k < i ==> (#[trigger] scaled@[k]@.len()) == columns,
                forall|k: int, l: int|
                    0 <= k < i && 0 <= l < columns ==> op.ensures(
                        (old(self).entry(k, l),),
                        #[trigger] scaled@[k]@[l],
                    ),
            decreases rows - i,
        {
            let mut new_row: Vec<T> = Vec::new();
            let mut j: usize = 0;
            while j < columns
                invariant
                    *self == *old(self),
                    self.wf(),
                    rows == self.rows,
                    columns == self.columns,
                    forall|i2: int, j2: int|
                        old(self).in_bounds(i2, j2) ==> op.requires((old(self).entry(i2, j2),)),
                    i < rows,
                    j <= columns,
                    new_row@.len() == j,
                    forall|l: int|
                        0 <= l < j ==> op.ensures(
                            (old(self).entry(i as int, l),),
                            #[trigger] new_row@[l],
                        ),
                decreases columns - j,
            {
                let x = self.elements[i][j];
                proof {
                    assert(old(self).in_bounds(i as int, j as int));
                    assert(x == old(self).entry(i as int, j as int));
                    assert(op.requires((old(self).entry(i as int, j as int),)));
                }
                new_row.push(op(x));
                j += 1;
            }
            scaled.push(new_row);
            i += 1;
        }
        self.elements = scaled;
    }

    /// Replaces row `row` with `new_row`. Fails with `IndexOutOfBounds`
    /// when `row` is not a row index, and with `DimensionMismatch` when
    /// `new_row` does not have exactly `columns` elements; either failure
    /// leaves the matrix unchanged.
    pub fn change_row(&mut self, row: usize, new_row: Vec<T>) -> (r: Result<(), MathError>)
        requires
            old(self).wf(),
        ensures
            final(self).wf(),
            final(self).rows == old(self).rows,
            final(self).columns == old(self).columns,
            row >= old(self).rows ==> r == Err::<(), MathError>(MathError::IndexOutOfBounds)
                && *final(self) == *old(self),
            row < old(self).rows && new_row@.len() != old(self).columns ==> r == Err::<
                (),
                MathError,
            >(MathError::DimensionMismatch) && *final(self) == *old(self),
            r is Ok <==> row < old(self).rows && new_row@.len() == old(self).columns,
            r is Ok ==> forall|j: int|
                0 <= j < old(self).columns ==> #[trigger] final(self).entry(row as int, j)
                    == new_row@[j],
            r is Ok ==> forall|i: int, j: int|
                old(self).in_bounds(i, j) && i != row ==> #[trigger] final(self).entry(i, j)
                    == old(self).entry(i, j),
    {
        if row >= self.rows {
            return Err(MathError::IndexOutOfBounds);
        }
        if new_row.len() != self.columns {
            return Err(MathError::DimensionMismatch);
        }
        self.elements[row] = new_row;
        Ok(())
    }

    /// Replaces column `column` with `new_column`. Fails with
    /// `IndexOutOfBounds` when `column` is not a column index, and with
    /// `DimensionMismatch` when `new_column` does not have exactly `rows`
    /// elements; either failure leaves the matrix unchanged.
    pub fn change_column(&mut self, column: usize, new_column: Vec<T>) -> (r: Result<
        (),
        MathError,
    >)
        requires
            old(self).wf(),
        ensures
            final(self).wf(),
            final(self).rows == old(self).rows,
            final(self).columns == old(self).columns,
            column >= old(self).columns ==> r == Err::<(), MathError>(
                MathError::IndexOutOfBounds,
            ) && *final(self) == *old(self),
            column < old(self).columns && new_column@.len() != old(self).rows ==> r == Err::<
                (),
                MathError,
            >(MathError::DimensionMismatch) && *final(self) == *old(self),
            r is Ok <==> column < old(self).columns && new_column@.len() == old(self).rows,
            r is Ok ==> forall|i: int|
                0 <= i < old(self).rows ==> #[trigger] final(self).entry(i, column as int)
                    == new_column@[i],
            r is Ok ==> forall|i: int, j: int|
                old(self).in_bounds(i, j) && j != column ==> #[trigger] final(self).entry(i, j)
                    == old(self).entry(i, j),
    {
        if column >= self.columns {
            return Err(MathError::IndexOutOfBounds);
        }
        if new_column.len() != self.rows {
            return Err(MathError::DimensionMismatch);
        }
        let mut i: usize = 0;
        while i < self.rows
            invariant
                self.wf(),
                self.rows == old(self).rows,
                self.columns == old(self).columns,
                i <= self.rows,
                column < self.columns,
                new_column@.len() == self.rows,
                forall|k: int|
                    0 <= k < i ==> #[trigger] self.entry(k, column as int) == new_column@[k],
                forall|k: int, j: int|
                    self.in_bounds(k, j) && (k >= i || j != column) ==> #[trigger] self.entry(
                        k,
                        j,
                    ) == old(self).entry(k, j),
            decreases self.rows - i,
        {
            let ghost pre = *self;
            let v = new_column[i];
            self.elements[i][column] = v;
            proof {
                assert(self.elements@[i as int]@ == pre.elements@[i as int]@.update(
                    column as int,
                    v,
                ));
                assert(self.entry(i as int, column as int) == new_column@[i as int]);
                assert forall|k: int, j: int|
                    self.in_bounds(k, j) && (k >= i + 1 || j != column) implies self.entry(k, j)
                    == old(self).entry(k, j) by {
                    if k == i {
                        assert(self.elements@[k]@[j] == pre.elements@[k]@[j]);
                    } else {
                        assert(self.elements@[k] == pre.elements@[k]);
                    }
                    assert(pre.entry(k, j) == old(self).entry(k, j));
                }
                assert forall|k: int| 0 <= k < i implies self.entry(k, column as int)
                    == new_column@[k] by {
                    assert(self.elements@[k] == pre.elements@[k]);
                    assert(pre.entry(k, column as int) == new_column@[k]);
                }
            }
            i += 1;
        }
        Ok(())
    }
}

/// Returns a well-formed `rows x columns` matrix with every element set to
/// `fill`. A zero-filled matrix is this constructor applied to the scalar
/// zero.
pub fn create_matrix<T: Copy>(rows: usize, columns: usize, fill: T) -> (m: Matrix<T>)
    ensures
        m.wf(),
        m.rows == rows,
        m.columns == columns,
        forall|i: int, j: int| m.in_bounds(i, j) ==> #[trigger] m.entry(i, j) == fill,
{
    let mut elements: Vec<Vec<T>> = Vec::new();
    let mut i: usize = 0;
    while i < rows
        invariant
            i <= rows,
            elements@.len() == i,
            forall|k: int| 0 <= k < i ==> (#[trigger] elements@[k]@.len()) == columns,
            forall|k: int, l: int|
                0 <= k < i && 0 <= l < columns ==> #[trigger] elements@[k]@[l] == fill,
        decreases rows - i,
    {
        let mut row_vec: Vec<T> = Vec::new();
        let mut j: usize = 0;
        while j < columns
            invariant
                j <= columns,
                row_vec@.len() == j,
                forall|l: int| 0 <= l < j ==> #[trigger] row_vec@[l] == fill,
            decreases columns - j,
        {
            row_vec.push(fill);
            j += 1;
        }
        elements.push(row_vec);
        i += 1;
    }
    Matrix { elements, rows, columns }
}

/// Returns a well-formed `rows x columns` matrix numbered in row-major
/// order: the element at `(i, j)` is `i * columns + j + 1`, so the values
/// run 1, 2, 3, ... across the first row and onward.
pub fn create_numbered_matrix(rows: usize, columns: usize) -> (m: Matrix<u64>)
    requires
        rows * columns <= u64::MAX,
    ensures
        m.wf(),
        m.rows == rows,
        m.columns == columns,
        forall|i: int, j: int|
            m.in_bounds(i, j) ==> #[trigger] m.entry(i, j) == i * columns + j + 1,
{
    let mut elements: Vec<Vec<u64>> = Vec::new();
    let mut val: u64 = 0;
    let mut i: usize = 0;
    while i < rows
        invariant
            i <= rows,
            rows * columns <= u64::MAX,
            val == i * columns,
            elements@.len() == i,
            forall|k: int| 0 <= k < i ==> (#[trigger] elements@[k]@.len()) == columns,
            forall|k: int, l: int|
                0 <= k < i && 0 <= l < columns ==> #[trigger] elements@[k]@[l] == k * columns + l
                    + 1,
        decreases rows - i,
    {
        let mut row_vec: Vec<u64> = Vec::new();
        let mut j: usize = 0;
        while j < columns
            invariant
                i < rows,
                j <= columns,
                rows * columns <= u64::MAX,
                val == i * columns + j,
                row_vec@.len() == j,
                forall|l: int|
                    0 <= l < j ==> #[trigger] row_vec@[l] == i * columns + l + 1,
            decreases columns - j,
        {
            proof {
                assert(i * columns + j + 1 <= rows * columns) by (nonlinear_arith)
                    requires
                        0 <= i < rows,
                        0 <= j < columns,
                ;
            }
            val = val + 1;
            row_vec.push(val);
            j += 1;
        }
        proof {
            assert(i * columns + columns == (i + 1) * columns) by (nonlinear_arith);
        }
        elements.push(row_vec);
        i += 1;
    }
    Matrix { elements, rows, columns }
}

/// Returns the well-formed `dimension x dimension` matrix whose diagonal
/// elements are `one` and whose remaining elements are `zero`. The caller
/// supplies the two scalar constants.
pub fn create_identity_matrix<T: Copy>(dimension: usize, zero: T, one: T) -> (m: Matrix<T>)
    ensures
        m.wf(),
        m.rows == dimension,
        m.columns == dimension,
        forall|i: int, j: int|
            m.in_bounds(i, j) ==> #[trigger] m.entry(i, j) == (if i == j {
                one
            } else {
                zero
            }),
{
    let mut elements: Vec<Vec<T>> = Vec::new();
    let mut i: usize = 0;
    while i < dimension
        invariant
            i <= dimension,
            elements@.len() == i,
            forall|k: int| 0 <= k < i ==> (#[trigger] elements@[k]@.len()) == dimension,
            forall|k: int, l: int|
                0 <= k < i && 0 <= l < dimension ==> #[trigger] elements@[k]@[l] == (if k == l {
                    one
                } else {
                    zero
                }),
        decreases dimension - i,
    {
        let mut row_vec: Vec<T> = Vec::new();
        let mut j: usize = 0;
        while j < dimension
            invariant
                i < dimension,
                j <= dimension,
                row_vec@.len() == j,
                forall|l: int|
                    0 <= l < j ==> #[trigger] row_vec@[l] == (if i == l {
                        one
                    } else {
                        zero
                    }),
            decreases dimension - j,
        {
            if j == i {
                row_vec.push(one);
            } else {
                row_vec.push(zero);
            }
            j += 1;
        }
        elements.push(row_vec);
        i += 1;
    }
    Matrix { elements, rows: dimension, columns: dimension }
}

/// Builds the matrix whose element at `(i, j)` is
/// `op(mat1.entry(i, j), mat2.entry(i, j))`, or fails with
/// `DimensionMismatch` when the operands' shapes differ. Shared by
/// addition and subtraction, which differ only in the scalar operation.
fn combine_elementwise<T: Copy, F: Fn(T, T) -> T>(
    mat1: &Matrix<T>,
    mat2: &Matrix<T>,
    op: F,
) -> (r: Result<Matrix<T>, MathError>)
    requires
        mat1.wf(),
        mat2.wf(),
        mat1.same_shape(*mat2) ==> forall|i: int, j: int|
            #[trigger] mat1.in_bounds(i, j) ==> op.requires(
                (mat1.entry(i, j), mat2.entry(i, j)),
            ),
    ensures
        r is Ok <==> mat1.same_shape(*mat2),
        !mat1.same_shape(*mat2) ==> r == Err::<Matrix<T>, MathError>(
            MathError::DimensionMismatch,
        ),
        r matches Ok(m) ==> m.wf() && m.rows == mat1.rows && m.columns == mat1.columns,
        r matches Ok(m) ==> forall|i: int, j: int|
            mat1.in_bounds(i, j) ==> op.ensures(
                (mat1.entry(i, j), mat2.entry(i, j)),
                #[trigger] m.entry(i, j),
            ),
{
    if mat1.rows != mat2.rows || mat1.columns != mat2.columns {
        return Err(MathError::DimensionMismatch);
    }
    let rows = mat1.rows;
    let columns = mat1.columns;
    let mut elements: Vec<Vec<T>> = Vec::new();
    let mut i: usize = 0;
    while i < rows
        invariant
            mat1.wf(),
            mat2.wf(),
            mat1.same_shape(*mat2),
            rows == mat1.rows,
            columns == mat1.columns,
            forall|i2: int, j2: int|
                #[trigger] mat1.in_bounds(i2, j2) ==> op.requires(
                    (mat1.entry(i2, j2), mat2.entry(i2, j2)),
                ),
            i <= rows,
            elements@.len() == i,
            forall|k: int| 0 <= k < i ==> (#[trigger] elements@[k]@.len()) == columns,
            forall|k: int, l: int|
                0 <= k < i && 0 <= l < columns ==> op.ensures(
                    (mat1.entry(k, l), mat2.entry(k, l)),
                    #[trigger] elements@[k]@[l],
                ),
        decreases rows - i,
    {
        let mut row_vec: Vec<T> = Vec::new();
        let mut j: usize = 0;
        while j < columns
            invariant
                mat1.wf(),
                mat2.wf(),
                mat1.same_shape(*mat2),
                rows == mat1.rows,
                columns == mat1.columns,
                forall|i2: int, j2: int|
                    #[trigger] mat1.in_bounds(i2, j2) ==> op.requires(
                        (mat1.entry(i2, j2), mat2.entry(i2, j2)),
                    ),
                i < rows,
                j <= columns,
                row_vec@.len() == j,
                forall|l: int|
                    0 <= l < j ==> op.ensures(
                        (mat1.entry(i as int, l), mat2.entry(i as int, l)),
                        #[trigger] row_vec@[l],
                    ),
            decreases columns - j,
        {
            let a = mat1.elements[i][j];
            let b = mat2.elements[i][j];
            assert(mat1.in_bounds(i as int, j as int));
            row_vec.push(op(a, b));
            j += 1;
        }
        elements.push(row_vec);
        i += 1;
    }
    Ok(Matrix { elements, rows, columns })
}

/// Adds two matrices element by element under the scalar addition `op`,
/// producing a new matrix and leaving both operands unchanged. Fails with
/// `DimensionMismatch` when the shapes differ.
pub fn matrix_addition<T: Copy, F: Fn(T, T) -> T>(
    mat1: &Matrix<T>,
    mat2: &Matrix<T>,
    op: F,
) -> (r: Result<Matrix<T>, MathError>)
    requires
        mat1.wf(),
        mat2.wf(),
        mat1.same_shape(*mat2) ==> forall|i: int, j: int|
            #[trigger] mat1.in_bounds(i, j) ==> op.requires(
                (mat1.entry(i, j), mat2.entry(i, j)),
            ),
    ensures
        r is Ok <==> mat1.same_shape(*mat2),
        !mat1.same_shape(*mat2) ==> r == Err::<Matrix<T>, MathError>(
            MathError::DimensionMismatch,
        ),
        r matches Ok(m) ==> m.wf() && m.rows == mat1.rows && m.columns == mat1.columns,
        r matches Ok(m) ==> forall|i: int, j: int|
            mat1.in_bounds(i, j) ==> op.ensures(
                (mat1.entry(i, j), mat2.entry(i, j)),
                #[trigger] m.entry(i, j),
            ),
{
    combine_elementwise(mat1, mat2, op)
}

/// Subtracts the second matrix from the first element by element under the
/// scalar subtraction `op`: the result's element at `(i, j)` is
/// `op(mat1.entry(i, j), mat2.entry(i, j))`. Fails with
/// `DimensionMismatch` when the shapes differ.
pub fn matrix_subtraction<T: Copy, F: Fn(T, T) -> T>(
    mat1: &Matrix<T>,
    mat2: &Matrix<T>,
    op: F,
) -> (r: Result<Matrix<T>, MathError>)
    requires
        mat1.wf(),
        mat2.wf(),
        mat1.same_shape(*mat2) ==> forall|i: int, j: int|
            #[trigger] mat1.in_bounds(i, j) ==> op.requires(
                (mat1.entry(i, j), mat2.entry(i, j)),
            ),
    ensures
        r is Ok <==> mat1.same_shape(*mat2),
        !mat1.same_shape(*mat2) ==> r == Err::<Matrix<T>, MathError>(
            MathError::DimensionMismatch,
        ),
        r matches Ok(m) ==> m.wf() && m.rows == mat1.rows && m.columns == mat1.columns,
        r matches Ok(m) ==> forall|i: int, j: int|
            mat1.in_bounds(i, j) ==> op.ensures(
                (mat1.entry(i, j), mat2.entry(i, j)),
                #[trigger] m.entry(i, j),
            ),
{
    combine_elementwise(mat1, mat2, op)
}

/// Round-trip law for addition and subtraction: if `s` was built from `m`
/// and `n` element by element under `add_op`, `d` was built from `s` and
/// `n` under `sub_op`, and `sub_op` exactly inverts `add_op` on scalars,
/// then `d` equals `m` element-wise.
///
/// The inversion hypothesis is exact, as it is for unbounded integers;
/// rounded scalars such as floating-point numbers satisfy it only
/// approximately, and then the round trip holds only to the same
/// tolerance.
pub proof fn lemma_addition_subtraction_round_trip<T, F: Fn(T, T) -> T, G: Fn(T, T) -> T>(
    m: Matrix<T>,
    n: Matrix<T>,
    s: Matrix<T>,
    d: Matrix<T>,
    add_op: F,
    sub_op: G,
)
    requires
        m.wf(),
        n.wf(),
        m.same_shape(n),
        s.same_shape(m),
        forall|i: int, j: int|
            m.in_bounds(i, j) ==> add_op.ensures(
                (m.entry(i, j), n.entry(i, j)),
                #[trigger] s.entry(i, j),
            ),
        d.same_shape(m),
        forall|i: int, j: int|
            m.in_bounds(i, j) ==> sub_op.ensures(
                (s.entry(i, j), n.entry(i, j)),
                #[trigger] d.entry(i, j),
            ),
        forall|a: T, b: T, c: T, e: T|
            #![trigger add_op.ensures((a, b), c), sub_op.ensures((c, b), e)]
            add_op.ensures((a, b), c) && sub_op.ensures((c, b), e) ==> e == a,
    ensures
        forall|i: int, j: int| m.in_bounds(i, j) ==> #[trigger] d.entry(i, j) == m.entry(i, j),
{
    assert forall|i: int, j: int| m.in_bounds(i, j) implies #[trigger] d.entry(i, j) == m.entry(
        i,
        j,
    ) by {
        assert(add_op.ensures((m.entry(i, j), n.entry(i, j)), s.entry(i, j)));
        assert(sub_op.ensures((s.entry(i, j), n.entry(i, j)), d.entry(i, j)));
    }
}

/// The transpose relation: `t` swaps the dimensions of `m` and holds
/// `m`'s element `(i, j)` at position `(j, i)`.
pub open spec fn is_transpose_of<T>(t: Matrix<T>, m: Matrix<T>) -> bool {
    &&& t.wf()
    &&& t.rows == m.columns
    &&& t.columns == m.rows
    &&& forall|i: int, j: int| m.in_bounds(i, j) ==> #[trigger] t.entry(j, i) == m.entry(i, j)
}

/// Returns the transpose of `mat`: a new `columns x rows` matrix whose
/// element at `(i, j)` is `mat`'s element at `(j, i)`. The operand is left
/// unchanged.
pub fn matrix_transpose<T: Copy>(mat: &Matrix<T>) -> (r: Matrix<T>)
    requires
        mat.wf(),
    ensures
        is_transpose_of(r, *mat),
{
    let rows = mat.columns;
    let columns = mat.rows;
    let mut elements: Vec<Vec<T>> = Vec::new();
    let mut i: usize = 0;
    while i < rows
        invariant
            mat.wf(),
            rows == mat.columns,
            columns == mat.rows,
            i <= rows,
            elements@.len() == i,
            forall|k: int| 0 <= k < i ==> (#[trigger] elements@[k]@.len()) == columns,
            forall|k: int, l: int|
                0 <= k < i && 0 <= l < columns ==> #[trigger] elements@[k]@[l] == mat.entry(l, k),
        decreases rows - i,
    {
        let mut row_vec: Vec<T> = Vec::new();
        let mut j: usize = 0;
        while j < columns
            invariant
                mat.wf(),
                rows == mat.columns,
                columns == mat.rows,
                i < rows,
                j <= columns,
                row_vec@.len() == j,
                forall|l: int| 0 <= l < j ==> #[trigger] row_vec@[l] == mat.entry(l, i as int),
            decreases columns - j,
        {
            row_vec.push(mat.elements[j][i]);
            j += 1;
        }
        elements.push(row_vec);
        i += 1;
    }
    Matrix { elements, rows, columns }
}

/// Transposing twice gives back the original matrix element-wise: if `t`
/// is the transpose of `m` and `u` is the transpose of `t`, then `u` has
/// `m`'s dimensions and `m`'s element at every position.
pub proof fn lemma_transpose_involution<T>(m: Matrix<T>, t: Matrix<T>, u: Matrix<T>)
    requires
        m.wf(),
        is_transpose_of(t, m),
        is_transpose_of(u, t),
    ensures
        u.rows == m.rows,
        u.columns == m.columns,
        forall|i: int, j: int| m.in_bounds(i, j) ==> #[trigger] u.entry(i, j) == m.entry(i, j),
{
    assert forall|i: int, j: int| m.in_bounds(i, j) implies #[trigger] u.entry(i, j) == m.entry(
        i,
        j,
    ) by {
        assert(t.in_bounds(j, i));
        assert(u.entry(i, j) == t.entry(j, i));
        assert(t.entry(j, i) == m.entry(i, j));
    }
}

} // verus!
