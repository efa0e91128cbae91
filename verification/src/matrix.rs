//! The matrix type with construction, access, equality, scaling, sum,
//! difference, product, transposition and minors.
//!
//! Every operation demands well-formed operands (`wf`) and hands back
//! well-formed results. An operation that can be refused returns the reason
//! and says in its contract exactly when it does.

use crate::error::MatrixError;
use crate::model::{
    cells_agree, difference, difference_defined, dot, dot_defined, filled, height, minor,
    product, product_defined, rectangular, same_shape, scaled, scaling_defined, skip, sum,
    sum_defined, transposed, width, with_cell,
};
use std::ops::{Add, Mul, Sub};
use vstd::prelude::*;
use vstd::std_specs::cmp::PartialEqSpec;
use vstd::std_specs::ops::{AddSpec, MulSpec, SubSpec};

verus! {

/// A dense matrix of `row` x `col` cells, stored row by row in one buffer.
pub struct Matrix<T> {
    data: Vec<T>,
    row: usize,
    col: usize,
}

impl<T> View for Matrix<T> {
    type V = Seq<Seq<T>>;

    /// The rows of the matrix: cell `(i, j)` is the buffer's element `i * col + j`.
    closed spec fn view(&self) -> Seq<Seq<T>> {
        Seq::new(
            self.row as nat,
            |i: int| Seq::new(self.col as nat, |j: int| self.data@[i * self.col + j]),
        )
    }
}

/// Row-major offsets stay inside a buffer of `rows * cols` cells.
proof fn lemma_offset_in_buffer(i: int, j: int, rows: int, cols: int)
    by (nonlinear_arith)
    requires
        0 <= i < rows,
        0 <= j < cols,
    ensures
        0 <= i * cols + j < rows * cols,
{
}

/// Distinct positions have distinct row-major offsets.
proof fn lemma_offset_injective(i: int, j: int, k: int, l: int, cols: int)
    by (nonlinear_arith)
    requires
        0 <= i,
        0 <= k,
        0 <= j < cols,
        0 <= l < cols,
        i * cols + j == k * cols + l,
    ensures
        i == k,
        j == l,
{
}

impl<T: Copy> Matrix<T> {
    /// The representation invariant: both dimensions are at least one and the
    /// buffer holds exactly `row * col` cells.
    pub closed spec fn wf(&self) -> bool {
        &&& self.row >= 1
        &&& self.col >= 1
        &&& self.data.len() == self.row * self.col
    }

    /// The view of a well-formed matrix is rectangular, and its cells can be
    /// counted in a `usize`.
    pub proof fn lemma_view_rectangular(&self)
        requires
            self.wf(),
        ensures
            rectangular(self@),
            height(self@) * width(self@) <= usize::MAX,
    {
    }

    /// Builds the `row` x `col` matrix whose every cell is `val`.
    ///
    /// Refused with `InvalidShape` when a dimension is zero. The cells must be
    /// countable in a `usize`.
    pub fn new(val: T, row: usize, col: usize) -> (r: Result<Self, MatrixError>)
        requires
            row * col <= usize::MAX,
        ensures
            row == 0 || col == 0 <==> r == Err::<Self, MatrixError>(MatrixError::InvalidShape),
            row >= 1 && col >= 1 ==> r is Ok && r.unwrap().wf() && r.unwrap()@ == filled(
                val,
                row as nat,
                col as nat,
            ),
    {
        if row == 0 || col == 0 {
            return Err(MatrixError::InvalidShape);
        }
        let size = row * col;
        let mut data: Vec<T> = Vec::new();
        let mut k: usize = 0;
        while k < size
            invariant
                k <= size,
                data.len() == k,
                forall|q: int| 0 <= q < k ==> data@[q] == val,
            decreases size - k,
        {
            data.push(val);
            k += 1;
        }
        let m = Matrix { data, row, col };
        proof {
            assert forall|i: int, j: int| 0 <= i < row && 0 <= j < col implies #[trigger] m@[i][j]
                == val by {
                lemma_offset_in_buffer(i, j, row as int, col as int);
            }
            assert(m@ =~~= filled(val, row as nat, col as nat));
        }
        Ok(m)
    }

    /// The shape: the number of rows, then the number of columns.
    pub fn len(&self) -> (r: (usize, usize))
        requires
            self.wf(),
        ensures
            r.0 == height(self@),
            r.1 == width(self@),
    {
        (self.row, self.col)
    }

    /// The buffer offset of a position: `pos_row * col + pos_col`, after a bounds check.
    fn index(&self, pos_row: usize, pos_col: usize) -> (r: Result<usize, MatrixError>)
        requires
            self.wf(),
        ensures
            pos_row >= self.row || pos_col >= self.col <==> r == Err::<usize, MatrixError>(
                MatrixError::IndexOutOfRange,
            ),
            pos_row < self.row && pos_col < self.col ==> r is Ok && r.unwrap() == pos_row * self.col
                + pos_col && r.unwrap() < self.data.len(),
    {
        if pos_row >= self.row || pos_col >= self.col {
            return Err(MatrixError::IndexOutOfRange);
        }
        proof {
            lemma_offset_in_buffer(pos_row as int, pos_col as int, self.row as int, self.col as int);
        }
        Ok(pos_row * self.col + pos_col)
    }

    /// The cell at row `pos_row`, column `pos_col`.
    ///
    /// Refused with `IndexOutOfRange` when the position lies outside the matrix.
    pub fn get(&self, pos_row: usize, pos_col: usize) -> (r: Result<T, MatrixError>)
        requires
            self.wf(),
        ensures
            r == (if pos_row < height(self@) && pos_col < width(self@) {
                Ok::<T, MatrixError>(self@[pos_row as int][pos_col as int])
            } else {
                Err::<T, MatrixError>(MatrixError::IndexOutOfRange)
            }),
    {
        match self.index(pos_row, pos_col) {
            Ok(k) => Ok(self.data[k]),
            Err(e) => Err(e),
        }
    }

    /// Overwrites the cell at row `pos_row`, column `pos_col` with `value`.
    ///
    /// Refused with `IndexOutOfRange`, and the matrix left as it was, when the
    /// position lies outside the matrix.
    pub fn set(&mut self, pos_row: usize, pos_col: usize, value: T) -> (r: Result<(), MatrixError>)
        requires
            old(self).wf(),
        ensures
            final(self).wf(),
            pos_row < height(old(self)@) && pos_col < width(old(self)@) ==> r == Ok::<
                (),
                MatrixError,
            >(()) && final(self)@ == with_cell(old(self)@, pos_row as int, pos_col as int, value),
            pos_row >= height(old(self)@) || pos_col >= width(old(self)@) ==> r == Err::<
                (),
                MatrixError,
            >(MatrixError::IndexOutOfRange) && final(self)@ == old(self)@,
    {
        match self.index(pos_row, pos_col) {
            Ok(k) => {
                self.data.set(k, value);
                proof {
                    let before = old(self)@;
                    let after = with_cell(before, pos_row as int, pos_col as int, value);
                    assert forall|i: int, j: int|
                        0 <= i < self.row && 0 <= j < self.col implies #[trigger] self@[i][j]
                        == after[i][j] by {
                        lemma_offset_in_buffer(i, j, self.row as int, self.col as int);
                        if i * self.col + j == k {
                            lemma_offset_injective(
                                i,
                                j,
                                pos_row as int,
                                pos_col as int,
                                self.col as int,
                            );
                        }
                    }
                    assert(self@ =~~= after);
                }
                Ok(())
            },
            Err(e) => Err(e),
        }
    }
}

impl<T: Copy> Matrix<T> {
    /// Replaces the matrix by its transpose: the shape is swapped and cell
    /// `(i, j)` becomes what cell `(j, i)` was.
    #[verifier::loop_isolation(false)]
    pub fn transpose(&mut self)
        requires
            old(self).wf(),
        ensures
            final(self).wf(),
            final(self)@ == transposed(old(self)@),
    {
        proof {
            assert(self.col * self.row == self.row * self.col) by (nonlinear_arith);
        }
        let mut tmp = Matrix::new(self.get(0, 0).unwrap(), self.col, self.row).unwrap();
        let mut i: usize = 0;
        while i < self.row
            invariant
                tmp.wf(),
                i <= self.row,
                height(tmp@) == self.col,
                width(tmp@) == self.row,
                forall|p: int, q: int|
                    0 <= p < self.col && 0 <= q < i ==> #[trigger] tmp@[p][q] == self@[q][p],
            decreases self.row - i,
        {
            let mut j: usize = 0;
            while j < self.col
                invariant
                    tmp.wf(),
                    j <= self.col,
                    height(tmp@) == self.col,
                    width(tmp@) == self.row,
                    forall|p: int, q: int|
                        0 <= p < self.col && 0 <= q < i ==> #[trigger] tmp@[p][q] == self@[q][p],
                    forall|p: int| 0 <= p < j ==> #[trigger] tmp@[p][i as int] == self@[i as int][p],
                decreases self.col - j,
            {
                tmp.set(j, i, self.get(i, j).unwrap()).unwrap();
                j += 1;
            }
            i += 1;
        }
        proof {
            tmp.lemma_view_rectangular();
            assert(tmp@ =~~= transposed(self@));
        }
        *self = tmp;
    }

    /// The minor: the matrix without row `rows_reduced` and column
    /// `cols_reduced`, the remaining cells in their order.
    ///
    /// Refused with `InvalidShape` when the matrix has fewer than two rows or
    /// columns, otherwise with `IndexOutOfRange` when the position lies outside it.
    #[verifier::loop_isolation(false)]
    pub fn reduse_matrix(&self, rows_reduced: usize, cols_reduced: usize) -> (r: Result<
        Matrix<T>,
        MatrixError,
    >)
        requires
            self.wf(),
        ensures
            height(self@) < 2 || width(self@) < 2 <==> r == Err::<Matrix<T>, MatrixError>(
                MatrixError::InvalidShape,
            ),
            height(self@) >= 2 && width(self@) >= 2 && (rows_reduced >= height(self@)
                || cols_reduced >= width(self@)) <==> r == Err::<Matrix<T>, MatrixError>(
                MatrixError::IndexOutOfRange,
            ),
            height(self@) >= 2 && width(self@) >= 2 && rows_reduced < height(self@) && cols_reduced
                < width(self@) ==> r is Ok && r.unwrap().wf() && r.unwrap()@ == minor(
                self@,
                rows_reduced as int,
                cols_reduced as int,
            ),
    {
        if self.row < 2 || self.col < 2 {
            return Err(MatrixError::InvalidShape);
        }
        if rows_reduced >= self.row || cols_reduced >= self.col {
            return Err(MatrixError::IndexOutOfRange);
        }
        proof {
            assert((self.row - 1) * (self.col - 1) <= self.row * self.col) by (nonlinear_arith)
                requires
                    self.row >= 1,
                    self.col >= 1,
            ;
        }
        let mut tmp = Matrix::new(self.get(0, 0).unwrap(), self.row - 1, self.col - 1).unwrap();
        let mut new_rows: usize = 0;
        let mut i: usize = 0;
        while i < self.row
            invariant
                tmp.wf(),
                i <= self.row,
                height(tmp@) == self.row - 1,
                width(tmp@) == self.col - 1,
                new_rows == if i <= rows_reduced {
                    i as int
                } else {
                    i - 1
                },
                forall|p: int, q: int|
                    0 <= p < new_rows && 0 <= q < self.col - 1 ==> #[trigger] tmp@[p][q]
                        == self@[skip(p, rows_reduced as int)][skip(q, cols_reduced as int)],
            decreases self.row - i,
        {
            if i != rows_reduced {
                let mut new_cols: usize = 0;
                let mut j: usize = 0;
                while j < self.col
                    invariant
                        tmp.wf(),
                        j <= self.col,
                        height(tmp@) == self.row - 1,
                        width(tmp@) == self.col - 1,
                        new_cols == if j <= cols_reduced {
                            j as int
                        } else {
                            j - 1
                        },
                        forall|p: int, q: int|
                            0 <= p < new_rows && 0 <= q < self.col - 1 ==> #[trigger] tmp@[p][q]
                                == self@[skip(p, rows_reduced as int)][skip(
                                q,
                                cols_reduced as int,
                            )],
                        forall|q: int|
                            0 <= q < new_cols ==> #[trigger] tmp@[new_rows as int][q]
                                == self@[i as int][skip(q, cols_reduced as int)],
                    decreases self.col - j,
                {
                    if j != cols_reduced {
                        tmp.set(new_rows, new_cols, self.get(i, j).unwrap()).unwrap();
                        new_cols += 1;
                    }
                    j += 1;
                }
                new_rows += 1;
            }
            i += 1;
        }
        proof {
            tmp.lemma_view_rectangular();
            assert(tmp@ =~~= minor(self@, rows_reduced as int, cols_reduced as int));
        }
        Ok(tmp)
    }
}

impl<T: Copy + PartialEq> Matrix<T> {
    /// Whether the two matrices have the same shape and equal cells, by the
    /// element type's own `==`. Matrices of different shapes are never equal.
    #[verifier::loop_isolation(false)]
    pub fn equals(&self, other: &Matrix<T>) -> (r: bool)
        requires
            self.wf(),
            other.wf(),
        ensures
            !same_shape(self@, other@) ==> !r,
            T::obeys_eq_spec() ==> r == cells_agree(self@, other@),
    {
        if self.row == other.row && self.col == other.col {
            let mut i: usize = 0;
            while i < self.row
                invariant
                    i <= self.row,
                    T::obeys_eq_spec() ==> forall|p: int, q: int|
                        0 <= p < i && 0 <= q < self.col ==> (#[trigger] self@[p][q]).eq_spec(
                            &other@[p][q],
                        ),
                decreases self.row - i,
            {
                let mut j: usize = 0;
                while j < self.col
                    invariant
                        j <= self.col,
                        T::obeys_eq_spec() ==> forall|q: int|
                            0 <= q < j ==> (#[trigger] self@[i as int][q]).eq_spec(
                                &other@[i as int][q],
                            ),
                    decreases self.col - j,
                {
                    if self.get(i, j).unwrap() != other.get(i, j).unwrap() {
                        return false;
                    }
                    j += 1;
                }
                i += 1;
            }
            true
        } else {
            false
        }
    }
}

impl<T: Copy + Mul<Output = T>> Matrix<T> {
    /// Multiplies every cell by `value`, in place; the shape stays.
    #[verifier::loop_isolation(false)]
    pub fn mul_matrix_by_value(&mut self, value: T)
        requires
            old(self).wf(),
            scaling_defined(old(self)@, value),
        ensures
            final(self).wf(),
            same_shape(final(self)@, old(self)@),
            T::obeys_mul_spec() ==> final(self)@ == scaled(old(self)@, value),
    {
        let ghost before = self@;
        let (row, col) = self.len();
        proof {
            self.lemma_view_rectangular();
        }
        let mut i: usize = 0;
        while i < row
            invariant
                self.wf(),
                i <= row,
                height(self@) == row,
                width(self@) == col,
                forall|p: int, q: int|
                    i <= p < row && 0 <= q < col ==> #[trigger] self@[p][q] == before[p][q],
                T::obeys_mul_spec() ==> forall|p: int, q: int|
                    0 <= p < i && 0 <= q < col ==> #[trigger] self@[p][q] == before[p][q].mul_spec(
                        value,
                    ),
            decreases row - i,
        {
            let mut j: usize = 0;
            while j < col
                invariant
                    self.wf(),
                    j <= col,
                    height(self@) == row,
                    width(self@) == col,
                    forall|p: int, q: int|
                        i < p < row && 0 <= q < col ==> #[trigger] self@[p][q] == before[p][q],
                    forall|q: int|
                        j <= q < col ==> #[trigger] self@[i as int][q] == before[i as int][q],
                    T::obeys_mul_spec() ==> forall|p: int, q: int|
                        0 <= p < i && 0 <= q < col ==> #[trigger] self@[p][q]
                            == before[p][q].mul_spec(value),
                    T::obeys_mul_spec() ==> forall|q: int|
                        0 <= q < j ==> #[trigger] self@[i as int][q]
                            == before[i as int][q].mul_spec(value),
                decreases col - j,
            {
                let cell = self.get(i, j).unwrap();
                assert(before[i as int][j as int].mul_req(value));
                self.set(i, j, cell * value).unwrap();
                j += 1;
            }
            i += 1;
        }
        proof {
            self.lemma_view_rectangular();
            if T::obeys_mul_spec() {
                assert(self@ =~~= scaled(before, value));
            }
        }
    }
}

impl<T: Copy + Add<Output = T>> Matrix<T> {
    /// The cell-by-cell sum, as a new matrix of the same shape.
    ///
    /// Refused with `ShapeMismatch` unless both operands have the same shape.
    #[verifier::loop_isolation(false)]
    pub fn add(self, rhs: Matrix<T>) -> (r: Result<Matrix<T>, MatrixError>)
        requires
            self.wf(),
            rhs.wf(),
            same_shape(self@, rhs@) ==> sum_defined(self@, rhs@),
        ensures
            !same_shape(self@, rhs@) <==> r == Err::<Matrix<T>, MatrixError>(
                MatrixError::ShapeMismatch,
            ),
            same_shape(self@, rhs@) ==> r is Ok && r.unwrap().wf() && same_shape(
                r.unwrap()@,
                self@,
            ),
            same_shape(self@, rhs@) && T::obeys_add_spec() ==> r.unwrap()@ == sum(self@, rhs@),
    {
        if rhs.row != self.row || rhs.col != self.col {
            return Err(MatrixError::ShapeMismatch);
        }
        let mut new_matrix = Matrix::new(self.get(0, 0).unwrap(), self.row, self.col).unwrap();
        let mut i: usize = 0;
        while i < self.row
            invariant
                new_matrix.wf(),
                i <= self.row,
                same_shape(new_matrix@, self@),
                T::obeys_add_spec() ==> forall|p: int, q: int|
                    0 <= p < i && 0 <= q < self.col ==> #[trigger] new_matrix@[p][q]
                        == self@[p][q].add_spec(rhs@[p][q]),
            decreases self.row - i,
        {
            let mut j: usize = 0;
            while j < self.col
                invariant
                    new_matrix.wf(),
                    j <= self.col,
                    same_shape(new_matrix@, self@),
                    T::obeys_add_spec() ==> forall|p: int, q: int|
                        0 <= p < i && 0 <= q < self.col ==> #[trigger] new_matrix@[p][q]
                            == self@[p][q].add_spec(rhs@[p][q]),
                    T::obeys_add_spec() ==> forall|q: int|
                        0 <= q < j ==> #[trigger] new_matrix@[i as int][q]
                            == self@[i as int][q].add_spec(rhs@[i as int][q]),
                decreases self.col - j,
            {
                assert(self@[i as int][j as int].add_req(rhs@[i as int][j as int]));
                new_matrix.set(i, j, self.get(i, j).unwrap() + rhs.get(i, j).unwrap()).unwrap();
                j += 1;
            }
            i += 1;
        }
        proof {
            new_matrix.lemma_view_rectangular();
            if T::obeys_add_spec() {
                assert(new_matrix@ =~~= sum(self@, rhs@));
            }
        }
        Ok(new_matrix)
    }
}

impl<T: Copy + Sub<Output = T>> Matrix<T> {
    /// The cell-by-cell difference, as a new matrix of the same shape.
    ///
    /// Refused with `ShapeMismatch` unless both operands have the same shape.
    #[verifier::loop_isolation(false)]
    pub fn sub(self, rhs: Matrix<T>) -> (r: Result<Matrix<T>, MatrixError>)
        requires
            self.wf(),
            rhs.wf(),
            same_shape(self@, rhs@) ==> difference_defined(self@, rhs@),
        ensures
            !same_shape(self@, rhs@) <==> r == Err::<Matrix<T>, MatrixError>(
                MatrixError::ShapeMismatch,
            ),
            same_shape(self@, rhs@) ==> r is Ok && r.unwrap().wf() && same_shape(
                r.unwrap()@,
                self@,
            ),
            same_shape(self@, rhs@) && T::obeys_sub_spec() ==> r.unwrap()@ == difference(
                self@,
                rhs@,
            ),
    {
        if rhs.row != self.row || rhs.col != self.col {
            return Err(MatrixError::ShapeMismatch);
        }
        let mut new_matrix = Matrix::new(self.get(0, 0).unwrap(), self.row, self.col).unwrap();
        let mut i: usize = 0;
        while i < self.row
            invariant
                new_matrix.wf(),
                i <= self.row,
                same_shape(new_matrix@, self@),
                T::obeys_sub_spec() ==> forall|p: int, q: int|
                    0 <= p < i && 0 <= q < self.col ==> #[trigger] new_matrix@[p][q]
                        == self@[p][q].sub_spec(rhs@[p][q]),
            decreases self.row - i,
        {
            let mut j: usize = 0;
            while j < self.col
                invariant
                    new_matrix.wf(),
                    j <= self.col,
                    same_shape(new_matrix@, self@),
                    T::obeys_sub_spec() ==> forall|p: int, q: int|
                        0 <= p < i && 0 <= q < self.col ==> #[trigger] new_matrix@[p][q]
                            == self@[p][q].sub_spec(rhs@[p][q]),
                    T::obeys_sub_spec() ==> forall|q: int|
                        0 <= q < j ==> #[trigger] new_matrix@[i as int][q]
                            == self@[i as int][q].sub_spec(rhs@[i as int][q]),
                decreases self.col - j,
            {
                assert(self@[i as int][j as int].sub_req(rhs@[i as int][j as int]));
                new_matrix.set(i, j, self.get(i, j).unwrap() - rhs.get(i, j).unwrap()).unwrap();
                j += 1;
            }
            i += 1;
        }
        proof {
            new_matrix.lemma_view_rectangular();
            if T::obeys_sub_spec() {
                assert(new_matrix@ =~~= difference(self@, rhs@));
            }
        }
        Ok(new_matrix)
    }
}

impl<T: Copy + Add<Output = T> + Mul<Output = T>> Matrix<T> {
    /// The matrix product, as a new matrix with the rows of `self` and the
    /// columns of `rhs`. Each cell is accumulated from left to right: the
    /// first term is stored, every further term is added to what is stored.
    ///
    /// Refused with `ShapeMismatch` unless `self` has as many columns as `rhs`
    /// has rows. The cells of the result must be countable in a `usize`. Since
    /// every partial sum goes back into `+`, the element type's `+` and `*`
    /// must return what their specifications say.
    #[verifier::loop_isolation(false)]
    pub fn mul(self, rhs: Matrix<T>) -> (r: Result<Matrix<T>, MatrixError>)
        requires
            self.wf(),
            rhs.wf(),
            T::obeys_add_spec(),
            T::obeys_mul_spec(),
            width(self@) == height(rhs@) ==> product_defined(self@, rhs@),
            width(self@) == height(rhs@) ==> height(self@) * width(rhs@) <= usize::MAX,
        ensures
            width(self@) != height(rhs@) <==> r == Err::<Matrix<T>, MatrixError>(
                MatrixError::ShapeMismatch,
            ),
            width(self@) == height(rhs@) ==> r is Ok && r.unwrap().wf() && r.unwrap()@ == product(
                self@,
                rhs@,
            ),
    {
        if rhs.row != self.col {
            return Err(MatrixError::ShapeMismatch);
        }
        proof {
            self.lemma_view_rectangular();
            rhs.lemma_view_rectangular();
        }
        let mut new_matrix = Matrix::new(self.get(0, 0).unwrap(), self.row, rhs.col).unwrap();
        let mut i: usize = 0;
        while i < self.row
            invariant
                new_matrix.wf(),
                i <= self.row,
                height(new_matrix@) == self.row,
                width(new_matrix@) == rhs.col,
                forall|p: int, q: int|
                    0 <= p < i && 0 <= q < rhs.col ==> #[trigger] new_matrix@[p][q] == dot(
                        self@,
                        rhs@,
                        p,
                        q,
                        self.col as nat,
                    ),
            decreases self.row - i,
        {
            let mut j: usize = 0;
            while j < rhs.col
                invariant
                    new_matrix.wf(),
                    j <= rhs.col,
                    height(new_matrix@) == self.row,
                    width(new_matrix@) == rhs.col,
                    forall|p: int, q: int|
                        0 <= p < i && 0 <= q < rhs.col ==> #[trigger] new_matrix@[p][q] == dot(
                            self@,
                            rhs@,
                            p,
                            q,
                            self.col as nat,
                        ),
                    forall|q: int|
                        0 <= q < j ==> #[trigger] new_matrix@[i as int][q] == dot(
                            self@,
                            rhs@,
                            i as int,
                            q,
                            self.col as nat,
                        ),
                decreases rhs.col - j,
            {
                let mut n: usize = 0;
                while n < rhs.row
                    invariant
                        new_matrix.wf(),
                        n <= rhs.row,
                        height(new_matrix@) == self.row,
                        width(new_matrix@) == rhs.col,
                        forall|p: int, q: int|
                            0 <= p < i && 0 <= q < rhs.col ==> #[trigger] new_matrix@[p][q] == dot(
                                self@,
                                rhs@,
                                p,
                                q,
                                self.col as nat,
                            ),
                        forall|q: int|
                            0 <= q < j ==> #[trigger] new_matrix@[i as int][q] == dot(
                                self@,
                                rhs@,
                                i as int,
                                q,
                                self.col as nat,
                            ),
                        n >= 1 ==> new_matrix@[i as int][j as int] == dot(
                            self@,
                            rhs@,
                            i as int,
                            j as int,
                            n as nat,
                        ),
                    decreases rhs.row - n,
                {
                    proof {
                        assert(dot_defined(self@, rhs@, i as int, j as int, self.col as nat));
                        lemma_dot_defined_prefix(
                            self@,
                            rhs@,
                            i as int,
                            j as int,
                            self.col as nat,
                            (n + 1) as nat,
                        );
                    }
                    if n == 0 {
                        new_matrix.set(
                            i,
                            j,
                            self.get(i, n).unwrap() * rhs.get(n, j).unwrap(),
                        ).unwrap();
                    } else {
                        new_matrix.set(
                            i,
                            j,
                            new_matrix.get(i, j).unwrap() + (self.get(i, n).unwrap() * rhs.get(
                                n,
                                j,
                            ).unwrap()),
                        ).unwrap();
                    }
                    n += 1;
                }
                j += 1;
            }
            i += 1;
        }
        proof {
            new_matrix.lemma_view_rectangular();
            assert(new_matrix@ =~~= product(self@, rhs@));
        }
        Ok(new_matrix)
    }
}

/// A dot product that is defined over `n` cells is defined over any shorter prefix.
proof fn lemma_dot_defined_prefix<T: Add<Output = T> + Mul<Output = T>>(
    a: Seq<Seq<T>>,
    b: Seq<Seq<T>>,
    i: int,
    j: int,
    n: nat,
    k: nat,
)
    requires
        1 <= k <= n,
        dot_defined(a, b, i, j, n),
    ensures
        dot_defined(a, b, i, j, k),
    decreases n,
{
    if k < n {
        lemma_dot_defined_prefix(a, b, i, j, (n - 1) as nat, k);
    }
}

} // verus!
