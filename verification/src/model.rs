//! The mathematical model: a matrix is a non-empty sequence of rows of equal,
//! non-zero length. The functions here say what each operation computes.
//!
//! Arithmetic on cells goes through the element type's own operators, as
//! `vstd` specifies them: `x.add_spec(y)` is what `x + y` returns and
//! `x.add_req(y)` is what `x + y` demands (for the built-in integers, that the
//! sum fits the type).

use crate::exact::value;
use std::ops::{Add, Div, Mul, Sub};
use vstd::prelude::*;
use vstd::std_specs::cmp::PartialEqSpec;
use vstd::std_specs::convert::FromSpec;
use vstd::std_specs::ops::{AddSpec, DivSpec, MulSpec, SubSpec};

verus! {

/// `m` has at least one row and one column, and all rows are equally long.
pub open spec fn rectangular<T>(m: Seq<Seq<T>>) -> bool {
    &&& m.len() >= 1
    &&& m[0].len() >= 1
    &&& forall|i: int| 0 <= i < m.len() ==> (#[trigger] m[i]).len() == m[0].len()
}

/// `m` is rectangular with as many rows as columns.
pub open spec fn square<T>(m: Seq<Seq<T>>) -> bool {
    rectangular(m) && m.len() == m[0].len()
}

/// The number of rows.
pub open spec fn height<T>(m: Seq<Seq<T>>) -> nat {
    m.len()
}

/// The number of columns.
pub open spec fn width<T>(m: Seq<Seq<T>>) -> nat {
    m[0].len()
}

/// `a` and `b` have as many rows and as many columns as each other.
pub open spec fn same_shape<T>(a: Seq<Seq<T>>, b: Seq<Seq<T>>) -> bool {
    height(a) == height(b) && width(a) == width(b)
}

/// The `rows` x `cols` matrix whose every cell is `value`.
pub open spec fn filled<T>(value: T, rows: nat, cols: nat) -> Seq<Seq<T>> {
    Seq::new(rows, |i: int| Seq::new(cols, |j: int| value))
}

/// `m` with the cell at row `r`, column `c` replaced by `value`.
pub open spec fn with_cell<T>(m: Seq<Seq<T>>, r: int, c: int, value: T) -> Seq<Seq<T>> {
    m.update(r, m[r].update(c, value))
}

/// `a` and `b` have the same shape and the element type's `==` holds of every
/// pair of corresponding cells.
pub open spec fn cells_agree<T: PartialEq>(a: Seq<Seq<T>>, b: Seq<Seq<T>>) -> bool {
    &&& same_shape(a, b)
    &&& forall|i: int, j: int|
        0 <= i < height(a) && 0 <= j < width(a) ==> (#[trigger] a[i][j]).eq_spec(&b[i][j])
}

/// The transpose: cell `(i, j)` is cell `(j, i)` of `m`.
pub open spec fn transposed<T>(m: Seq<Seq<T>>) -> Seq<Seq<T>> {
    Seq::new(width(m), |i: int| Seq::new(height(m), |j: int| m[j][i]))
}

/// The position that position `k` of the remainder had before position
/// `removed` was deleted.
pub open spec fn skip(k: int, removed: int) -> int {
    if k < removed {
        k
    } else {
        k + 1
    }
}

/// `m` without row `r` and column `c`; the remaining cells keep their order.
pub open spec fn minor<T>(m: Seq<Seq<T>>, r: int, c: int) -> Seq<Seq<T>> {
    Seq::new(
        (height(m) - 1) as nat,
        |i: int| Seq::new((width(m) - 1) as nat, |j: int| m[skip(i, r)][skip(j, c)]),
    )
}

/// Every cell of `m` may be multiplied by `k`.
pub open spec fn scaling_defined<T: Mul<Output = T>>(m: Seq<Seq<T>>, k: T) -> bool {
    forall|i: int, j: int|
        0 <= i < height(m) && 0 <= j < width(m) ==> (#[trigger] m[i][j]).mul_req(k)
}

/// `m` with every cell multiplied by `k`.
pub open spec fn scaled<T: Mul<Output = T>>(m: Seq<Seq<T>>, k: T) -> Seq<Seq<T>> {
    Seq::new(height(m), |i: int| Seq::new(width(m), |j: int| m[i][j].mul_spec(k)))
}

/// Every cell of `a` may be added to the corresponding cell of `b`.
pub open spec fn sum_defined<T: Add<Output = T>>(a: Seq<Seq<T>>, b: Seq<Seq<T>>) -> bool {
    forall|i: int, j: int|
        0 <= i < height(a) && 0 <= j < width(a) ==> (#[trigger] a[i][j]).add_req(b[i][j])
}

/// The cell-by-cell sum of two matrices of the same shape.
pub open spec fn sum<T: Add<Output = T>>(a: Seq<Seq<T>>, b: Seq<Seq<T>>) -> Seq<Seq<T>> {
    Seq::new(height(a), |i: int| Seq::new(width(a), |j: int| a[i][j].add_spec(b[i][j])))
}

/// The corresponding cell of `b` may be subtracted from every cell of `a`.
pub open spec fn difference_defined<T: Sub<Output = T>>(a: Seq<Seq<T>>, b: Seq<Seq<T>>) -> bool {
    forall|i: int, j: int|
        0 <= i < height(a) && 0 <= j < width(a) ==> (#[trigger] a[i][j]).sub_req(b[i][j])
}

/// The cell-by-cell difference of two matrices of the same shape.
pub open spec fn difference<T: Sub<Output = T>>(a: Seq<Seq<T>>, b: Seq<Seq<T>>) -> Seq<Seq<T>> {
    Seq::new(height(a), |i: int| Seq::new(width(a), |j: int| a[i][j].sub_spec(b[i][j])))
}

/// The product of cell `n` of row `i` of `a` and cell `n` of column `j` of `b`.
pub open spec fn term<T: Mul<Output = T>>(
    a: Seq<Seq<T>>,
    b: Seq<Seq<T>>,
    i: int,
    j: int,
    n: int,
) -> T {
    a[i][n].mul_spec(b[n][j])
}

/// Row `i` of `a` times column `j` of `b`, over their first `n` cells (`n >= 1`),
/// accumulated from left to right: the first term starts the sum and each
/// further term is added to it.
pub open spec fn dot<T: Add<Output = T> + Mul<Output = T>>(
    a: Seq<Seq<T>>,
    b: Seq<Seq<T>>,
    i: int,
    j: int,
    n: nat,
) -> T
    decreases n,
{
    if n <= 1 {
        term(a, b, i, j, 0)
    } else {
        dot(a, b, i, j, (n - 1) as nat).add_spec(term(a, b, i, j, n - 1))
    }
}

/// Every multiplication and addition that `dot(a, b, i, j, n)` performs is permitted.
pub open spec fn dot_defined<T: Add<Output = T> + Mul<Output = T>>(
    a: Seq<Seq<T>>,
    b: Seq<Seq<T>>,
    i: int,
    j: int,
    n: nat,
) -> bool
    decreases n,
{
    if n <= 1 {
        a[i][0].mul_req(b[0][j])
    } else {
        &&& dot_defined(a, b, i, j, (n - 1) as nat)
        &&& a[i][n - 1].mul_req(b[n - 1][j])
        &&& dot(a, b, i, j, (n - 1) as nat).add_req(term(a, b, i, j, n - 1))
    }
}

/// Every cell of the product of `a` and `b` can be computed.
pub open spec fn product_defined<T: Add<Output = T> + Mul<Output = T>>(
    a: Seq<Seq<T>>,
    b: Seq<Seq<T>>,
) -> bool {
    forall|i: int, j: int|
        0 <= i < height(a) && 0 <= j < width(b) ==> #[trigger] dot_defined(a, b, i, j, width(a))
}

/// The matrix product of `a` (`r` x `n`) and `b` (`n` x `c`): cell `(i, j)` is
/// row `i` of `a` times column `j` of `b`.
pub open spec fn product<T: Add<Output = T> + Mul<Output = T>>(
    a: Seq<Seq<T>>,
    b: Seq<Seq<T>>,
) -> Seq<Seq<T>> {
    Seq::new(height(a), |i: int| Seq::new(width(b), |j: int| dot(a, b, i, j, width(a))))
}

/// `x` converted into the scalar type `F`.
pub open spec fn widened<T, F: From<T>>(x: T) -> F {
    F::from_spec(x)
}

/// `m` with every cell converted into the scalar type `F`.
pub open spec fn widened_cells<T, F: From<T>>(m: Seq<Seq<T>>) -> Seq<Seq<F>> {
    Seq::new(height(m), |i: int| Seq::new(width(m), |j: int| widened::<T, F>(m[i][j])))
}

/// The small integer `n` as a scalar of type `F`.
pub open spec fn constant<F: From<i32>>(n: i32) -> F {
    F::from_spec(n)
}

/// `(-1)^k`: one for even `k`, minus one for odd `k`.
pub open spec fn sign(k: int) -> i32 {
    if k % 2 == 0 {
        1i32
    } else {
        -1i32
    }
}

/// The operators and conversions that the determinant uses return what their
/// specifications say.
pub open spec fn determinant_arithmetic_obeys<
    T: Sub<Output = T> + Mul<Output = T>,
    F: From<T> + From<i32> + Add<Output = F> + Mul<Output = F>,
>() -> bool {
    &&& T::obeys_sub_spec()
    &&& T::obeys_mul_spec()
    &&& F::obeys_add_spec()
    &&& F::obeys_mul_spec()
    &&& <F as FromSpec<T>>::obeys_from_spec()
    &&& <F as FromSpec<i32>>::obeys_from_spec()
}

/// The determinant of a square matrix, as a scalar of type `F`.
///
/// A single cell is converted. For two rows, `m00 * m11 - m01 * m10` is
/// computed in the element type and then converted. From three rows on, it is
/// the Laplace expansion along column 0, computed in `F`.
pub open spec fn det<
    T: Sub<Output = T> + Mul<Output = T>,
    F: From<T> + From<i32> + Add<Output = F> + Mul<Output = F>,
>(m: Seq<Seq<T>>) -> F
    decreases height(m), 1nat, 0nat,
{
    if height(m) <= 1 {
        widened(m[0][0])
    } else if height(m) == 2 {
        widened(m[0][0].mul_spec(m[1][1]).sub_spec(m[0][1].mul_spec(m[1][0])))
    } else {
        expansion::<T, F>(m, height(m))
    }
}

/// Term `i` of the Laplace expansion along column 0:
/// `m[i][0]` times `(-1)^i` times the determinant of the minor at `(i, 0)`.
pub open spec fn expansion_term<
    T: Sub<Output = T> + Mul<Output = T>,
    F: From<T> + From<i32> + Add<Output = F> + Mul<Output = F>,
>(m: Seq<Seq<T>>, i: int, minor_det: F) -> F {
    widened::<T, F>(m[i][0]).mul_spec(constant(sign(i))).mul_spec(minor_det)
}

/// The first `k` terms of the Laplace expansion along column 0, added one
/// after the other to zero.
pub open spec fn expansion<
    T: Sub<Output = T> + Mul<Output = T>,
    F: From<T> + From<i32> + Add<Output = F> + Mul<Output = F>,
>(m: Seq<Seq<T>>, k: nat) -> F
    decreases height(m), 0nat, k,
{
    if k == 0 || height(m) == 0 {
        constant(0i32)
    } else {
        expansion::<T, F>(m, (k - 1) as nat).add_spec(
            expansion_term(m, k - 1, det::<T, F>(minor(m, k - 1, 0))),
        )
    }
}

/// Every operation that `det(m)` performs is permitted.
pub open spec fn det_defined<
    T: Sub<Output = T> + Mul<Output = T>,
    F: From<T> + From<i32> + Add<Output = F> + Mul<Output = F>,
>(m: Seq<Seq<T>>) -> bool
    decreases height(m), 1nat, 0nat,
{
    if height(m) <= 1 {
        true
    } else if height(m) == 2 {
        &&& m[0][0].mul_req(m[1][1])
        &&& m[0][1].mul_req(m[1][0])
        &&& m[0][0].mul_spec(m[1][1]).sub_req(m[0][1].mul_spec(m[1][0]))
    } else {
        expansion_defined::<T, F>(m, height(m))
    }
}

/// Every operation that `expansion_term(m, i, minor_det)` performs is permitted.
pub open spec fn expansion_term_defined<
    T: Sub<Output = T> + Mul<Output = T>,
    F: From<T> + From<i32> + Add<Output = F> + Mul<Output = F>,
>(m: Seq<Seq<T>>, i: int, minor_det: F) -> bool {
    &&& widened::<T, F>(m[i][0]).mul_req(constant(sign(i)))
    &&& widened::<T, F>(m[i][0]).mul_spec(constant(sign(i))).mul_req(minor_det)
}

/// Every operation that `expansion(m, k)` performs is permitted.
pub open spec fn expansion_defined<
    T: Sub<Output = T> + Mul<Output = T>,
    F: From<T> + From<i32> + Add<Output = F> + Mul<Output = F>,
>(m: Seq<Seq<T>>, k: nat) -> bool
    decreases height(m), 0nat, k,
{
    if k == 0 || height(m) == 0 {
        true
    } else {
        let minor_det = det::<T, F>(minor(m, k - 1, 0));
        &&& expansion_defined::<T, F>(m, (k - 1) as nat)
        &&& det_defined::<T, F>(minor(m, k - 1, 0))
        &&& expansion_term_defined(m, k - 1, minor_det)
        &&& expansion::<T, F>(m, (k - 1) as nat).add_req(expansion_term(m, k - 1, minor_det))
    }
}

/// The cofactor at `(i, j)`: the determinant of the minor at `(i, j)` times `(-1)^(i + j)`.
pub open spec fn cofactor<
    T: Sub<Output = T> + Mul<Output = T>,
    F: From<T> + From<i32> + Add<Output = F> + Mul<Output = F>,
>(m: Seq<Seq<T>>, i: int, j: int) -> F {
    det::<T, F>(minor(m, i, j)).mul_spec(constant(sign(i + j)))
}

/// Every operation that `cofactor(m, i, j)` performs is permitted.
pub open spec fn cofactor_defined<
    T: Sub<Output = T> + Mul<Output = T>,
    F: From<T> + From<i32> + Add<Output = F> + Mul<Output = F>,
>(m: Seq<Seq<T>>, i: int, j: int) -> bool {
    &&& det_defined::<T, F>(minor(m, i, j))
    &&& det::<T, F>(minor(m, i, j)).mul_req(constant(sign(i + j)))
}

/// The matrix of cofactors of a square matrix of at least two rows.
pub open spec fn cofactors<
    T: Sub<Output = T> + Mul<Output = T>,
    F: From<T> + From<i32> + Add<Output = F> + Mul<Output = F>,
>(m: Seq<Seq<T>>) -> Seq<Seq<F>> {
    Seq::new(height(m), |i: int| Seq::new(width(m), |j: int| cofactor::<T, F>(m, i, j)))
}

/// Every cofactor of `m` can be computed.
pub open spec fn cofactors_defined<
    T: Sub<Output = T> + Mul<Output = T>,
    F: From<T> + From<i32> + Add<Output = F> + Mul<Output = F>,
>(m: Seq<Seq<T>>) -> bool {
    forall|i: int, j: int|
        0 <= i < height(m) && 0 <= j < width(m) ==> #[trigger] cofactor_defined::<T, F>(m, i, j)
}

/// The factor by which the adjugate is scaled to give the inverse: `1 / det(m)`.
pub open spec fn inverse_factor<
    T: Sub<Output = T> + Mul<Output = T>,
    F: From<T> + From<i32> + Add<Output = F> + Mul<Output = F> + Div<Output = F>,
>(m: Seq<Seq<T>>) -> F {
    constant::<F>(1i32).div_spec(det::<T, F>(m))
}

/// The inverse of a square matrix of at least two rows whose determinant is
/// not zero: the transposed matrix of cofactors, every cell times `1 / det(m)`.
pub open spec fn inverse<
    T: Sub<Output = T> + Mul<Output = T>,
    F: From<T> + From<i32> + Add<Output = F> + Mul<Output = F> + Div<Output = F>,
>(m: Seq<Seq<T>>) -> Seq<Seq<F>> {
    scaled(transposed(cofactors::<T, F>(m)), inverse_factor::<T, F>(m))
}

/// Every operation that `inverse(m)` performs beyond the determinant is permitted.
pub open spec fn inverse_defined<
    T: Sub<Output = T> + Mul<Output = T>,
    F: From<T> + From<i32> + Add<Output = F> + Mul<Output = F> + Div<Output = F>,
>(m: Seq<Seq<T>>) -> bool {
    &&& cofactors_defined::<T, F>(m)
    &&& constant::<F>(1i32).div_req(det::<T, F>(m))
    &&& scaling_defined(transposed(cofactors::<T, F>(m)), inverse_factor::<T, F>(m))
}

/// The determinant of `m` is zero, by the scalar type's own `==`.
pub open spec fn singular<
    T: Sub<Output = T> + Mul<Output = T>,
    F: From<T> + From<i32> + Add<Output = F> + Mul<Output = F> + PartialEq,
>(m: Seq<Seq<T>>) -> bool {
    det::<T, F>(m).eq_spec(&constant::<F>(0i32))
}

/// `e` is an identity matrix: square, with one on the diagonal and zero elsewhere.
pub open spec fn is_identity<T: Integer>(e: Seq<Seq<T>>) -> bool {
    &&& rectangular(e)
    &&& height(e) == width(e)
    &&& forall|i: int, j: int|
        0 <= i < height(e) && 0 <= j < width(e) ==> value(#[trigger] e[i][j]) == if i == j {
            1int
        } else {
            0int
        }
}

} // verus!
