//! Laws of the determinant.
//!
//! For integer cells the determinant is the Laplace expansion along column 0.
//! The same value comes out of the expansion along row 0, and with that the
//! determinant of the transpose is the determinant.

use crate::exact::{exact_arithmetic, exact_conversion, value, values};
use crate::laws::shape::lemma_minor_shape;
use crate::laws::sums::{col_total, lemma_sum_order, row_total, total_by_cols, total_by_rows};
use crate::model::{
    constant, det, det_defined, expansion, expansion_defined, height, minor, sign, square,
    transposed, widened,
};
use std::ops::{Add, Mul, Sub};
use vstd::prelude::*;
use vstd::std_specs::ops::{AddSpec, MulSpec, SubSpec};

verus! {

/// The determinant of a square matrix of integers: the single cell, or the
/// Laplace expansion along column 0.
pub open spec fn int_det(v: Seq<Seq<int>>) -> int
    decreases height(v), 1nat, 0nat,
{
    if height(v) <= 1 {
        v[0][0]
    } else {
        int_expansion(v, height(v))
    }
}

/// The first `k` terms of the Laplace expansion along column 0.
pub open spec fn int_expansion(v: Seq<Seq<int>>, k: nat) -> int
    decreases height(v), 0nat, k,
{
    if k == 0 || height(v) == 0 {
        0
    } else {
        int_expansion(v, (k - 1) as nat) + v[k - 1][0] * sign(k - 1) * int_det(minor(v, k - 1, 0))
    }
}

/// Term `i` of the expansion along column 0.
pub(crate) open spec fn col_term(v: Seq<Seq<int>>, i: int) -> int {
    v[i][0] * sign(i) * int_det(minor(v, i, 0))
}

/// Term `j` of the expansion along row 0.
pub(crate) open spec fn row_term(v: Seq<Seq<int>>, j: int) -> int {
    v[0][j] * sign(j) * int_det(minor(v, 0, j))
}

/// The first `k` terms of the Laplace expansion along row 0.
pub(crate) open spec fn row_expansion(v: Seq<Seq<int>>, k: nat) -> int
    decreases k,
{
    if k == 0 {
        0
    } else {
        row_expansion(v, (k - 1) as nat) + row_term(v, k - 1)
    }
}

/// Terms `1, ..., k` of the expansion along column 0.
spec fn col_tail(v: Seq<Seq<int>>, k: nat) -> int
    decreases k,
{
    if k == 0 {
        0
    } else {
        col_tail(v, (k - 1) as nat) + col_term(v, k as int)
    }
}

/// Terms `1, ..., k` of the expansion along row 0.
spec fn row_tail(v: Seq<Seq<int>>, k: nat) -> int
    decreases k,
{
    if k == 0 {
        0
    } else {
        row_tail(v, (k - 1) as nat) + row_term(v, k as int)
    }
}

/// What cell `(i + 1, 0)` and cell `(0, j + 1)` contribute together to the
/// determinant: their signed product with the determinant of what is left of
/// `v` without rows `0` and `i + 1` and columns `0` and `j + 1`.
spec fn cross(v: Seq<Seq<int>>) -> spec_fn(int, int) -> int {
    |i: int, j: int|
        (v[i + 1][0] * sign(i + 1)) * (v[0][j + 1] * sign(j) * int_det(
            minor(minor(v, i + 1, 0), 0, j),
        ))
}

/// The determinant of a matrix of two rows is `v00 * v11 - v10 * v01`.
pub(crate) proof fn lemma_det_two_rows(v: Seq<Seq<int>>)
    requires
        square(v),
        height(v) == 2,
    ensures
        int_det(v) == v[0][0] * v[1][1] - v[1][0] * v[0][1],
{
    assert(int_det(minor(v, 0, 0)) == v[1][1]);
    assert(int_det(minor(v, 1, 0)) == v[0][1]);
    assert(int_expansion(v, 1) == int_expansion(v, 0) + v[0][0] * sign(0) * int_det(
        minor(v, 0, 0),
    ));
    assert(int_expansion(v, 2) == int_expansion(v, 1) + v[1][0] * sign(1) * int_det(
        minor(v, 1, 0),
    ));
    assert(v[0][0] * 1 * v[1][1] + v[1][0] * -1 * v[0][1] == v[0][0] * v[1][1] - v[1][0]
        * v[0][1]) by (nonlinear_arith);
}

/// The expansion along column 0 is its first term plus the rest.
proof fn lemma_col_split(v: Seq<Seq<int>>, k: nat)
    requires
        height(v) >= 1,
    ensures
        int_expansion(v, k + 1) == col_term(v, 0) + col_tail(v, k),
    decreases k,
{
    reveal_with_fuel(int_expansion, 2);
    if k > 0 {
        lemma_col_split(v, (k - 1) as nat);
    }
}

/// The expansion along row 0 is its first term plus the rest.
proof fn lemma_row_split(v: Seq<Seq<int>>, k: nat)
    ensures
        row_expansion(v, k + 1) == row_term(v, 0) + row_tail(v, k),
    decreases k,
{
    reveal_with_fuel(row_expansion, 2);
    if k > 0 {
        lemma_row_split(v, (k - 1) as nat);
    }
}

/// Deleting row `i + 1` and column 0, then row 0 and column `j`, leaves what
/// deleting row 0 and column `j + 1`, then row `i` and column 0, leaves.
proof fn lemma_minors_commute(v: Seq<Seq<int>>, i: int, j: int)
    requires
        square(v),
        height(v) >= 3,
        0 <= i < height(v) - 1,
        0 <= j < height(v) - 1,
    ensures
        minor(minor(v, i + 1, 0), 0, j) == minor(minor(v, 0, j + 1), i, 0),
{
    assert(minor(minor(v, i + 1, 0), 0, j) =~~= minor(minor(v, 0, j + 1), i, 0));
}

/// `sign(i + 1) * sign(j) == sign(j + 1) * sign(i)`, inside a product.
proof fn lemma_cross_symmetric(a: int, b: int, d: int, i: int, j: int)
    requires
        0 <= i,
        0 <= j,
    ensures
        (a * sign(i + 1)) * (b * sign(j) * d) == (b * sign(j + 1)) * (a * sign(i) * d),
{
    let s1 = sign(i + 1) as int;
    let s2 = sign(j) as int;
    let s3 = sign(j + 1) as int;
    let s4 = sign(i) as int;
    assert(s1 == -s4);
    assert(s3 == -s2);
    assert((a * s1) * (b * s2 * d) == (b * s3) * (a * s4 * d)) by (nonlinear_arith)
        requires
            s1 == -s4,
            s3 == -s2,
            s2 == 1 || s2 == -1,
            s4 == 1 || s4 == -1,
    ;
}

/// Term `i + 1` of the expansion along column 0, with the determinant of its
/// minor expanded along row 0 over `m` terms, is row `i` of the cross terms.
proof fn lemma_col_term_rows(v: Seq<Seq<int>>, i: int, m: nat)
    requires
        square(v),
        height(v) >= 3,
        0 <= i < height(v) - 1,
        m <= height(v) - 1,
    ensures
        (v[i + 1][0] * sign(i + 1)) * row_expansion(minor(v, i + 1, 0), m) == row_total(
            cross(v),
            i,
            m,
        ),
    decreases m,
{
    let c = v[i + 1][0] * sign(i + 1);
    let w = minor(v, i + 1, 0);
    if m == 0 {
        assert(c * 0 == 0);
    } else {
        lemma_col_term_rows(v, i, (m - 1) as nat);
        let rest = row_expansion(w, (m - 1) as nat);
        let t = row_term(w, m - 1);
        assert(w[0][m - 1] == v[0][m as int]);
        assert(cross(v)(i, m - 1) == c * t);
        assert(c * (rest + t) == c * rest + c * t) by (nonlinear_arith);
    }
}

/// Term `j + 1` of the expansion along row 0, with the determinant of its
/// minor expanded along column 0 over `m` terms, is column `j` of the cross terms.
proof fn lemma_row_term_cols(v: Seq<Seq<int>>, j: int, m: nat)
    requires
        square(v),
        height(v) >= 3,
        0 <= j < height(v) - 1,
        m <= height(v) - 1,
    ensures
        (v[0][j + 1] * sign(j + 1)) * int_expansion(minor(v, 0, j + 1), m) == col_total(
            cross(v),
            j,
            m,
        ),
    decreases m,
{
    let c = v[0][j + 1] * sign(j + 1);
    let u = minor(v, 0, j + 1);
    if m == 0 {
        assert(c * 0 == 0);
    } else {
        lemma_row_term_cols(v, j, (m - 1) as nat);
        let rest = int_expansion(u, (m - 1) as nat);
        let d = int_det(minor(u, m - 1, 0));
        let t = u[m - 1][0] * sign(m - 1) * d;
        assert(int_expansion(u, m) == rest + t);
        assert(u[m - 1][0] == v[m as int][0]);
        lemma_minors_commute(v, m - 1, j);
        lemma_cross_symmetric(v[m as int][0], v[0][j + 1], d, m - 1, j);
        assert(cross(v)(m - 1, j) == c * t);
        assert(c * (rest + t) == c * rest + c * t) by (nonlinear_arith);
    }
}

/// Terms `1, ..., k` of the expansion along column 0 are the first `k` rows
/// of the cross terms.
proof fn lemma_col_tail_total(v: Seq<Seq<int>>, k: nat)
    requires
        square(v),
        height(v) >= 3,
        k <= height(v) - 1,
    ensures
        col_tail(v, k) == total_by_rows(cross(v), k, (height(v) - 1) as nat),
    decreases height(v), 1nat, k,
{
    if k > 0 {
        lemma_col_tail_total(v, (k - 1) as nat);
        let w = minor(v, k as int, 0);
        lemma_minor_shape(v, k as int, 0);
        lemma_expansions_agree(w);
        lemma_col_term_rows(v, k - 1, (height(v) - 1) as nat);
    }
}

/// Terms `1, ..., k` of the expansion along row 0 are the first `k` columns
/// of the cross terms.
proof fn lemma_row_tail_total(v: Seq<Seq<int>>, k: nat)
    requires
        square(v),
        height(v) >= 3,
        k <= height(v) - 1,
    ensures
        row_tail(v, k) == total_by_cols(cross(v), (height(v) - 1) as nat, k),
    decreases k,
{
    if k > 0 {
        lemma_row_tail_total(v, (k - 1) as nat);
        lemma_minor_shape(v, 0, k as int);
        lemma_row_term_cols(v, k - 1, (height(v) - 1) as nat);
    }
}

/// The Laplace expansion along column 0 equals the expansion along row 0.
pub(crate) proof fn lemma_expansions_agree(v: Seq<Seq<int>>)
    requires
        square(v),
        height(v) >= 2,
    ensures
        int_expansion(v, height(v)) == row_expansion(v, height(v)),
    decreases height(v), 2nat, 0nat,
{
    let n = height(v);
    if n == 2 {
        reveal_with_fuel(row_expansion, 3);
        lemma_det_two_rows(v);
        assert(int_det(minor(v, 0, 0)) == v[1][1]);
        assert(int_det(minor(v, 0, 1)) == v[1][0]);
        assert(v[0][0] * 1 * v[1][1] + v[0][1] * -1 * v[1][0] == v[0][0] * v[1][1] - v[1][0]
            * v[0][1]) by (nonlinear_arith);
    } else {
        lemma_col_split(v, (n - 1) as nat);
        lemma_row_split(v, (n - 1) as nat);
        lemma_col_tail_total(v, (n - 1) as nat);
        lemma_row_tail_total(v, (n - 1) as nat);
        lemma_sum_order(cross(v), (n - 1) as nat, (n - 1) as nat);
    }
}

/// Over its first `k` terms, the expansion of the transpose along column 0
/// is the expansion of the matrix along row 0.
proof fn lemma_transposed_expansion(v: Seq<Seq<int>>, k: nat)
    requires
        square(v),
        height(v) >= 2,
        k <= height(v),
    ensures
        int_expansion(transposed(v), k) == row_expansion(v, k),
    decreases height(v), 0nat, k,
{
    if k > 0 {
        lemma_transposed_expansion(v, (k - 1) as nat);
        let t = transposed(v);
        assert(t[k - 1][0] == v[0][k - 1]);
        assert(minor(t, k - 1, 0) =~~= transposed(minor(v, 0, k - 1)));
        lemma_minor_shape(v, 0, k - 1);
        lemma_int_det_transpose(minor(v, 0, k - 1));
    }
}

/// The determinant of the transpose of a square matrix of integers is the
/// determinant of the matrix.
pub proof fn lemma_int_det_transpose(v: Seq<Seq<int>>)
    requires
        square(v),
    ensures
        int_det(transposed(v)) == int_det(v),
    decreases height(v), 1nat, 0nat,
{
    if height(v) >= 2 {
        lemma_transposed_expansion(v, height(v));
        lemma_expansions_agree(v);
    }
}

/// With exact arithmetic, the first `k` terms of the expansion hold the
/// first `k` terms of the expansion of the integers in the cells.
proof fn lemma_expansion_value<
    T: Integer + Add<Output = T> + Sub<Output = T> + Mul<Output = T>,
    F: Integer + From<T> + From<i32> + Add<Output = F> + Sub<Output = F> + Mul<Output = F>,
>(m: Seq<Seq<T>>, k: nat)
    requires
        exact_arithmetic::<T>(),
        exact_arithmetic::<F>(),
        exact_conversion::<T, F>(),
        exact_conversion::<i32, F>(),
        square(m),
        height(m) >= 2,
        k <= height(m),
        expansion_defined::<T, F>(m, k),
    ensures
        value(expansion::<T, F>(m, k)) == int_expansion(values(m), k),
    decreases height(m), 0nat, k,
{
    if k > 0 {
        lemma_expansion_value::<T, F>(m, (k - 1) as nat);
        let sub = minor(m, k - 1, 0);
        lemma_minor_shape(m, k - 1, 0);
        lemma_det_value::<T, F>(sub);
        assert(values(sub) =~~= minor(values(m), k - 1, 0));
        let d = det::<T, F>(sub);
        let x = widened::<T, F>(m[k - 1][0]);
        let s = constant::<F>(sign(k - 1));
        assert(value(x) == value(m[k - 1][0]));
        assert(value(s) == sign(k - 1));
        assert(x.mul_req(s));
        assert(value(x.mul_spec(s)) == value(x) * value(s));
        assert(x.mul_spec(s).mul_req(d));
        assert(value(x.mul_spec(s).mul_spec(d)) == value(x) * value(s) * value(d));
        assert(values(m)[k - 1][0] == value(m[k - 1][0]));
    } else {
        assert(value(constant::<F>(0i32)) == 0);
    }
}

/// With exact arithmetic, a determinant that is defined holds the determinant
/// of the integers in the cells.
pub proof fn lemma_det_value<
    T: Integer + Add<Output = T> + Sub<Output = T> + Mul<Output = T>,
    F: Integer + From<T> + From<i32> + Add<Output = F> + Sub<Output = F> + Mul<Output = F>,
>(m: Seq<Seq<T>>)
    requires
        exact_arithmetic::<T>(),
        exact_arithmetic::<F>(),
        exact_conversion::<T, F>(),
        exact_conversion::<i32, F>(),
        square(m),
        det_defined::<T, F>(m),
    ensures
        value(det::<T, F>(m)) == int_det(values(m)),
    decreases height(m), 1nat, 0nat,
{
    let v = values(m);
    if height(m) <= 1 {
        assert(v[0][0] == value(m[0][0]));
    } else if height(m) == 2 {
        let a = m[0][0];
        let b = m[0][1];
        let c = m[1][0];
        let d = m[1][1];
        lemma_det_two_rows(v);
        assert(v[0][0] == value(a) && v[0][1] == value(b) && v[1][0] == value(c) && v[1][1]
            == value(d));
        assert(value(a.mul_spec(d)) == value(a) * value(d));
        assert(value(b.mul_spec(c)) == value(b) * value(c));
        assert(value(c) * value(b) == value(b) * value(c)) by (nonlinear_arith);
    } else {
        lemma_expansion_value::<T, F>(m, height(m));
    }
}

/// The determinant of the transpose is the determinant.
pub proof fn lemma_det_transpose<
    T: Integer + Add<Output = T> + Sub<Output = T> + Mul<Output = T>,
    F: Integer + From<T> + From<i32> + Add<Output = F> + Sub<Output = F> + Mul<Output = F>,
>(m: Seq<Seq<T>>)
    requires
        exact_arithmetic::<T>(),
        exact_arithmetic::<F>(),
        exact_conversion::<T, F>(),
        exact_conversion::<i32, F>(),
        square(m),
        det_defined::<T, F>(m),
        det_defined::<T, F>(transposed(m)),
    ensures
        det::<T, F>(transposed(m)) == det::<T, F>(m),
{
    lemma_det_value::<T, F>(m);
    lemma_det_value::<T, F>(transposed(m));
    assert(values(transposed(m)) =~~= transposed(values(m)));
    lemma_int_det_transpose(values(m));
}

} // verus!
