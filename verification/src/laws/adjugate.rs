//! Laws of the cofactors: a matrix times its transposed matrix of cofactors
//! is the determinant times the identity.
//!
//! Exchanging two neighbouring rows negates the determinant. From that, a
//! matrix with two equal rows has determinant zero, and the determinant can be
//! expanded along any row.

use crate::exact::{
    exact_arithmetic, exact_conversion, exact_unit_reciprocal, value, values,
};
use crate::laws::expansion::{
    col_term, int_det, int_expansion, lemma_det_two_rows, lemma_det_value,
    lemma_expansions_agree, row_expansion, row_term,
};
use crate::laws::ring::{int_dot, lemma_dot_value};
use crate::laws::shape::lemma_minor_shape;
use crate::model::{
    cofactor, cofactor_defined, cofactors, cofactors_defined, constant, det, det_defined, dot,
    dot_defined, height, inverse, inverse_defined, inverse_factor, is_identity, minor, product,
    product_defined, sign, square, transposed, widened, widened_cells, width,
};
use std::ops::{Add, Div, Mul, Sub};
use vstd::prelude::*;
use vstd::std_specs::ops::{DivSpec, MulSpec};

verus! {

/// `v` with rows `r` and `r + 1` exchanged.
pub open spec fn exchanged(v: Seq<Seq<int>>, r: int) -> Seq<Seq<int>> {
    v.update(r, v[r + 1]).update(r + 1, v[r])
}

/// `v` with row `i` moved to the top, the rows above it each moved down by one.
pub open spec fn lifted(v: Seq<Seq<int>>, i: int) -> Seq<Seq<int>> {
    Seq::new(
        v.len(),
        |k: int|
            if k == 0 {
                v[i]
            } else if k <= i {
                v[k - 1]
            } else {
                v[k]
            },
    )
}

/// Over the first `k` terms, the expansion of the matrix with rows `r` and
/// `r + 1` exchanged is the negated expansion of the matrix, but for `k = r + 1`,
/// where term `r + 1` stands in for term `r`.
proof fn lemma_exchanged_expansion(v: Seq<Seq<int>>, r: int, k: nat)
    requires
        square(v),
        height(v) >= 3,
        0 <= r < height(v) - 1,
        k <= height(v),
    ensures
        int_expansion(exchanged(v, r), k) == (if k == r + 1 {
            -int_expansion(v, r as nat) - col_term(v, r + 1)
        } else {
            -int_expansion(v, k)
        }),
    decreases height(v), 0nat, k,
{
    let w = exchanged(v, r);
    if k > 0 {
        lemma_exchanged_expansion(v, r, (k - 1) as nat);
        let i = k - 1;
        let d = int_det(minor(w, i, 0));
        assert(int_expansion(w, k) == int_expansion(w, (k - 1) as nat) + w[i][0] * sign(i) * d);
        assert(int_expansion(v, k) == int_expansion(v, (k - 1) as nat) + col_term(v, i));
        if i == r {
            assert(minor(w, i, 0) =~~= minor(v, r + 1, 0));
            assert(w[i][0] * sign(i) * d == -col_term(v, r + 1)) by (nonlinear_arith)
                requires
                    w[i][0] == v[r + 1][0],
                    sign(i) == -sign(r + 1),
                    d == int_det(minor(v, r + 1, 0)),
                    col_term(v, r + 1) == v[r + 1][0] * sign(r + 1) * int_det(minor(v, r + 1, 0)),
            ;
        } else if i == r + 1 {
            assert(minor(w, i, 0) =~~= minor(v, r, 0));
            assert(w[i][0] * sign(i) * d == -col_term(v, r)) by (nonlinear_arith)
                requires
                    w[i][0] == v[r][0],
                    sign(i) == -sign(r),
                    d == int_det(minor(v, r, 0)),
                    col_term(v, r) == v[r][0] * sign(r) * int_det(minor(v, r, 0)),
            ;
            assert(int_expansion(v, (r + 1) as nat) == int_expansion(v, r as nat) + col_term(v, r));
        } else {
            let below = if i < r {
                r - 1
            } else {
                r
            };
            lemma_minor_shape(v, i, 0);
            assert(minor(w, i, 0) =~~= exchanged(minor(v, i, 0), below));
            lemma_exchange_negates(minor(v, i, 0), below);
            assert(w[i][0] * sign(i) * d == -col_term(v, i)) by (nonlinear_arith)
                requires
                    w[i][0] == v[i][0],
                    d == -int_det(minor(v, i, 0)),
                    col_term(v, i) == v[i][0] * sign(i) * int_det(minor(v, i, 0)),
            ;
        }
    }
}

/// Exchanging two neighbouring rows negates the determinant.
pub proof fn lemma_exchange_negates(v: Seq<Seq<int>>, r: int)
    requires
        square(v),
        0 <= r < height(v) - 1,
    ensures
        int_det(exchanged(v, r)) == -int_det(v),
    decreases height(v), 1nat, 0nat,
{
    let w = exchanged(v, r);
    if height(v) == 2 {
        lemma_det_two_rows(v);
        lemma_det_two_rows(w);
        assert(v[1][0] * v[0][1] - v[0][0] * v[1][1] == -(v[0][0] * v[1][1] - v[1][0] * v[0][1]))
            by (nonlinear_arith);
    } else {
        lemma_exchanged_expansion(v, r, height(v));
    }
}

/// Moving row `i` to the top multiplies the determinant by `(-1)^i`.
proof fn lemma_lifted_det(v: Seq<Seq<int>>, i: int)
    requires
        square(v),
        0 <= i < height(v),
    ensures
        int_det(lifted(v, i)) == sign(i) * int_det(v),
    decreases i,
{
    if i == 0 {
        assert(lifted(v, 0) =~~= v);
        assert(sign(i) * int_det(v) == int_det(v)) by (nonlinear_arith)
            requires
                sign(i) == 1,
        ;
    } else {
        let w = exchanged(v, i - 1);
        assert(lifted(v, i) =~~= lifted(w, i - 1));
        lemma_lifted_det(w, i - 1);
        lemma_exchange_negates(v, i - 1);
        let d = int_det(v);
        assert(sign(i - 1) * (-d) == sign(i) * d) by (nonlinear_arith)
            requires
                sign(i - 1) == -sign(i),
        ;
    }
}

/// A matrix with two equal rows has determinant zero.
pub proof fn lemma_equal_rows(v: Seq<Seq<int>>, p: int, q: int)
    requires
        square(v),
        0 <= p < q < height(v),
        v[p] == v[q],
    ensures
        int_det(v) == 0,
    decreases q - p,
{
    if q == p + 1 {
        assert(exchanged(v, p) =~~= v);
        lemma_exchange_negates(v, p);
    } else {
        let w = exchanged(v, q - 1);
        lemma_exchange_negates(v, q - 1);
        lemma_equal_rows(w, p, q - 1);
    }
}

/// The cofactor of integers at `(r, j)`: the determinant of the minor at
/// `(r, j)` times `(-1)^(r + j)`.
pub open spec fn int_cofactor(v: Seq<Seq<int>>, r: int, j: int) -> int {
    int_det(minor(v, r, j)) * sign(r + j)
}

/// The first `k` cells of `u`, each times the cofactor of `v` in row `r` at
/// the cell's position, summed up.
pub open spec fn against_cofactors(u: Seq<int>, v: Seq<Seq<int>>, r: int, k: nat) -> int
    decreases k,
{
    if k == 0 {
        0
    } else {
        against_cofactors(u, v, r, (k - 1) as nat) + u[k - 1] * int_cofactor(v, r, k - 1)
    }
}

/// Row `r` against its own cofactors, over the first `k` cells, is `(-1)^r`
/// times the expansion along row 0 of the matrix with row `r` moved to the top.
proof fn lemma_own_cofactors(v: Seq<Seq<int>>, r: int, k: nat)
    requires
        square(v),
        height(v) >= 2,
        0 <= r < height(v),
        k <= height(v),
    ensures
        against_cofactors(v[r], v, r, k) == sign(r) * row_expansion(lifted(v, r), k),
    decreases k,
{
    let top = lifted(v, r);
    if k == 0 {
        assert(sign(r) * 0 == 0);
    } else {
        lemma_own_cofactors(v, r, (k - 1) as nat);
        let j = k - 1;
        assert(minor(top, 0, j) =~~= minor(v, r, j));
        let d = int_det(minor(v, r, j));
        let x = v[r][j];
        let rest = row_expansion(top, (k - 1) as nat);
        assert(row_term(top, j) == x * sign(j) * d);
        assert(sign(r) * (rest + x * sign(j) * d) == sign(r) * rest + x * (d * sign(r + j)))
            by (nonlinear_arith)
            requires
                sign(r + j) == sign(r) * sign(j),
        ;
    }
}

/// The cofactors of row `r` do not depend on row `r`: with another row in
/// its place, every sum against them is what it was.
proof fn lemma_cofactors_ignore_own_row(u: Seq<int>, v: Seq<Seq<int>>, r: int, k: nat)
    requires
        square(v),
        height(v) >= 2,
        0 <= r < height(v),
        k <= height(v),
        u.len() == width(v),
    ensures
        against_cofactors(u, v.update(r, u), r, k) == against_cofactors(u, v, r, k),
    decreases k,
{
    if k > 0 {
        lemma_cofactors_ignore_own_row(u, v, r, (k - 1) as nat);
        assert(minor(v.update(r, u), r, k - 1) =~~= minor(v, r, k - 1));
    }
}

/// A row against its own cofactors is the determinant; a row against the
/// cofactors of another row is zero.
pub proof fn lemma_row_against_cofactors(v: Seq<Seq<int>>, i: int, r: int)
    requires
        square(v),
        height(v) >= 2,
        0 <= i < height(v),
        0 <= r < height(v),
    ensures
        against_cofactors(v[i], v, r, height(v)) == (if i == r {
            int_det(v)
        } else {
            0
        }),
{
    let n = height(v);
    if i == r {
        lemma_own_cofactors(v, r, n);
        let top = lifted(v, r);
        assert(square(top));
        lemma_expansions_agree(top);
        lemma_lifted_det(v, r);
        assert(sign(r) * (sign(r) * int_det(v)) == int_det(v)) by (nonlinear_arith)
            requires
                sign(r) == 1 || sign(r) == -1,
        ;
    } else {
        let b = v.update(r, v[i]);
        assert(square(b));
        lemma_cofactors_ignore_own_row(v[i], v, r, n);
        lemma_own_cofactors(b, r, n);
        let top = lifted(b, r);
        assert(square(top));
        lemma_expansions_agree(top);
        lemma_lifted_det(b, r);
        if i < r {
            lemma_equal_rows(b, i, r);
        } else {
            lemma_equal_rows(b, r, i);
        }
        assert(sign(r) * (sign(r) * 0) == 0);
    }
}

/// With exact arithmetic, a cofactor that is defined holds the cofactor of
/// the integers in the cells.
pub proof fn lemma_cofactor_value<
    T: Integer + Add<Output = T> + Sub<Output = T> + Mul<Output = T>,
    F: Integer + From<T> + From<i32> + Add<Output = F> + Sub<Output = F> + Mul<Output = F>,
>(m: Seq<Seq<T>>, r: int, j: int)
    requires
        exact_arithmetic::<T>(),
        exact_arithmetic::<F>(),
        exact_conversion::<T, F>(),
        exact_conversion::<i32, F>(),
        square(m),
        height(m) >= 2,
        0 <= r < height(m),
        0 <= j < height(m),
        cofactor_defined::<T, F>(m, r, j),
    ensures
        value(cofactor::<T, F>(m, r, j)) == int_cofactor(values(m), r, j),
{
    let sub = minor(m, r, j);
    lemma_minor_shape(m, r, j);
    lemma_det_value::<T, F>(sub);
    assert(values(sub) =~~= minor(values(m), r, j));
    let d = det::<T, F>(sub);
    let s = constant::<F>(sign(r + j));
    assert(value(s) == sign(r + j));
    assert(d.mul_req(s));
    assert(value(d.mul_spec(s)) == value(d) * value(s));
}

/// Over the first `k` cells, row `i` of the matrix times row `r` of its
/// cofactors is row `i` against the cofactors of row `r`.
proof fn lemma_row_times_cofactors<
    T: Integer + Add<Output = T> + Sub<Output = T> + Mul<Output = T>,
    F: Integer + From<T> + From<i32> + Add<Output = F> + Sub<Output = F> + Mul<Output = F>,
>(m: Seq<Seq<T>>, i: int, r: int, k: nat)
    requires
        exact_arithmetic::<T>(),
        exact_arithmetic::<F>(),
        exact_conversion::<T, F>(),
        exact_conversion::<i32, F>(),
        square(m),
        height(m) >= 2,
        0 <= i < height(m),
        0 <= r < height(m),
        k <= height(m),
        cofactors_defined::<T, F>(m),
    ensures
        int_dot(values(m), transposed(values(cofactors::<T, F>(m))), i, r, k) == against_cofactors(
            values(m)[i],
            values(m),
            r,
            k,
        ),
    decreases k,
{
    if k > 0 {
        lemma_row_times_cofactors::<T, F>(m, i, r, (k - 1) as nat);
        assert(cofactor_defined::<T, F>(m, r, k - 1));
        lemma_cofactor_value::<T, F>(m, r, k - 1);
        let adjugate = transposed(values(cofactors::<T, F>(m)));
        assert(adjugate[k - 1][r] == value(cofactor::<T, F>(m, r, k - 1)));
    }
}

/// A matrix times its transposed matrix of cofactors is the determinant
/// times the identity: in the product of the integers, cell `(i, r)` is the
/// determinant on the diagonal and zero elsewhere. This is why the transposed
/// cofactors, divided by the determinant, are the inverse.
pub proof fn lemma_matrix_times_adjugate<
    T: Integer + Add<Output = T> + Sub<Output = T> + Mul<Output = T>,
    F: Integer + From<T> + From<i32> + Add<Output = F> + Sub<Output = F> + Mul<Output = F>,
>(m: Seq<Seq<T>>, i: int, r: int)
    requires
        exact_arithmetic::<T>(),
        exact_arithmetic::<F>(),
        exact_conversion::<T, F>(),
        exact_conversion::<i32, F>(),
        square(m),
        height(m) >= 2,
        0 <= i < height(m),
        0 <= r < height(m),
        det_defined::<T, F>(m),
        cofactors_defined::<T, F>(m),
    ensures
        int_dot(values(m), transposed(values(cofactors::<T, F>(m))), i, r, height(m)) == (if i
            == r {
            value(det::<T, F>(m))
        } else {
            0
        }),
{
    lemma_row_times_cofactors::<T, F>(m, i, r, height(m));
    lemma_row_against_cofactors(values(m), i, r);
    lemma_det_value::<T, F>(m);
}

/// Over the first `k` cells, row `i` of the matrix times column `r` of its
/// inverse is the integer of `1 / det` times row `i` against the cofactors
/// of row `r`.
proof fn lemma_row_times_inverse<
    T: Integer + Add<Output = T> + Sub<Output = T> + Mul<Output = T>,
    F: Integer + From<T> + From<i32> + Add<Output = F> + Sub<Output = F> + Mul<Output = F> + Div<
        Output = F,
    >,
>(m: Seq<Seq<T>>, i: int, r: int, k: nat)
    requires
        exact_arithmetic::<T>(),
        exact_arithmetic::<F>(),
        exact_conversion::<T, F>(),
        exact_conversion::<i32, F>(),
        square(m),
        height(m) >= 2,
        0 <= i < height(m),
        0 <= r < height(m),
        k <= height(m),
        inverse_defined::<T, F>(m),
    ensures
        int_dot(widened_cells::<T, F>(m), inverse::<T, F>(m), i, r, k) == value(
            inverse_factor::<T, F>(m),
        ) * against_cofactors(values(m)[i], values(m), r, k),
    decreases k,
{
    let e = value(inverse_factor::<T, F>(m));
    if k == 0 {
        assert(e * 0 == 0);
    } else {
        lemma_row_times_inverse::<T, F>(m, i, r, (k - 1) as nat);
        let t = k - 1;
        assert(cofactor_defined::<T, F>(m, r, t));
        lemma_cofactor_value::<T, F>(m, r, t);
        let c = cofactor::<T, F>(m, r, t);
        assert(transposed(cofactors::<T, F>(m))[t][r] == c);
        assert(c.mul_req(inverse_factor::<T, F>(m)));
        assert(inverse::<T, F>(m)[t][r] == c.mul_spec(inverse_factor::<T, F>(m)));
        assert(value(widened_cells::<T, F>(m)[i][t]) == value(m[i][t]));
        let x = value(m[i][t]);
        let rest = against_cofactors(values(m)[i], values(m), r, (k - 1) as nat);
        assert(e * (rest + x * value(c)) == e * rest + x * (value(c) * e)) by (nonlinear_arith);
    }
}

/// For integer cells and a determinant of 1 or -1, the matrix times its
/// inverse is the identity.
///
/// With any other determinant the division `1 / det` truncates to zero; an
/// inverse that is good to a tolerance takes a floating-point scalar type.
pub proof fn lemma_matrix_times_inverse<
    T: Integer + Add<Output = T> + Sub<Output = T> + Mul<Output = T>,
    F: Integer + From<T> + From<i32> + Add<Output = F> + Sub<Output = F> + Mul<Output = F> + Div<
        Output = F,
    >,
>(m: Seq<Seq<T>>)
    requires
        exact_arithmetic::<T>(),
        exact_arithmetic::<F>(),
        exact_conversion::<T, F>(),
        exact_conversion::<i32, F>(),
        exact_unit_reciprocal::<F>(),
        square(m),
        height(m) >= 2,
        det_defined::<T, F>(m),
        value(det::<T, F>(m)) == 1 || value(det::<T, F>(m)) == -1,
        inverse_defined::<T, F>(m),
        product_defined(widened_cells::<T, F>(m), inverse::<T, F>(m)),
    ensures
        is_identity(product(widened_cells::<T, F>(m), inverse::<T, F>(m))),
{
    let wide = widened_cells::<T, F>(m);
    let inv = inverse::<T, F>(m);
    let n = height(m);
    let e = value(inverse_factor::<T, F>(m));
    assert(e == value(det::<T, F>(m)));
    lemma_det_value::<T, F>(m);
    let p = product(wide, inv);
    assert forall|i: int, r: int| 0 <= i < n && 0 <= r < n implies value(#[trigger] p[i][r]) == if i
        == r {
        1int
    } else {
        0int
    } by {
        assert(dot_defined(wide, inv, i, r, n));
        lemma_dot_value(wide, inv, i, r, n);
        lemma_row_times_inverse::<T, F>(m, i, r, n);
        lemma_row_against_cofactors(values(m), i, r);
        assert(e * e == 1 && e * 0 == 0) by (nonlinear_arith)
            requires
                e == 1 || e == -1,
        ;
    }
}

} // verus!
