//! Laws of addition, subtraction, scaling and multiplication.

use crate::exact::{exact_arithmetic, representable, value};
use crate::model::{
    difference, difference_defined, dot, dot_defined, height, is_identity, product,
    product_defined, rectangular, same_shape, scaled, scaling_defined, sum, sum_defined, term,
    width,
};
use crate::laws::sums::{col_total, lemma_sum_order, row_total, total_by_cols, total_by_rows};
use std::ops::{Add, Mul, Sub};
use vstd::prelude::*;
use vstd::std_specs::ops::{AddSpec, MulSpec, SubSpec};

verus! {

/// Addition commutes: `A + B = B + A`.
pub proof fn lemma_add_commutative<T: Integer + Add<Output = T> + Sub<Output = T> + Mul<Output = T>>(
    a: Seq<Seq<T>>,
    b: Seq<Seq<T>>,
)
    requires
        exact_arithmetic::<T>(),
        rectangular(a),
        rectangular(b),
        same_shape(a, b),
        sum_defined(a, b),
    ensures
        sum_defined(b, a),
        sum(a, b) == sum(b, a),
{
    assert forall|i: int, j: int| 0 <= i < height(a) && 0 <= j < width(a) implies (
    #[trigger] b[i][j]).add_req(a[i][j]) && a[i][j].add_spec(b[i][j]) == b[i][j].add_spec(
        a[i][j],
    ) by {
        let x = a[i][j];
        let y = b[i][j];
        assert(x.add_req(y));
        assert(value(x.add_spec(y)) == value(x) + value(y));
        assert(y.add_req(x));
        assert(value(y.add_spec(x)) == value(y) + value(x));
    }
    assert(sum(a, b) =~~= sum(b, a));
}

/// Addition associates: `(A + B) + C = A + (B + C)`.
pub proof fn lemma_add_associative<T: Integer + Add<Output = T> + Sub<Output = T> + Mul<Output = T>>(
    a: Seq<Seq<T>>,
    b: Seq<Seq<T>>,
    c: Seq<Seq<T>>,
)
    requires
        exact_arithmetic::<T>(),
        rectangular(a),
        rectangular(b),
        rectangular(c),
        same_shape(a, b),
        same_shape(b, c),
        sum_defined(a, b),
        sum_defined(sum(a, b), c),
        sum_defined(b, c),
        sum_defined(a, sum(b, c)),
    ensures
        sum(sum(a, b), c) == sum(a, sum(b, c)),
{
    let left = sum(sum(a, b), c);
    let right = sum(a, sum(b, c));
    assert forall|i: int, j: int| 0 <= i < height(a) && 0 <= j < width(a) implies #[trigger] left[i][j]
        == right[i][j] by {
        let x = a[i][j];
        let y = b[i][j];
        let z = c[i][j];
        assert(x.add_req(y));
        assert(sum(a, b)[i][j] == x.add_spec(y));
        assert(sum(a, b)[i][j].add_req(z));
        assert(y.add_req(z));
        assert(sum(b, c)[i][j] == y.add_spec(z));
        assert(x.add_req(sum(b, c)[i][j]));
        assert(value(x.add_spec(y).add_spec(z)) == value(x) + value(y) + value(z));
        assert(value(x.add_spec(y.add_spec(z))) == value(x) + value(y) + value(z));
    }
    assert(left =~~= right);
}

/// Subtraction undoes addition: `(A + B) - B = A`.
pub proof fn lemma_add_then_sub<T: Integer + Add<Output = T> + Sub<Output = T> + Mul<Output = T>>(
    a: Seq<Seq<T>>,
    b: Seq<Seq<T>>,
)
    requires
        exact_arithmetic::<T>(),
        rectangular(a),
        rectangular(b),
        same_shape(a, b),
        sum_defined(a, b),
    ensures
        difference_defined(sum(a, b), b),
        difference(sum(a, b), b) == a,
{
    let s = sum(a, b);
    assert forall|i: int, j: int| 0 <= i < height(a) && 0 <= j < width(a) implies (
    #[trigger] s[i][j]).sub_req(b[i][j]) && s[i][j].sub_spec(b[i][j]) == a[i][j] by {
        let x = a[i][j];
        let y = b[i][j];
        assert(x.add_req(y));
        assert(s[i][j] == x.add_spec(y));
        assert(value(x) == value(s[i][j]) - value(y));
        assert(representable::<T>(value(s[i][j]) - value(y)));
        assert(s[i][j].sub_req(y));
        assert(value(s[i][j].sub_spec(y)) == value(x));
    }
    assert(difference(s, b) =~~= a);
}

/// Scaling by one changes nothing.
pub proof fn lemma_scale_by_one<T: Integer + Add<Output = T> + Sub<Output = T> + Mul<Output = T>>(
    m: Seq<Seq<T>>,
    one: T,
)
    requires
        exact_arithmetic::<T>(),
        rectangular(m),
        value(one) == 1,
    ensures
        scaling_defined(m, one),
        scaled(m, one) == m,
{
    assert forall|i: int, j: int| 0 <= i < height(m) && 0 <= j < width(m) implies (
    #[trigger] m[i][j]).mul_req(one) && m[i][j].mul_spec(one) == m[i][j] by {
        let x = m[i][j];
        assert(value(x) * value(one) == value(x)) by (nonlinear_arith)
            requires
                value(one) == 1,
        ;
        assert(representable::<T>(value(x) * value(one)));
        assert(x.mul_req(one));
        assert(value(x.mul_spec(one)) == value(x));
    }
    assert(scaled(m, one) =~~= m);
}

/// Scaling by `k1` and then by `k2` is scaling by `k1 * k2`.
pub proof fn lemma_scale_twice<T: Integer + Add<Output = T> + Sub<Output = T> + Mul<Output = T>>(
    m: Seq<Seq<T>>,
    k1: T,
    k2: T,
)
    requires
        exact_arithmetic::<T>(),
        rectangular(m),
        scaling_defined(m, k1),
        scaling_defined(scaled(m, k1), k2),
        k1.mul_req(k2),
    ensures
        scaling_defined(m, k1.mul_spec(k2)),
        scaled(scaled(m, k1), k2) == scaled(m, k1.mul_spec(k2)),
{
    let k = k1.mul_spec(k2);
    let once = scaled(m, k1);
    assert forall|i: int, j: int| 0 <= i < height(m) && 0 <= j < width(m) implies (
    #[trigger] m[i][j]).mul_req(k) && once[i][j].mul_spec(k2) == m[i][j].mul_spec(k) by {
        let x = m[i][j];
        assert(x.mul_req(k1));
        assert(once[i][j] == x.mul_spec(k1));
        assert(once[i][j].mul_req(k2));
        let twice = x.mul_spec(k1).mul_spec(k2);
        assert(value(twice) == value(x) * value(k1) * value(k2));
        assert(value(k) == value(k1) * value(k2));
        assert(value(x) * value(k1) * value(k2) == value(x) * (value(k1) * value(k2)))
            by (nonlinear_arith);
        assert(value(twice) == value(x) * value(k));
        assert(representable::<T>(value(x) * value(k)));
        assert(x.mul_req(k));
        assert(value(x.mul_spec(k)) == value(twice));
    }
    assert(scaled(once, k2) =~~= scaled(m, k));
}

/// Row `i` of `a` times column `j` of `b` over their first `n` cells, as an integer.
pub open spec fn int_dot<T: Integer>(a: Seq<Seq<T>>, b: Seq<Seq<T>>, i: int, j: int, n: nat) -> int
    decreases n,
{
    if n == 0 {
        0
    } else {
        int_dot(a, b, i, j, (n - 1) as nat) + value(a[i][n - 1]) * value(b[n - 1][j])
    }
}

/// A dot product that is defined holds the integer dot product of its operands.
pub proof fn lemma_dot_value<T: Integer + Add<Output = T> + Sub<Output = T> + Mul<Output = T>>(
    a: Seq<Seq<T>>,
    b: Seq<Seq<T>>,
    i: int,
    j: int,
    n: nat,
)
    requires
        exact_arithmetic::<T>(),
        n >= 1,
        dot_defined(a, b, i, j, n),
    ensures
        value(dot(a, b, i, j, n)) == int_dot(a, b, i, j, n),
    decreases n,
{
    reveal_with_fuel(int_dot, 2);
    if n > 1 {
        lemma_dot_value(a, b, i, j, (n - 1) as nat);
    }
}

/// Multiplying by an identity matrix on the right changes nothing: `A * I = A`.
pub proof fn lemma_mul_identity_right<
    T: Integer + Add<Output = T> + Sub<Output = T> + Mul<Output = T>,
>(a: Seq<Seq<T>>, e: Seq<Seq<T>>)
    requires
        exact_arithmetic::<T>(),
        rectangular(a),
        is_identity(e),
        height(e) == width(a),
    ensures
        product_defined(a, e),
        product(a, e) == a,
{
    assert forall|i: int, j: int| 0 <= i < height(a) && 0 <= j < width(e) implies #[trigger] dot_defined(
        a,
        e,
        i,
        j,
        width(a),
    ) by {
        lemma_row_times_identity(a, e, i, j, width(a));
    }
    assert forall|i: int, j: int| 0 <= i < height(a) && 0 <= j < width(e) implies #[trigger] dot(
        a,
        e,
        i,
        j,
        width(a),
    ) == a[i][j] by {
        lemma_row_times_identity(a, e, i, j, width(a));
    }
    assert(product(a, e) =~~= a);
}

/// Over the first `k` cells, row `i` of `a` times column `j` of an identity
/// matrix is `a[i][j]` once `k` has passed `j`, and zero before.
proof fn lemma_row_times_identity<T: Integer + Add<Output = T> + Sub<Output = T> + Mul<Output = T>>(
    a: Seq<Seq<T>>,
    e: Seq<Seq<T>>,
    i: int,
    j: int,
    k: nat,
)
    requires
        exact_arithmetic::<T>(),
        rectangular(a),
        is_identity(e),
        height(e) == width(a),
        0 <= i < height(a),
        0 <= j < width(a),
        1 <= k <= width(a),
    ensures
        dot_defined(a, e, i, j, k),
        value(dot(a, e, i, j, k)) == (if j < k {
            value(a[i][j])
        } else {
            0
        }),
    decreases k,
{
    let x = a[i][k - 1];
    let d = e[k - 1][j];
    assert(value(x) * value(d) == if j == k - 1 {
        value(x)
    } else {
        0
    }) by (nonlinear_arith)
        requires
            value(d) == if j == k - 1 {
                1int
            } else {
                0int
            },
    ;
    assert(representable::<T>(value(x) * value(d))) by {
        if j == k - 1 {
            assert(value(x) == value(x) * value(d));
        } else {
            assert(value(d) == value(x) * value(d));
        }
    }
    assert(x.mul_req(d));
    assert(value(x.mul_spec(d)) == value(x) * value(d));
    if k > 1 {
        lemma_row_times_identity(a, e, i, j, (k - 1) as nat);
        let before = dot(a, e, i, j, (k - 1) as nat);
        let t = term(a, e, i, j, k - 1);
        assert(representable::<T>(value(before) + value(t))) by {
            if j < k {
                assert(value(a[i][j]) == value(before) + value(t));
            } else {
                assert(value(d) == value(before) + value(t));
            }
        }
        assert(before.add_req(t));
        assert(value(before.add_spec(t)) == value(before) + value(t));
    }
}

/// Multiplying by an identity matrix on the left changes nothing: `I * A = A`.
pub proof fn lemma_mul_identity_left<
    T: Integer + Add<Output = T> + Sub<Output = T> + Mul<Output = T>,
>(e: Seq<Seq<T>>, a: Seq<Seq<T>>)
    requires
        exact_arithmetic::<T>(),
        rectangular(a),
        is_identity(e),
        width(e) == height(a),
    ensures
        product_defined(e, a),
        product(e, a) == a,
{
    assert forall|i: int, j: int| 0 <= i < height(e) && 0 <= j < width(a) implies #[trigger] dot_defined(
        e,
        a,
        i,
        j,
        width(e),
    ) by {
        lemma_identity_times_column(e, a, i, j, width(e));
    }
    assert forall|i: int, j: int| 0 <= i < height(e) && 0 <= j < width(a) implies #[trigger] dot(
        e,
        a,
        i,
        j,
        width(e),
    ) == a[i][j] by {
        lemma_identity_times_column(e, a, i, j, width(e));
    }
    assert(product(e, a) =~~= a);
}

/// Over the first `k` cells, row `i` of an identity matrix times column `j` of
/// `a` is `a[i][j]` once `k` has passed `i`, and zero before.
proof fn lemma_identity_times_column<
    T: Integer + Add<Output = T> + Sub<Output = T> + Mul<Output = T>,
>(e: Seq<Seq<T>>, a: Seq<Seq<T>>, i: int, j: int, k: nat)
    requires
        exact_arithmetic::<T>(),
        rectangular(a),
        is_identity(e),
        width(e) == height(a),
        0 <= i < height(a),
        0 <= j < width(a),
        1 <= k <= height(a),
    ensures
        dot_defined(e, a, i, j, k),
        value(dot(e, a, i, j, k)) == (if i < k {
            value(a[i][j])
        } else {
            0
        }),
    decreases k,
{
    let d = e[i][k - 1];
    let x = a[k - 1][j];
    assert(value(d) * value(x) == if i == k - 1 {
        value(x)
    } else {
        0
    }) by (nonlinear_arith)
        requires
            value(d) == if i == k - 1 {
                1int
            } else {
                0int
            },
    ;
    assert(representable::<T>(value(d) * value(x))) by {
        if i == k - 1 {
            assert(value(x) == value(d) * value(x));
        } else {
            assert(value(d) == value(d) * value(x));
        }
    }
    assert(d.mul_req(x));
    assert(value(d.mul_spec(x)) == value(d) * value(x));
    if k > 1 {
        lemma_identity_times_column(e, a, i, j, (k - 1) as nat);
        let before = dot(e, a, i, j, (k - 1) as nat);
        let t = term(e, a, i, j, k - 1);
        assert(representable::<T>(value(before) + value(t))) by {
            if i < k {
                assert(value(a[i][j]) == value(before) + value(t));
            } else {
                assert(value(d) == value(before) + value(t));
            }
        }
        assert(before.add_req(t));
        assert(value(before.add_spec(t)) == value(before) + value(t));
    }
}

/// The integer product of three cells, one from each of three matrices that
/// are multiplied together: the summand of cell `(i, l)` of `A * B * C`.
spec fn triple<T: Integer>(
    a: Seq<Seq<T>>,
    b: Seq<Seq<T>>,
    c: Seq<Seq<T>>,
    i: int,
    l: int,
) -> spec_fn(int, int) -> int {
    |t: int, j: int| value(a[i][t]) * value(b[t][j]) * value(c[j][l])
}

/// `(A * B)[i][j]` times `C[j][l]` is the total of column `j` of the summands.
proof fn lemma_left_factor<T: Integer>(
    a: Seq<Seq<T>>,
    b: Seq<Seq<T>>,
    c: Seq<Seq<T>>,
    i: int,
    l: int,
    j: int,
    n: nat,
)
    ensures
        int_dot(a, b, i, j, n) * value(c[j][l]) == col_total(triple(a, b, c, i, l), j, n),
    decreases n,
{
    let k = value(c[j][l]);
    if n == 0 {
        assert(0 * k == 0);
    } else {
        lemma_left_factor(a, b, c, i, l, j, (n - 1) as nat);
        let rest = int_dot(a, b, i, j, (n - 1) as nat);
        let x = value(a[i][n - 1]);
        let y = value(b[n - 1][j]);
        assert((rest + x * y) * k == rest * k + x * y * k) by (nonlinear_arith);
    }
}

/// `A[i][t]` times `(B * C)[t][l]` is the total of row `t` of the summands.
proof fn lemma_right_factor<T: Integer>(
    a: Seq<Seq<T>>,
    b: Seq<Seq<T>>,
    c: Seq<Seq<T>>,
    i: int,
    l: int,
    t: int,
    m: nat,
)
    ensures
        value(a[i][t]) * int_dot(b, c, t, l, m) == row_total(triple(a, b, c, i, l), t, m),
    decreases m,
{
    let k = value(a[i][t]);
    if m == 0 {
        assert(k * 0 == 0);
    } else {
        lemma_right_factor(a, b, c, i, l, t, (m - 1) as nat);
        let rest = int_dot(b, c, t, l, (m - 1) as nat);
        let x = value(b[t][m - 1]);
        let y = value(c[m - 1][l]);
        assert(k * (rest + x * y) == k * rest + k * x * y) by (nonlinear_arith);
    }
}

/// Cell `(i, l)` of `(A * B) * C`, over its first `k` terms, is the sum of
/// the first `k` columns of the summands.
proof fn lemma_left_nested<T: Integer>(
    a: Seq<Seq<T>>,
    b: Seq<Seq<T>>,
    c: Seq<Seq<T>>,
    ab: Seq<Seq<T>>,
    i: int,
    l: int,
    n: nat,
    k: nat,
)
    requires
        forall|j: int| 0 <= j < k ==> value(#[trigger] ab[i][j]) == int_dot(a, b, i, j, n),
    ensures
        int_dot(ab, c, i, l, k) == total_by_cols(triple(a, b, c, i, l), n, k),
    decreases k,
{
    if k > 0 {
        lemma_left_nested(a, b, c, ab, i, l, n, (k - 1) as nat);
        lemma_left_factor(a, b, c, i, l, k - 1, n);
        assert(value(ab[i][k - 1]) == int_dot(a, b, i, k - 1, n));
    }
}

/// Cell `(i, l)` of `A * (B * C)`, over its first `k` terms, is the sum of
/// the first `k` rows of the summands.
proof fn lemma_right_nested<T: Integer>(
    a: Seq<Seq<T>>,
    b: Seq<Seq<T>>,
    c: Seq<Seq<T>>,
    bc: Seq<Seq<T>>,
    i: int,
    l: int,
    m: nat,
    k: nat,
)
    requires
        forall|t: int| 0 <= t < k ==> value(#[trigger] bc[t][l]) == int_dot(b, c, t, l, m),
    ensures
        int_dot(a, bc, i, l, k) == total_by_rows(triple(a, b, c, i, l), k, m),
    decreases k,
{
    if k > 0 {
        lemma_right_nested(a, b, c, bc, i, l, m, (k - 1) as nat);
        lemma_right_factor(a, b, c, i, l, k - 1, m);
        assert(value(bc[k - 1][l]) == int_dot(b, c, k - 1, l, m));
    }
}

/// Matrix multiplication associates: `(A * B) * C = A * (B * C)`.
pub proof fn lemma_mul_associative<T: Integer + Add<Output = T> + Sub<Output = T> + Mul<Output = T>>(
    a: Seq<Seq<T>>,
    b: Seq<Seq<T>>,
    c: Seq<Seq<T>>,
)
    requires
        exact_arithmetic::<T>(),
        rectangular(a),
        rectangular(b),
        rectangular(c),
        width(a) == height(b),
        width(b) == height(c),
        product_defined(a, b),
        product_defined(product(a, b), c),
        product_defined(b, c),
        product_defined(a, product(b, c)),
    ensures
        product(product(a, b), c) == product(a, product(b, c)),
{
    let ab = product(a, b);
    let bc = product(b, c);
    let n = width(a);
    let m = width(b);
    assert(width(ab) == m);
    assert forall|i: int, l: int| 0 <= i < height(a) && 0 <= l < width(c) implies dot(
        ab,
        c,
        i,
        l,
        m,
    ) == dot(a, bc, i, l, n) by {
        assert(dot_defined(ab, c, i, l, m));
        assert(dot_defined(a, bc, i, l, n));
        lemma_dot_value(ab, c, i, l, m);
        lemma_dot_value(a, bc, i, l, n);
        assert forall|j: int| 0 <= j < m implies value(#[trigger] ab[i][j]) == int_dot(
            a,
            b,
            i,
            j,
            n,
        ) by {
            assert(dot_defined(a, b, i, j, n));
            lemma_dot_value(a, b, i, j, n);
        }
        assert forall|t: int| 0 <= t < n implies value(#[trigger] bc[t][l]) == int_dot(
            b,
            c,
            t,
            l,
            m,
        ) by {
            assert(dot_defined(b, c, t, l, m));
            lemma_dot_value(b, c, t, l, m);
        }
        lemma_left_nested(a, b, c, ab, i, l, n, m);
        lemma_right_nested(a, b, c, bc, i, l, m, n);
        lemma_sum_order(triple(a, b, c, i, l), n, m);
    }
    assert(product(ab, c) =~~= product(a, bc));
}

} // verus!
