//! Laws of shape: transposition, minors, and equality.

use crate::model::{cells_agree, height, minor, rectangular, skip, transposed, width};
use vstd::prelude::*;
use vstd::std_specs::cmp::PartialEqSpec;

verus! {

/// Transposition swaps the number of rows with the number of columns.
pub proof fn lemma_transpose_shape<T>(m: Seq<Seq<T>>)
    requires
        rectangular(m),
    ensures
        rectangular(transposed(m)),
        height(transposed(m)) == width(m),
        width(transposed(m)) == height(m),
{
}

/// Transposing twice gives the matrix back.
pub proof fn lemma_transpose_involution<T>(m: Seq<Seq<T>>)
    requires
        rectangular(m),
    ensures
        transposed(transposed(m)) == m,
{
    assert(transposed(transposed(m)) =~~= m);
}

/// A minor has one row and one column less than the matrix.
pub proof fn lemma_minor_shape<T>(m: Seq<Seq<T>>, r: int, c: int)
    requires
        rectangular(m),
        height(m) >= 2,
        width(m) >= 2,
        0 <= r < height(m),
        0 <= c < width(m),
    ensures
        rectangular(minor(m, r, c)),
        height(minor(m, r, c)) == height(m) - 1,
        width(minor(m, r, c)) == width(m) - 1,
{
}

/// A minor is the matrix with row `r` removed and position `c` removed from
/// every remaining row: the cells that stay keep their order. Cell `(i, j)` of
/// the minor comes from row `skip(i, r)` and column `skip(j, c)`, and `skip`
/// never yields the removed position and keeps positions in order.
pub proof fn lemma_minor_keeps_order<T>(m: Seq<Seq<T>>, r: int, c: int)
    requires
        rectangular(m),
        height(m) >= 2,
        width(m) >= 2,
        0 <= r < height(m),
        0 <= c < width(m),
    ensures
        minor(m, r, c) == m.remove(r).map_values(|row: Seq<T>| row.remove(c)),
        forall|k: int| #[trigger] skip(k, r) != r && skip(k, c) != c,
        forall|k: int, l: int| k < l ==> #[trigger] skip(k, r) < #[trigger] skip(l, r),
        forall|k: int, l: int| k < l ==> #[trigger] skip(k, c) < #[trigger] skip(l, c),
{
    let removed = m.remove(r).map_values(|row: Seq<T>| row.remove(c));
    assert(minor(m, r, c) =~~= removed);
}

/// Where the element type's `==` is equality, two matrices agree cell by cell
/// exactly when they are equal.
pub proof fn lemma_cells_agree_is_equality<T: PartialEq>(a: Seq<Seq<T>>, b: Seq<Seq<T>>)
    requires
        rectangular(a),
        rectangular(b),
        forall|x: T, y: T| #[trigger] x.eq_spec(&y) <==> x == y,
    ensures
        cells_agree(a, b) <==> a == b,
{
    if cells_agree(a, b) {
        assert forall|i: int, j: int| 0 <= i < height(a) && 0 <= j < width(a) implies #[trigger] a[i][j]
            == b[i][j] by {
            assert(a[i][j].eq_spec(&b[i][j]));
        }
        assert(a =~~= b);
    }
}

} // verus!
