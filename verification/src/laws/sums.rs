//! Finite double sums of integers, and the freedom to take them in either order.

use vstd::prelude::*;

verus! {

/// The sum of `f(t, 0), ..., f(t, m - 1)`.
pub open spec fn row_total(f: spec_fn(int, int) -> int, t: int, m: nat) -> int
    decreases m,
{
    if m == 0 {
        0
    } else {
        row_total(f, t, (m - 1) as nat) + f(t, m - 1)
    }
}

/// The sum of `f(0, j), ..., f(n - 1, j)`.
pub open spec fn col_total(f: spec_fn(int, int) -> int, j: int, n: nat) -> int
    decreases n,
{
    if n == 0 {
        0
    } else {
        col_total(f, j, (n - 1) as nat) + f(n - 1, j)
    }
}

/// The sum of `f` over `n` rows of `m` cells, row by row.
pub open spec fn total_by_rows(f: spec_fn(int, int) -> int, n: nat, m: nat) -> int
    decreases n,
{
    if n == 0 {
        0
    } else {
        total_by_rows(f, (n - 1) as nat, m) + row_total(f, n - 1, m)
    }
}

/// The sum of `f` over `m` columns of `n` cells, column by column.
pub open spec fn total_by_cols(f: spec_fn(int, int) -> int, n: nat, m: nat) -> int
    decreases m,
{
    if m == 0 {
        0
    } else {
        total_by_cols(f, n, (m - 1) as nat) + col_total(f, m - 1, n)
    }
}

/// Adding one more row adds that row's total to the sum taken column by column.
proof fn lemma_cols_with_one_more_row(f: spec_fn(int, int) -> int, n: nat, m: nat)
    requires
        n >= 1,
    ensures
        total_by_cols(f, n, m) == total_by_cols(f, (n - 1) as nat, m) + row_total(f, n - 1, m),
    decreases m,
{
    if m > 0 {
        lemma_cols_with_one_more_row(f, n, (m - 1) as nat);
    }
}

/// A finite double sum may be taken row by row or column by column.
pub proof fn lemma_sum_order(f: spec_fn(int, int) -> int, n: nat, m: nat)
    ensures
        total_by_rows(f, n, m) == total_by_cols(f, n, m),
    decreases n,
{
    if n == 0 {
        lemma_no_rows(f, m);
    } else {
        lemma_sum_order(f, (n - 1) as nat, m);
        lemma_cols_with_one_more_row(f, n, m);
    }
}

/// The sum over no rows is zero, however many columns there are.
proof fn lemma_no_rows(f: spec_fn(int, int) -> int, m: nat)
    ensures
        total_by_cols(f, 0, m) == 0,
    decreases m,
{
    if m > 0 {
        lemma_no_rows(f, (m - 1) as nat);
    }
}

} // verus!
