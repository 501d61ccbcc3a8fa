//! Finite sums of an integer function over a rectangle of index pairs.

use vstd::prelude::*;

verus! {

/// `f(i, 0) + f(i, 1) + ... + f(i, n - 1)`.
pub open spec fn row_sum(f: spec_fn(int, int) -> int, i: int, n: int) -> int
    decreases n,
{
    if n <= 0 {
        0
    } else {
        row_sum(f, i, n - 1) + f(i, n - 1)
    }
}

/// The sum of `f(i, j)` over `0 <= i < m`, `0 <= j < n`.
pub open spec fn grid_sum(f: spec_fn(int, int) -> int, m: int, n: int) -> int
    decreases m,
{
    if m <= 0 {
        0
    } else {
        grid_sum(f, m - 1, n) + row_sum(f, m - 1, n)
    }
}

/// A row sum is additive in the summand.
pub proof fn lemma_row_sum_add(
    f: spec_fn(int, int) -> int,
    g: spec_fn(int, int) -> int,
    h: spec_fn(int, int) -> int,
    i: int,
    n: int,
)
    requires
        forall|j: int| 0 <= j < n ==> #[trigger] h(i, j) == f(i, j) + g(i, j),
    ensures
        row_sum(h, i, n) == row_sum(f, i, n) + row_sum(g, i, n),
    decreases n,
{
    if n > 0 {
        lemma_row_sum_add(f, g, h, i, n - 1);
    }
}

/// A grid sum is additive in the summand.
pub proof fn lemma_grid_sum_add(
    f: spec_fn(int, int) -> int,
    g: spec_fn(int, int) -> int,
    h: spec_fn(int, int) -> int,
    m: int,
    n: int,
)
    requires
        forall|i: int, j: int| 0 <= i < m && 0 <= j < n ==> #[trigger] h(i, j) == f(i, j) + g(i, j),
    ensures
        grid_sum(h, m, n) == grid_sum(f, m, n) + grid_sum(g, m, n),
    decreases m,
{
    if m > 0 {
        lemma_grid_sum_add(f, g, h, m - 1, n);
        lemma_row_sum_add(f, g, h, m - 1, n);
    }
}

/// A row whose summand vanishes everywhere sums to zero.
pub proof fn lemma_row_sum_zero(f: spec_fn(int, int) -> int, i: int, n: int)
    requires
        forall|j: int| 0 <= j < n ==> #[trigger] f(i, j) == 0,
    ensures
        row_sum(f, i, n) == 0,
    decreases n,
{
    if n > 0 {
        lemma_row_sum_zero(f, i, n - 1);
    }
}

/// A row whose summand vanishes away from column `b` sums to `f(i, b)`.
pub proof fn lemma_row_sum_single(f: spec_fn(int, int) -> int, i: int, n: int, b: int)
    requires
        0 <= b < n,
        forall|j: int| 0 <= j < n && j != b ==> #[trigger] f(i, j) == 0,
    ensures
        row_sum(f, i, n) == f(i, b),
    decreases n,
{
    if n - 1 == b {
        lemma_row_sum_zero(f, i, n - 1);
    } else {
        lemma_row_sum_single(f, i, n - 1, b);
    }
}

/// A grid whose summand vanishes everywhere sums to zero.
pub proof fn lemma_grid_sum_zero(f: spec_fn(int, int) -> int, m: int, n: int)
    requires
        forall|i: int, j: int| 0 <= i < m && 0 <= j < n ==> #[trigger] f(i, j) == 0,
    ensures
        grid_sum(f, m, n) == 0,
    decreases m,
{
    if m > 0 {
        lemma_grid_sum_zero(f, m - 1, n);
        lemma_row_sum_zero(f, m - 1, n);
    }
}

/// A grid whose summand vanishes away from the cell `(a, b)` sums to `f(a, b)`.
pub proof fn lemma_grid_sum_single(f: spec_fn(int, int) -> int, m: int, n: int, a: int, b: int)
    requires
        0 <= a < m,
        0 <= b < n,
        forall|i: int, j: int|
            0 <= i < m && 0 <= j < n && !(i == a && j == b) ==> #[trigger] f(i, j) == 0,
    ensures
        grid_sum(f, m, n) == f(a, b),
    decreases m,
{
    if m - 1 == a {
        lemma_grid_sum_zero(f, m - 1, n);
        lemma_row_sum_single(f, m - 1, n, b);
    } else {
        lemma_grid_sum_single(f, m - 1, n, a, b);
        lemma_row_sum_zero(f, m - 1, n);
    }
}

/// A grid whose summand vanishes away from two distinct cells sums to the
/// two values there.
pub proof fn lemma_grid_sum_pair(
    f: spec_fn(int, int) -> int,
    m: int,
    n: int,
    a: int,
    b: int,
    c: int,
    d: int,
)
    requires
        0 <= a < m,
        0 <= b < n,
        0 <= c < m,
        0 <= d < n,
        !(a == c && b == d),
        forall|i: int, j: int|
            0 <= i < m && 0 <= j < n && !(i == a && j == b) && !(i == c && j == d)
                ==> #[trigger] f(i, j) == 0,
    ensures
        grid_sum(f, m, n) == f(a, b) + f(c, d),
{
    let first = |i: int, j: int| if i == a && j == b { f(i, j) } else { 0 };
    let rest = |i: int, j: int| if i == a && j == b { 0 } else { f(i, j) };
    assert forall|i: int, j: int| 0 <= i < m && 0 <= j < n implies #[trigger] f(i, j) == first(i, j)
        + rest(i, j) by {}
    lemma_grid_sum_add(first, rest, f, m, n);
    lemma_grid_sum_single(first, m, n, a, b);
    assert forall|i: int, j: int|
        0 <= i < m && 0 <= j < n && !(i == c && j == d) implies #[trigger] rest(i, j) == 0 by {
        if !(i == a && j == b) {
            assert(f(i, j) == 0);
        }
    }
    lemma_grid_sum_single(rest, m, n, c, d);
}

/// A row sum lies between `n` times the bounds of its summand.
pub proof fn lemma_row_sum_bounds(f: spec_fn(int, int) -> int, i: int, n: int, lo: int, hi: int)
    requires
        0 <= n,
        forall|j: int| 0 <= j < n ==> lo <= #[trigger] f(i, j) <= hi,
    ensures
        n * lo <= row_sum(f, i, n) <= n * hi,
    decreases n,
{
    if n > 0 {
        lemma_row_sum_bounds(f, i, n - 1, lo, hi);
        assert((n - 1) * lo + lo == n * lo) by (nonlinear_arith);
        assert((n - 1) * hi + hi == n * hi) by (nonlinear_arith);
    } else {
        assert(n * lo == 0 && n * hi == 0) by (nonlinear_arith)
            requires
                n == 0,
        ;
    }
}

/// A grid sum lies between `m * n` times the bounds of its summand.
pub proof fn lemma_grid_sum_bounds(f: spec_fn(int, int) -> int, m: int, n: int, lo: int, hi: int)
    requires
        0 <= m,
        0 <= n,
        forall|i: int, j: int| 0 <= i < m && 0 <= j < n ==> lo <= #[trigger] f(i, j) <= hi,
    ensures
        m * n * lo <= grid_sum(f, m, n) <= m * n * hi,
    decreases m,
{
    if m > 0 {
        lemma_grid_sum_bounds(f, m - 1, n, lo, hi);
        lemma_row_sum_bounds(f, m - 1, n, lo, hi);
        assert((m - 1) * n * lo + n * lo == m * n * lo) by (nonlinear_arith);
        assert((m - 1) * n * hi + n * hi == m * n * hi) by (nonlinear_arith);
    } else {
        assert(m * n * lo == 0 && m * n * hi == 0) by (nonlinear_arith)
            requires
                m == 0,
        ;
    }
}

/// A row sum of even numbers is even.
pub proof fn lemma_row_sum_even(f: spec_fn(int, int) -> int, i: int, n: int)
    requires
        forall|j: int| 0 <= j < n ==> #[trigger] f(i, j) % 2 == 0,
    ensures
        row_sum(f, i, n) % 2 == 0,
    decreases n,
{
    if n > 0 {
        lemma_row_sum_even(f, i, n - 1);
    }
}

/// A grid sum of even numbers is even.
pub proof fn lemma_grid_sum_even(f: spec_fn(int, int) -> int, m: int, n: int)
    requires
        forall|i: int, j: int| 0 <= i < m && 0 <= j < n ==> #[trigger] f(i, j) % 2 == 0,
    ensures
        grid_sum(f, m, n) % 2 == 0,
    decreases m,
{
    if m > 0 {
        lemma_grid_sum_even(f, m - 1, n);
        lemma_row_sum_even(f, m - 1, n);
    }
}

} // verus!
