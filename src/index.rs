//! Facts about row-major flat indices.

use vstd::prelude::*;
use vstd::arithmetic::div_mod::lemma_fundamental_div_mod_converse;

verus! {

/// Position of entry `(outer, inner)` when each outer block holds `n` entries.
pub open spec fn flat(outer: int, inner: int, n: int) -> int {
    outer * n + inner
}

/// An index inside block `outer < m` of width `n` stays below `m * n`.
pub proof fn lemma_flat_bound(outer: int, inner: int, m: int, n: int)
    requires
        0 <= outer < m,
        0 <= inner < n,
    ensures
        0 <= flat(outer, inner, n) < m * n,
{
    assert(0 <= outer * n + inner < m * n) by (nonlinear_arith)
        requires
            0 <= outer < m,
            0 <= inner < n,
    ;
}

/// A flat index splits back into its block and its offset.
pub proof fn lemma_flat_split(outer: int, inner: int, n: int)
    requires
        0 <= outer,
        0 <= inner < n,
    ensures
        flat(outer, inner, n) / n == outer,
        flat(outer, inner, n) % n == inner,
{
    lemma_fundamental_div_mod_converse(flat(outer, inner, n), n, outer, inner);
}

/// Every index below `m * n` is a block below `m` and an offset below `n`.
pub proof fn lemma_flat_parts(i: int, m: int, n: int)
    requires
        0 <= i < m * n,
        0 < n,
    ensures
        0 <= i / n < m,
        0 <= i % n < n,
        i == flat(i / n, i % n, n),
{
    vstd::arithmetic::div_mod::lemma_fundamental_div_mod(i, n);
    vstd::arithmetic::div_mod::lemma_mod_pos_bound(i, n);
    assert(0 <= i / n < m && i == i / n * n + i % n) by (nonlinear_arith)
        requires
            i == n * (i / n) + i % n,
            0 <= i % n < n,
            0 <= i < m * n,
    ;
}

/// Decomposes index `i` of a four-axis buffer `(n0, n1, n2, n3)`.
pub proof fn lemma_parts4(i: int, n0: int, n1: int, n2: int, n3: int)
    requires
        0 <= i < n0 * n1 * n2 * n3,
        n1 > 0,
        n2 > 0,
        n3 > 0,
    ensures
        0 <= i / n3 / n2 / n1 < n0,
        0 <= (i / n3 / n2) % n1 < n1,
        0 <= (i / n3) % n2 < n2,
        0 <= i % n3 < n3,
        i == flat(flat(flat(i / n3 / n2 / n1, (i / n3 / n2) % n1, n1), (i / n3) % n2, n2), i % n3, n3),
{
    lemma_flat_parts(i, n0 * n1 * n2, n3);
    lemma_flat_parts(i / n3, n0 * n1, n2);
    lemma_flat_parts(i / n3 / n2, n0, n1);
}

} // verus!
