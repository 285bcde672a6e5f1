//! Division facts used by the buffer transforms.

use vstd::prelude::*;
use vstd::arithmetic::div_mod::lemma_fundamental_div_mod;
use vstd::arithmetic::div_mod::lemma_fundamental_div_mod_converse;

verus! {

/// Number of blocks of `m` items needed to cover `n` items.
pub open spec fn ceil_div(n: int, m: int) -> int {
    (n + m - 1) / m
}

/// Going from `i` to `i + 1` items opens a new block exactly when `i` is a
/// multiple of `m`, and then `i` is the first index of that new block.
pub proof fn lemma_ceil_div_step(i: int, m: int)
    requires
        0 <= i,
        0 < m,
    ensures
        i % m == 0 ==> ceil_div(i + 1, m) == ceil_div(i, m) + 1 && i == ceil_div(i, m) * m,
        i % m != 0 ==> ceil_div(i + 1, m) == ceil_div(i, m),
        0 <= ceil_div(i, m),
{
    lemma_fundamental_div_mod(i, m);
    let q = i / m;
    let r = i % m;
    assert(i == q * m + r) by (nonlinear_arith)
        requires
            i == m * q + r,
    ;
    assert(0 <= q) by (nonlinear_arith)
        requires
            i == q * m + r,
            0 <= r < m,
            0 <= i,
    ;
    if r == 0 {
        assert((q + 1) * m == q * m + m) by (nonlinear_arith);
        lemma_fundamental_div_mod_converse(i + m - 1, m, q, m - 1);
        lemma_fundamental_div_mod_converse(i + m, m, q + 1, 0);
    } else {
        assert((q + 1) * m == q * m + m) by (nonlinear_arith);
        lemma_fundamental_div_mod_converse(i + m - 1, m, q + 1, r - 1);
        lemma_fundamental_div_mod_converse(i + m, m, q + 1, r);
    }
}

/// `k * m + j` with `0 <= j < m` lies in block `k`.
pub proof fn lemma_block_index(k: int, m: int, j: int)
    requires
        0 <= j < m,
    ensures
        (k * m + j) / m == k,
        (k * m + j) % m == j,
{
    lemma_fundamental_div_mod_converse(k * m + j, m, k, j);
}

/// Stepping back one from an index that does not start a block stays in
/// the same block.
pub proof fn lemma_mod_step_back(i: int, m: int)
    requires
        0 < i,
        0 < m,
        i % m != 0,
    ensures
        (i - 1) % m == i % m - 1,
        i - i % m == (i - 1) - (i - 1) % m,
{
    lemma_fundamental_div_mod(i, m);
    let q = i / m;
    let r = i % m;
    assert(i - 1 == q * m + (r - 1)) by (nonlinear_arith)
        requires
            i == m * q + r,
    ;
    lemma_fundamental_div_mod_converse(i - 1, m, q, r - 1);
}

} // verus!
