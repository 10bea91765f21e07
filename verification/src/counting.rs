//! Counting functions for the shape enumeration.
//!
//! A required tail of length `k` yields one shape per positional prefix
//! length and per permutation of the remaining named parameters, so
//! `0! + 1! + ... + k!` shapes in all.  A default tail of length `m`
//! yields one shape per ordered selection of the parameters that are
//! supplied, the all-omitted selection included, which gives
//! `1 + m * (1 + (m-1) * (...))` shapes.

use vstd::prelude::*;

verus! {

/// `n` factorial: the number of permutations of `n` distinct items.
pub open spec fn fact(n: nat) -> nat
    decreases n,
{
    if n == 0 {
        1
    } else {
        n * fact((n - 1) as nat)
    }
}

/// `0! + 1! + ... + k!`: the number of required-tail shapes for `k`
/// required parameters.
pub open spec fn sum_fact(k: nat) -> nat
    decreases k,
{
    if k == 0 {
        1
    } else {
        sum_fact((k - 1) as nat) + fact(k)
    }
}

/// The number of ordered selections (of any length, the empty one
/// included) from `m` distinct items: the number of default-tail shapes
/// for `m` defaulted parameters.
pub open spec fn arrangement_count(m: nat) -> nat
    decreases m,
{
    if m == 0 {
        1
    } else {
        1 + m * arrangement_count((m - 1) as nat)
    }
}

/// Partial sum `fact(k) + fact(k-1) + ... + fact(k-i+1)`: the shapes
/// contributed by the first `i` positional prefix lengths of a required
/// tail of length `k`.
pub open spec fn sum_fact_prefix(k: nat, i: nat) -> nat
    decreases i,
{
    if i == 0 {
        0
    } else {
        sum_fact_prefix(k, (i - 1) as nat) + fact((k - (i - 1)) as nat)
    }
}

proof fn lemma_sum_fact_prefix_step(k: nat, i: nat)
    requires
        i <= k + 1,
    ensures
        sum_fact_prefix(k, i) + (if i <= k {
            sum_fact((k - i) as nat)
        } else {
            0
        }) == sum_fact(k),
    decreases i,
{
    if i > 0 {
        lemma_sum_fact_prefix_step(k, (i - 1) as nat);
    }
}

/// Walking every positional prefix length from `0` to `k` contributes
/// `sum_fact(k)` shapes in all.
pub proof fn lemma_sum_fact_prefix_total(k: nat)
    ensures
        sum_fact_prefix(k, k + 1) == sum_fact(k),
{
    lemma_sum_fact_prefix_step(k, k + 1);
}

/// The total shape count: required-tail count times default-tail count,
/// the default tail contributing one trivial factor when it is empty.
pub open spec fn shape_count(k: nat, m: nat) -> nat {
    sum_fact(k) * (if m == 0 {
        1
    } else {
        arrangement_count(m)
    })
}

/// There is at least one arrangement (the empty selection), so a
/// non-empty default tail always yields shapes.
pub proof fn lemma_arrangement_count_pos(m: nat)
    ensures
        arrangement_count(m) >= 1,
    decreases m,
{
    if m > 0 {
        lemma_arrangement_count_pos((m - 1) as nat);
        assert(m * arrangement_count((m - 1) as nat) >= 0);
    }
}

} // verus!
