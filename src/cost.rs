//! Cost arithmetic.
//!
//! Costs are exact non-negative integers in specifications. At run time they
//! are `u64` values that saturate at `u64::MAX`, which keeps every estimate an
//! upper bound of the exact one as long as it fits.
use vstd::prelude::*;

verus! {

/// The exact cost `x`, saturated into `u64`.
pub open spec fn capped(x: nat) -> u64 {
    if x > u64::MAX {
        u64::MAX
    } else {
        x as u64
    }
}

/// The larger of two exact costs.
pub open spec fn max_nat(a: nat, b: nat) -> nat {
    if a >= b {
        a
    } else {
        b
    }
}

/// Saturating addition of two costs.
pub fn add_cost(a: u64, b: u64) -> (r: u64)
    ensures
        r == capped((a + b) as nat),
{
    a.saturating_add(b)
}

/// Saturating multiplication of two costs.
pub fn mul_cost(a: u64, b: u64) -> (r: u64)
    ensures
        r == capped((a * b) as nat),
{
    match a.checked_mul(b) {
        Some(p) => p,
        None => u64::MAX,
    }
}

/// Saturating first and adding afterwards gives the saturated exact sum.
pub proof fn lemma_capped_add(x: nat, y: nat)
    ensures
        capped((capped(x) + capped(y)) as nat) == capped(x + y),
{
}

/// Saturating first and multiplying afterwards gives the saturated exact product.
pub proof fn lemma_capped_mul(x: nat, y: nat)
    ensures
        capped((capped(x) * capped(y)) as nat) == capped(x * y),
{
    let m = u64::MAX as nat;
    if x == 0 || y == 0 {
        assert(x * y == 0) by (nonlinear_arith)
            requires
                x == 0 || y == 0,
        ;
        assert(capped(x) * capped(y) == 0) by (nonlinear_arith)
            requires
                capped(x) == 0 || capped(y) == 0,
        ;
    } else if x > m {
        assert(x * y >= x) by (nonlinear_arith)
            requires
                y >= 1,
        ;
        let cy = capped(y) as nat;
        assert(m * cy >= m) by (nonlinear_arith)
            requires
                cy >= 1,
        ;
    } else if y > m {
        assert(x * y >= y) by (nonlinear_arith)
            requires
                x >= 1,
        ;
        let cx = capped(x) as nat;
        assert(cx * m >= m) by (nonlinear_arith)
            requires
                cx >= 1,
        ;
    }
}

/// The larger of two saturated costs is the saturated larger cost.
pub proof fn lemma_capped_max(x: nat, y: nat)
    ensures
        (if capped(x) >= capped(y) { capped(x) } else { capped(y) }) == capped(max_nat(x, y)),
{
}

} // verus!

verus! {

/// Adding to a saturated cost saturates the exact sum.
pub proof fn lemma_capped_add_left(x: nat, y: nat)
    ensures
        capped((capped(x) + y) as nat) == capped(x + y),
{
}

} // verus!
