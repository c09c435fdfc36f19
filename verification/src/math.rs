//! Proportional arithmetic on token amounts: `floor(a * b / c)` without
//! intermediate overflow, and the facts about it that the ledger relies on.

use vstd::prelude::*;

verus! {

/// `floor(a * b / c)` over the natural numbers (`c > 0`).
pub open spec fn mul_div_floor(a: nat, b: nat, c: nat) -> nat {
    (a * b) / c
}

/// `mul_div_floor(a, b, c)` is the one `q` with `q * c <= a * b < (q + 1) * c`.
pub proof fn lemma_mul_div_floor_bounds(a: nat, b: nat, c: nat)
    requires
        c > 0,
    ensures
        mul_div_floor(a, b, c) * c <= a * b,
        a * b < (mul_div_floor(a, b, c) + 1) * c,
{
    let n = a * b;
    assert((n / c) * c <= n && n < (n / c + 1) * c) by (nonlinear_arith)
        requires
            c > 0,
            n >= 0,
    ;
}

/// Any `q` with `q * c <= a * b < (q + 1) * c` is `mul_div_floor(a, b, c)`.
pub proof fn lemma_mul_div_floor_unique(a: nat, b: nat, c: nat, q: nat)
    requires
        c > 0,
        q * c <= a * b,
        a * b < (q + 1) * c,
    ensures
        mul_div_floor(a, b, c) == q,
{
    let n = a * b;
    assert(n / c == q) by (nonlinear_arith)
        requires
            c > 0,
            q * c <= n,
            n < (q + 1) * c,
    ;
}

/// A part of the whole gets at most the whole supply: `a <= c` gives
/// `mul_div_floor(a, b, c) <= b`, with equality when `a == c`.
pub proof fn lemma_mul_div_floor_le(a: nat, b: nat, c: nat)
    requires
        c > 0,
        a <= c,
    ensures
        mul_div_floor(a, b, c) <= b,
        a == c ==> mul_div_floor(a, b, c) == b,
        a < c && b > 0 ==> mul_div_floor(a, b, c) < b,
{
    lemma_mul_div_floor_bounds(a, b, c);
    let q = mul_div_floor(a, b, c);
    assert(q <= b) by (nonlinear_arith)
        requires
            c > 0,
            a <= c,
            q * c <= a * b,
    ;
    if a == c {
        assert(q >= b) by (nonlinear_arith)
            requires
                c > 0,
                a == c,
                a * b < (q + 1) * c,
        ;
    }
    if a < c && b > 0 {
        assert(q < b) by (nonlinear_arith)
            requires
                c > 0,
                a < c,
                b > 0,
                q * c <= a * b,
        ;
    }
}

/// Computes `floor(a * b / c)` in 128-bit arithmetic, where it always fits.
pub fn mul_div_wide(a: u64, b: u64, c: u64) -> (q: u128)
    requires
        c > 0,
    ensures
        q == mul_div_floor(a as nat, b as nat, c as nat),
{
    assert(a * b <= 0xFFFF_FFFF_FFFF_FFFF * 0xFFFF_FFFF_FFFF_FFFF) by (nonlinear_arith)
        requires
            0 <= a <= 0xFFFF_FFFF_FFFF_FFFF,
            0 <= b <= 0xFFFF_FFFF_FFFF_FFFF,
    ;
    let wide: u128 = (a as u128) * (b as u128);
    wide / (c as u128)
}

/// Computes `floor(a * b / c)`.
///
/// Returns `None` exactly when the quotient does not fit in 64 bits.
pub fn mul_div(a: u64, b: u64, c: u64) -> (r: Option<u64>)
    requires
        c > 0,
    ensures
        match r {
            Some(q) => q == mul_div_floor(a as nat, b as nat, c as nat),
            None => mul_div_floor(a as nat, b as nat, c as nat) > u64::MAX,
        },
{
    let q: u128 = mul_div_wide(a, b, c);
    if q > u64::MAX as u128 {
        None
    } else {
        Some(q as u64)
    }
}

} // verus!
