//! Saturating arithmetic and rounding, stated over integers.

use vstd::prelude::*;

verus! {

/// The sum, or the largest value where it does not fit.
pub open spec fn sat_add(a: u64, b: u64) -> u64 {
    if a + b > u64::MAX {
        u64::MAX
    } else {
        (a + b) as u64
    }
}

/// The difference, or zero where it is negative.
pub open spec fn sat_sub(a: u64, b: u64) -> u64 {
    if a < b {
        0
    } else {
        (a - b) as u64
    }
}

/// The product, or the largest value where it does not fit.
pub open spec fn sat_mul(a: u64, b: u64) -> u64 {
    if a * b > u64::MAX {
        u64::MAX
    } else {
        (a * b) as u64
    }
}

/// The smaller of two numbers.
pub open spec fn least(a: u64, b: u64) -> u64 {
    if a <= b {
        a
    } else {
        b
    }
}

/// The larger of two numbers.
pub open spec fn greatest(a: u64, b: u64) -> u64 {
    if a <= b {
        b
    } else {
        a
    }
}

/// The product, or the largest value where it does not fit.
pub fn saturating_mul(a: u64, b: u64) -> (r: u64)
    ensures
        r == sat_mul(a, b),
{
    match a.checked_mul(b) {
        Some(p) => p,
        None => u64::MAX,
    }
}

/// The smaller of two numbers.
pub fn smaller(a: u64, b: u64) -> (r: u64)
    ensures
        r == least(a, b),
{
    if a <= b {
        a
    } else {
        b
    }
}

/// The larger of two numbers.
pub fn larger(a: u64, b: u64) -> (r: u64)
    ensures
        r == greatest(a, b),
{
    if a <= b {
        b
    } else {
        a
    }
}

/// The least multiple of `unit` that is not below `n`.
pub open spec fn round_up(n: int, unit: int) -> int {
    ((n + unit - 1) / unit) * unit
}

/// `round_up` gives a multiple of the unit, at least the argument and less than
/// one unit above it.
pub proof fn lemma_round_up(n: int, unit: int)
    requires
        0 <= n,
        0 < unit,
    ensures
        n <= round_up(n, unit) < n + unit,
        round_up(n, unit) % unit == 0,
        n % unit == 0 ==> round_up(n, unit) == n,
{
    let m = n + unit - 1;
    vstd::arithmetic::div_mod::lemma_fundamental_div_mod(m, unit);
    vstd::arithmetic::mul::lemma_mul_is_commutative(unit, m / unit);
    vstd::arithmetic::div_mod::lemma_mod_bound(m, unit);
    vstd::arithmetic::div_mod::lemma_mod_multiples_basic(m / unit, unit);
    if n % unit == 0 {
        vstd::arithmetic::div_mod::lemma_fundamental_div_mod(n, unit);
        let q = n / unit;
        assert(m / unit == q) by {
            vstd::arithmetic::div_mod::lemma_fundamental_div_mod_converse(m, unit, q, unit - 1);
        }
        vstd::arithmetic::mul::lemma_mul_is_commutative(unit, q);
    }
}

} // verus!
