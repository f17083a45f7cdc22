//! Decimal rounding, half to even.
use vstd::prelude::*;

use crate::fixed::{half_even, magnitude, round_half_even, step, ten_to, within, Fixed, FAR};

verus! {

/// `x` rounded to `digits` decimals, a tie to the even last digit.
pub open spec fn rounded(x: int, digits: nat) -> int {
    let size = half_even(magnitude(x) as nat, step(digits)) * step(digits);
    if x < 0 {
        -(size as int)
    } else {
        size as int
    }
}

/// Rounding moves a number by at most half a step.
pub proof fn rounded_is_near(x: int, digits: nat)
    requires
        digits <= 12,
    ensures
        2 * magnitude(rounded(x, digits) - x) <= step(digits),
{
    let n = magnitude(x) as nat;
    let u = step(digits);
    crate::numerals::pow10_positive((12 - digits) as nat);
    let q = n / u;
    let r = n % u;
    assert(n == q * u + r && 0 <= r < u) by {
        vstd::arithmetic::div_mod::lemma_fundamental_div_mod(n as int, u as int);
        assert(u * q == q * u) by (nonlinear_arith);
    }
    assert((q + 1) * u == q * u + u) by (nonlinear_arith);
    assert(half_even(n, u) == q || half_even(n, u) == q + 1);
}

/// A rounded number stays as it is when it is rounded again.
pub proof fn rounding_twice_is_rounding_once(x: int, digits: nat)
    requires
        digits <= 12,
    ensures
        rounded(rounded(x, digits), digits) == rounded(x, digits),
{
    let u = step(digits);
    crate::numerals::pow10_positive((12 - digits) as nat);
    let q = half_even(magnitude(x) as nat, u);
    let n = q * u;
    assert(n >= 0) by (nonlinear_arith)
        requires
            n == q * u,
    ;
    assert(magnitude(rounded(x, digits)) == n);
    vstd::arithmetic::div_mod::lemma_div_multiples_vanish(q as int, u as int);
    vstd::arithmetic::div_mod::lemma_mod_multiples_basic(q as int, u as int);
    assert(u * q == q * u) by (nonlinear_arith);
    assert(n / u == q && n % u == 0);
    if n == 0 {
        assert(rounded(x, digits) == 0);
    }
}

/// `x` rounded to `digits` decimals, a tie to the even last digit.
pub fn pyround(x: Fixed, digits: usize) -> (r: Fixed)
    requires
        digits <= 12,
        within(x as int, 2 * FAR),
    ensures
        r == rounded(x as int, digits as nat),
        within(r as int, 3 * FAR),
{
    let unit: u128 = ten_to(12 - digits);
    let size: u128 = if x < 0 {
        (-x) as u128
    } else {
        x as u128
    };
    let q: u128 = round_half_even(size, unit);
    proof {
        rounded_is_near(x as int, digits as nat);
        assert(q * unit >= 0) by (nonlinear_arith);
    }
    let n: i128 = (q * unit) as i128;
    if x < 0 {
        -n
    } else {
        n
    }
}

} // verus!
