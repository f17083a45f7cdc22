//! Fixed-point numbers with twelve decimals.
//!
//! Dollars, prices, share counts and fractions are all held as a whole number of
//! units of the twelfth decimal: [`ONE`] stands for 1. Sums and comparisons are
//! exact; a product or a quotient is rounded down to the next unit.
use vstd::arithmetic::div_mod::lemma_hoist_over_denominator;
use vstd::math::{max, min};
use vstd::prelude::*;
use vstd::string::*;

use crate::text::{pad_zeros, zero_padded};

verus! {

/// A number with twelve decimals.
pub type Fixed = i128;

/// The number 1.
pub const ONE: i128 = 1_000_000_000_000;

/// One hundredth: a cent, or one percent.
pub const CENT: i128 = 10_000_000_000;

/// The largest amount that a portfolio may hold in one place: a billion.
pub const LIMIT: i128 = 1_000_000_000_000_000_000_000;

/// The largest rule parameter: a thousand, that is 100000 %.
pub const FRACTION_LIMIT: i128 = 1_000_000_000_000_000;

/// The largest number that the rules reckon with: 10^18.
pub const WIDE: i128 = 1_000_000_000_000_000_000_000_000_000_000;

/// The largest number that is held: 10^25. A number past it counts as this one.
pub const FAR: i128 = 10_000_000_000_000_000_000_000_000_000_000_000_000;

/// `x` lies within `[-bound, bound]`.
pub open spec fn within(x: int, bound: int) -> bool {
    -bound <= x <= bound
}

/// The absolute value.
pub open spec fn magnitude(x: int) -> int {
    if x < 0 {
        -x
    } else {
        x
    }
}

/// Whether `x` lies within `[-bound, bound]`.
pub fn is_within(x: Fixed, bound: Fixed) -> (r: bool)
    requires
        0 <= bound,
    ensures
        r == within(x as int, bound as int),
{
    -bound <= x && x <= bound
}

/// The larger of two numbers.
pub fn larger(a: Fixed, b: Fixed) -> (r: Fixed)
    ensures
        r == max(a as int, b as int),
{
    if a >= b {
        a
    } else {
        b
    }
}

/// The smaller of two numbers.
pub fn smaller(a: Fixed, b: Fixed) -> (r: Fixed)
    ensures
        r == min(a as int, b as int),
{
    if a <= b {
        a
    } else {
        b
    }
}

/// `x` brought into the range of the numbers that are held.
pub open spec fn bounded(x: int) -> int {
    max(-FAR, min(FAR as int, x))
}

/// `x` brought into the range of the numbers that are held.
pub fn bring_in(x: Fixed) -> (r: Fixed)
    ensures
        r == bounded(x as int),
        within(r as int, FAR as int),
{
    larger(-FAR, smaller(FAR, x))
}

/// The quotient rounded down.
pub fn floor_div(a: Fixed, b: Fixed) -> (r: Fixed)
    requires
        0 < b,
    ensures
        r == a as int / b as int,
{
    if a >= 0 {
        a / b
    } else {
        let m: i128 = -(a + 1);
        let q: i128 = m / b;
        proof {
            let (x, d, k) = (a as int, b as int, q as int);
            assert(m as int == d * k + (m as int) % d && 0 <= (m as int) % d < d) by {
                vstd::arithmetic::div_mod::lemma_fundamental_div_mod(m as int, d);
            }
            assert(k <= m) by (nonlinear_arith)
                requires
                    m as int == d * k + (m as int) % d,
                    0 <= (m as int) % d,
                    d >= 1,
                    k >= 0,
            ;
            let rem = d - 1 - (m as int) % d;
            assert(x == (-1 - k) * d + rem) by (nonlinear_arith)
                requires
                    m as int == d * k + (m as int) % d,
                    m == -(x + 1),
                    rem == d - 1 - (m as int) % d,
            ;
            vstd::arithmetic::div_mod::lemma_fundamental_div_mod_converse(x, d, -1 - k, rem);
        }
        -1 - q
    }
}

/// `x` times the fraction `f`.
pub open spec fn times(x: int, f: int) -> int {
    x * f / (ONE as int)
}

/// `x` as a fraction of `d`.
pub open spec fn ratio(x: int, d: int) -> int {
    x * ONE / d
}

/// `x` times the fraction `f`, rounded down.
pub fn portion(x: Fixed, f: Fixed) -> (r: Fixed)
    requires
        within(x as int, WIDE as int),
        within(f as int, 10_000 * FRACTION_LIMIT),
    ensures
        r == times(x as int, f as int),
        within(r as int, 20_000_000_000_000_000_000_000_000_000_000_000_000),
{
    let q: i128 = floor_div(x, ONE);
    proof {
        vstd::arithmetic::div_mod::lemma_fundamental_div_mod(x as int, ONE as int);
    }
    let rest: i128 = x - q * ONE;
    proof {
        assert(within(q as int, 1_000_000_000_000_000_000));
        assert(within(q * f, 10_000_000_000_000_000_000_000_000_000_000_000_000)) by (nonlinear_arith)
            requires
                within(q as int, 1_000_000_000_000_000_000),
                within(f as int, 10_000_000_000_000_000_000),
        ;
        assert(within(rest * f, 10_000_000_000_000_000_000_000_000_000_000)) by (nonlinear_arith)
            requires
                0 <= rest < 1_000_000_000_000,
                within(f as int, 10_000_000_000_000_000_000),
        ;
    }
    let low: i128 = floor_div(rest * f, ONE);
    proof {
        lemma_hoist_over_denominator(rest * f, q * f, ONE as nat);
        assert(rest * f + (q * f) * ONE == x * f) by (nonlinear_arith)
            requires
                x == q * ONE + rest,
        ;
    }
    q * f + low
}

/// `x` as a fraction of `d`, rounded down.
pub fn quotient(x: Fixed, d: Fixed) -> (r: Fixed)
    requires
        within(x as int, 100_000 * LIMIT),
        0 < d,
    ensures
        r == ratio(x as int, d as int),
        within(r as int, 100_000 * LIMIT * ONE),
{
    let r: i128 = floor_div(x * ONE, d);
    proof {
        let (n, e) = ((x * ONE) as int, d as int);
        vstd::arithmetic::div_mod::lemma_fundamental_div_mod(n, e);
        let b = 100_000 * LIMIT * ONE;
        assert(within(r as int, b)) by (nonlinear_arith)
            requires
                n == e * (r as int) + n % e,
                0 <= n % e < e,
                1 <= e,
                within(n, b),
                0 < b,
        ;
    }
    r
}

/// `a` times the fraction `b / d`: the quotient rounded down, and the rest.
fn divided_product(a: Fixed, b: Fixed, d: Fixed) -> (r: (Fixed, Fixed))
    requires
        0 <= a <= WIDE,
        0 <= b <= d,
        0 < d <= 1_000_000 * WIDE,
    ensures
        r.0 * d + r.1 == a * b,
        0 <= r.1 < d,
        0 <= r.0 <= a,
    decreases a,
{
    if a == 0 {
        assert(0 * d + 0 == a * b) by (nonlinear_arith)
            requires
                a == 0,
        ;
        return (0, 0);
    }
    let (q, rest) = divided_product(a / 2, b, d);
    let n: i128 = if a % 2 == 1 {
        2 * rest + b
    } else {
        2 * rest
    };
    let r: (i128, i128) = (2 * q + n / d, n % d);
    proof {
        let (a, b, d, q, rest, n) = (a as int, b as int, d as int, q as int, rest as int, n as int);
        let (x, y) = (r.0 as int, r.1 as int);
        vstd::arithmetic::div_mod::lemma_fundamental_div_mod(n, d);
        assert(n == 2 * rest + (a % 2) * b) by (nonlinear_arith)
            requires
                n == if a % 2 == 1 {
                    2 * rest + b
                } else {
                    2 * rest
                },
        ;
        assert(x * d + y == a * b) by (nonlinear_arith)
            requires
                x == 2 * q + n / d,
                n == d * (n / d) + y,
                n == 2 * rest + (a % 2) * b,
                q * d + rest == (a / 2) * b,
                a == 2 * (a / 2) + a % 2,
        ;
        assert(x <= a) by (nonlinear_arith)
            requires
                x * d + y == a * b,
                0 <= y,
                0 <= a,
                0 <= b <= d,
                0 < d,
        ;
    }
    r
}

/// `a` times the fraction `b / d`, rounded down.
pub fn fraction_of(a: Fixed, b: Fixed, d: Fixed) -> (r: Fixed)
    requires
        0 <= a <= WIDE,
        0 <= b <= d,
        0 < d <= 1_000_000 * WIDE,
    ensures
        r == a * b / d as int,
        0 <= r <= a,
{
    let (q, rest) = divided_product(a, b, d);
    proof {
        vstd::arithmetic::div_mod::lemma_fundamental_div_mod_converse(a * b, d as int, q as int, rest as int);
    }
    q
}

/// `x` as a fraction of the account value `nav`, rounded down.
pub fn share(x: Fixed, nav: Fixed) -> (r: Fixed)
    requires
        within(x as int, 1_000_000 * LIMIT),
        1_000 <= nav <= LIMIT,
    ensures
        r == ratio(x as int, nav as int),
        within(r as int, 1_000_000_000_000_000_000_000_000_000_000_000_000),
{
    let q: i128 = floor_div(x, nav);
    proof {
        let (n, d, k) = (x as int, nav as int, q as int);
        vstd::arithmetic::div_mod::lemma_fundamental_div_mod(n, d);
        let rest = n % d;
        assert(within(k, 1_000_000_000_000_000_000_000_000)) by (nonlinear_arith)
            requires
                n == d * k + rest,
                0 <= rest < d,
                1_000 <= d,
                within(n, 1_000_000_000_000_000_000_000_000_000),
        ;
        assert(within(k * d, 1_000_000_000_000_000_000_000_000_000 + d)) by (nonlinear_arith)
            requires
                n == d * k + rest,
                0 <= rest < d,
                within(n, 1_000_000_000_000_000_000_000_000_000),
        ;
        assert(n - k * d == rest) by (nonlinear_arith)
            requires
                n == d * k + rest,
        ;
        vstd::arithmetic::div_mod::lemma_hoist_over_denominator(rest * ONE, k * ONE, d as nat);
        assert(rest * ONE + (k * ONE) * d == n * ONE) by (nonlinear_arith)
            requires
                n == d * k + rest,
        ;
        let low = rest * ONE / d;
        vstd::arithmetic::div_mod::lemma_fundamental_div_mod(rest * ONE, d);
        assert(0 <= low < 1_000_000_000_000) by (nonlinear_arith)
            requires
                rest * 1_000_000_000_000 == d * low + (rest * 1_000_000_000_000) % d,
                0 <= (rest * 1_000_000_000_000) % d < d,
                0 <= rest < d,
        ;
        assert(n <= 1_000_000_000_000_000_000_000_000_000 ==> k * ONE + low
            <= 1_000_000_000_000_000_000_000_000_000_000_000_000) by {
            if k == 1_000_000_000_000_000_000_000_000 {
                assert(rest == 0) by (nonlinear_arith)
                    requires
                        n == d * k + rest,
                        n <= 1_000_000_000_000_000_000_000_000_000,
                        k == 1_000_000_000_000_000_000_000_000,
                        1_000 <= d,
                        0 <= rest,
                ;
                assert(low == 0);
            }
        }
    }
    let rest: i128 = x - q * nav;
    q * ONE + floor_div(rest * ONE, nav)
}

// ── powers of ten and decimal digits ───────────────────────────────────────

/// Ten to the power `n`.
pub open spec fn pow10(n: nat) -> nat
    decreases n,
{
    if n == 0 {
        1
    } else {
        10 * pow10((n - 1) as nat)
    }
}

/// The character of a digit.
pub open spec fn digit_char(d: nat) -> char {
    (d + 48) as char
}

/// The decimal digits of `n`.
pub open spec fn decimal(n: nat) -> Seq<char>
    decreases n,
{
    if n < 10 {
        seq![digit_char(n)]
    } else {
        decimal(n / 10).push(digit_char(n % 10))
    }
}

/// The decimal digits of `n`.
pub fn decimal_text(n: u128) -> (r: String)
    ensures
        r@ == decimal(n as nat),
    decreases n,
{
    let low: u8 = (n % 10) as u8;
    let c: char = (low + 48) as char;
    if n < 10 {
        let mut s = String::new();
        s.push(c);
        assert(s@ =~= seq![c]);
        s
    } else {
        let mut s = decimal_text(n / 10);
        s.push(c);
        s
    }
}

/// The decimal digits of `x`, with a minus sign when it is negative.
pub open spec fn signed_decimal(x: int) -> Seq<char> {
    if x < 0 {
        "-"@ + decimal((-x) as nat)
    } else {
        decimal(x as nat)
    }
}

/// The decimal digits of `x`, with a minus sign when it is negative.
pub fn integer_text(x: i128) -> (r: String)
    requires
        i128::MIN < x,
    ensures
        r@ == signed_decimal(x as int),
{
    if x < 0 {
        let mut s = "-".to_owned();
        s.append(decimal_text((-x) as u128).as_str());
        s
    } else {
        decimal_text(x as u128)
    }
}

/// `n` divided by `unit`, rounded to the nearest whole number, a tie to the even one.
pub open spec fn half_even(n: nat, unit: nat) -> nat {
    let q = n / unit;
    let r = n % unit;
    if 2 * r < unit {
        q
    } else if 2 * r > unit {
        q + 1
    } else {
        q + q % 2
    }
}

/// `n` divided by `unit`, rounded to the nearest whole number, a tie to the even one.
pub fn round_half_even(n: u128, unit: u128) -> (r: u128)
    requires
        0 < unit <= ONE,
        n < u128::MAX,
    ensures
        r == half_even(n as nat, unit as nat),
{
    let q: u128 = n / unit;
    let rest: u128 = n % unit;
    proof {
        vstd::arithmetic::div_mod::lemma_fundamental_div_mod(n as int, unit as int);
        assert(q <= n) by (nonlinear_arith)
            requires
                n as int == unit * q + rest,
                1 <= unit,
                0 <= rest,
                0 <= q,
        ;
    }
    if 2 * rest < unit {
        q
    } else if 2 * rest > unit {
        q + 1
    } else {
        q + q % 2
    }
}

/// The size of one step in the last of `digits` decimals.
pub open spec fn step(digits: nat) -> nat {
    pow10((12 - digits) as nat)
}

/// Ten to the power `n`.
pub fn ten_to(n: usize) -> (r: u128)
    requires
        n <= 12,
    ensures
        r == pow10(n as nat),
        1 <= r <= ONE,
{
    let mut r: u128 = 1;
    let mut i: usize = 0;
    while i < n
        invariant
            i <= n <= 12,
            r == pow10(i as nat),
        decreases n - i,
    {
        proof {
            reveal_with_fuel(pow10, 13);
        }
        i += 1;
        assert(pow10(i as nat) == 10 * pow10((i - 1) as nat));
        r = 10 * r;
    }
    proof {
        reveal_with_fuel(pow10, 13);
    }
    r
}

/// The sign in front of a number: `-` when it is negative, otherwise `+` or nothing.
pub open spec fn sign_text(x: int, plus: bool) -> Seq<char> {
    if x < 0 {
        "-"@
    } else if plus {
        "+"@
    } else {
        ""@
    }
}

/// `x` written with `digits` decimals, rounded half to even. `plus` asks for a
/// sign in front of a number that is not negative.
pub open spec fn rendered(x: int, digits: nat, plus: bool) -> Seq<char> {
    let n = half_even(magnitude(x) as nat, step(digits));
    let whole = sign_text(x, plus) + decimal(n / pow10(digits));
    if digits == 0 {
        whole
    } else {
        whole + "."@ + zero_padded(decimal(n % pow10(digits)), digits)
    }
}

/// `x` written with `digits` decimals.
pub fn render(x: Fixed, digits: usize, plus: bool) -> (r: String)
    requires
        digits <= 12,
        i128::MIN < x,
    ensures
        r@ == rendered(x as int, digits as nat, plus),
{
    let size: u128 = if x < 0 {
        (-x) as u128
    } else {
        x as u128
    };
    let n: u128 = round_half_even(size, ten_to(12 - digits));
    let mut s = if x < 0 {
        "-".to_owned()
    } else if plus {
        "+".to_owned()
    } else {
        "".to_owned()
    };
    let unit: u128 = ten_to(digits);
    s.append(decimal_text(n / unit).as_str());
    if digits > 0 {
        s.append(".");
        s.append(pad_zeros(decimal_text(n % unit).as_str(), digits).as_str());
    } else {
        assert(s@ =~= sign_text(x as int, plus) + decimal((n / unit) as nat));
    }
    s
}

/// `x` in percent with `digits` decimals.
pub open spec fn percent(x: int, digits: nat, plus: bool) -> Seq<char> {
    rendered(100 * x, digits, plus)
}

/// `x` in percent with `digits` decimals.
pub fn percent_text(x: Fixed, digits: usize, plus: bool) -> (r: String)
    requires
        digits <= 12,
        within(x as int, 1_500_000_000_000_000_000_000_000_000_000_000_000),
    ensures
        r@ == percent(x as int, digits as nat, plus),
{
    render(100 * x, digits, plus)
}

} // verus!
