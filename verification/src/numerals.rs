//! Numbers read from text: whole numbers, and decimals with an optional exponent.
use vstd::math::{max, min};
use vstd::prelude::*;

use crate::fixed::{pow10, Fixed, FAR};
use crate::text::chars_of;

verus! {

/// `c` is one of `0` to `9`.
pub open spec fn is_digit(c: char) -> bool {
    '0' <= c <= '9'
}

/// The value of a digit.
pub open spec fn digit_value(c: char) -> nat {
    (c as int - 48) as nat
}

/// How many characters at the front of `s` are digits.
pub open spec fn digit_run(s: Seq<char>) -> nat
    decreases s.len(),
{
    if s.len() > 0 && is_digit(s[0]) {
        1 + digit_run(s.drop_first())
    } else {
        0
    }
}

/// Every character of `s` is a digit.
pub open spec fn all_digits(s: Seq<char>) -> bool {
    forall|i: int| 0 <= i < s.len() ==> is_digit(#[trigger] s[i])
}

/// The number that a run of digits denotes.
pub open spec fn digits_value(s: Seq<char>) -> nat
    decreases s.len(),
{
    if s.len() == 0 {
        0
    } else {
        10 * digits_value(s.drop_last()) + digit_value(s.last())
    }
}

/// A leading sign, and what follows it.
pub open spec fn signed_tail(s: Seq<char>, minus: bool) -> (bool, Seq<char>) {
    if s.len() > 0 && s[0] == '+' {
        (false, s.drop_first())
    } else if s.len() > 0 && s[0] == '-' && minus {
        (true, s.drop_first())
    } else {
        (false, s)
    }
}

/// The whole number that `s` denotes: digits behind an optional `+`, or behind
/// an optional `-` where `minus` allows one.
pub open spec fn whole_value(s: Seq<char>, minus: bool) -> Option<int> {
    let (negative, digits) = signed_tail(s, minus);
    if digits.len() == 0 || !all_digits(digits) {
        None
    } else if negative {
        Some(-(digits_value(digits) as int))
    } else {
        Some(digits_value(digits) as int)
    }
}

/// The exponent behind the mantissa: nothing, or `e` and a whole number.
pub open spec fn exponent_value(s: Seq<char>) -> Option<int> {
    if s.len() == 0 {
        Some(0)
    } else if s[0] == 'e' || s[0] == 'E' {
        whole_value(s.drop_first(), true)
    } else {
        None
    }
}

/// `n` times ten to the power `p`, without what lies behind the point.
pub open spec fn shifted(n: nat, p: int) -> nat {
    if p >= 0 {
        n * pow10(p as nat)
    } else {
        n / pow10((-p) as nat)
    }
}

/// The unsigned decimal that `s` denotes, in units of the twelfth decimal:
/// digits, an optional point and more digits, an optional exponent. At least one
/// digit stands in front of the exponent. Decimals behind the twelfth are cut off.
pub open spec fn unsigned_value(s: Seq<char>) -> Option<nat> {
    let before = digit_run(s) as int;
    let rest = s.skip(before);
    let point = rest.len() > 0 && rest[0] == '.';
    let behind = if point {
        digit_run(rest.skip(1)) as int
    } else {
        0
    };
    let fraction = if point {
        rest.subrange(1, 1 + behind)
    } else {
        seq![]
    };
    let tail = if point {
        rest.skip(1 + behind)
    } else {
        rest
    };
    match exponent_value(tail) {
        Some(e) if before + behind > 0 => Some(
            shifted(digits_value(s.take(before) + fraction), 12 + e - behind),
        ),
        _ => None,
    }
}

/// `s` is a word, given in lower and in upper case, with each letter in either case.
pub open spec fn spells(s: Seq<char>, lower: Seq<char>, upper: Seq<char>) -> bool {
    &&& s.len() == lower.len()
    &&& forall|i: int| 0 <= i < s.len() ==> #[trigger] s[i] == lower[i] || s[i] == upper[i]
}

/// `s` is a word for infinity.
pub open spec fn is_infinite(s: Seq<char>) -> bool {
    spells(s, "inf"@, "INF"@) || spells(s, "infinity"@, "INFINITY"@)
}

/// The decimal that `s` denotes. One past the largest number that is held counts as
/// that one, and so does infinity.
pub open spec fn decimal_value(s: Seq<char>) -> Option<int> {
    let (negative, body) = signed_tail(s, true);
    let size = if is_infinite(body) {
        Some(FAR as int)
    } else {
        match unsigned_value(body) {
            Some(n) => Some(min(n as int, FAR as int)),
            None => None,
        }
    };
    match size {
        Some(n) => Some(
            if negative {
                -n
            } else {
                n
            },
        ),
        None => None,
    }
}

// ── facts about digit runs ─────────────────────────────────────────────────

proof fn digit_run_bounds(s: Seq<char>)
    ensures
        digit_run(s) <= s.len(),
        all_digits(s.take(digit_run(s) as int)),
        digit_run(s) < s.len() ==> !is_digit(s[digit_run(s) as int]),
    decreases s.len(),
{
    if s.len() > 0 && is_digit(s[0]) {
        let t = s.drop_first();
        digit_run_bounds(t);
        let n = digit_run(s) as int;
        assert forall|i: int| 0 <= i < n implies is_digit(#[trigger] s.take(n)[i]) by {
            if i > 0 {
                assert(s.take(n)[i] == t.take(n - 1)[i - 1]);
            }
        }
        if digit_run(t) < t.len() {
            assert(s[n] == t[n - 1]);
        }
    }
}

proof fn digits_value_prefix(s: Seq<char>, n: int)
    requires
        0 <= n <= s.len(),
    ensures
        digits_value(s.take(n)) <= digits_value(s),
    decreases s.len(),
{
    if n < s.len() {
        assert(s.drop_last().take(n) =~= s.take(n));
        digits_value_prefix(s.drop_last(), n);
    } else {
        assert(s.take(n) =~= s);
    }
}

/// A power of ten is positive.
pub proof fn pow10_positive(n: nat)
    ensures
        pow10(n) >= 1,
    decreases n,
{
    if n > 0 {
        pow10_positive((n - 1) as nat);
    }
}

/// Cutting `k` digits off the end divides by ten to the power `k`.
proof fn digits_value_cut(s: Seq<char>, k: nat)
    requires
        all_digits(s),
        k <= s.len(),
    ensures
        digits_value(s) / pow10(k) == digits_value(s.take(s.len() - k)),
    decreases k,
{
    if k == 0 {
        assert(s.take(s.len() as int) =~= s);
        vstd::arithmetic::div_mod::lemma_div_basics(digits_value(s) as int);
    } else {
        let t = s.drop_last();
        let j = (k - 1) as nat;
        assert forall|i: int| 0 <= i < t.len() implies is_digit(#[trigger] t[i]) by {
            assert(t[i] == s[i]);
        }
        digits_value_cut(t, j);
        assert(t.take(t.len() - j) =~= s.take(s.len() - k));
        pow10_positive(j);
        let v = digits_value(s) as int;
        assert(is_digit(s.last()));
        assert(v / 10 == digits_value(t)) by {
            assert(digit_value(s.last()) < 10);
        }
        vstd::arithmetic::div_mod::lemma_div_denominator(v, 10, pow10(j) as int);
    }
}

/// `n` digits denote less than ten to the power `n`.
pub proof fn digits_value_bound(s: Seq<char>)
    requires
        all_digits(s),
    ensures
        digits_value(s) < pow10(s.len()),
    decreases s.len(),
{
    if s.len() > 0 {
        let t = s.drop_last();
        assert forall|i: int| 0 <= i < t.len() implies is_digit(#[trigger] t[i]) by {
            assert(t[i] == s[i]);
        }
        digits_value_bound(t);
        assert(is_digit(s.last()));
    }
}

/// Powers of ten grow.
pub proof fn pow10_monotonic(a: nat, b: nat)
    requires
        a <= b,
    ensures
        pow10(a) <= pow10(b),
    decreases b,
{
    if a < b {
        pow10_monotonic(a, (b - 1) as nat);
    }
}

/// Shifting a run of digits to the right drops its last digits.
proof fn shifted_right(s: Seq<char>, p: int)
    requires
        all_digits(s),
        p < 0,
    ensures
        shifted(digits_value(s), p) == digits_value(
            s.take(if s.len() + p > 0 {
                s.len() + p
            } else {
                0
            }),
        ),
{
    if s.len() + p >= 0 {
        digits_value_cut(s, (-p) as nat);
    } else {
        digits_value_bound(s);
        pow10_monotonic(s.len(), (-p) as nat);
        assert(s.take(0).len() == 0);
        vstd::arithmetic::div_mod::lemma_basic_div(
            digits_value(s) as int,
            pow10((-p) as nat) as int,
        );
    }
}

// ── reading ────────────────────────────────────────────────────────────────

fn run_of_digits(v: &Vec<char>, from: usize) -> (to: usize)
    requires
        from <= v@.len(),
    ensures
        from <= to <= v@.len(),
        to == from + digit_run(v@.skip(from as int)),
{
    let mut i: usize = from;
    while i < v.len() && '0' <= v[i] && v[i] <= '9'
        invariant
            from <= i <= v@.len(),
            digit_run(v@.skip(from as int)) == (i - from) + digit_run(v@.skip(i as int)),
        decreases v@.len() - i,
    {
        assert(v@.skip(i as int).drop_first() == v@.skip(i + 1));
        assert(v@.skip(i as int)[0] == v@[i as int]);
        i += 1;
    }
    if i < v.len() {
        assert(v@.skip(i as int)[0] == v@[i as int]);
    }
    i
}

/// The number that the digits `v[from..to]` denote, unless it passes `bound`.
fn bounded_digits(v: &Vec<char>, from: usize, to: usize, bound: u128) -> (r: Option<u128>)
    requires
        from <= to <= v@.len(),
        all_digits(v@.subrange(from as int, to as int)),
        bound <= FAR,
    ensures
        match r {
            Some(n) => n == digits_value(v@.subrange(from as int, to as int)) && n <= bound,
            None => digits_value(v@.subrange(from as int, to as int)) > bound,
        },
{
    let ghost all = v@.subrange(from as int, to as int);
    let mut n: u128 = 0;
    let mut i: usize = from;
    assert(all.take(0).len() == 0);
    while i < to
        invariant
            from <= i <= to <= v@.len(),
            all == v@.subrange(from as int, to as int),
            all_digits(all),
            bound <= FAR,
            n <= bound,
            n == digits_value(all.take(i - from)),
        decreases to - i,
    {
        let c: char = v[i];
        assert(c == all[i - from]);
        let d: u128 = c as u128 - 48;
        let ghost next = all.take(i - from + 1);
        assert(next.drop_last() == all.take(i - from));
        n = 10 * n + d;
        assert(n == digits_value(next));
        if n > bound {
            proof {
                digits_value_prefix(all, i - from + 1);
            }
            return None;
        }
        i += 1;
    }
    assert(all.take(to - from) == all);
    Some(n)
}

fn digits_only(v: &Vec<char>, from: usize, to: usize) -> (r: bool)
    requires
        from <= to <= v@.len(),
    ensures
        r == all_digits(v@.subrange(from as int, to as int)),
{
    let ghost all = v@.subrange(from as int, to as int);
    let mut i: usize = from;
    while i < to
        invariant
            from <= i <= to <= v@.len(),
            all == v@.subrange(from as int, to as int),
            forall|j: int| 0 <= j < i - from ==> is_digit(#[trigger] all[j]),
        decreases to - i,
    {
        assert(all[i - from] == v@[i as int]);
        if !('0' <= v[i] && v[i] <= '9') {
            return false;
        }
        i += 1;
    }
    true
}

/// The whole number that `v[from..to]` denotes, when it fits in 64 bits.
pub fn read_whole(v: &Vec<char>, from: usize, to: usize, minus: bool) -> (r: Option<i64>)
    requires
        from <= to <= v@.len(),
    ensures
        match whole_value(v@.subrange(from as int, to as int), minus) {
            Some(n) => if i64::MIN <= n <= i64::MAX {
                r == Some(n as i64)
            } else {
                r is None
            },
            None => r is None,
        },
{
    let ghost all = v@.subrange(from as int, to as int);
    let mut start: usize = from;
    let mut negative: bool = false;
    if from < to {
        assert(all[0] == v@[from as int]);
        if v[from] == '+' {
            start = from + 1;
        } else if v[from] == '-' && minus {
            start = from + 1;
            negative = true;
        }
    }
    assert(v@.subrange(start as int, to as int) == signed_tail(all, minus).1);
    if start == to || !digits_only(v, start, to) {
        return None;
    }
    let top: u128 = 9_223_372_036_854_775_808;
    match bounded_digits(v, start, to, top) {
        Some(n) => {
            if negative {
                Some((-(n as i128)) as i64)
            } else if n < top {
                Some(n as i64)
            } else {
                None
            }
        },
        None => None,
    }
}

/// The whole number that `s` denotes, when it fits in 64 bits.
pub fn parse_whole(s: &str) -> (r: Option<i64>)
    ensures
        match whole_value(s@, true) {
            Some(n) => if i64::MIN <= n <= i64::MAX {
                r == Some(n as i64)
            } else {
                r is None
            },
            None => r is None,
        },
{
    let v = chars_of(s);
    assert(v@.subrange(0, v@.len() as int) == v@);
    read_whole(&v, 0, v.len(), true)
}

/// `n` with `p` zeros behind it, unless that passes `FAR`.
fn scaled_up(n: u128, p: i128) -> (r: Option<u128>)
    requires
        n <= FAR,
        0 <= p,
    ensures
        match r {
            Some(m) => m == n * pow10(p as nat) && m <= FAR,
            None => n * pow10(p as nat) > FAR,
        },
{
    if n == 0 {
        return Some(0);
    }
    let mut m: u128 = n;
    let mut i: i128 = 0;
    assert(n * pow10(0) == n) by (nonlinear_arith)
        requires
            pow10(0) == 1,
    ;
    while i < p
        invariant
            0 <= i <= p,
            0 < m <= FAR,
            m == n * pow10(i as nat),
        decreases p - i,
    {
        proof {
            let (a, b) = (pow10(i as nat) as int, pow10((i + 1) as nat) as int);
            assert(b == 10 * a);
            assert(n * b == 10 * (n * a)) by (nonlinear_arith)
                requires
                    b == 10 * a,
            ;
            if 10 * m > FAR {
                pow10_monotonic((i + 1) as nat, p as nat);
                let c = pow10(p as nat) as int;
                assert(n * c >= n * b) by (nonlinear_arith)
                    requires
                        c >= b,
                        n >= 0,
                ;
            }
        }
        m = 10 * m;
        if m > FAR as u128 {
            return None;
        }
        i += 1;
    }
    Some(m)
}

/// The largest exponent that is told apart from a larger one.
pub const MOST_EXPONENT: i128 = 1_000_000_000_000_000_000_000_000_000_000;

/// The exponent that `v[from..]` denotes; one that is past every text's length counts
/// as the largest.
fn read_exponent(v: &Vec<char>, from: usize) -> (r: Option<i128>)
    requires
        from <= v@.len(),
    ensures
        match exponent_value(v@.skip(from as int)) {
            Some(e) => r matches Some(x) && x == max(-MOST_EXPONENT, min(MOST_EXPONENT as int, e)),
            None => r is None,
        },
{
    let ghost tail = v@.skip(from as int);
    if from == v.len() {
        return Some(0);
    }
    assert(tail[0] == v@[from as int]);
    if v[from] != 'e' && v[from] != 'E' {
        return None;
    }
    let n: usize = v.len();
    let ghost body = tail.drop_first();
    assert(body == v@.subrange(from + 1, n as int));
    let mut start: usize = from + 1;
    let mut negative: bool = false;
    if start < n {
        assert(body[0] == v@[start as int]);
        if v[start] == '+' {
            start += 1;
        } else if v[start] == '-' {
            start += 1;
            negative = true;
        }
    }
    assert(v@.subrange(start as int, n as int) == signed_tail(body, true).1);
    if start == n || !digits_only(v, start, n) {
        return None;
    }
    let size: i128 = match bounded_digits(v, start, n, MOST_EXPONENT as u128) {
        Some(x) => x as i128,
        None => MOST_EXPONENT,
    };
    Some(
        if negative {
            -size
        } else {
            size
        },
    )
}

/// A shift past the length of the digits leaves nothing, or more than is held: how far
/// past does not matter.
proof fn far_shifts(digits: Seq<char>, p: int, q: int)
    requires
        all_digits(digits),
        p == q || (p >= 40 && q >= 40) || (p <= -(digits.len() as int) && q <= -(digits.len() as int)),
    ensures
        min(shifted(digits_value(digits), p) as int, FAR as int) == min(
            shifted(digits_value(digits), q) as int,
            FAR as int,
        ),
{
    let n = digits_value(digits);
    if p != q {
        if p >= 40 && q >= 40 {
            past_every_number(n, p as nat);
            past_every_number(n, q as nat);
        } else {
            if p < 0 {
                shifted_right(digits, p);
            }
            if q < 0 {
                shifted_right(digits, q);
            }
            assert(digits.take(0).len() == 0);
            if digits.len() == 0 {
                assert(n == 0);
                assert(shifted(0, 0) == 0);
            }
        }
    }
}

proof fn past_every_number(n: nat, p: nat)
    requires
        p >= 40,
    ensures
        n == 0 ==> shifted(n, p as int) == 0,
        n > 0 ==> shifted(n, p as int) > FAR,
{
    pow10_monotonic(40, p);
    assert(pow10(40) > FAR) by {
        reveal_with_fuel(pow10, 41);
    }
    let a = pow10(p);
    assert(n * a >= a || n == 0) by (nonlinear_arith)
        requires
            n >= 0,
            a >= 0,
    ;
    assert(0 * a == 0) by (nonlinear_arith);
}

/// The digits moved `p` places to the left; what passes `FAR` counts as that.
fn shift_digits(digits: &Vec<char>, p: i128) -> (r: u128)
    requires
        all_digits(digits@),
        -2 * MOST_EXPONENT <= p <= 2 * MOST_EXPONENT,
    ensures
        r == min(shifted(digits_value(digits@), p as int) as int, FAR as int),
{
    let total: usize = digits.len();
    let keep: usize = if p >= 0 {
        total
    } else if total as i128 + p > 0 {
        (total as i128 + p) as usize
    } else {
        0
    };
    let ghost kept = digits@.subrange(0, keep as int);
    assert forall|k: int| 0 <= k < keep implies is_digit(#[trigger] kept[k]) by {
        assert(is_digit(digits@[k]));
    }
    assert(kept == digits@.take(keep as int));
    let m = bounded_digits(digits, 0, keep, FAR as u128);
    proof {
        if p < 0 {
            shifted_right(digits@, p as int);
        } else {
            assert(digits@.take(total as int) == digits@);
            pow10_positive(p as nat);
            let (a, b) = (digits_value(digits@) as int, pow10(p as nat) as int);
            assert(a * b >= a) by (nonlinear_arith)
                requires
                    a >= 0,
                    b >= 1,
            ;
        }
    }
    match m {
        Some(m) => if p >= 0 {
            match scaled_up(m, p) {
                Some(x) => x,
                None => FAR as u128,
            }
        } else {
            m
        },
        None => FAR as u128,
    }
}

fn push_range(digits: &mut Vec<char>, v: &Vec<char>, from: usize, to: usize)
    requires
        from <= to <= v@.len(),
    ensures
        final(digits)@ == old(digits)@ + v@.subrange(from as int, to as int),
{
    let mut i: usize = from;
    while i < to
        invariant
            from <= i <= to <= v@.len(),
            digits@ == old(digits)@ + v@.subrange(from as int, i as int),
        decreases to - i,
    {
        digits.push(v[i]);
        i += 1;
    }
}

/// The unsigned decimal that `v[start..]` denotes; what passes `FAR` counts as that.
#[verifier::spinoff_prover]
fn read_unsigned(v: &Vec<char>, start: usize) -> (r: Option<u128>)
    requires
        start <= v@.len(),
    ensures
        match unsigned_value(v@.skip(start as int)) {
            Some(n) => r matches Some(x) && x == min(n as int, FAR as int),
            None => r is None,
        },
{
    let n: usize = v.len();
    let ghost body = v@.skip(start as int);
    let dot: usize = run_of_digits(v, start);
    proof {
        digit_run_bounds(body);
    }
    let before: usize = dot - start;
    let ghost rest = body.skip(before as int);
    assert(rest == v@.skip(dot as int));
    let point: bool = dot < n && v[dot] == '.';
    assert(dot < n ==> rest[0] == v@[dot as int]);
    let mut digits: Vec<char> = Vec::new();
    push_range(&mut digits, v, start, dot);
    assert(digits@ == body.take(before as int));
    let ghost whole = digits@;
    let mut behind: usize = 0;
    let mut end: usize = dot;
    let ghost mut fraction = Seq::<char>::empty();
    if point {
        let stop: usize = run_of_digits(v, dot + 1);
        assert(rest.skip(1) == v@.skip(dot + 1));
        proof {
            digit_run_bounds(rest.skip(1));
            fraction = rest.subrange(1, 1 + (stop - dot - 1));
        }
        behind = stop - dot - 1;
        end = stop;
        push_range(&mut digits, v, dot + 1, stop);
        assert(fraction == v@.subrange(dot + 1, stop as int));
        assert(rest.skip(1 + behind) == v@.skip(stop as int));
        assert(rest.skip(1).take(behind as int) == fraction);
        assert(all_digits(fraction));
    }
    assert(digits@ == whole + fraction);
    assert forall|k: int| 0 <= k < digits@.len() implies is_digit(#[trigger] digits@[k]) by {
        if k < before {
            assert(is_digit(whole[k]));
        } else {
            assert(is_digit(fraction[k - before]));
        }
    }
    match read_exponent(v, end) {
        Some(e) => {
            if digits.len() == 0 {
                None
            } else {
                let p: i128 = 12 + e - behind as i128;
                proof {
                    far_shifts(digits@, 12 + exponent_value(v@.skip(end as int))->0 - behind, p as int);
                }
                Some(shift_digits(&digits, p))
            }
        },
        None => None,
    }
}

fn reads(v: &Vec<char>, from: usize, lower: &str, upper: &str) -> (r: bool)
    requires
        from <= v@.len(),
        lower@.len() == upper@.len(),
    ensures
        r == spells(v@.skip(from as int), lower@, upper@),
{
    let low = chars_of(lower);
    let high = chars_of(upper);
    let ghost s = v@.skip(from as int);
    let n: usize = v.len();
    if n - from != low.len() {
        return false;
    }
    let mut i: usize = 0;
    while i < low.len()
        invariant
            i <= low@.len(),
            low@ == lower@,
            high@ == upper@,
            low@.len() == high@.len(),
            n == v@.len(),
            from + low@.len() == n,
            s == v@.skip(from as int),
            forall|k: int| 0 <= k < i ==> #[trigger] s[k] == low@[k] || s[k] == high@[k],
        decreases low@.len() - i,
    {
        assert(s[i as int] == v@[from + i]);
        if v[from + i] != low[i] && v[from + i] != high[i] {
            return false;
        }
        i += 1;
    }
    true
}

/// The decimal that `s` denotes. One past the largest number that is held counts as
/// that one, and so does infinity.
pub fn parse_decimal(s: &str) -> (r: Option<Fixed>)
    ensures
        match decimal_value(s@) {
            Some(x) => r == Some(x as i128) && -FAR <= x <= FAR,
            None => r is None,
        },
{
    let v = chars_of(s);
    let mut start: usize = 0;
    let mut negative: bool = false;
    if v.len() > 0 {
        if v[0] == '+' {
            start = 1;
        } else if v[0] == '-' {
            start = 1;
            negative = true;
        }
    }
    assert(v@.skip(start as int) == signed_tail(s@, true).1);
    proof {
        reveal_strlit("inf");
        reveal_strlit("INF");
        reveal_strlit("infinity");
        reveal_strlit("INFINITY");
    }
    let size: Option<u128> = if reads(&v, start, "inf", "INF") || reads(&v, start, "infinity", "INFINITY") {
        Some(FAR as u128)
    } else {
        read_unsigned(&v, start)
    };
    match size {
        Some(x) => if negative {
            Some(-(x as i128))
        } else {
            Some(x as i128)
        },
        None => None,
    }
}

} // verus!
