//! What is written reads as what was meant: numbers, prices and amounts.
use vstd::prelude::*;

use crate::alpaca::price_text;
use crate::alpaca_data::{decimal_denotes, leading_zeros_denote_nothing, padded_number};
use crate::fixed::{decimal, half_even, magnitude, pow10, rendered, sign_text, signed_decimal, step, CENT, FAR};
use crate::numerals::{
    all_digits, decimal_value, digit_run, digits_value, is_digit, is_infinite, pow10_positive, unsigned_value, whole_value,
};
use crate::numr::{rounded, rounded_is_near};
use crate::order_laws::cent_steps;
use crate::text::{lacking, zero_padded};
use crate::vault::in_cents;

verus! {

// ── digits ─────────────────────────────────────────────────────────────────

proof fn run_of_digits(s: Seq<char>, t: Seq<char>)
    requires
        all_digits(s),
        t.len() == 0 || !is_digit(t[0]),
    ensures
        digit_run(s + t) == s.len(),
    decreases s.len(),
{
    let all = s + t;
    if s.len() > 0 {
        let rest = s.drop_first();
        assert forall|i: int| 0 <= i < rest.len() implies is_digit(#[trigger] rest[i]) by {
            assert(rest[i] == s[i + 1]);
        }
        run_of_digits(rest, t);
        assert(all.drop_first() =~= rest + t);
        assert(all[0] == s[0]);
    } else {
        assert(all =~= t);
    }
}

proof fn digits_side_by_side(s: Seq<char>, t: Seq<char>)
    ensures
        digits_value(s + t) == digits_value(s) * pow10(t.len()) + digits_value(t),
    decreases t.len(),
{
    if t.len() > 0 {
        let front = t.drop_last();
        digits_side_by_side(s, front);
        assert((s + t).drop_last() =~= s + front);
        assert((s + t).last() == t.last());
        let (a, p) = (digits_value(s), pow10(front.len()));
        assert(10 * (a * p) == a * (10 * p)) by (nonlinear_arith);
    } else {
        assert(s + t =~= s);
        assert(digits_value(s) * 1 == digits_value(s));
    }
}

proof fn powers_add(a: nat, b: nat)
    ensures
        pow10(a + b) == pow10(a) * pow10(b),
    decreases a,
{
    if a > 0 {
        powers_add((a - 1) as nat, b);
        let (p, q) = (pow10((a - 1) as nat), pow10(b));
        assert(10 * (p * q) == (10 * p) * q) by (nonlinear_arith);
    } else {
        assert(pow10(0) * pow10(b) == pow10(b)) by (nonlinear_arith)
            requires
                pow10(0) == 1,
        ;
    }
}

proof fn no_word(s: Seq<char>)
    requires
        s.len() > 0,
        is_digit(s[0]),
    ensures
        !is_infinite(s),
{
    reveal_strlit("inf");
    reveal_strlit("INF");
    reveal_strlit("infinity");
    reveal_strlit("INFINITY");
    assert("inf"@[0] == 'i' && "INF"@[0] == 'I' && "infinity"@[0] == 'i' && "INFINITY"@[0] == 'I');
}

proof fn whole_is_read(a: nat)
    ensures
        unsigned_value(decimal(a)) == Some((a * 1_000_000_000_000) as nat),
        is_digit(decimal(a)[0]),
        decimal(a).len() > 0,
{
    let s = decimal(a);
    decimal_denotes(a);
    run_of_digits(s, seq![]);
    assert(s + Seq::<char>::empty() =~= s);
    let n = s.len() as int;
    assert(s.take(n) + Seq::<char>::empty() =~= s);
    assert(s.skip(n).len() == 0);
    assert(pow10(12) == 1_000_000_000_000) by {
        reveal_with_fuel(pow10, 13);
    }
    assert(is_digit(s[0]));
}

proof fn point_is_read(a: nat, b: nat, d: nat)
    requires
        1 <= d <= 12,
        b < pow10(d),
    ensures
        unsigned_value(decimal(a) + "."@ + zero_padded(decimal(b), d)) == Some(
            ((a * pow10(d) + b) * pow10((12 - d) as nat)) as nat,
        ),
{
    let (s, t) = (decimal(a), zero_padded(decimal(b), d));
    let all = s + "."@ + t;
    decimal_denotes(a);
    decimal_denotes(b);
    padded_number(b, d);
    leading_zeros_denote_nothing(decimal(b), lacking(decimal(b).len(), d));
    reveal_strlit(".");
    let behind = "."@ + t;
    assert(all =~= s + behind);
    run_of_digits(s, behind);
    let n = s.len() as int;
    let rest = all.skip(n);
    assert(rest =~= behind);
    assert(rest[0] == '.');
    assert(rest.skip(1) =~= t);
    run_of_digits(t, seq![]);
    assert(t + Seq::<char>::empty() =~= t);
    let m = t.len() as int;
    assert(rest.subrange(1, 1 + m) =~= t);
    assert(rest.skip(1 + m).len() == 0);
    assert(all.take(n) =~= s);
    digits_side_by_side(s, t);
}

proof fn read_with_its_sign(sign: Seq<char>, body: Seq<char>, n: nat)
    requires
        sign == "-"@ || sign == "+"@ || sign == ""@,
        body.len() > 0,
        is_digit(body[0]),
        unsigned_value(body) == Some(n),
        n <= FAR,
    ensures
        decimal_value(sign + body) == Some(if sign == "-"@ {
            -(n as int)
        } else {
            n as int
        }),
{
    reveal_strlit("-");
    reveal_strlit("+");
    reveal_strlit("");
    no_word(body);
    let s = sign + body;
    assert("-"@[0] == '-' && "+"@[0] == '+' && "-"@.len() == 1 && "+"@.len() == 1 && ""@.len() == 0);
    if sign.len() == 0 {
        assert(s =~= body);
    } else {
        assert(s.drop_first() =~= body);
        assert(s[0] == sign[0]);
    }
}

/// A number that is written with some decimals reads as that number rounded to these
/// decimals, with its sign.
pub proof fn a_written_number_reads_as_it_was_rounded(x: int, digits: nat, plus: bool)
    requires
        digits <= 12,
        magnitude(rounded(x, digits)) <= FAR,
    ensures
        decimal_value(rendered(x, digits, plus)) == Some(rounded(x, digits)),
{
    let n = half_even(magnitude(x) as nat, step(digits));
    let p = pow10(digits);
    pow10_positive(digits);
    let (a, b) = (n / p, n % p);
    vstd::arithmetic::div_mod::lemma_fundamental_div_mod(n as int, p as int);
    assert(a * p == p * a) by (nonlinear_arith);
    assert(a * p + b == n);
    let sign = sign_text(x, plus);
    reveal_strlit("-");
    reveal_strlit("+");
    reveal_strlit("");
    assert("-"@.len() == 1 && "+"@.len() == 1 && ""@.len() == 0 && "-"@[0] == '-' && "+"@[0] == '+');
    whole_is_read(a);
    if digits == 0 {
        assert(step(0) == 1_000_000_000_000) by {
            reveal_with_fuel(pow10, 13);
        }
        assert(pow10(0) == 1);
        assert(a == n) by (nonlinear_arith)
            requires
                a == n / p,
                p == 1,
        ;
        assert(rendered(x, digits, plus) =~= sign + decimal(a));
        read_with_its_sign(sign, decimal(a), (a * 1_000_000_000_000) as nat);
    } else {
        let body = decimal(a) + "."@ + zero_padded(decimal(b), digits);
        point_is_read(a, b, digits);
        assert(body[0] == decimal(a)[0]);
        assert(rendered(x, digits, plus) =~= sign + body);
        read_with_its_sign(sign, body, (n * step(digits)) as nat);
    }
}

/// A limit price is written in its shortest form, and reads as the price in whole cents.
pub proof fn a_written_price_reads_as_its_cents(x: int)
    requires
        magnitude(rounded(x, 2)) <= FAR,
    ensures
        decimal_value(price_text(x)) == Some(rounded(x, 2)),
{
    let y = magnitude(rounded(x, 2));
    let cents = y / (CENT as int);
    cent_steps(x);
    assert(y % 10_000_000_000 == 0) by {
        if rounded(x, 2) < 0 {
            let q = half_even(magnitude(x) as nat, step(2)) as int;
            vstd::arithmetic::div_mod::lemma_mod_multiples_basic(q, 10_000_000_000);
            assert(y == q * 10_000_000_000);
        }
    }
    assert(y == cents * 10_000_000_000);
    let sign = if x < 0 {
        "-"@
    } else {
        ""@
    };
    reveal_strlit("-");
    reveal_strlit("+");
    reveal_strlit("");
    reveal_strlit(".");
    assert("-"@.len() == 1 && "+"@.len() == 1 && ""@.len() == 0 && "-"@[0] == '-' && "+"@[0] == '+');
    let a = (cents / 100) as nat;
    whole_is_read(a);
    assert(pow10(1) == 10 && pow10(2) == 100 && pow10(11) == 100_000_000_000 && pow10(10) == 10_000_000_000) by {
        reveal_with_fuel(pow10, 12);
    }
    if cents % 100 == 0 {
        read_with_its_sign(sign, decimal(a), (a * 1_000_000_000_000) as nat);
    } else if cents % 10 == 0 {
        let b = (cents % 100 / 10) as nat;
        let body = decimal(a) + "."@ + decimal(b);
        assert(zero_padded(decimal(b), 1) =~= decimal(b)) by {
            decimal_denotes(b);
        }
        point_is_read(a, b, 1);
        assert(body[0] == decimal(a)[0]);
        assert(price_text(x) =~= sign + body);
        assert(cents == 100 * a + 10 * b);
        assert((a * 10 + b) * 100_000_000_000 == y) by (nonlinear_arith)
            requires
                cents == 100 * a + 10 * b,
                y == cents * 10_000_000_000,
        ;
        read_with_its_sign(sign, body, y as nat);
    } else {
        let b = (cents % 100) as nat;
        let body = decimal(a) + "."@ + zero_padded(decimal(b), 2);
        point_is_read(a, b, 2);
        assert(body[0] == decimal(a)[0]);
        assert(price_text(x) =~= sign + body);
        assert(cents == 100 * a + b);
        assert((a * 100 + b) * 10_000_000_000 == y) by (nonlinear_arith)
            requires
                cents == 100 * a + b,
                y == cents * 10_000_000_000,
        ;
        read_with_its_sign(sign, body, y as nat);
    }
}

/// A whole number reads as itself.
pub proof fn a_written_whole_number_reads_as_itself(n: int)
    ensures
        whole_value(signed_decimal(n), true) == Some(n),
{
    reveal_strlit("-");
    assert("-"@.len() == 1 && "-"@[0] == '-');
    if n < 0 {
        decimal_denotes((-n) as nat);
        assert(signed_decimal(n).drop_first() =~= decimal((-n) as nat));
    } else {
        decimal_denotes(n as nat);
        assert(is_digit(decimal(n as nat)[0]));
    }
}

// ── rounding ───────────────────────────────────────────────────────────────

/// Rounding gives a whole number of steps, no more than half a step away; of two that are
/// as near, the even one; and a number and its negative round alike.
pub proof fn rounding_is_to_the_nearest(x: int, digits: nat)
    requires
        digits <= 12,
    ensures
        ({
            let u = step(digits) as int;
            let y = rounded(x, digits);
            &&& y % u == 0
            &&& 2 * magnitude(y - x) <= u
            &&& 2 * magnitude(y - x) == u ==> (y / u) % 2 == 0
            &&& rounded(-x, digits) == -y
        }),
{
    let u = step(digits) as int;
    let n = magnitude(x);
    pow10_positive((12 - digits) as nat);
    rounded_is_near(x, digits);
    let h = half_even(n as nat, step(digits)) as int;
    let y = rounded(x, digits);
    vstd::arithmetic::div_mod::lemma_mod_multiples_basic(h, u);
    vstd::arithmetic::div_mod::lemma_mod_multiples_basic(-h, u);
    vstd::arithmetic::div_mod::lemma_div_multiples_vanish(h, u);
    vstd::arithmetic::div_mod::lemma_div_multiples_vanish(-h, u);
    assert(-h * u == -(h * u)) by (nonlinear_arith);
    assert(u * h == h * u && u * -h == -(h * u)) by (nonlinear_arith);
    let (q, r) = (n / u, n % u);
    vstd::arithmetic::div_mod::lemma_fundamental_div_mod(n, u);
    assert(u * q == q * u && (q + 1) * u == q * u + u) by (nonlinear_arith);
    if x == 0 {
        assert(q == 0) by {
            vstd::arithmetic::div_mod::lemma_basic_div(0, u);
        }
        assert(h == 0);
        assert(h * u == 0) by (nonlinear_arith)
            requires
                h == 0,
        ;
    }
}

/// An amount in cents is a whole number of cents, no more than half a cent away; of two
/// that are as near, the one further from zero; and an amount and its negative are
/// rounded alike.
pub proof fn cents_are_the_nearest(x: int)
    ensures
        in_cents(x) % 10_000_000_000 == 0,
        2 * magnitude(in_cents(x) - x) <= 10_000_000_000,
        2 * magnitude(in_cents(x) - x) == 10_000_000_000 ==> magnitude(in_cents(x)) > magnitude(x),
        in_cents(-x) == -in_cents(x),
{
}

// ── numbers with an exponent ───────────────────────────────────────────────

/// An exponent shifts the point: digits, an `e` and a whole number denote the digits times
/// ten to that power.
pub proof fn an_exponent_shifts_the_point(s: Seq<char>, k: nat)
    requires
        s.len() > 0,
        all_digits(s),
    ensures
        unsigned_value(s) == Some((digits_value(s) * 1_000_000_000_000) as nat),
        unsigned_value(s + "e"@ + decimal(k)) == Some((digits_value(s) * pow10(12 + k)) as nat),
{
    reveal_strlit("e");
    let tail = "e"@ + decimal(k);
    let all = s + "e"@ + decimal(k);
    let n = s.len() as int;
    assert(all =~= s + tail);
    assert(tail[0] == 'e');
    run_of_digits(s, tail);
    run_of_digits(s, seq![]);
    assert(s + Seq::<char>::empty() =~= s);
    assert(s.take(n) + Seq::<char>::empty() =~= s);
    assert(s.skip(n).len() == 0);
    assert(all.take(n) + Seq::<char>::empty() =~= s);
    assert(all.skip(n) =~= tail);
    decimal_denotes(k);
    assert(tail.drop_first() =~= decimal(k));
    assert(is_digit(decimal(k)[0]));
    assert(pow10(12) == 1_000_000_000_000) by {
        reveal_with_fuel(pow10, 13);
    }
}

/// A minus sign negates, a plus sign changes nothing, and a text that begins with neither
/// a sign, a digit, a point nor a word for infinity is no number.
pub proof fn a_sign_negates(s: Seq<char>)
    requires
        s.len() > 0,
        s[0] != '+',
        s[0] != '-',
    ensures
        decimal_value(s) matches Some(x) ==> decimal_value("-"@ + s) == Some(-x) && decimal_value("+"@ + s) == Some(x),
        decimal_value(s) is None ==> decimal_value("-"@ + s) is None && decimal_value("+"@ + s) is None,
        whole_value(s, true) matches Some(n) ==> whole_value("-"@ + s, true) == Some(-n) && whole_value("+"@ + s, true) == Some(
            n,
        ),
{
    reveal_strlit("-");
    reveal_strlit("+");
    assert(("-"@ + s).drop_first() =~= s);
    assert(("+"@ + s).drop_first() =~= s);
    assert(("-"@ + s)[0] == '-' && ("+"@ + s)[0] == '+');
}

} // verus!
