//! Market data: option symbols, monthly expiries, and the quotes and bars that
//! the data service replies with.
use vstd::prelude::*;
use vstd::string::*;
use vstd::utf8::is_ascii_chars;

use crate::calendar::{
    day_number, day_number_determines_the_day, month_length, on_calendar, parsed_date, short_text, two_digits, weekday, Date,
    Ymd,
};
use crate::fixed::{decimal, decimal_text, half_even, magnitude, pow10, step, within, Fixed, LIMIT, ONE};
use crate::json::{
    documents, list_in, member, number_in, number_view, text_in, text_or, Document, Json,
};
use crate::numerals::{all_digits, digits_value, is_digit, read_whole, signed_tail, whole_value};
use crate::numr::{pyround, rounded};
use crate::text::{chars_of, copies, lacking, pad_zeros, slice_text, to_upper, upper, upper_char, zero_padded};

verus! {

/// Where the data service answers.
pub const DATA_URL: &'static str = "https://data.alpaca.markets";

// ── option symbols ─────────────────────────────────────────────────────────

/// The strike in thousandths, eight places wide with leading zeros; a minus sign
/// takes one of the places.
pub open spec fn strike_text(strike: int) -> Seq<char> {
    let n = rounded(1000 * strike, 0) / (ONE as int);
    if n < 0 {
        "-"@ + zero_padded(decimal((-n) as nat), 7)
    } else {
        zero_padded(decimal(n as nat), 8)
    }
}

/// The letter of a call or a put.
pub open spec fn right_letter(is_call: bool) -> Seq<char> {
    if is_call {
        "C"@
    } else {
        "P"@
    }
}

/// An option symbol: root, expiry as `YYMMDD`, `C` or `P`, strike.
pub open spec fn occ_symbol(underlying: Seq<char>, expiry: Ymd, is_call: bool, strike: int) -> Seq<
    char,
> {
    upper(underlying) + short_text(expiry) + right_letter(is_call) + strike_text(strike)
}

/// What an option symbol says: root, expiry, whether it is a call, strike. The
/// fields are the last fifteen characters.
pub open spec fn occ_fields(s: Seq<char>) -> Option<(Seq<char>, Ymd, bool, int)> {
    if s.len() < 15 || !is_ascii_chars(s.skip(s.len() - 15)) {
        None
    } else {
        let body = s.skip(s.len() - 15);
        match (
            whole_value(body.subrange(0, 2), true),
            whole_value(body.subrange(2, 4), false),
            whole_value(body.subrange(4, 6), false),
            whole_value(body.subrange(7, 15), true),
        ) {
            (Some(yy), Some(mm), Some(dd), Some(thousandths)) => {
                let expiry = Ymd { year: 2000 + yy, month: mm, day: dd };
                if on_calendar(expiry) {
                    Some(
                        (
                            s.take(s.len() - 15),
                            expiry,
                            upper_char(body[6]) == 'C',
                            thousandths * 1_000_000_000,
                        ),
                    )
                } else {
                    None
                }
            },
            _ => None,
        }
    }
}

/// Builds an option symbol.
pub fn build_occ(underlying: &str, expiry: Date, is_call: bool, strike: Fixed) -> (r: String)
    requires
        within(strike as int, LIMIT as int),
    ensures
        r@ == occ_symbol(underlying@, expiry@, is_call, strike as int),
{
    let n: i128 = crate::fixed::floor_div(pyround(1000 * strike, 0), ONE);
    let mut s = to_upper(underlying);
    s.append(expiry.short().as_str());
    if is_call {
        s.append("C");
    } else {
        s.append("P");
    }
    if n < 0 {
        let mut k = "-".to_owned();
        k.append(pad_zeros(decimal_text((-n) as u128).as_str(), 7).as_str());
        s.append(k.as_str());
    } else {
        s.append(pad_zeros(decimal_text(n as u128).as_str(), 8).as_str());
    }
    s
}

/// Reads an option symbol: root, expiry, whether it is a call, strike.
pub fn parse_occ(symbol: &str) -> (r: Option<(String, Date, bool, Fixed)>)
    ensures
        match r {
            Some(f) => occ_fields(symbol@) == Some((f.0@, f.1@, f.2, f.3 as int)),
            None => occ_fields(symbol@) is None,
        },
{
    let v = chars_of(symbol);
    if v.len() < 15 {
        return None;
    }
    let n: usize = v.len() - 15;
    let ghost body = v@.skip(n as int);
    assert(body.subrange(0, 2) == v@.subrange(n as int, n + 2));
    assert(body.subrange(2, 4) == v@.subrange(n + 2, n + 4));
    assert(body.subrange(4, 6) == v@.subrange(n + 4, n + 6));
    assert(body.subrange(7, 15) == v@.subrange(n + 7, n + 15));
    let yy = read_whole(&v, n, n + 2, true);
    let mm = read_whole(&v, n + 2, n + 4, false);
    let dd = read_whole(&v, n + 4, n + 6, false);
    let thousandths = read_whole(&v, n + 7, n + 15, true);
    proof {
        whole_value_bound(body.subrange(0, 2), true);
        whole_value_bound(body.subrange(2, 4), false);
        whole_value_bound(body.subrange(4, 6), false);
        whole_value_bound(body.subrange(7, 15), true);
        assert(pow10(2) == 100 && pow10(8) == 100_000_000) by {
            reveal_with_fuel(pow10, 9);
        }
    }
    let letter: char = v[n + 6];
    assert(letter == body[6]);
    match (yy, mm, dd, thousandths) {
        (Some(yy), Some(mm), Some(dd), Some(k)) => {
            proof {
                whole_value_is_ascii(body.subrange(0, 2), true);
                whole_value_is_ascii(body.subrange(2, 4), false);
                whole_value_is_ascii(body.subrange(4, 6), false);
                whole_value_is_ascii(body.subrange(7, 15), true);
                assert forall|i: int| 0 <= i < 15 && i != 6 implies 0 <= #[trigger] body[i] < 128 by {
                    if i < 2 {
                        assert(body[i] == body.subrange(0, 2)[i]);
                    } else if i < 4 {
                        assert(body[i] == body.subrange(2, 4)[i - 2]);
                    } else if i < 6 {
                        assert(body[i] == body.subrange(4, 6)[i - 4]);
                    } else {
                        assert(body[i] == body.subrange(7, 15)[i - 7]);
                    }
                }
            }
            if !('\0' <= letter && letter <= '\u{7f}') {
                assert(!is_ascii_chars(body));
                return None;
            }
            assert(is_ascii_chars(body));
            let is_call: bool = letter == 'C' || letter == 'c';
            assert(is_call == (upper_char(letter) == 'C'));
            match Date::from_ymd_opt(2000 + yy as i32, mm as u32, dd as u32) {
                Some(expiry) => {
                    assert(v@.subrange(0, n as int) == symbol@.take(n as int));
                    Some((slice_text(&v, 0, n), expiry, is_call, k as i128 * 1_000_000_000))
                },
                None => None,
            }
        },
        _ => None,
    }
}

proof fn whole_value_bound(s: Seq<char>, minus: bool)
    ensures
        whole_value(s, minus) matches Some(n) ==> within(n, pow10(s.len()) as int),
        whole_value(s, minus) matches Some(n) ==> !minus ==> n >= 0,
{
    let (negative, digits) = signed_tail(s, minus);
    if whole_value(s, minus) is Some {
        crate::numerals::digits_value_bound(digits);
        crate::numerals::pow10_monotonic(digits.len(), s.len());
    }
}

proof fn whole_value_is_ascii(s: Seq<char>, minus: bool)
    requires
        whole_value(s, minus) is Some,
    ensures
        is_ascii_chars(s),
{
    let (negative, digits) = signed_tail(s, minus);
    assert forall|i: int| 0 <= i < s.len() implies 0 <= #[trigger] s[i] < 128 by {
        if digits.len() == s.len() {
            assert(is_digit(digits[i]));
        } else if i > 0 {
            assert(is_digit(digits[i - 1]));
        }
    }
}

/// The digits of a number denote the number.
pub proof fn decimal_denotes(n: nat)
    ensures
        all_digits(decimal(n)),
        digits_value(decimal(n)) == n,
        decimal(n).len() > 0,
    decreases n,
{
    if n >= 10 {
        decimal_denotes(n / 10);
        let t = decimal(n / 10);
        assert(decimal(n).drop_last() =~= t);
        assert forall|i: int| 0 <= i < decimal(n).len() implies is_digit(#[trigger] decimal(n)[i]) by {
            if i < t.len() {
                assert(is_digit(t[i]));
            }
        }
    } else {
        assert(decimal(n).drop_last() =~= Seq::empty());
        assert(digits_value(Seq::<char>::empty()) == 0);
    }
}

/// A number below ten to a power has no more digits than that.
pub proof fn decimal_length(n: nat, k: nat)
    requires
        n < pow10(k),
        k > 0,
    ensures
        decimal(n).len() <= k,
    decreases k,
{
    if n >= 10 {
        assert(k > 1) by {
            assert(pow10(0) == 1);
            assert(pow10(1) == 10 * pow10(0));
        }
        decimal_length(n / 10, (k - 1) as nat);
    }
}

/// Zeros in front of digits do not change what they denote.
pub proof fn leading_zeros_denote_nothing(s: Seq<char>, k: nat)
    requires
        all_digits(s),
        s.len() > 0,
    ensures
        all_digits(copies('0', k) + s),
        digits_value(copies('0', k) + s) == digits_value(s),
    decreases s.len(),
{
    let t = copies('0', k) + s;
    assert forall|i: int| 0 <= i < t.len() implies is_digit(#[trigger] t[i]) by {
        if i >= k {
            assert(t[i] == s[i - k]);
        }
    }
    assert(t.drop_last() =~= copies('0', k) + s.drop_last());
    assert(t.last() == s.last());
    if s.len() > 1 {
        let u = s.drop_last();
        assert forall|i: int| 0 <= i < u.len() implies is_digit(#[trigger] u[i]) by {
            assert(u[i] == s[i]);
        }
        leading_zeros_denote_nothing(u, k);
    } else {
        assert(s.drop_last() =~= Seq::empty());
        assert(digits_value(s.drop_last()) == 0);
        assert(t.drop_last() =~= copies('0', k));
        zeros_denote_zero(k);
    }
}

proof fn zeros_denote_zero(k: nat)
    ensures
        digits_value(copies('0', k)) == 0,
    decreases k,
{
    if k > 0 {
        assert(copies('0', k).drop_last() =~= copies('0', (k - 1) as nat));
        zeros_denote_zero((k - 1) as nat);
    }
}

/// A number in `width` digits reads as itself.
pub proof fn padded_number(n: nat, width: nat)
    requires
        n < pow10(width),
        width > 0,
    ensures
        zero_padded(decimal(n), width).len() == width,
        whole_value(zero_padded(decimal(n), width), true) == Some(n as int),
        whole_value(zero_padded(decimal(n), width), false) == Some(n as int),
{
    decimal_denotes(n);
    decimal_length(n, width);
    leading_zeros_denote_nothing(decimal(n), lacking(decimal(n).len(), width));
    let t = zero_padded(decimal(n), width);
    assert(is_digit(t[0]));
    assert(signed_tail(t, true) == (false, t));
    assert(signed_tail(t, false) == (false, t));
}

proof fn whole_thousandths(n: int)
    requires
        0 <= n,
    ensures
        rounded(1000 * (n * 1_000_000_000), 0) / (ONE as int) == n,
{
    let x = 1000 * (n * 1_000_000_000);
    assert(step(0) == 1_000_000_000_000) by {
        reveal_with_fuel(pow10, 13);
    }
    assert(x == n * 1_000_000_000_000);
    assert(x as nat / step(0) == n && x as nat % step(0) == 0);
    assert(half_even(magnitude(x) as nat, step(0)) == n);
}

/// Reading a symbol that was built gives back what it was built from: for an
/// expiry from 2000 to 2099 and a strike in whole thousandths below 100000.
pub proof fn occ_round_trip(underlying: Seq<char>, expiry: Ymd, is_call: bool, thousandths: int)
    requires
        on_calendar(expiry),
        2000 <= expiry.year <= 2099,
        0 <= thousandths < 100_000_000,
    ensures
        occ_fields(
            occ_symbol(underlying, expiry, is_call, thousandths * 1_000_000_000),
        ) == Some((upper(underlying), expiry, is_call, thousandths * 1_000_000_000)),
{
    assert(pow10(2) == 100 && pow10(8) == 100_000_000) by {
        reveal_with_fuel(pow10, 9);
    }
    let strike = thousandths * 1_000_000_000;
    let root = upper(underlying);
    let yy = two_digits(expiry.year % 100);
    let mm = two_digits(expiry.month);
    let dd = two_digits(expiry.day);
    let k = zero_padded(decimal(thousandths as nat), 8);
    padded_number((expiry.year % 100) as nat, 2);
    padded_number(expiry.month as nat, 2);
    padded_number(expiry.day as nat, 2);
    padded_number(thousandths as nat, 8);
    whole_thousandths(thousandths);
    assert(strike_text(strike) == k);
    reveal_strlit("C");
    reveal_strlit("P");
    let s = occ_symbol(underlying, expiry, is_call, strike);
    let n = root.len() as int;
    assert(s.len() == n + 15);
    let body = s.skip(n);
    assert(body.subrange(0, 2) =~= yy);
    assert(body.subrange(2, 4) =~= mm);
    assert(body.subrange(4, 6) =~= dd);
    assert(body.subrange(7, 15) =~= k);
    assert(body[6] == right_letter(is_call)[0]);
    whole_value_is_ascii(yy, true);
    whole_value_is_ascii(mm, true);
    whole_value_is_ascii(dd, true);
    whole_value_is_ascii(k, true);
    assert(is_ascii_chars(body)) by {
        assert forall|i: int| 0 <= i < 15 implies 0 <= #[trigger] body[i] < 128 by {
            if i < 2 {
                assert(body[i] == yy[i]);
            } else if i < 4 {
                assert(body[i] == mm[i - 2]);
            } else if i < 6 {
                assert(body[i] == dd[i - 4]);
            } else if i > 6 {
                assert(body[i] == k[i - 7]);
            }
        }
    }
    assert(s.take(n) =~= root);
    assert(2000 + expiry.year % 100 == expiry.year);
}

// ── monthly expiries ───────────────────────────────────────────────────────

/// The third Friday of a month.
pub open spec fn third_friday_of(year: int, month: int) -> Ymd {
    let first = Ymd { year, month, day: 1 };
    Ymd { year, month, day: 15 + (11 - weekday(first)) % 7 }
}

/// The third Friday is a Friday, and two Fridays of the month come before it.
pub proof fn third_friday_is_the_third_friday(year: int, month: int)
    requires
        on_calendar(Ymd { year, month, day: 1 }),
    ensures
        on_calendar(third_friday_of(year, month)),
        weekday(third_friday_of(year, month)) == 4,
        15 <= third_friday_of(year, month).day <= 21,
{
    let first = Ymd { year, month, day: 1 };
    let d = third_friday_of(year, month);
    assert(month_length(year, month) >= 28);
    assert(day_number(d) == day_number(first) + d.day - 1);
}

/// The standard monthly option expiry: the third Friday of the month, when the
/// calendar has the month.
pub fn third_friday(year: i32, month: u32) -> (r: Option<Date>)
    ensures
        match r {
            Some(d) => d@ == third_friday_of(year as int, month as int) && on_calendar(d@),
            None => !on_calendar(Ymd { year: year as int, month: month as int, day: 1 }),
        },
{
    match Date::from_ymd_opt(year, month, 1) {
        Some(first) => {
            let offset: u32 = (7 + 4 - first.weekday_from_monday()) % 7;
            let ghost d = third_friday_of(year as int, month as int);
            proof {
                third_friday_is_the_third_friday(year as int, month as int);
                assert(day_number(d) == day_number(first@) + offset + 14);
            }
            let r = first.plus_days(offset as i64 + 14);
            proof {
                day_number_determines_the_day(r@, d);
            }
            Some(r)
        },
        None => None,
    }
}

/// The strike of an option symbol is of bounded size.
pub proof fn occ_strike_bound(s: Seq<char>)
    ensures
        occ_fields(s) matches Some(f) ==> within(f.3, 100_000 * ONE),
{
    if s.len() >= 15 {
        let k = s.skip(s.len() - 15).subrange(7, 15);
        whole_value_bound(k, true);
        assert(pow10(8) == 100_000_000) by {
            reveal_with_fuel(pow10, 9);
        }
    }
}

// ── quotes and bars ────────────────────────────────────────────────────────

/// A positive price under a node of a snapshot.
pub open spec fn price_in(data: Document, node: Seq<char>, field: Seq<char>) -> Option<int> {
    match member(data, node) {
        Some(n) => match number_in(n, field) {
            Some(x) => if x > 0 {
                Some(x)
            } else {
                None
            },
            None => None,
        },
        None => None,
    }
}

/// The first of two prices that is there.
pub open spec fn first_price(a: Option<int>, b: Option<int>) -> Option<int> {
    match a {
        Some(x) => Some(x),
        None => b,
    }
}

/// The price of a stock snapshot: the latest trade, else the close of the day's
/// bar, of the minute's bar, of the day before.
pub open spec fn snapshot_price(data: Document) -> Option<int> {
    first_price(
        price_in(data, "latestTrade"@, "p"@),
        first_price(
            price_in(data, "dailyBar"@, "c"@),
            first_price(
                price_in(data, "minuteBar"@, "c"@),
                price_in(data, "prevDailyBar"@, "c"@),
            ),
        ),
    )
}

fn positive_price(data: &Json, node: &str, field: &str) -> (r: Option<Fixed>)
    ensures
        number_view(r) == price_in(data@, node@, field@),
{
    match data.get(node) {
        Some(n) => match n.number_at(field) {
            Some(x) => if x > 0 {
                Some(x)
            } else {
                None
            },
            None => None,
        },
        None => None,
    }
}

/// The price that a stock snapshot gives.
pub fn stock_price_from_json(data: &Json) -> (r: Option<Fixed>)
    ensures
        number_view(r) == snapshot_price(data@),
{
    if let Some(x) = positive_price(data, "latestTrade", "p") {
        return Some(x);
    }
    if let Some(x) = positive_price(data, "dailyBar", "c") {
        return Some(x);
    }
    if let Some(x) = positive_price(data, "minuteBar", "c") {
        return Some(x);
    }
    positive_price(data, "prevDailyBar", "c")
}

/// The snapshot of an option in a reply.
pub open spec fn option_snapshot(data: Document, occ: Seq<char>) -> Option<Document> {
    match member(data, "snapshots"@) {
        Some(all) => member(all, occ),
        None => None,
    }
}

/// The bid and the ask of a snapshot, where both are there and the ask is positive.
pub open spec fn bid_and_ask(snap: Document) -> Option<(int, int)> {
    match member(snap, "latestQuote"@) {
        Some(q) => match (number_in(q, "bp"@), number_in(q, "ap"@)) {
            (Some(b), Some(a)) => if a > 0 {
                Some((b, a))
            } else {
                None
            },
            _ => None,
        },
        None => None,
    }
}

/// The price of the last trade of a snapshot.
pub open spec fn last_trade(snap: Document) -> Option<int> {
    match member(snap, "latestTrade"@) {
        Some(t) => number_in(t, "p"@),
        None => None,
    }
}

/// The mid of an option, a share: half way between bid and ask in whole cents, or
/// the last trade without a quote; none where the chain has neither.
pub open spec fn option_mid(data: Document, occ: Seq<char>) -> Option<int> {
    match option_snapshot(data, occ) {
        Some(snap) => match bid_and_ask(snap) {
            Some(q) => Some(rounded((q.0 + q.1) / 2, 2)),
            None => last_trade(snap),
        },
        None => None,
    }
}

/// The mid of an option that a reply gives.
pub fn option_mid_from_json(data: &Json, occ: &str) -> (r: Option<Fixed>)
    ensures
        number_view(r) == option_mid(data@, occ@),
{
    let snap = match data.get("snapshots") {
        Some(all) => match all.get(occ) {
            Some(s) => s,
            None => {
                return None;
            },
        },
        None => {
            return None;
        },
    };
    if let Some(q) = snap.get("latestQuote") {
        if let Some(b) = q.number_at("bp") {
            if let Some(a) = q.number_at("ap") {
                if a > 0 {
                    return Some(pyround(crate::fixed::floor_div(b + a, 2), 2));
                }
            }
        }
    }
    match snap.get("latestTrade") {
        Some(t) => t.number_at("p"),
        None => None,
    }
}

/// One daily bar.
#[derive(Debug, Clone)]
pub struct Bar {
    pub date: Date,
    pub open: Fixed,
    pub high: Fixed,
    pub low: Fixed,
    pub close: Fixed,
    pub volume: Fixed,
}

/// A bar as plain values.
#[verifier::ext_equal]
pub struct BarView {
    pub date: Ymd,
    pub open: int,
    pub high: int,
    pub low: int,
    pub close: int,
    pub volume: int,
}

impl View for Bar {
    type V = BarView;

    open spec fn view(&self) -> BarView {
        BarView {
            date: self.date@,
            open: self.open as int,
            high: self.high as int,
            low: self.low as int,
            close: self.close as int,
            volume: self.volume as int,
        }
    }
}

/// The number of bytes that a character takes in UTF-8.
pub open spec fn byte_length(c: char) -> int {
    let code = c as u32;
    if code <= 0x7f {
        1
    } else if code <= 0x7ff {
        2
    } else if code <= 0xffff {
        3
    } else {
        4
    }
}

/// The characters that the first `n` bytes of a text hold; none where the text is
/// shorter, or a character lies across the cut.
pub open spec fn byte_prefix(s: Seq<char>, n: int) -> Option<Seq<char>>
    decreases s.len(),
{
    if n <= 0 {
        if n == 0 {
            Some(seq![])
        } else {
            None
        }
    } else if s.len() == 0 {
        None
    } else {
        match byte_prefix(s.drop_first(), n - byte_length(s[0])) {
            Some(t) => Some(seq![s[0]] + t),
            None => None,
        }
    }
}

fn first_bytes(s: &str, n: usize) -> (r: Option<String>)
    requires
        n <= 1_000,
    ensures
        match r {
            Some(t) => byte_prefix(s@, n as int) == Some(t@),
            None => byte_prefix(s@, n as int) is None,
        },
{
    let v = chars_of(s);
    let mut left: i64 = n as i64;
    let mut i: usize = 0;
    assert(v@.skip(0) == v@);
    while left > 0 && i < v.len()
        invariant
            v@ == s@,
            i <= v@.len(),
            left <= 1_000,
            i < v@.len() ==> left >= -3,
            byte_prefix(s@, n as int) == (match byte_prefix(v@.skip(i as int), left as int) {
                Some(t) => Some(v@.take(i as int) + t),
                None => None,
            }),
            -4 <= left,
        decreases v@.len() - i,
    {
        let c: char = v[i];
        let ghost rest = v@.skip(i as int);
        assert(rest[0] == c);
        assert(rest.drop_first() == v@.skip(i + 1));
        proof {
            if let Some(t) = byte_prefix(v@.skip(i + 1), left - byte_length(c)) {
                assert(v@.take(i as int) + (seq![c] + t) =~= v@.take(i + 1) + t);
            }
        }
        let code: u32 = c as u32;
        let size: i64 = if code <= 0x7f {
            1
        } else if code <= 0x7ff {
            2
        } else if code <= 0xffff {
            3
        } else {
            4
        };
        assert(size == byte_length(c));
        assert(rest.len() > 0 && left > 0);
        assert(byte_prefix(rest, left as int) == (match byte_prefix(rest.drop_first(), left - byte_length(rest[0])) {
            Some(t) => Some(seq![rest[0]] + t),
            None => None::<Seq<char>>,
        }));
        left = left - size;
        i += 1;
    }
    if left == 0 {
        assert(v@.subrange(0, i as int) == v@.take(i as int));
        assert(v@.take(i as int) + Seq::<char>::empty() =~= v@.take(i as int));
        Some(slice_text(&v, 0, i))
    } else {
        None
    }
}

/// The day of a time stamp: what its first ten bytes hold.
pub open spec fn stamp_day(t: Seq<char>) -> Option<Ymd> {
    match byte_prefix(t, 10) {
        Some(d) => match parsed_date(d, "%Y-%m-%d"@) {
            Some(x) => Some(Ymd { year: x.0, month: x.1, day: x.2 }),
            None => None,
        },
        None => None,
    }
}

/// A number of a bar, or the default.
pub open spec fn number_or(b: Document, key: Seq<char>, default: int) -> int {
    match number_in(b, key) {
        Some(x) => x,
        None => default,
    }
}

/// The bar that one item of a reply describes; none without a day or a close.
pub open spec fn bar_of(b: Document) -> Option<BarView> {
    match (stamp_day(text_or(text_in(b, "t"@), ""@)), number_in(b, "c"@)) {
        (Some(date), Some(c)) => Some(
            BarView {
                date,
                open: number_or(b, "o"@, c),
                high: number_or(b, "h"@, c),
                low: number_or(b, "l"@, c),
                close: c,
                volume: number_or(b, "v"@, 0),
            },
        ),
        _ => None,
    }
}

/// The bars of the first `n` items, as they come.
pub open spec fn bars_of(items: Seq<Document>, n: int) -> Seq<BarView>
    decreases n,
{
    if n <= 0 {
        seq![]
    } else {
        match bar_of(items[n - 1]) {
            Some(b) => bars_of(items, n - 1).push(b),
            None => bars_of(items, n - 1),
        }
    }
}

fn number_at_or(b: &Json, key: &str, default: Fixed) -> (r: Fixed)
    ensures
        r == number_or(b@, key@, default as int),
{
    match b.number_at(key) {
        Some(x) => x,
        None => default,
    }
}

fn read_bar(b: &Json) -> (r: Option<Bar>)
    ensures
        match r {
            Some(x) => bar_of(b@) == Some(x@),
            None => bar_of(b@) is None,
        },
{
    let stamp = b.text_or_empty("t");
    let date = match first_bytes(stamp.as_str(), 10) {
        Some(d) => Date::parse_iso(d.as_str()),
        None => None,
    };
    match (date, b.number_at("c")) {
        (Some(date), Some(c)) => Some(
            Bar {
                date,
                open: number_at_or(b, "o", c),
                high: number_at_or(b, "h", c),
                low: number_at_or(b, "l", c),
                close: c,
                volume: number_at_or(b, "v", 0),
            },
        ),
        _ => None,
    }
}

/// The most bars that a request asks for and gets: one at least.
pub open spec fn most_bars(limit: int) -> int {
    vstd::math::max(limit, 1)
}

/// The newest bars of a reply that has the newest first, the oldest of them first.
pub open spec fn newest_bars(items: Seq<Document>, limit: int) -> Seq<BarView> {
    let all = bars_of(items, items.len() as int);
    if all.len() <= most_bars(limit) {
        all.reverse()
    } else {
        all.take(most_bars(limit)).reverse()
    }
}

proof fn bars_of_prefix(items: Seq<Document>, n: int, m: int)
    requires
        0 <= n <= m,
    ensures
        bars_of(items, n).len() <= bars_of(items, m).len(),
        bars_of(items, m).take(bars_of(items, n).len() as int) == bars_of(items, n),
    decreases m,
{
    if n < m {
        bars_of_prefix(items, n, m - 1);
        let k = bars_of(items, n).len() as int;
        assert(bars_of(items, m).take(k) =~= bars_of(items, m - 1).take(k));
    } else {
        assert(bars_of(items, m).take(bars_of(items, n).len() as int) =~= bars_of(items, n));
    }
}

/// Where a reply has the newest bar first, the bars run from the oldest to the newest.
pub proof fn bars_run_forward(items: Seq<Document>, limit: int)
    requires
        forall|i: int, j: int|
            0 <= i < j < bars_of(items, items.len() as int).len() ==> day_number(
                (#[trigger] bars_of(items, items.len() as int)[j]).date,
            ) <= day_number((#[trigger] bars_of(items, items.len() as int)[i]).date),
    ensures
        forall|i: int, j: int|
            0 <= i < j < newest_bars(items, limit).len() ==> day_number(
                (#[trigger] newest_bars(items, limit)[i]).date,
            ) <= day_number((#[trigger] newest_bars(items, limit)[j]).date),
{
    let all = bars_of(items, items.len() as int);
    let r = newest_bars(items, limit);
    assert forall|i: int, j: int| 0 <= i < j < r.len() implies day_number((#[trigger] r[i]).date) <= day_number(
        (#[trigger] r[j]).date,
    ) by {
        assert(r[i] == all[r.len() - 1 - i]);
        assert(r[j] == all[r.len() - 1 - j]);
    }
}

/// The daily bars of a reply that has the newest first: the newest of them, as many as
/// the limit allows, the oldest first.
pub fn bars_from_json(data: &Json, limit: i64) -> (r: Vec<Bar>)
    ensures
        r@.map_values(|b: Bar| b@) == (match list_in(data@, "bars"@) {
            Some(items) => newest_bars(items, limit as int),
            None => seq![],
        }),
        r@.len() <= most_bars(limit as int),
{
    let mut out: Vec<Bar> = Vec::new();
    if let Some(items) = data.list_at("bars") {
        let most: i64 = if limit > 1 {
            limit
        } else {
            1
        };
        let ghost all = documents(items@);
        let mut found: Vec<Bar> = Vec::new();
        let mut i: usize = 0;
        assert(found@.map_values(|b: Bar| b@) =~= bars_of(all, 0));
        while i < items.len() && (found.len() as u64) < most as u64
            invariant
                i <= items@.len(),
                most == most_bars(limit as int),
                all == documents(items@),
                found@.map_values(|b: Bar| b@) == bars_of(all, i as int),
                found@.len() <= most,
            decreases items@.len() - i,
        {
            assert(all[i as int] == items@[i as int]@);
            let ghost before = found@.map_values(|b: Bar| b@);
            if let Some(b) = read_bar(&items[i]) {
                let ghost v = b@;
                found.push(b);
                assert(found@.map_values(|b: Bar| b@) =~= before.push(v));
            }
            i += 1;
        }
        let ghost got = found@.map_values(|b: Bar| b@);
        let ghost count = found@.len();
        proof {
            bars_of_prefix(all, i as int, all.len() as int);
            assert(newest_bars(all, limit as int) =~= got.reverse());
        }
        assert(out@.map_values(|b: Bar| b@) + got.reverse() =~= got.reverse());
        while found.len() > 0
            invariant
                got.reverse() == out@.map_values(|b: Bar| b@) + found@.map_values(|b: Bar| b@).reverse(),
                out@.len() + found@.len() == count,
            decreases found@.len(),
        {
            let ghost before = out@.map_values(|b: Bar| b@);
            let ghost whole = found@.map_values(|b: Bar| b@);
            if let Some(b) = found.pop() {
                let ghost rest = found@.map_values(|b: Bar| b@);
                let ghost v = b@;
                out.push(b);
                assert(whole =~= rest.push(v));
                assert(out@.map_values(|b: Bar| b@) =~= before.push(v));
                assert(before + rest.push(v).reverse() =~= before.push(v) + rest.reverse());
            }
        }
        assert(out@.map_values(|b: Bar| b@) =~= got.reverse());
    }
    assert(list_in(data@, "bars"@) is None ==> out@.map_values(|b: Bar| b@) =~= seq![]);
    out
}

/// How many calendar days a request for so many bars reaches back: 1.6 days for a
/// bar, without the fraction, and fifteen days more.
pub open spec fn reach(limit: int) -> int {
    15 + if limit >= 0 {
        8 * limit / 5
    } else {
        -(8 * (-limit) / 5)
    }
}

/// The first day of a request for so many bars, where the calendar has it.
pub fn bars_start(today: Date, limit: i64) -> (r: Option<Date>)
    ensures
        match r {
            Some(d) => day_number(d@) == day_number(today@) - reach(limit as int) && on_calendar(d@),
            None => forall|e: Ymd|
                on_calendar(e) ==> #[trigger] day_number(e) != day_number(today@) - reach(limit as int),
        },
{
    let n: i128 = limit as i128;
    let days: i128 = if n >= 0 {
        8 * n / 5
    } else {
        -(8 * (-n) / 5)
    };
    today.plus_days_opt(-(days + 15))
}

/// The highest positive high among the first `n` bars.
pub open spec fn highest(bars: Seq<BarView>, n: int) -> Option<int>
    decreases n,
{
    if n <= 0 {
        None
    } else {
        let before = highest(bars, n - 1);
        let h = bars[n - 1].high;
        if h > 0 {
            match before {
                Some(x) => Some(vstd::math::max(x, h)),
                None => Some(h),
            }
        } else {
            before
        }
    }
}

/// The highest positive high of some bars.
pub fn highest_high(bars: &Vec<Bar>) -> (r: Option<Fixed>)
    ensures
        number_view(r) == highest(bars@.map_values(|b: Bar| b@), bars@.len() as int),
{
    let ghost views = bars@.map_values(|b: Bar| b@);
    let mut top: Option<Fixed> = None;
    let mut n: usize = 0;
    while n < bars.len()
        invariant
            n <= bars@.len(),
            views == bars@.map_values(|b: Bar| b@),
            number_view(top) == highest(views, n as int),
        decreases bars@.len() - n,
    {
        assert(views[n as int] == bars@[n as int]@);
        let h: i128 = bars[n].high;
        if h > 0 {
            top = match top {
                Some(x) => Some(crate::fixed::larger(x, h)),
                None => Some(h),
            };
        }
        n += 1;
    }
    top
}

} // verus!
