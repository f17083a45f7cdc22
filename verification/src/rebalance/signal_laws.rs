//! What the signal says of a name, read back to the records that it was built from.
use vstd::prelude::*;

use crate::config::Settings;
use crate::fixed::ONE;
use crate::rebalance::signal_bias::{
    clamped, conviction_of, counted, loaded, margin_term, multiplier, priority, spending_term, tilt, tilt_of,
    tilt_stays_in_range, valuation_term, veto_in, veto_of, weighed, with_analyses, Bias,
};
use crate::signals::daily_analysis::{conviction, AnalysisView, Direction, FundamentalsView};
use crate::str_map::{included, lookup, lookup_inserted};

verus! {

// ── records ────────────────────────────────────────────────────────────────

/// Record `k` was found and is of a name.
pub open spec fn speaks_of(v: Seq<AnalysisView>, k: int, label: Seq<char>) -> bool {
    0 <= k < v.len() && v[k].found && v[k].ticker == label
}

/// A record was found that points down with a confidence of eight tenths or more.
pub open spec fn sure_down(a: AnalysisView) -> bool {
    a.found && a.direction == Direction::Bearish && a.confidence >= 800_000_000_000
}

/// A record was found that points up with a confidence of eight tenths or more.
pub open spec fn sure_up(a: AnalysisView) -> bool {
    a.found && a.direction == Direction::Bullish && a.confidence >= 800_000_000_000
}

/// A record was found that calls the dilution severe.
pub open spec fn severe(a: AnalysisView) -> bool {
    a.found && (a.quant matches Some(q) && (q.dilution matches Some(d) && d.severity == "severe"@))
}

/// The fundamentals in a record.
pub open spec fn facts_in(a: AnalysisView) -> Option<FundamentalsView> {
    match a.quant {
        Some(q) => q.fundamentals,
        None => None,
    }
}

proof fn included_contains(s: Seq<Seq<char>>, k: Seq<char>, x: Seq<char>)
    ensures
        included(s, k).contains(x) <==> s.contains(x) || x == k,
{
    let t = included(s, k);
    if s.contains(x) {
        let i = choose|i: int| 0 <= i < s.len() && s[i] == x;
        assert(t[i] == x);
    }
    if x == k && !s.contains(k) {
        assert(t[t.len() - 1] == x);
    }
    if t.contains(x) {
        let i = choose|i: int| 0 <= i < t.len() && t[i] == x;
        if i < s.len() {
            assert(s[i] == x);
        }
    }
}

proof fn the_step(v: Seq<AnalysisView>, n: int, label: Seq<char>)
    requires
        0 < n <= v.len(),
    ensures
        ({
            let (b, c, a) = (with_analyses(v, n - 1), with_analyses(v, n), v[n - 1]);
            let own = a.found && a.ticker == label;
            &&& c.enabled == b.enabled
            &&& lookup(c.conviction, label) == if own {
                Some(conviction(a) as i128)
            } else {
                lookup(b.conviction, label)
            }
            &&& lookup(c.fund_tilt, label) == if own && facts_in(a) is Some {
                Some(tilt(facts_in(a)->0) as i128)
            } else {
                lookup(b.fund_tilt, label)
            }
            &&& lookup(c.buy_veto, label) is Some <==> lookup(b.buy_veto, label) is Some || (own && severe(a))
            &&& c.strong_bearish.contains(label) <==> b.strong_bearish.contains(label) || (own && sure_down(a))
            &&& c.strong_bullish.contains(label) <==> b.strong_bullish.contains(label) || (own && sure_up(a))
        }),
{
    let (b, a) = (with_analyses(v, n - 1), v[n - 1]);
    if a.found {
        lookup_inserted(b.conviction, a.ticker, conviction(a) as i128, label);
        included_contains(b.strong_bearish, a.ticker, label);
        included_contains(b.strong_bullish, a.ticker, label);
        if let Some(f) = facts_in(a) {
            lookup_inserted(b.fund_tilt, a.ticker, tilt(f) as i128, label);
        }
        if let Some(why) = veto_in(a.quant) {
            lookup_inserted(b.buy_veto, a.ticker, why, label);
        }
    }
}

/// What is known of a name after the first `n` records.
proof fn after_records(v: Seq<AnalysisView>, n: int, label: Seq<char>)
    requires
        0 <= n <= v.len(),
    ensures
        ({
            let b = with_analyses(v, n);
            &&& b.enabled
            &&& b.strong_bearish.contains(label) <==> exists|k: int|
                k < n && #[trigger] speaks_of(v, k, label) && sure_down(v[k])
            &&& b.strong_bullish.contains(label) <==> exists|k: int|
                k < n && #[trigger] speaks_of(v, k, label) && sure_up(v[k])
            &&& lookup(b.buy_veto, label) is Some <==> exists|k: int|
                k < n && #[trigger] speaks_of(v, k, label) && severe(v[k])
            &&& lookup(b.conviction, label) is Some <==> exists|k: int| k < n && #[trigger] speaks_of(v, k, label)
            &&& lookup(b.fund_tilt, label) is Some <==> exists|k: int|
                k < n && #[trigger] speaks_of(v, k, label) && facts_in(v[k]) is Some
        }),
    decreases n,
{
    if n > 0 {
        after_records(v, n - 1, label);
        the_step(v, n, label);
        let own = v[n - 1].found && v[n - 1].ticker == label;
        assert(own <==> speaks_of(v, n - 1, label));
    } else {
        let b = with_analyses(v, 0);
        assert(b.strong_bearish =~= seq![] && b.strong_bullish =~= seq![]);
        assert forall|k: int| k < 0 implies !(#[trigger] speaks_of(v, k, label)) by {}
    }
}

proof fn the_last_word(v: Seq<AnalysisView>, n: int, k: int, label: Seq<char>)
    requires
        k < n <= v.len(),
        speaks_of(v, k, label),
        forall|j: int| k < j < n ==> !(#[trigger] speaks_of(v, j, label)),
    ensures
        lookup(with_analyses(v, n).conviction, label) == Some(conviction(v[k]) as i128),
        facts_in(v[k]) matches Some(f) ==> lookup(with_analyses(v, n).fund_tilt, label) == Some(tilt(f) as i128),
    decreases n,
{
    the_step(v, n, label);
    if k < n - 1 {
        assert(!speaks_of(v, n - 1, label));
        the_last_word(v, n - 1, k, label);
    }
}

/// The last record of a name counts: its conviction is the confidence in the direction
/// of that record, and its tilt that of the fundamentals in it.
pub proof fn the_last_record_of_a_name_counts(s: Settings, v: Seq<AnalysisView>, score: Option<i64>, k: int, label: Seq<char>)
    requires
        s.signal_bias_enabled,
        speaks_of(v, k, label),
        forall|j: int| k < j < v.len() ==> !(#[trigger] speaks_of(v, j, label)),
    ensures
        ({
            let size = if v[k].confidence < 0 {
                0
            } else if v[k].confidence > 1_000_000_000_000 {
                1_000_000_000_000
            } else {
                v[k].confidence
            };
            &&& v[k].direction == Direction::Bullish ==> conviction_of(loaded(s, v, score), label) == size
            &&& v[k].direction == Direction::Bearish ==> conviction_of(loaded(s, v, score), label) == -size
            &&& v[k].direction == Direction::Neutral ==> conviction_of(loaded(s, v, score), label) == 0
            &&& facts_in(v[k]) matches Some(f) ==> tilt_of(loaded(s, v, score), label) == tilt(f)
        }),
{
    the_last_word(v, v.len() as int, k, label);
    after_records(v, v.len() as int, label);
    if let Some(f) = facts_in(v[k]) {
        tilt_stays_in_range(f);
    }
}

/// The signal speaks against a name exactly where a record does: a record that calls
/// the dilution severe vetoes buying it, and one that points down with a confidence of
/// eight tenths or more, however much more, makes it strongly bearish. A name without a
/// record has no conviction, and the regime score is kept as it is.
pub proof fn the_signal_says_what_the_records_say(s: Settings, v: Seq<AnalysisView>, score: Option<i64>, label: Seq<char>)
    requires
        s.signal_bias_enabled,
    ensures
        ({
            let b = loaded(s, v, score);
            &&& b.enabled
            &&& b.macro_score == score
            &&& veto_of(b, label) is Some <==> exists|k: int| #[trigger] speaks_of(v, k, label) && severe(v[k])
            &&& b.strong_bearish.contains(label) <==> exists|k: int| #[trigger] speaks_of(v, k, label) && sure_down(v[k])
            &&& b.strong_bullish.contains(label) <==> exists|k: int| #[trigger] speaks_of(v, k, label) && sure_up(v[k])
            &&& (forall|k: int| !(#[trigger] speaks_of(v, k, label))) ==> conviction_of(b, label) == 0 && tilt_of(b, label) == 0
        }),
{
    after_records(v, v.len() as int, label);
}

/// A signal that the settings switch off says nothing, whatever the records say.
pub proof fn a_signal_switched_off_is_silent(s: Settings, v: Seq<AnalysisView>, score: Option<i64>, label: Seq<char>)
    requires
        !s.signal_bias_enabled,
    ensures
        ({
            let b = loaded(s, v, score);
            &&& !b.enabled
            &&& conviction_of(b, label) == 0
            &&& priority(b, label) == 0
            &&& veto_of(b, label) is None
            &&& multiplier(b.macro_score) == ONE
        }),
{
}

// ── numbers ────────────────────────────────────────────────────────────────

/// The key of a name is its conviction and a quarter of its tilt; each counts as it
/// stands in the signal, and as nothing where the signal is off or silent on it.
pub proof fn the_key_is_conviction_and_a_quarter_of_the_tilt(b: Bias, label: Seq<char>)
    ensures
        ({
            let c = match lookup(b.conviction, label) {
                Some(x) if b.enabled => x as int,
                _ => 0,
            };
            let t = match lookup(b.fund_tilt, label) {
                Some(x) if b.enabled => x as int,
                _ => 0,
            };
            4 * (priority(b, label) - c) <= t < 4 * (priority(b, label) - c) + 4
        }),
{
}

/// The regime releases half of the cash under thirty, all of it from seventy on or
/// without a score, and an eightieth more with each point between.
pub proof fn the_regime_releases_an_eightieth_a_point(score: i64)
    ensures
        multiplier(None) == 1_000_000_000_000,
        score >= 70 ==> multiplier(Some(score)) == 1_000_000_000_000,
        score <= 30 ==> multiplier(Some(score)) == 500_000_000_000,
        30 <= score < 70 ==> multiplier(Some((score + 1) as i64)) - multiplier(Some(score)) == 12_500_000_000,
{
}

/// `y` is a number from -1 to 1 that grows with `x` and reaches its ends
/// at `-full` and `full`.
pub open spec fn on_scale(y: int, x: int, full: int) -> bool {
    &&& -1_000_000_000_000 <= y <= 1_000_000_000_000
    &&& x >= full * 1_000_000_000_000 ==> y == 1_000_000_000_000
    &&& x <= -full * 1_000_000_000_000 ==> y == -1_000_000_000_000
    &&& -full * 1_000_000_000_000 <= x <= full * 1_000_000_000_000 ==> full * y <= x < full * y + full
}

/// The tilt weighs what is known of a name. The valuation counts fifty-five parts, all
/// the way at half its median or half above it, cheap being up; the operating margin
/// thirty parts, all the way at five points; and a spending cycle fifteen parts, up
/// where the cash-flow margin grows and down where it does not. What is not known does
/// not count, and with nothing known there is no tilt.
pub proof fn the_tilt_weighs_what_is_known(f: FundamentalsView, v: int, m: int)
    requires
        f.p_ocf_vs_median_pct matches Some(x) ==> on_scale(v, -x, 50),
        f.op_margin_trend_pp matches Some(x) ==> on_scale(m, x, 5),
    ensures
        ({
            let spent = f.capex_cycle == Some(true) && f.ocf_margin_trend_pp is Some;
            let a: int = if f.p_ocf_vs_median_pct is Some {
                55
            } else {
                0
            };
            let b: int = if f.op_margin_trend_pp is Some {
                30
            } else {
                0
            };
            let c: int = if spent {
                15
            } else {
                0
            };
            let s: int = if f.ocf_margin_trend_pp matches Some(o) && o > 0 {
                1_000_000_000_000
            } else {
                -1_000_000_000_000
            };
            let sum = a * v + b * m + c * s;
            &&& a + b + c == 0 ==> tilt(f) == 0
            &&& a + b + c > 0 ==> (a + b + c) * tilt(f) <= sum < (a + b + c) * (tilt(f) + 1)
        }),
{
    if let Some(x) = f.p_ocf_vs_median_pct {
        scale_is_exact(v, -x, 50);
    }
    if let Some(x) = f.op_margin_trend_pp {
        scale_is_exact(m, x, 5);
    }
    let n = weighed(valuation_term(f), 55) + weighed(margin_term(f), 30) + weighed(spending_term(f), 15);
    let w = counted(valuation_term(f), 55) + counted(margin_term(f), 30) + counted(spending_term(f), 15);
    if w > 0 {
        vstd::arithmetic::div_mod::lemma_fundamental_div_mod(n, w);
        let q = n / w;
        assert(w * q <= n < w * (q + 1)) by (nonlinear_arith)
            requires
                n == w * q + n % w,
                0 <= n % w < w,
        ;
    }
}

proof fn scale_is_exact(y: int, x: int, full: int)
    requires
        on_scale(y, x, full),
        full == 5 || full == 50,
    ensures
        y == clamped(x / full),
{
}

} // verus!
