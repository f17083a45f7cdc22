//! Portfolio metrics: weights and drift against the targets for each position and
//! each cluster, the fall from the high-water marks, and the glide path.
use vstd::arithmetic::div_mod::lemma_hoist_over_denominator;
use vstd::math::{max, min};
use vstd::prelude::*;

use crate::calendar::{day_number, on_calendar, Date, Ymd};
use crate::fixed::{fraction_of, larger, quotient, ratio, share, smaller, within, Fixed, FRACTION_LIMIT, LIMIT, ONE, WIDE};
use crate::portfolio::state::{held, held_is_a_holding, holding_within_limits, portfolio_within_limits, value_held, Portfolio, PortfolioState};
use crate::portfolio::targets::{
    cluster_lines, cluster_lines_in_order, cluster_names, cluster_positions, cluster_target_weight, clusters, line_weight,
    names, table, targets, tier_label, weight_at, weight_of_lines, Target, COUNT, EQUITY,
};
use crate::rebalance::sizes::{nav_of, SMALLEST_NAV};
use crate::str_map::{lookup, lookup_found, StrMap};

verus! {

/// Every mark is of a size that the rules can reckon with.
pub open spec fn marks_within_limits(marks: Seq<(Seq<char>, i128)>) -> bool {
    forall|i: int| 0 <= i < marks.len() ==> within((#[trigger] marks[i]).1 as int, 100_000 * LIMIT)
}

/// Whether every mark is of a size that the rules can reckon with.
pub fn marks_fit(marks: &StrMap<Fixed>) -> (r: bool)
    ensures
        r == marks_within_limits(marks@),
{
    let mut i: usize = 0;
    while i < marks.len()
        invariant
            i <= marks@.len(),
            forall|k: int| 0 <= k < i ==> within((#[trigger] marks@[k]).1 as int, 100_000 * LIMIT),
        decreases marks@.len() - i,
    {
        let x: i128 = *marks.value_at(i);
        assert(x == marks@[i as int].1);
        if !crate::fixed::is_within(x, 100_000 * LIMIT) {
            return false;
        }
        i += 1;
    }
    true
}

/// The fall of a price from a mark, as a fraction of the mark; never negative.
pub open spec fn fall_from(mark: int, price: int) -> int {
    max(ratio(mark - price, mark), 0)
}

/// The fall of a price from a mark.
pub fn fall_between(mark: Fixed, price: Fixed) -> (r: Fixed)
    requires
        0 < mark <= 1_000 * WIDE,
        0 <= price <= 1_000 * WIDE,
    ensures
        r == fall_from(mark as int, price as int),
        0 <= r <= ONE,
{
    if mark <= price {
        proof {
            let (n, d) = ((mark - price) * ONE, mark as int);
            vstd::arithmetic::div_mod::lemma_fundamental_div_mod(n, d);
            let q = n / d;
            assert(q <= 0) by (nonlinear_arith)
                requires
                    n == d * q + n % d,
                    0 <= n % d,
                    n <= 0,
                    0 < d,
            ;
        }
        0
    } else {
        assert(ONE * (mark - price) == (mark - price) * ONE);
        fraction_of(ONE, mark - price, mark)
    }
}

/// What a holding would be worth at its mark, at most 10^18 dollars.
pub open spec fn value_at(mark: int, price: int, value: int) -> int {
    min(value * mark / price, WIDE as int)
}

/// What a holding would be worth at its mark.
pub fn marked_value(mark: Fixed, price: Fixed, value: Fixed) -> (r: Fixed)
    requires
        0 < mark <= 100_000 * LIMIT,
        0 < price <= 100_000 * LIMIT,
        0 < value <= LIMIT,
    ensures
        r == value_at(mark as int, price as int, value as int),
        0 <= r <= WIDE,
{
    let whole: i128 = mark / price;
    let rest: i128 = mark % price;
    let low: i128 = fraction_of(value, rest, price);
    let most: i128 = WIDE / value;
    proof {
        let (m, p, v, q, e) = (mark as int, price as int, value as int, whole as int, rest as int);
        vstd::arithmetic::div_mod::lemma_fundamental_div_mod(m, p);
        assert(v * m == v * e + (q * v) * p) by (nonlinear_arith)
            requires
                m == p * q + e,
        ;
        lemma_hoist_over_denominator(v * e, q * v, p as nat);
        assert(v * m / p == v * e / p + q * v);
        vstd::arithmetic::div_mod::lemma_fundamental_div_mod(WIDE as int, v);
        assert(q > most ==> q * v > WIDE) by (nonlinear_arith)
            requires
                WIDE as int == v * most + WIDE as int % v,
                WIDE as int % v < v,
                0 < v,
        ;
        assert(q <= most ==> 0 <= q * v <= WIDE) by (nonlinear_arith)
            requires
                WIDE as int == v * most + WIDE as int % v,
                0 <= WIDE as int % v,
                0 < v,
                0 <= q,
        ;
    }
    if whole > most {
        WIDE
    } else {
        smaller(whole * value + low, WIDE)
    }
}

// ── positions ──────────────────────────────────────────────────────────────

/// One row of the tracking table.
#[derive(Debug, Clone)]
pub struct PositionMetric {
    pub ticker: String,
    pub tier: &'static str,
    pub cluster: &'static str,
    pub market_value: Fixed,
    /// The share of the account.
    pub weight: Fixed,
    /// The share that the line aims at.
    pub target_weight: Fixed,
    /// How far the share stands above the one aimed at.
    pub drift: Fixed,
    pub unrealized_plpc: Fixed,
    /// The fall from the high-water mark, as a positive fraction.
    pub drawdown: Fixed,
}

/// A row as plain values.
#[verifier::ext_equal]
pub struct MetricView {
    pub ticker: Seq<char>,
    pub tier: Seq<char>,
    pub cluster: Seq<char>,
    pub market_value: int,
    pub weight: int,
    pub target_weight: int,
    pub drift: int,
    pub unrealized_plpc: int,
    pub drawdown: int,
}

impl View for PositionMetric {
    type V = MetricView;

    open spec fn view(&self) -> MetricView {
        MetricView {
            ticker: self.ticker@,
            tier: self.tier@,
            cluster: self.cluster@,
            market_value: self.market_value as int,
            weight: self.weight as int,
            target_weight: self.target_weight as int,
            drift: self.drift as int,
            unrealized_plpc: self.unrealized_plpc as int,
            drawdown: self.drawdown as int,
        }
    }
}

/// The fall of a price from the ticker's mark; nothing where either is not positive.
pub open spec fn drawdown_of(marks: Seq<(Seq<char>, i128)>, ticker: Seq<char>, price: int) -> int {
    let mark = match lookup(marks, ticker) {
        Some(m) => m as int,
        None => price,
    };
    if mark > 0 && price > 0 {
        fall_from(mark, price)
    } else {
        0
    }
}

/// The row of line `i`.
pub open spec fn metric(
    p: Portfolio,
    cash_buffer_pct: int,
    marks: Seq<(Seq<char>, i128)>,
    i: int,
) -> MetricView {
    let t = table()[i];
    let h = held(p, t.ticker@);
    let value = value_held(p, t.ticker@);
    let weight = ratio(value, nav_of(p));
    let target = line_weight(i, cash_buffer_pct);
    MetricView {
        ticker: t.ticker@,
        tier: tier_label(t.tier),
        cluster: t.cluster@,
        market_value: value,
        weight,
        target_weight: target,
        drift: weight - target,
        unrealized_plpc: match h {
            Some(h) => h.unrealized_plpc,
            None => 0,
        },
        drawdown: drawdown_of(
            marks,
            t.ticker@,
            match h {
                Some(h) => h.price,
                None => 0,
            },
        ),
    }
}

/// The rows of the first `n` lines.
pub open spec fn metrics(
    p: Portfolio,
    cash_buffer_pct: int,
    marks: Seq<(Seq<char>, i128)>,
    n: nat,
) -> Seq<MetricView> {
    Seq::new(n, |i: int| metric(p, cash_buffer_pct, marks, i))
}

/// The views of some rows.
pub open spec fn metric_views(v: Seq<PositionMetric>) -> Seq<MetricView> {
    v.map_values(|m: PositionMetric| m@)
}

/// The numbers of a row are of bounded size.
pub open spec fn metric_bounded(m: MetricView) -> bool {
    &&& within(m.weight, 1_000_000_000_000_000_000_000_000_000_000_000_000)
    &&& within(m.drift, 1_000_000_000_001_000_000_000_000_000_000_000_000)
    &&& within(m.target_weight, 2 * FRACTION_LIMIT)
    &&& within(m.market_value, LIMIT as int)
    &&& 0 <= m.drawdown <= ONE
}

fn drawdown_at(marks: &StrMap<Fixed>, ticker: &str, price: Fixed) -> (r: Fixed)
    requires
        marks_within_limits(marks@),
        within(price as int, 100_000 * LIMIT),
    ensures
        r == drawdown_of(marks@, ticker@, price as int),
        0 <= r <= ONE,
{
    proof {
        lookup_found(marks@, ticker@);
        if let Some(x) = lookup(marks@, ticker@) {
            let i = choose|i: int| 0 <= i < marks@.len() && #[trigger] marks@[i] == (ticker@, x);
            assert(within(marks@[i].1 as int, 100_000 * LIMIT));
        }
    }
    let mark: i128 = match marks.get(ticker) {
        Some(x) => *x,
        None => price,
    };
    if mark > 0 && price > 0 {
        fall_between(mark, price)
    } else {
        0
    }
}

/// The rows of the equity sleeve. The moonshot sleeve has its own lifecycle and
/// is not in this table.
pub fn position_metrics(
    state: &PortfolioState,
    cash_buffer_pct: Fixed,
    high_water: &StrMap<Fixed>,
) -> (r: Vec<PositionMetric>)
    requires
        portfolio_within_limits(state@),
        within(cash_buffer_pct as int, FRACTION_LIMIT as int),
        marks_within_limits(high_water@),
    ensures
        metric_views(r@) == metrics(
            state@,
            cash_buffer_pct as int,
            high_water@,
            EQUITY as nat,
        ),
        forall|i: int| 0 <= i < r@.len() ==> metric_bounded(#[trigger] r@[i]@),
        r@.len() == EQUITY,
{
    let all = targets();
    let nav: i128 = larger(state.nav, SMALLEST_NAV);
    let mut out: Vec<PositionMetric> = Vec::new();
    let mut i: usize = 0;
    while i < EQUITY
        invariant
            i <= EQUITY,
            all@ == table(),
            all@.len() == COUNT,
            portfolio_within_limits(state@),
            within(cash_buffer_pct as int, FRACTION_LIMIT as int),
            marks_within_limits(high_water@),
            nav == nav_of(state@),
            SMALLEST_NAV <= nav <= LIMIT,
            out@.len() == i,
            forall|k: int|
                0 <= k < i ==> #[trigger] out@[k]@ == metric(
                    state@,
                    cash_buffer_pct as int,
                    high_water@,
                    k,
                ),
            forall|k: int| 0 <= k < i ==> metric_bounded(#[trigger] out@[k]@),
        decreases EQUITY - i,
    {
        let t: Target = all[i];
        proof {
            held_is_a_holding(state@, t.ticker@);
        }
        let value: i128 = state.market_value(t.ticker);
        let (price, plpc): (i128, i128) = match state.holding(t.ticker) {
            Some(h) => {
                assert(holding_within_limits(h@));
                (h.price, h.unrealized_plpc)
            },
            None => (0, 0),
        };
        let weight: i128 = share(value, nav);
        let target: i128 = weight_at(i, cash_buffer_pct);
        out.push(
            PositionMetric {
                ticker: t.ticker.to_owned(),
                tier: t.tier.label(),
                cluster: t.cluster,
                market_value: value,
                weight,
                target_weight: target,
                drift: weight - target,
                unrealized_plpc: plpc,
                drawdown: drawdown_at(high_water, t.ticker, price),
            },
        );
        i += 1;
    }
    assert(metric_views(out@) =~= metrics(
        state@,
        cash_buffer_pct as int,
        high_water@,
        EQUITY as nat,
    ));
    out
}

// ── clusters ───────────────────────────────────────────────────────────────

/// The value that is held of some lines.
pub open spec fn held_of_lines(p: Portfolio, lines: Seq<int>) -> int
    decreases lines.len(),
{
    if lines.len() == 0 {
        0
    } else {
        held_of_lines(p, lines.drop_last()) + value_held(p, table()[lines.last()].ticker@)
    }
}

/// A cluster with the share of the account that it has and the one it aims at.
pub open spec fn cluster_weight(p: Portfolio, cash_buffer_pct: int, cluster: Seq<char>) -> (
    Seq<char>,
    int,
    int,
) {
    let lines = cluster_lines(cluster, EQUITY as int);
    (
        cluster,
        ratio(held_of_lines(p, lines), nav_of(p)),
        weight_of_lines(lines, cash_buffer_pct),
    )
}

/// The clusters of the equity sleeve with their shares.
pub open spec fn cluster_shares(p: Portfolio, cash_buffer_pct: int) -> Seq<(Seq<char>, int, int)> {
    cluster_names(EQUITY as int).map_values(|c: Seq<char>| cluster_weight(p, cash_buffer_pct, c))
}

/// The views of a list of shares.
pub open spec fn share_views(v: Seq<(String, Fixed, Fixed)>) -> Seq<(Seq<char>, int, int)> {
    v.map_values(|x: (String, Fixed, Fixed)| (x.0@, x.1 as int, x.2 as int))
}

fn held_in(state: &PortfolioState, lines: &Vec<usize>) -> (r: Fixed)
    requires
        portfolio_within_limits(state@),
        lines@.len() <= EQUITY,
        forall|k: int| 0 <= k < lines@.len() ==> #[trigger] lines@[k] < EQUITY,
    ensures
        r == held_of_lines(state@, lines@.map_values(|i: usize| i as int)),
        within(r as int, 16 * LIMIT),
{
    let all = targets();
    let ghost nums = lines@.map_values(|i: usize| i as int);
    let mut sum: i128 = 0;
    let mut k: usize = 0;
    while k < lines.len()
        invariant
            k <= lines@.len() <= EQUITY,
            all@ == table(),
            all@.len() == COUNT,
            nums == lines@.map_values(|i: usize| i as int),
            portfolio_within_limits(state@),
            forall|k: int| 0 <= k < lines@.len() ==> #[trigger] lines@[k] < EQUITY,
            sum == held_of_lines(state@, nums.take(k as int)),
            within(sum as int, LIMIT * k),
        decreases lines@.len() - k,
    {
        assert(nums.take(k + 1).drop_last() == nums.take(k as int));
        assert(nums.take(k + 1).last() == lines@[k as int]);
        sum = sum + state.market_value(all[lines[k]].ticker);
        k += 1;
    }
    assert(nums.take(nums.len() as int) == nums);
    sum
}

/// The clusters of the equity sleeve, each with the share of the account that it
/// has and the one it aims at.
pub fn cluster_weights(state: &PortfolioState, cash_buffer_pct: Fixed) -> (r: Vec<
    (String, Fixed, Fixed),
>)
    requires
        portfolio_within_limits(state@),
        within(cash_buffer_pct as int, FRACTION_LIMIT as int),
    ensures
        share_views(r@) == cluster_shares(state@, cash_buffer_pct as int),
        forall|i: int|
            0 <= i < r@.len() ==> within(
                (#[trigger] r@[i]).1 as int,
                1_000_000_000_000_000_000_000_000_000_000_000_000,
            ) && within(r@[i].2 as int, EQUITY * (2 * FRACTION_LIMIT)),
{
    let all = clusters();
    let nav: i128 = larger(state.nav, SMALLEST_NAV);
    let mut out: Vec<(String, Fixed, Fixed)> = Vec::new();
    let mut n: usize = 0;
    assert(names(all@).len() == all@.len());
    while n < all.len()
        invariant
            n <= all@.len(),
            names(all@) == cluster_names(EQUITY as int),
            names(all@).len() == all@.len(),
            portfolio_within_limits(state@),
            within(cash_buffer_pct as int, FRACTION_LIMIT as int),
            nav == nav_of(state@),
            SMALLEST_NAV <= nav <= LIMIT,
            out@.len() == n,
            forall|k: int|
                0 <= k < n ==> ((#[trigger] out@[k]).0@, out@[k].1 as int, out@[k].2 as int)
                    == cluster_weight(state@, cash_buffer_pct as int, cluster_names(EQUITY as int)[k]),
            forall|k: int|
                0 <= k < n ==> within(
                    (#[trigger] out@[k]).1 as int,
                    1_000_000_000_000_000_000_000_000_000_000_000_000,
                ) && within(out@[k].2 as int, EQUITY * (2 * FRACTION_LIMIT)),
        decreases all@.len() - n,
    {
        let c: &'static str = all[n];
        assert(cluster_names(EQUITY as int)[n as int] == c@);
        let lines = cluster_positions(c);
        proof {
            cluster_lines_in_order(c@, EQUITY as int);
            assert(lines@.map_values(|i: usize| i as int).len() == lines@.len());
        }
        let value: i128 = held_in(state, &lines);
        let weight: i128 = share(value, nav);
        let target: i128 = cluster_target_weight(c, cash_buffer_pct);
        out.push((c.to_owned(), weight, target));
        n += 1;
    }
    assert(share_views(out@) =~= cluster_shares(state@, cash_buffer_pct as int));
    out
}

// ── the glide path ─────────────────────────────────────────────────────────

/// The day the glide path starts on.
pub open spec fn inception() -> Ymd {
    Ymd { year: 2026, month: 6, day: 22 }
}

/// The days since the glide path started, none before it did.
pub fn days_since_inception(today: Date) -> (r: i64)
    ensures
        r == max(day_number(today@) - day_number(inception()), 0),
{
    match Date::from_ymd_opt(2026, 6, 22) {
        Some(start) => {
            let days: i64 = today.days_since(&start);
            if days > 0 {
                days
            } else {
                0
            }
        },
        None => {
            assert(on_calendar(inception()));
            0
        },
    }
}

/// How far the account stands ahead of its glide path, as a fraction of it.
pub open spec fn glide_delta(nav: int, target: int) -> int {
    if target > 0 {
        ratio(nav - target, target)
    } else {
        0
    }
}

/// The glide path's value with how far the account stands ahead of it.
pub fn glide_path_status(nav: Fixed, target: Fixed) -> (r: (Fixed, Fixed))
    requires
        within(nav as int, LIMIT as int),
        within(target as int, 10_000 * LIMIT),
    ensures
        r.0 == target,
        r.1 == glide_delta(nav as int, target as int),
        within(r.1 as int, 2 * LIMIT * ONE),
{
    if target > 0 {
        let d: i128 = quotient(nav - target, target);
        proof {
            let (n, e) = (nav * ONE, target as int);
            vstd::arithmetic::div_mod::lemma_hoist_over_denominator(n, -(ONE as int), e as nat);
            assert(n + (-(ONE as int)) * e == (nav - target) * ONE) by (nonlinear_arith)
                requires
                    n == nav * ONE,
                    e == target,
            ;
            vstd::arithmetic::div_mod::lemma_fundamental_div_mod(n, e);
            assert(within(n / e, 1_000_000_000_000_000_000_000_000_000_000_000)) by (nonlinear_arith)
                requires
                    n == e * (n / e) + n % e,
                    0 <= n % e < e,
                    1 <= e,
                    within(n, 1_000_000_000_000_000_000_000_000_000_000_000),
            ;
        }
        (target, d)
    } else {
        (target, 0)
    }
}

} // verus!
