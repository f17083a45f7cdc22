//! The sizes that the rules measure against: the account value, what each line
//! aims at in dollars, and the band around it that is left alone.
use vstd::math::max;
use vstd::prelude::*;

use crate::config::{settings_within_limits, AppConfig, Settings};
use crate::fixed::{larger, portion, times, within, Fixed, LIMIT, ONE};
use crate::portfolio::state::{portfolio_within_limits, Portfolio, PortfolioState};
use crate::portfolio::targets::{
    label_weight, line_of, line_of_facts, line_weight, line_weight_range, table, table_shape, targets,
    weight_at, COUNT, INVESTED,
};

verus! {

/// The smallest account value that shares are taken of: a billionth of a dollar.
pub const SMALLEST_NAV: i128 = 1_000;

/// The account value that the rules measure against.
pub open spec fn nav_of(p: Portfolio) -> int {
    max(p.nav, SMALLEST_NAV as int)
}

/// What line `i` aims at in dollars.
pub open spec fn goal(p: Portfolio, s: Settings, i: int) -> int {
    times(nav_of(p), line_weight(i, s.cash_buffer_pct))
}

/// The band of line `i`: the drift, as a fraction of its own goal, that is left alone.
pub open spec fn band(p: Portfolio, s: Settings, i: int) -> int {
    times(goal(p, s, i), s.rebalance_band_pct)
}

/// What a label aims at in dollars; nothing where the book does not have it.
pub open spec fn label_goal(p: Portfolio, s: Settings, label: Seq<char>) -> int {
    times(nav_of(p), label_weight(label, s.cash_buffer_pct))
}

/// The band of a label.
pub open spec fn label_band(p: Portfolio, s: Settings, label: Seq<char>) -> int {
    times(label_goal(p, s, label), s.rebalance_band_pct)
}

/// The sizes under one snapshot and one set of settings.
pub struct Sizes {
    pub nav: Fixed,
    pub goals: Vec<Fixed>,
    pub bands: Vec<Fixed>,
}

impl Sizes {
    /// These are the sizes under `p` and `s`.
    pub open spec fn measure(&self, p: Portfolio, s: Settings) -> bool {
        &&& self.nav == nav_of(p)
        &&& SMALLEST_NAV <= self.nav <= LIMIT
        &&& self.goals@.len() == INVESTED
        &&& self.bands@.len() == INVESTED
        &&& forall|i: int| 0 <= i < INVESTED ==> #[trigger] self.goals@[i] == goal(p, s, i)
        &&& forall|i: int| 0 <= i < INVESTED ==> #[trigger] self.bands@[i] == band(p, s, i)
        &&& forall|i: int| 0 <= i < INVESTED ==> 0 <= #[trigger] self.goals@[i] <= 2_000 * LIMIT
        &&& forall|i: int|
            0 <= i < INVESTED ==> within(#[trigger] self.bands@[i] as int, 2_000_000 * LIMIT)
    }
}

/// A product of two numbers of bounded size is of bounded size.
pub proof fn times_bound(x: int, f: int, a: int, b: int)
    requires
        within(x, a),
        within(f, b * ONE),
        0 <= a,
        0 <= b,
    ensures
        within(times(x, f), a * b),
        0 <= x && 0 <= f ==> 0 <= times(x, f),
{
    let n = x * f;
    let o = ONE as int;
    let c = a * b;
    assert(within(n, c * o)) by (nonlinear_arith)
        requires
            n == x * f,
            within(x, a),
            within(f, b * o),
            c == a * b,
            0 <= a,
            0 <= b,
            0 < o,
    ;
    vstd::arithmetic::div_mod::lemma_fundamental_div_mod(n, o);
    let q = n / o;
    assert(within(q, c)) by (nonlinear_arith)
        requires
            n == o * q + n % o,
            0 <= n % o < o,
            within(n, c * o),
            0 < o,
    ;
    if 0 <= x && 0 <= f {
        assert(0 <= n) by (nonlinear_arith)
            requires
                n == x * f,
                0 <= x,
                0 <= f,
        ;
    }
}

/// A goal is never negative, and of bounded size; so is the size of a band.
pub proof fn goal_range(p: Portfolio, s: Settings, i: int)
    requires
        within(p.nav, LIMIT as int),
        settings_within_limits(s),
    ensures
        SMALLEST_NAV <= nav_of(p) <= LIMIT,
        0 <= goal(p, s, i) <= 2_000 * LIMIT,
        within(band(p, s, i), 2_000_000 * LIMIT),
{
    line_weight_range(i, s.cash_buffer_pct);
    times_bound(nav_of(p), line_weight(i, s.cash_buffer_pct), LIMIT as int, 2_000);
    times_bound(goal(p, s, i), s.rebalance_band_pct, 2_000 * LIMIT, 1_000);
}

/// The goal and the band of a label are those of its line.
pub proof fn label_sizes(p: Portfolio, s: Settings, label: Seq<char>)
    ensures
        line_of(label) matches Some(i) ==> label_goal(p, s, label) == goal(p, s, i) && label_band(
            p,
            s,
            label,
        ) == band(p, s, i),
        line_of(label) is None ==> label_goal(p, s, label) == 0 && label_band(p, s, label) == 0,
        forall|i: int|
            0 <= i < COUNT ==> label_goal(p, s, #[trigger] table()[i].ticker@) == goal(p, s, i) && label_band(
                p,
                s,
                table()[i].ticker@,
            ) == band(p, s, i),
{
    line_of_facts(label);
    assert(nav_of(p) * 0 == 0) by (nonlinear_arith);
    assert(0 * s.rebalance_band_pct == 0) by (nonlinear_arith);
    assert forall|i: int| 0 <= i < COUNT implies label_goal(p, s, #[trigger] table()[i].ticker@)
        == goal(p, s, i) && label_band(p, s, table()[i].ticker@) == band(p, s, i) by {
        assert(line_of(table()[i].ticker@) == Some(i));
    }
}

impl Sizes {
    /// The sizes under a snapshot and the settings.
    pub fn new(state: &PortfolioState, cfg: &AppConfig) -> (r: Self)
        requires
            portfolio_within_limits(state@),
            settings_within_limits(cfg@),
        ensures
            r.measure(state@, cfg@),
    {
        let nav: i128 = larger(state.nav, SMALLEST_NAV);
        let mut goals: Vec<Fixed> = Vec::new();
        let mut bands: Vec<Fixed> = Vec::new();
        let mut i: usize = 0;
        while i < INVESTED
            invariant
                i <= INVESTED,
                nav == nav_of(state@),
                portfolio_within_limits(state@),
                settings_within_limits(cfg@),
                SMALLEST_NAV <= nav <= LIMIT,
                goals@.len() == i,
                bands@.len() == i,
                forall|k: int| 0 <= k < i ==> #[trigger] goals@[k] == goal(state@, cfg@, k),
                forall|k: int| 0 <= k < i ==> #[trigger] bands@[k] == band(state@, cfg@, k),
                forall|k: int| 0 <= k < i ==> 0 <= #[trigger] goals@[k] <= 2_000 * LIMIT,
                forall|k: int|
                    0 <= k < i ==> within(#[trigger] bands@[k] as int, 2_000_000 * LIMIT),
            decreases INVESTED - i,
        {
            proof {
                goal_range(state@, cfg@, i as int);
            }
            let g: i128 = portion(nav, weight_at(i, cfg.cash_buffer_pct));
            let b: i128 = portion(g, cfg.rebalance_band_pct);
            goals.push(g);
            bands.push(b);
            i += 1;
        }
        Sizes { nav, goals, bands }
    }

    /// The band of a label.
    pub fn band_of(&self, label: &str, state: &PortfolioState, cfg: &AppConfig) -> (r: Fixed)
        requires
            self.measure(state@, cfg@),
            settings_within_limits(cfg@),
            portfolio_within_limits(state@),
        ensures
            r == label_band(state@, cfg@, label@),
            within(r as int, 2_000_000 * LIMIT),
    {
        proof {
            label_sizes(state@, cfg@, label@);
            table_shape();
        }
        match crate::portfolio::targets::position(label) {
            Some(i) => {
                proof {
                    goal_range(state@, cfg@, i as int);
                }
                if i < INVESTED {
                    self.bands[i]
                } else {
                    assert(nav_of(state@) * 0 == 0) by (nonlinear_arith);
                    assert(0 * cfg@.rebalance_band_pct == 0) by (nonlinear_arith);
                    0
                }
            },
            None => 0,
        }
    }
}

} // verus!
