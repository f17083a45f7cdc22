//! The quarterly review: the account against its glide path, the clusters against
//! the cap, the names that have lost too much, and the largest drifts. It
//! proposes nothing.
use vstd::prelude::*;
use vstd::string::*;

use crate::calendar::{Date, Ymd};
use crate::config::{settings_within_limits, AppConfig, Settings};
use crate::fixed::{
    decimal, decimal_text, integer_text, larger, percent, percent_text, ratio, render, rendered, share, signed_decimal, within,
    Fixed, LIMIT,
};
use crate::lifecycle::daily::{largest_drifts, pace, pace_text, top_drifts};
use crate::portfolio::metrics::{
    cluster_shares, cluster_weights, glide_delta, glide_path_status, marks_within_limits, metric_bounded, metric_views,
    metrics, position_metrics, share_views, MetricView,
};
use crate::portfolio::state::{holding_within_limits, portfolio_within_limits, HoldingView, Portfolio, PortfolioState};
use crate::portfolio::targets::EQUITY;
use crate::rebalance::sizes::{nav_of, SMALLEST_NAV};
use crate::str_map::StrMap;

verus! {

/// The quarter of a month, from 1 to 4.
pub open spec fn quarter_of(month: int) -> int {
    (month - 1) / 3 + 1
}

/// The quarter of a day.
pub fn quarter(today: Date) -> (r: u32)
    ensures
        r == quarter_of(today@.month),
        1 <= r <= 4,
{
    (today.month() - 1) / 3 + 1
}

/// The lines of the first `n` clusters.
pub open spec fn cluster_lines_text(shares: Seq<(Seq<char>, int, int)>, cap: int, n: int) -> Seq<char>
    decreases n,
{
    if n <= 0 {
        ""@
    } else {
        let x = shares[n - 1];
        cluster_lines_text(shares, cap, n - 1) + ("- "@ + x.0 + ": "@ + percent(x.1, 1, false)
            + "% (target "@ + percent(x.2, 1, false) + "%)"@ + (if x.1 > cap {
            " ⚠ OVER CAP"@
        } else {
            ""@
        }) + "\n"@)
    }
}

/// The lines of the names among the first `n` holdings that have lost at least
/// as much as the stop.
pub open spec fn stop_lines(holdings: Seq<HoldingView>, stop: int, n: int) -> Seq<char>
    decreases n,
{
    if n <= 0 {
        ""@
    } else {
        let h = holdings[n - 1];
        let before = stop_lines(holdings, stop, n - 1);
        if h.unrealized_plpc <= -stop {
            before + ("- "@ + h.ticker + ": down "@ + percent(h.unrealized_plpc, 0, false)
                + "% — re-validate the thesis pillar before adding\n"@)
        } else {
            before
        }
    }
}

/// Some holding has lost at least as much as the stop.
pub open spec fn any_stopped(holdings: Seq<HoldingView>, stop: int) -> bool {
    exists|i: int| 0 <= i < holdings.len() && (#[trigger] holdings[i]).unrealized_plpc <= -stop
}

/// The part about the names that have lost too much.
pub open spec fn stops_text(holdings: Seq<HoldingView>, stop: int) -> Seq<char> {
    if any_stopped(holdings, stop) {
        stop_lines(holdings, stop, holdings.len() as int)
    } else {
        "- none\n"@
    }
}

/// The lines of the first `n` drifts.
pub open spec fn drift_lines(rows: Seq<MetricView>, n: int) -> Seq<char>
    decreases n,
{
    if n <= 0 {
        ""@
    } else {
        let m = rows[n - 1];
        drift_lines(rows, n - 1) + ("- "@ + m.ticker + " ("@ + m.tier + "): "@ + percent(
            m.weight,
            1,
            false,
        ) + "% vs target "@ + percent(m.target_weight, 1, false) + "% → drift "@ + percent(
            m.drift,
            1,
            true,
        ) + "%\n"@)
    }
}

/// The head of the review.
pub open spec fn review_head(today: Ymd, p: Portfolio, target: int) -> Seq<char> {
    "# Quarterly review — "@ + signed_decimal(today.year) + " Q"@ + decimal(
        quarter_of(today.month) as nat,
    ) + "\n\n"@ + "- NAV: **$"@ + rendered(p.nav, 0, false) + "** vs glide-path **$"@ + rendered(
        target,
        0,
        false,
    ) + "** → **"@ + pace_text(glide_delta(p.nav, target)) + "%** vs the 26% CAGR pace\n"@
        + "- Cash buffer: $"@ + rendered(p.cash, 0, false) + " ("@ + percent(
        ratio(p.cash, nav_of(p)),
        1,
        false,
    ) + "% of NAV)\n\n"@
}

/// The review.
pub open spec fn review(
    s: Settings,
    today: Ymd,
    p: Portfolio,
    marks: Seq<(Seq<char>, i128)>,
    glide_target: int,
) -> Seq<char> {
    let shares = cluster_shares(p, s.cash_buffer_pct);
    let top = top_drifts(metrics(p, s.cash_buffer_pct, marks, EQUITY as nat), 6);
    review_head(today, p, glide_target) + "## Cluster health (cap 30%)\n\n"@ + cluster_lines_text(
        shares,
        s.cluster_cap_pct,
        shares.len() as int,
    ) + "\n## Thesis-revalidate watch (-35% from cost)\n\n"@ + stops_text(
        p.holdings,
        s.position_stop_pct,
    ) + "\n## Position drift (largest 6)\n\n"@ + drift_lines(top, top.len() as int)
        + "\n_Checklist: (a) NAV on the 26% glide-path? (b) any thesis pillar broken (transformer shortage, hyperscaler capex guidance, NRC policy)? (c) move <1 position this quarter._\n"@
}

fn head_text(today: Date, state: &PortfolioState, glide_target: Fixed) -> (r: String)
    requires
        portfolio_within_limits(state@),
        within(glide_target as int, 10_000 * LIMIT),
    ensures
        r@ == review_head(today@, state@, glide_target as int),
{
    let (target, delta) = glide_path_status(state.nav, glide_target);
    let mut s = "# Quarterly review — ".to_owned();
    s.append(integer_text(today.year() as i128).as_str());
    s.append(" Q");
    s.append(decimal_text(quarter(today) as u128).as_str());
    s.append("\n\n");
    s.append("- NAV: **$");
    s.append(render(state.nav, 0, false).as_str());
    s.append("** vs glide-path **$");
    s.append(render(target, 0, false).as_str());
    s.append("** → **");
    s.append(pace(delta).as_str());
    s.append("%** vs the 26% CAGR pace\n");
    s.append("- Cash buffer: $");
    s.append(render(state.cash, 0, false).as_str());
    s.append(" (");
    let nav: i128 = larger(state.nav, SMALLEST_NAV);
    s.append(percent_text(share(state.cash, nav), 1, false).as_str());
    s.append("% of NAV)\n\n");
    s
}

fn clusters_text(state: &PortfolioState, cfg: &AppConfig) -> (r: String)
    requires
        portfolio_within_limits(state@),
        settings_within_limits(cfg@),
    ensures
        ({
            let shares = cluster_shares(state@, cfg@.cash_buffer_pct);
            r@ == cluster_lines_text(shares, cfg@.cluster_cap_pct, shares.len() as int)
        }),
{
    let shares = cluster_weights(state, cfg.cash_buffer_pct);
    let ghost views = share_views(shares@);
    let mut s = "".to_owned();
    let mut n: usize = 0;
    while n < shares.len()
        invariant
            n <= shares@.len(),
            views == share_views(shares@),
            forall|i: int|
                0 <= i < shares@.len() ==> within(
                    (#[trigger] shares@[i]).1 as int,
                    1_000_000_000_000_000_000_000_000_000_000_000_000,
                ) && within(shares@[i].2 as int, EQUITY * (2 * crate::fixed::FRACTION_LIMIT)),
            s@ == cluster_lines_text(views, cfg@.cluster_cap_pct, n as int),
        decreases shares@.len() - n,
    {
        let x = &shares[n];
        assert(views[n as int] == (x.0@, x.1 as int, x.2 as int));
        assert(within(shares@[n as int].1 as int, 1_000_000_000_000_000_000_000_000_000_000_000_000));
        let mut l = "- ".to_owned();
        l.append(x.0.as_str());
        l.append(": ");
        l.append(percent_text(x.1, 1, false).as_str());
        l.append("% (target ");
        l.append(percent_text(x.2, 1, false).as_str());
        l.append("%)");
        if x.1 > cfg.cluster_cap_pct {
            l.append(" ⚠ OVER CAP");
        } else {
            l.append("");
        }
        l.append("\n");
        s.append(l.as_str());
        n += 1;
    }
    s
}

fn stops(state: &PortfolioState, stop: Fixed) -> (r: String)
    requires
        portfolio_within_limits(state@),
        within(stop as int, LIMIT as int),
    ensures
        r@ == stops_text(state@.holdings, stop as int),
{
    let ghost holdings = state@.holdings;
    let mut s = "".to_owned();
    let mut any = false;
    let mut n: usize = 0;
    while n < state.holdings.len()
        invariant
            n <= state.holdings@.len(),
            holdings == state@.holdings,
            holdings.len() == state.holdings@.len(),
            portfolio_within_limits(state@),
            within(stop as int, LIMIT as int),
            s@ == stop_lines(holdings, stop as int, n as int),
            any == exists|i: int|
                0 <= i < n && (#[trigger] holdings[i]).unrealized_plpc <= -stop,
        decreases state.holdings@.len() - n,
    {
        let h = &state.holdings[n];
        assert(holdings[n as int] == h@);
        assert(holding_within_limits(holdings[n as int]));
        if h.unrealized_plpc <= -stop {
            let mut l = "- ".to_owned();
            l.append(h.ticker.as_str());
            l.append(": down ");
            l.append(percent_text(h.unrealized_plpc, 0, false).as_str());
            l.append("% — re-validate the thesis pillar before adding\n");
            s.append(l.as_str());
            any = true;
        }
        n += 1;
    }
    if any {
        s
    } else {
        "- none\n".to_owned()
    }
}

fn drifts(state: &PortfolioState, cfg: &AppConfig, high_water: &StrMap<Fixed>) -> (r: String)
    requires
        portfolio_within_limits(state@),
        settings_within_limits(cfg@),
        marks_within_limits(high_water@),
    ensures
        ({
            let top = top_drifts(
                metrics(state@, cfg@.cash_buffer_pct, high_water@, EQUITY as nat),
                6,
            );
            r@ == drift_lines(top, top.len() as int)
        }),
{
    let rows = position_metrics(state, cfg.cash_buffer_pct, high_water);
    let ghost top = top_drifts(metric_views(rows@), 6);
    let order = largest_drifts(&rows, 6);
    let mut s = "".to_owned();
    let mut i: usize = 0;
    while i < order.len()
        invariant
            i <= order@.len(),
            top == top_drifts(metric_views(rows@), 6),
            order@.len() == top.len(),
            forall|i: int| 0 <= i < rows@.len() ==> metric_bounded(#[trigger] rows@[i]@),
            forall|i: int|
                0 <= i < order@.len() ==> (#[trigger] order@[i]) < rows@.len() && rows@[order@[i] as int]@
                    == top[i],
            s@ == drift_lines(top, i as int),
        decreases order@.len() - i,
    {
        let at: usize = order[i];
        let m = &rows[at];
        assert(metric_bounded(rows@[at as int]@));
        assert(top[i as int] == m@);
        let mut l = "- ".to_owned();
        l.append(m.ticker.as_str());
        l.append(" (");
        l.append(m.tier);
        l.append("): ");
        l.append(percent_text(m.weight, 1, false).as_str());
        l.append("% vs target ");
        l.append(percent_text(m.target_weight, 1, false).as_str());
        l.append("% → drift ");
        l.append(percent_text(m.drift, 1, true).as_str());
        l.append("%\n");
        s.append(l.as_str());
        i += 1;
    }
    s
}

/// The text of the review. `glide_target` is the value that the glide path has today.
pub fn compose_review(
    cfg: &AppConfig,
    today: Date,
    state: &PortfolioState,
    high_water: &StrMap<Fixed>,
    glide_target: Fixed,
) -> (r: String)
    requires
        portfolio_within_limits(state@),
        settings_within_limits(cfg@),
        marks_within_limits(high_water@),
        within(glide_target as int, 10_000 * LIMIT),
    ensures
        r@ == review(cfg@, today@, state@, high_water@, glide_target as int),
{
    let mut s = head_text(today, state, glide_target);
    s.append("## Cluster health (cap 30%)\n\n");
    s.append(clusters_text(state, cfg).as_str());
    s.append("\n## Thesis-revalidate watch (-35% from cost)\n\n");
    s.append(stops(state, cfg.position_stop_pct).as_str());
    s.append("\n## Position drift (largest 6)\n\n");
    s.append(drifts(state, cfg, high_water).as_str());
    s.append(
        "\n_Checklist: (a) NAV on the 26% glide-path? (b) any thesis pillar broken (transformer shortage, hyperscaler capex guidance, NRC policy)? (c) move <1 position this quarter._\n",
    );
    s
}

/// The name of the file that a review is kept in.
pub fn review_name(today: Date) -> (r: String)
    ensures
        r@ == "quarterly-"@ + signed_decimal(today@.year) + "-Q"@ + decimal(
            quarter_of(today@.month) as nat,
        ) + ".md"@,
{
    let mut s = "quarterly-".to_owned();
    s.append(integer_text(today.year() as i128).as_str());
    s.append("-Q");
    s.append(decimal_text(quarter(today) as u128).as_str());
    s.append(".md");
    s
}

} // verus!
