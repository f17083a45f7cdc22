//! Where a plan leaves the book once its sales are made.
use vstd::math::min;
use vstd::prelude::*;

use crate::fixed::{times, LIMIT, ONE, WIDE};
use crate::portfolio::state::{held_from, HoldingView};
use crate::portfolio::targets::{
    cluster_lines, cluster_lines_in_order, cluster_names, in_book_order, in_equity, labels_are_distinct, line_of,
    line_of_facts, table, table_shape, theme_lines, theme_lines_in_order, theme_names, weight_of_lines, EQUITY,
    INVESTED,
};
use crate::ranking::{ranked, Candidate};
use crate::rebalance::laws::{
    a_cap_relieves_its_group, caps_sized, clusters_sized, deployments_are_buys, equity_labels_are_no_moonshots,
    flags_are_advice, moon_lines_on_moonshots, moonshot_label, no_position_stays_oversized, profits_sized,
    themes_sized,
};
use crate::rebalance::ledger::{
    booked, merged, relieved, sellable, sized, sized_weaker, value_of_lines, Ledger, TrimView,
};
use crate::rebalance::rules::{
    aim, capped_bound, cluster_names_count, cluster_reason, clusters_relieved, deployable, deployments, early_bound,
    eligible, emitted, flagged, group_relieved, least_band, line_bound, moon_lines, opening, overweight,
    overweight_facts, plan, positions_capped, profit_rule, profits_taken, ranked_sellable, relief_bound,
    scene_within_limits, slack, theme_reason, themes_relieved, trimmed_ledger, Scene,
};
use crate::rebalance::sizes::{goal_range, label_band, label_sizes, nav_of, times_bound};
use crate::rebalance::{ActionKind, ActionView};
use crate::str_map::{ascending, inserted_ascending, lookup, lookup_found, lookup_inserted};
use crate::text::{precedes, precedes_irreflexive, upper};

verus! {

/// The book is in order: each ticker is held once, in upper case and at no negative
/// value; and neither the band nor the share that a position is trimmed to is negative.
pub open spec fn orderly(w: Scene) -> bool {
    &&& forall|k: int|
        0 <= k < w.portfolio.holdings.len() ==> upper((#[trigger] w.portfolio.holdings[k]).ticker)
            == w.portfolio.holdings[k].ticker && 0 <= w.portfolio.holdings[k].market_value
    &&& forall|j: int, k: int|
        0 <= j < k < w.portfolio.holdings.len() ==> (#[trigger] w.portfolio.holdings[j]).ticker != (
        #[trigger] w.portfolio.holdings[k]).ticker
    &&& 0 <= w.settings.rebalance_band_pct
    &&& 0 <= w.settings.position_trim_target_pct
}

/// What is to be sold under a label.
pub open spec fn trim_of(l: Ledger, label: Seq<char>) -> int {
    match lookup(l.trims, label) {
        Some(t) => t.dollars,
        None => 0,
    }
}

/// The ledger accounts for every line: it is worth nothing or more, no more than at
/// the start, and the trim under its label is what it has lost.
pub open spec fn accounts(w: Scene, l: Ledger) -> bool {
    &&& ascending(l.trims)
    &&& l.mv.len() == EQUITY
    &&& forall|i: int| 0 <= i < EQUITY ==> 0 <= #[trigger] l.mv[i] <= opening(w).mv[i]
    &&& forall|i: int|
        0 <= i < EQUITY ==> trim_of(l, (#[trigger] table()[i]).ticker@) == opening(w).mv[i] - l.mv[i]
}

proof fn booking_accounts(w: Scene, l: Ledger, i: int, dollars: int, reason: Seq<char>)
    requires
        accounts(w, l),
        0 <= i < EQUITY,
        0 <= dollars <= l.mv[i],
    ensures
        accounts(w, booked(l, table()[i].ticker@, i, dollars, reason)),
{
    let label = table()[i].ticker@;
    let t = merged(lookup(l.trims, label), dollars, reason);
    let next = booked(l, label, i, dollars, reason);
    labels_are_distinct();
    inserted_ascending(l.trims, label, t);
    assert forall|j: int| 0 <= j < EQUITY implies trim_of(next, (#[trigger] table()[j]).ticker@) == opening(w).mv[j]
        - next.mv[j] by {
        lookup_inserted(l.trims, label, t, table()[j].ticker@);
        assert(trim_of(l, table()[j].ticker@) == opening(w).mv[j] - l.mv[j]);
        if j != i {
            assert(table()[j].ticker@ != table()[i].ticker@);
        }
    }
    assert forall|j: int| 0 <= j < EQUITY implies 0 <= #[trigger] next.mv[j] <= opening(w).mv[j] by {
        assert(0 <= l.mv[j] <= opening(w).mv[j]);
    }
}

/// A ticker that is held once is found.
pub proof fn held_once(holdings: Seq<HoldingView>, k: int, from: int)
    requires
        0 <= from <= k < holdings.len(),
        forall|j: int| 0 <= j < k ==> (#[trigger] holdings[j]).ticker != holdings[k].ticker,
    ensures
        held_from(holdings, holdings[k].ticker, from) == Some(holdings[k]),
    decreases k - from,
{
    if from < k {
        assert(holdings[from].ticker != holdings[k].ticker);
        held_once(holdings, k, from + 1);
    }
}

proof fn a_share_is_no_more(x: int, f: int)
    requires
        0 <= x,
        0 <= f <= ONE,
    ensures
        0 <= times(x, f) <= x,
{
    let o = ONE as int;
    let n = x * f;
    assert(0 <= n <= x * o) by (nonlinear_arith)
        requires
            n == x * f,
            0 <= x,
            0 <= f <= o,
    ;
    vstd::arithmetic::div_mod::lemma_fundamental_div_mod(n, o);
    let q = n / o;
    assert(0 <= q <= x) by (nonlinear_arith)
        requires
            n == o * q + n % o,
            0 <= n % o < o,
            0 <= n <= x * o,
            0 < o,
    ;
}

/// None of the first `n` holdings goes by the label.
pub open spec fn not_among(w: Scene, n: int, label: Seq<char>) -> bool {
    forall|k: int| 0 <= k < n ==> (#[trigger] w.portfolio.holdings[k]).ticker != label
}

proof fn opening_accounts(w: Scene)
    requires
        orderly(w),
    ensures
        accounts(w, opening(w)),
{
    let l = opening(w);
    assert forall|i: int| 0 <= i < EQUITY implies 0 <= #[trigger] l.mv[i] by {
        crate::portfolio::state::held_is_a_holding(w.portfolio, table()[i].ticker@);
    }
    assert forall|i: int| 0 <= i < EQUITY implies trim_of(l, (#[trigger] table()[i]).ticker@) == 0 by {
        lookup_found(l.trims, table()[i].ticker@);
    }
}

/// The profit-takes keep the account of every line, and touch only lines that are held.
pub proof fn profits_account(w: Scene, n: int)
    requires
        orderly(w),
        0 <= n <= w.portfolio.holdings.len(),
    ensures
        accounts(w, profits_taken(w, n)),
        forall|i: int|
            0 <= i < EQUITY && not_among(w, n, table()[i].ticker@) ==> #[trigger] profits_taken(w, n).mv[i] == opening(
                w,
            ).mv[i],
    decreases n,
{
    if n > 0 {
        profits_account(w, n - 1);
        let l = profits_taken(w, n - 1);
        let next = profits_taken(w, n);
        let h = w.portfolio.holdings[n - 1];
        table_shape();
        line_of_facts(h.ticker);
        if let Some(i) = line_of(h.ticker) {
            if let Some(r) = profit_rule(table()[i].tier) {
                assert(in_equity(table()[i].tier));
                assert(i < EQUITY);
                let label = table()[i].ticker@;
                assert(label == h.ticker);
                assert forall|k: int| 0 <= k < n - 1 implies (#[trigger] w.portfolio.holdings[k]).ticker != label by {
                    assert(w.portfolio.holdings[k].ticker != w.portfolio.holdings[n - 1].ticker);
                }
                assert(l.mv[i] == opening(w).mv[i]);
                held_once(w.portfolio.holdings, n - 1, 0);
                assert(opening(w).mv[i] == h.market_value);
                let dollars = times(h.market_value, r.1);
                a_share_is_no_more(h.market_value, r.1);
                booking_accounts(
                    w,
                    l,
                    i,
                    dollars,
                    r.2 + crate::fixed::rendered(h.unrealized_plpc + ONE, 1, false) + r.3,
                );
            }
        }
        assert forall|j: int| 0 <= j < EQUITY && not_among(w, n, table()[j].ticker@) implies #[trigger] next.mv[j]
            == opening(w).mv[j] by {
            assert(w.portfolio.holdings[n - 1].ticker != table()[j].ticker@);
            assert(not_among(w, n - 1, table()[j].ticker@));
            assert(l.mv[j] == opening(w).mv[j]);
        }
    } else {
        opening_accounts(w);
    }
}

/// A ledger in which no line is worth more than in another one.
pub open spec fn lowered(l: Ledger, from: Ledger) -> bool {
    forall|i: int| 0 <= i < EQUITY ==> #[trigger] l.mv[i] <= from.mv[i]
}

/// No band and no goal is negative.
pub proof fn slack_is_not_negative(w: Scene, i: int)
    requires
        scene_within_limits(w),
        orderly(w),
    ensures
        0 <= slack(w, i),
        0 <= aim(w, i),
{
    goal_range(w.portfolio, w.settings, i);
    times_bound(aim(w, i), w.settings.rebalance_band_pct, 2_000 * LIMIT, 1_000);
}

proof fn caps_account(w: Scene, l: Ledger, n: int)
    requires
        scene_within_limits(w),
        orderly(w),
        accounts(w, l),
        0 <= n <= EQUITY,
    ensures
        accounts(w, positions_capped(w, l, n)),
    decreases n,
{
    if n > 0 {
        caps_account(w, l, n - 1);
        let m = positions_capped(w, l, n - 1);
        let i = n - 1;
        let nav = nav_of(w.portfolio);
        let sell = m.mv[i] - times(nav, w.settings.position_trim_target_pct);
        slack_is_not_negative(w, i);
        goal_range(w.portfolio, w.settings, i);
        times_bound(nav, w.settings.position_trim_target_pct, LIMIT as int, 1_000);
        if sell > slack(w, i) {
            booking_accounts(w, m, i, sell, crate::rebalance::rules::position_reason(w, m.mv[i]));
        }
    }
}

proof fn relief_accounts(w: Scene, l: Ledger, c: Seq<Candidate>, excess: int, reason: Seq<char>)
    requires
        accounts(w, l),
        sellable(l, c),
    ensures
        accounts(w, relieved(l, c, excess, reason)),
    decreases c.len(),
{
    if c.len() > 0 && excess > 0 {
        let i = c[0].index as int;
        let take = min(c[0].first as int, excess);
        let next = booked(l, table()[i].ticker@, i, take, reason);
        assert(0 < c[0].first <= l.mv[c[0].index as int]);
        booking_accounts(w, l, i, take, reason);
        let rest = c.drop_first();
        assert forall|k: int| 0 <= k < rest.len() implies (#[trigger] rest[k]).index < EQUITY && 0 < rest[k].first
            <= next.mv[rest[k].index as int] by {
            assert(rest[k] == c[k + 1]);
            assert(c[0].index != c[k + 1].index);
        }
        assert forall|j: int, k: int| 0 <= j < k < rest.len() implies (#[trigger] rest[j]).index != (
        #[trigger] rest[k]).index by {
            assert(rest[j] == c[j + 1] && rest[k] == c[k + 1]);
        }
        relief_accounts(w, next, rest, excess - take, reason);
    }
}

proof fn group_accounts(w: Scene, l: Ledger, lines: Seq<int>, limit: int, reason: Seq<char>)
    requires
        scene_within_limits(w),
        sized(l, line_bound(), WIDE as int),
        accounts(w, l),
        in_book_order(lines, EQUITY as int),
    ensures
        accounts(w, group_relieved(w, l, lines, limit, reason)),
        lowered(group_relieved(w, l, lines, limit, reason), l),
{
    let c = overweight(w, l, lines);
    overweight_facts(w, l, lines);
    ranked_sellable(l, c);
    relief_accounts(w, l, ranked(c), value_of_lines(l.mv, lines) - limit, reason);
    a_cap_relieves_its_group(w, l, lines, limit, reason);
}

/// A cluster stands within a limit, or each of its members at its goal or below.
pub open spec fn contained(w: Scene, l: Ledger, lines: Seq<int>, limit: int) -> bool {
    value_of_lines(l.mv, lines) <= limit || forall|k: int|
        0 <= k < lines.len() ==> l.mv[#[trigger] lines[k]] <= aim(w, lines[k])
}

proof fn lower_lines_are_worth_less(a: Seq<int>, b: Seq<int>, lines: Seq<int>)
    requires
        forall|k: int| 0 <= k < lines.len() ==> a[#[trigger] lines[k]] <= b[lines[k]],
    ensures
        value_of_lines(a, lines) <= value_of_lines(b, lines),
    decreases lines.len(),
{
    if lines.len() > 0 {
        let front = lines.drop_last();
        assert forall|k: int| 0 <= k < front.len() implies a[#[trigger] front[k]] <= b[front[k]] by {
            assert(front[k] == lines[k]);
        }
        lower_lines_are_worth_less(a, b, front);
        assert(a[lines[lines.len() - 1]] <= b[lines[lines.len() - 1]]);
    }
}

/// Lower lines stay contained.
pub proof fn lowering_keeps_contained(w: Scene, l: Ledger, from: Ledger, lines: Seq<int>, limit: int)
    requires
        in_book_order(lines, EQUITY as int),
        lowered(l, from),
        contained(w, from, lines, limit),
    ensures
        contained(w, l, lines, limit),
{
    assert forall|k: int| 0 <= k < lines.len() implies l.mv[#[trigger] lines[k]] <= from.mv[lines[k]] by {
        assert(0 <= lines[k] < EQUITY);
    }
    lower_lines_are_worth_less(l.mv, from.mv, lines);
}

/// The limit of a cluster.
pub open spec fn cluster_limit(w: Scene) -> int {
    times(nav_of(w.portfolio), w.settings.cluster_cap_pct)
}

proof fn clusters_account(w: Scene, l: Ledger, n: int)
    requires
        scene_within_limits(w),
        sized(l, line_bound(), relief_bound(0)),
        accounts(w, l),
        0 <= n <= cluster_names(EQUITY as int).len(),
        n <= 16,
    ensures
        accounts(w, clusters_relieved(w, l, n)),
        lowered(clusters_relieved(w, l, n), l),
        forall|c: int|
            0 <= c < n ==> contained(
                w,
                clusters_relieved(w, l, n),
                cluster_lines(#[trigger] cluster_names(EQUITY as int)[c], EQUITY as int),
                cluster_limit(w),
            ),
    decreases n,
{
    if n > 0 {
        clusters_account(w, l, n - 1);
        clusters_sized(w, l, n - 1);
        let m = clusters_relieved(w, l, n - 1);
        let next = clusters_relieved(w, l, n);
        let cluster = cluster_names(EQUITY as int)[n - 1];
        let lines = cluster_lines(cluster, EQUITY as int);
        let reason = cluster_reason(w, cluster, value_of_lines(m.mv, lines));
        cluster_lines_in_order(cluster, EQUITY as int);
        sized_weaker(m, line_bound(), relief_bound(n - 1), line_bound(), WIDE as int);
        group_accounts(w, m, lines, cluster_limit(w), reason);
        a_cap_relieves_its_group(w, m, lines, cluster_limit(w), reason);
        assert forall|i: int| 0 <= i < EQUITY implies #[trigger] next.mv[i] <= l.mv[i] by {
            assert(m.mv[i] <= l.mv[i]);
        }
        assert forall|c: int| 0 <= c < n implies contained(
            w,
            next,
            cluster_lines(#[trigger] cluster_names(EQUITY as int)[c], EQUITY as int),
            cluster_limit(w),
        ) by {
            if c < n - 1 {
                let own = cluster_lines(cluster_names(EQUITY as int)[c], EQUITY as int);
                cluster_lines_in_order(cluster_names(EQUITY as int)[c], EQUITY as int);
                lowering_keeps_contained(w, next, m, own, cluster_limit(w));
            }
        }
    }
}

proof fn themes_account(w: Scene, l: Ledger, n: int)
    requires
        scene_within_limits(w),
        sized(l, line_bound(), relief_bound(16)),
        accounts(w, l),
        0 <= n <= 16,
    ensures
        accounts(w, themes_relieved(w, l, n)),
        lowered(themes_relieved(w, l, n), l),
    decreases n,
{
    if n > 0 {
        themes_account(w, l, n - 1);
        themes_sized(w, l, n - 1);
        let m = themes_relieved(w, l, n - 1);
        let next = themes_relieved(w, l, n);
        let theme = theme_names(EQUITY as int)[n - 1];
        let lines = theme_lines(theme, EQUITY as int);
        let target = weight_of_lines(lines, w.settings.cash_buffer_pct);
        theme_lines_in_order(theme, EQUITY as int);
        sized_weaker(m, line_bound(), relief_bound(16 + n - 1), line_bound(), WIDE as int);
        group_accounts(
            w,
            m,
            lines,
            times(nav_of(w.portfolio), target + w.settings.theme_drift_band_pct),
            theme_reason(w, theme, value_of_lines(m.mv, lines), target),
        );
        assert forall|i: int| 0 <= i < EQUITY implies #[trigger] next.mv[i] <= l.mv[i] by {
            assert(m.mv[i] <= l.mv[i]);
        }
    }
}

/// A line stands at or below the share from which on it is trimmed, or within its band
/// of the share that it is trimmed to.
pub open spec fn within_cap(w: Scene, value: int, i: int) -> bool {
    let nav = nav_of(w.portfolio);
    value <= times(nav, w.settings.position_trim_trigger_pct) || value <= times(
        nav,
        w.settings.position_trim_target_pct,
    ) + slack(w, i)
}

/// The ledger of a plan accounts for every line; no line stands above the position
/// cap, and every cluster is contained.
pub proof fn the_ledger_accounts_for_every_line(w: Scene)
    requires
        scene_within_limits(w),
        orderly(w),
    ensures
        accounts(w, trimmed_ledger(w)),
        forall|i: int| 0 <= i < EQUITY ==> within_cap(w, #[trigger] trimmed_ledger(w).mv[i], i),
        forall|c: int|
            0 <= c < cluster_names(EQUITY as int).len() ==> contained(
                w,
                trimmed_ledger(w),
                cluster_lines(#[trigger] cluster_names(EQUITY as int)[c], EQUITY as int),
                cluster_limit(w),
            ),
{
    let n = w.portfolio.holdings.len() as int;
    let profits = profits_taken(w, n);
    profits_account(w, n);
    profits_sized(w, n);
    sized_weaker(profits, early_bound(n), early_bound(n), line_bound(), capped_bound(0));
    let capped = positions_capped(w, profits, EQUITY as int);
    caps_account(w, profits, EQUITY as int);
    caps_sized(w, profits, EQUITY as int);
    cluster_names_count(EQUITY as int);
    let c = cluster_names(EQUITY as int).len() as int;
    let spread = clusters_relieved(w, capped, c);
    sized_weaker(capped, line_bound(), capped_bound(EQUITY as int), line_bound(), relief_bound(0));
    clusters_account(w, capped, c);
    clusters_sized(w, capped, c);
    sized_weaker(spread, line_bound(), relief_bound(c), line_bound(), relief_bound(16));
    let t = theme_names(EQUITY as int).len() as int;
    themes_account(w, spread, t);
    let l = trimmed_ledger(w);
    assert forall|i: int| 0 <= i < EQUITY implies within_cap(w, #[trigger] l.mv[i], i) by {
        slack_is_not_negative(w, i);
        no_position_stays_oversized(w, profits, EQUITY as int, i);
        assert(l.mv[i] <= spread.mv[i]);
        assert(spread.mv[i] <= capped.mv[i]);
    }
    assert forall|k: int| 0 <= k < c implies contained(
        w,
        l,
        cluster_lines(#[trigger] cluster_names(EQUITY as int)[k], EQUITY as int),
        cluster_limit(w),
    ) by {
        let own = cluster_lines(cluster_names(EQUITY as int)[k], EQUITY as int);
        cluster_lines_in_order(cluster_names(EQUITY as int)[k], EQUITY as int);
        lowering_keeps_contained(w, l, spread, own, cluster_limit(w));
    }
}

// ── the sales of a plan ────────────────────────────────────────────────────

/// What some proposals sell under a label.
pub open spec fn sold_in(s: Seq<ActionView>, label: Seq<char>) -> int
    decreases s.len(),
{
    if s.len() == 0 {
        0
    } else if s.last().kind == ActionKind::Trim && s.last().ticker == label {
        sold_in(s.drop_last(), label) + s.last().dollars
    } else {
        sold_in(s.drop_last(), label)
    }
}

/// Two lists of proposals sell what each of them sells.
pub proof fn sold_in_sum(a: Seq<ActionView>, b: Seq<ActionView>, label: Seq<char>)
    ensures
        sold_in(a + b, label) == sold_in(a, label) + sold_in(b, label),
    decreases b.len(),
{
    if b.len() == 0 {
        assert(a + b =~= a);
    } else {
        assert((a + b).drop_last() =~= a + b.drop_last());
        sold_in_sum(a, b.drop_last(), label);
    }
}

/// Where no proposal is a sale under a label, nothing is sold under it.
pub proof fn nothing_sold(s: Seq<ActionView>, label: Seq<char>)
    requires
        forall|k: int| 0 <= k < s.len() ==> (#[trigger] s[k]).kind != ActionKind::Trim || s[k].ticker != label,
    ensures
        sold_in(s, label) == 0,
    decreases s.len(),
{
    if s.len() > 0 {
        let front = s.drop_last();
        assert forall|k: int| 0 <= k < front.len() implies (#[trigger] front[k]).kind != ActionKind::Trim
            || front[k].ticker != label by {
            assert(front[k] == s[k]);
        }
        nothing_sold(front, label);
        assert(s[s.len() - 1].kind != ActionKind::Trim || s[s.len() - 1].ticker != label);
    }
}

proof fn emitted_sales(w: Scene, trims: Seq<(Seq<char>, TrimView)>, n: int, label: Seq<char>)
    requires
        ascending(trims),
        0 <= n <= trims.len(),
    ensures
        (forall|k: int| 0 <= k < n ==> (#[trigger] trims[k]).0 != label) ==> sold_in(emitted(w, trims, n), label) == 0,
        forall|k: int|
            0 <= k < n && (#[trigger] trims[k]).0 == label ==> sold_in(emitted(w, trims, n), label) == if trims[k].1.dollars
                > label_band(w.portfolio, w.settings, label) {
                trims[k].1.dollars
            } else {
                0
            },
    decreases n,
{
    if n > 0 {
        emitted_sales(w, trims, n - 1, label);
        let (before, all) = (emitted(w, trims, n - 1), emitted(w, trims, n));
        if all.len() > before.len() {
            assert(all.drop_last() =~= before);
        }
        if trims[n - 1].0 == label {
            assert forall|k: int| 0 <= k < n - 1 implies (#[trigger] trims[k]).0 != label by {
                assert(precedes(trims[k].0, trims[n - 1].0));
                precedes_irreflexive(label);
            }
        }
    }
}

/// What a plan sells of a line is what the trims take of it, where that is more than its band.
pub proof fn plan_sales(w: Scene, deploy: bool, i: int)
    requires
        scene_within_limits(w),
        orderly(w),
        0 <= i < EQUITY,
    ensures
        ({
            let lost = opening(w).mv[i] - trimmed_ledger(w).mv[i];
            sold_in(plan(w, deploy), table()[i].ticker@) == if lost > slack(w, i) {
                lost
            } else {
                0
            }
        }),
{
    let label = table()[i].ticker@;
    let n = w.portfolio.holdings.len() as int;
    let l = trimmed_ledger(w);
    the_ledger_accounts_for_every_line(w);
    slack_is_not_negative(w, i);
    label_sizes(w.portfolio, w.settings, label);
    assert(trim_of(l, table()[i].ticker@) == opening(w).mv[i] - l.mv[i]);
    assert(label_band(w.portfolio, w.settings, table()[i].ticker@) == slack(w, i));
    let flags = flagged(w, n);
    let trims = emitted(w, l.trims, l.trims.len() as int);
    let buys = if deploy {
        deployments(w, l)
    } else {
        seq![]
    };
    let moons = moon_lines(w, INVESTED as int);
    flags_are_advice(w, n);
    nothing_sold(flags, label);
    let ordered = ranked(eligible(w, l, EQUITY as int));
    deployments_are_buys(w, ordered, deployable(w, l), least_band(w, EQUITY as int));
    nothing_sold(buys, label);
    moon_lines_on_moonshots(w, INVESTED as int);
    equity_labels_are_no_moonshots();
    assert(!moonshot_label(table()[i].ticker@));
    nothing_sold(moons, label);
    emitted_sales(w, l.trims, l.trims.len() as int, label);
    lookup_found(l.trims, label);
    if let Some(t) = lookup(l.trims, label) {
        let k = choose|k: int| 0 <= k < l.trims.len() && #[trigger] l.trims[k] == (label, t);
        assert(l.trims[k].0 == label);
    } else {
        assert forall|k: int| 0 <= k < l.trims.len() implies (#[trigger] l.trims[k]).0 != label by {}
    }
    sold_in_sum(flags, trims, label);
    sold_in_sum(flags + trims, buys, label);
    sold_in_sum(flags + trims + buys, moons, label);
}

/// What each equity line is worth once the sales of a plan are made.
pub open spec fn after_sales(w: Scene, deploy: bool) -> Seq<int> {
    Seq::new(EQUITY as nat, |i: int| opening(w).mv[i] - sold_in(plan(w, deploy), table()[i].ticker@))
}

/// The bands of the lines.
pub open spec fn bands(w: Scene) -> Seq<int> {
    Seq::new(EQUITY as nat, |i: int| slack(w, i))
}

/// A plan never sells more of a line than is held.
pub proof fn a_plan_never_oversells(w: Scene, deploy: bool, i: int)
    requires
        scene_within_limits(w),
        orderly(w),
        0 <= i < EQUITY,
    ensures
        0 <= sold_in(plan(w, deploy), table()[i].ticker@) <= opening(w).mv[i],
{
    plan_sales(w, deploy, i);
    the_ledger_accounts_for_every_line(w);
    assert(0 <= trimmed_ledger(w).mv[i] <= opening(w).mv[i]);
}

/// Once the sales of a plan are made, no line stands above the position cap by more
/// than the sale that its band holds back.
pub proof fn a_plan_leaves_no_line_above_the_cap(w: Scene, deploy: bool, i: int)
    requires
        scene_within_limits(w),
        orderly(w),
        0 <= i < EQUITY,
    ensures
        within_cap(w, after_sales(w, deploy)[i] - slack(w, i), i),
{
    plan_sales(w, deploy, i);
    the_ledger_accounts_for_every_line(w);
    slack_is_not_negative(w, i);
    assert(within_cap(w, trimmed_ledger(w).mv[i], i));
}

/// Lines that are worth no more than two parts are worth no more than these together.
pub proof fn value_of_sums(a: Seq<int>, b: Seq<int>, sum: Seq<int>, lines: Seq<int>)
    requires
        forall|k: int| 0 <= k < lines.len() ==> sum[#[trigger] lines[k]] <= a[lines[k]] + b[lines[k]],
    ensures
        value_of_lines(sum, lines) <= value_of_lines(a, lines) + value_of_lines(b, lines),
    decreases lines.len(),
{
    if lines.len() > 0 {
        let front = lines.drop_last();
        assert forall|k: int| 0 <= k < front.len() implies sum[#[trigger] front[k]] <= a[front[k]] + b[front[k]] by {
            assert(front[k] == lines[k]);
        }
        value_of_sums(a, b, sum, front);
        assert(sum[lines[lines.len() - 1]] <= a[lines[lines.len() - 1]] + b[lines[lines.len() - 1]]);
    }
}

/// Once the sales of a plan are made, a cluster stands within its cap and the bands of
/// its members, or each member within its band of its goal.
pub proof fn a_plan_contains_every_cluster(w: Scene, deploy: bool, c: int)
    requires
        scene_within_limits(w),
        orderly(w),
        0 <= c < cluster_names(EQUITY as int).len(),
    ensures
        ({
            let lines = cluster_lines(cluster_names(EQUITY as int)[c], EQUITY as int);
            let left = after_sales(w, deploy);
            value_of_lines(left, lines) <= cluster_limit(w) + value_of_lines(bands(w), lines) || forall|k: int|
                0 <= k < lines.len() ==> left[#[trigger] lines[k]] <= aim(w, lines[k]) + slack(w, lines[k])
        }),
{
    let cluster = cluster_names(EQUITY as int)[c];
    let lines = cluster_lines(cluster, EQUITY as int);
    let left = after_sales(w, deploy);
    let l = trimmed_ledger(w);
    the_ledger_accounts_for_every_line(w);
    assert(contained(w, l, lines, cluster_limit(w)));
    cluster_lines_in_order(cluster, EQUITY as int);
    assert forall|k: int| 0 <= k < lines.len() implies left[#[trigger] lines[k]] <= l.mv[lines[k]] + bands(
        w,
    )[lines[k]] by {
        assert(0 <= lines[k] < EQUITY);
        plan_sales(w, deploy, lines[k]);
        slack_is_not_negative(w, lines[k]);
    }
    value_of_sums(l.mv, bands(w), left, lines);
}

} // verus!
