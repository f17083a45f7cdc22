//! What a cap sells: how much, from which member first, and that every theme ends up
//! contained.
use vstd::math::min;
use vstd::prelude::*;

use crate::fixed::{times, WIDE};
use crate::portfolio::targets::{
    cluster_names, in_book_order, table, theme_lines, theme_lines_in_order, theme_names, weight_of_lines, EQUITY,
};
use crate::ranking::{ahead, in_order, ranked, ranked_member, ranking_is_an_ordered_permutation, Candidate};
use crate::rebalance::laws::{
    a_cap_relieves_its_group, caps_sized, clusters_sized, overweight_is_complete, profits_sized, ranked_has, relief_facts,
    themes_sized,
};
use crate::rebalance::ledger::{booked, relieved, sellable, sized, sized_weaker, value_of_lines, Ledger};
use crate::rebalance::outcome::{
    after_sales, bands, contained, lowering_keeps_contained, orderly, plan_sales, profits_account, slack_is_not_negative,
    value_of_sums,
};
use crate::rebalance::rules::{
    aim, capped_bound, cluster_names_count, clusters_relieved, early_bound, group_relieved, line_bound, overweight,
    overweight_facts, positions_capped, profits_taken, ranked_sellable, relief_bound, scene_within_limits, slack,
    theme_reason, themes_relieved, trimmed_ledger, Scene,
};
use crate::rebalance::signal_bias::{priority, priority_bound};
use crate::rebalance::sizes::{goal_range, nav_of};

verus! {

/// A line above the trigger is sold down to exactly the target share, where the sale is
/// more than its band, however far above it stands; any other line is left as it is.
pub proof fn a_line_above_the_trigger_is_sold_to_the_target(w: Scene, l: Ledger, n: int, i: int)
    requires
        l.mv.len() == EQUITY,
        0 <= n <= EQUITY,
        0 <= i < EQUITY,
    ensures
        ({
            let nav = nav_of(w.portfolio);
            let trigger = nav * w.settings.position_trim_trigger_pct / 1_000_000_000_000;
            let target = nav * w.settings.position_trim_target_pct / 1_000_000_000_000;
            positions_capped(w, l, n).mv[i] == if i < n && l.mv[i] > trigger && l.mv[i] - target > slack(w, i) {
                target
            } else {
                l.mv[i]
            }
        }),
        positions_capped(w, l, n).mv.len() == EQUITY,
    decreases n,
{
    if n > 0 {
        a_line_above_the_trigger_is_sold_to_the_target(w, l, n - 1, i);
        a_line_above_the_trigger_is_sold_to_the_target(w, l, n - 1, n - 1);
    }
}

proof fn a_later_member_waits(l: Ledger, c: Seq<Candidate>, excess: int, reason: Seq<char>, k: int, m: int)
    requires
        l.mv.len() == EQUITY,
        sellable(l, c),
        0 <= k < m < c.len(),
    ensures
        ({
            let r = relieved(l, c, excess, reason);
            r.mv[c[m].index as int] < l.mv[c[m].index as int] ==> r.mv[c[k].index as int] == l.mv[c[k].index as int]
                - c[k].first
        }),
    decreases c.len(),
{
    if excess > 0 {
        let i = c[0].index as int;
        let take = min(c[0].first as int, excess);
        let next = booked(l, table()[i].ticker@, i, take, reason);
        let rest = c.drop_first();
        assert(c[0].index < EQUITY);
        assert forall|k: int| 0 <= k < rest.len() implies (#[trigger] rest[k]).index < EQUITY && 0 < rest[k].first
            <= next.mv[rest[k].index as int] && rest[k].index != i by {
            assert(rest[k] == c[k + 1]);
            assert(c[0].index != c[k + 1].index);
        }
        assert forall|j: int, k: int| 0 <= j < k < rest.len() implies (#[trigger] rest[j]).index != (#[trigger] rest[k]).index by {
            assert(rest[j] == c[j + 1] && rest[k] == c[k + 1]);
        }
        assert(c[0].index != c[m].index);
        assert(rest[m - 1] == c[m]);
        if k > 0 {
            assert(rest[k - 1] == c[k]);
            a_later_member_waits(next, rest, excess - take, reason, k - 1, m - 1);
            assert(c[0].index != c[k].index);
        } else {
            untouched(next, rest, excess - take, reason, i);
        }
    }
}

proof fn untouched(l: Ledger, c: Seq<Candidate>, excess: int, reason: Seq<char>, i: int)
    requires
        l.mv.len() == EQUITY,
        0 <= i < EQUITY,
        forall|k: int| 0 <= k < c.len() ==> (#[trigger] c[k]).index < EQUITY && c[k].index != i,
    ensures
        relieved(l, c, excess, reason).mv[i] == l.mv[i],
    decreases c.len(),
{
    if c.len() > 0 && excess > 0 {
        let j = c[0].index as int;
        let take = min(c[0].first as int, excess);
        let next = booked(l, table()[j].ticker@, j, take, reason);
        let rest = c.drop_first();
        assert forall|k: int| 0 <= k < rest.len() implies (#[trigger] rest[k]).index < EQUITY && rest[k].index != i by {
            assert(rest[k] == c[k + 1]);
        }
        assert(c[0].index != i);
        untouched(next, rest, excess - take, reason, i);
    }
}

proof fn overweight_keys(w: Scene, l: Ledger, lines: Seq<int>)
    requires
        scene_within_limits(w),
        sized(l, line_bound(), WIDE as int),
        in_book_order(lines, EQUITY as int),
    ensures
        forall|k: int|
            0 <= k < overweight(w, l, lines).len() ==> (#[trigger] overweight(w, l, lines)[k]).second == priority(
                w.bias,
                table()[overweight(w, l, lines)[k].index as int].ticker@,
            ) && overweight(w, l, lines)[k].first == l.mv[overweight(w, l, lines)[k].index as int] - aim(
                w,
                overweight(w, l, lines)[k].index as int,
            ),
    decreases lines.len(),
{
    if lines.len() > 0 {
        let front = lines.drop_last();
        assert forall|k: int| 0 <= k < front.len() implies 0 <= #[trigger] front[k] < EQUITY by {
            assert(front[k] == lines[k]);
        }
        assert forall|j: int, k: int| 0 <= j < k < front.len() implies #[trigger] front[j] < #[trigger] front[k] by {
            assert(front[j] == lines[j] && front[k] == lines[k]);
        }
        assert(lines.len() <= EQUITY);
        overweight_keys(w, l, front);
        let (before, all) = (overweight(w, l, front), overweight(w, l, lines));
        let i = lines[lines.len() - 1];
        goal_range(w.portfolio, w.settings, i);
        priority_bound(w.bias, table()[i].ticker@);
        assert(crate::fixed::within(l.mv[i], line_bound()));
        assert forall|k: int| 0 <= k < all.len() implies (#[trigger] all[k]).second == priority(
            w.bias,
            table()[all[k].index as int].ticker@,
        ) && all[k].first == l.mv[all[k].index as int] - aim(w, all[k].index as int) by {
            if k < before.len() {
                assert(all[k] == before[k]);
            }
        }
    }
}

/// A cap sells what stands above its limit and no more: a group within its limit is left
/// as it is, and one above it does not end below. The member furthest above its goal is
/// sold first, and among equals the one with the smaller key: a member is not touched
/// while one before it is not down to its goal.
pub proof fn a_cap_sells_the_furthest_above_first(
    w: Scene,
    l: Ledger,
    lines: Seq<int>,
    limit: int,
    reason: Seq<char>,
    a: int,
    b: int,
)
    requires
        scene_within_limits(w),
        sized(l, line_bound(), WIDE as int),
        in_book_order(lines, EQUITY as int),
        0 <= a < lines.len(),
        0 <= b < lines.len(),
    ensures
        ({
            let r = group_relieved(w, l, lines, limit, reason);
            let (i, j) = (lines[a], lines[b]);
            let (x, y) = (l.mv[i] - aim(w, i), l.mv[j] - aim(w, j));
            let (p, q) = (priority(w.bias, table()[i].ticker@), priority(w.bias, table()[j].ticker@));
            &&& value_of_lines(l.mv, lines) <= limit ==> r == l
            &&& value_of_lines(l.mv, lines) >= limit ==> value_of_lines(r.mv, lines) >= limit
            &&& (x > y || (x == y && p < q)) && r.mv[j] < l.mv[j] ==> r.mv[i] == aim(w, i)
        }),
{
    let r = group_relieved(w, l, lines, limit, reason);
    let (i, j) = (lines[a], lines[b]);
    let value = value_of_lines(l.mv, lines);
    if value > limit {
        let found = overweight(w, l, lines);
        let c = ranked(found);
        overweight_facts(w, l, lines);
        overweight_keys(w, l, lines);
        ranked_sellable(l, found);
        ranking_is_an_ordered_permutation(found);
        assert forall|k: int| 0 <= k < c.len() implies lines.contains((#[trigger] c[k]).index as int) && c[k].second == priority(
            w.bias,
            table()[c[k].index as int].ticker@,
        ) && c[k].first == l.mv[c[k].index as int] - aim(w, c[k].index as int) by {
            let m = ranked_member(found, k);
            assert(found[m] == c[k]);
            let z = choose|z: int|
                0 <= z < lines.len() && lines[z] == found[m].index && found[m].first == l.mv[lines[z]] - aim(w, lines[z]);
            assert(lines[z] == c[k].index);
        }
        relief_facts(l, c, lines, value - limit, reason);
        let (x, y) = (l.mv[i] - aim(w, i), l.mv[j] - aim(w, j));
        let (p, q) = (priority(w.bias, table()[i].ticker@), priority(w.bias, table()[j].ticker@));
        if (x > y || (x == y && p < q)) && r.mv[j] < l.mv[j] {
            assert(0 <= lines[b] < EQUITY);
            if forall|k: int| 0 <= k < c.len() ==> (#[trigger] c[k]).index != j {
                assert(r.mv[j] == l.mv[j]);
            }
            let m = choose|k: int| 0 <= k < c.len() && (#[trigger] c[k]).index == j;
            assert(0 < c[m].first);
            overweight_is_complete(w, l, lines, a);
            let z = choose|z: int|
                0 <= z < found.len() && (#[trigger] found[z]).index == lines[a] && found[z].first == l.mv[lines[a]] - aim(
                    w,
                    lines[a],
                );
            ranked_has(found, z);
            let k = choose|k: int| 0 <= k < c.len() && #[trigger] c[k] == found[z];
            assert(ahead(c[k], c[m]));
            assert(in_order(c));
            if m < k {
                assert(!ahead(c[k], c[m]));
            }
            a_later_member_waits(l, c, value - limit, reason, k, m);
        }
    }
}

/// The most that a theme may be worth: its own target share of the account and the
/// drift that is left alone.
pub open spec fn theme_limit(w: Scene, theme: Seq<char>) -> int {
    times(
        nav_of(w.portfolio),
        weight_of_lines(theme_lines(theme, EQUITY as int), w.settings.cash_buffer_pct) + w.settings.theme_drift_band_pct,
    )
}

proof fn themes_contained(w: Scene, l: Ledger, n: int)
    requires
        scene_within_limits(w),
        sized(l, line_bound(), relief_bound(16)),
        0 <= n <= 16,
        n <= theme_names(EQUITY as int).len(),
    ensures
        forall|c: int|
            0 <= c < n ==> contained(
                w,
                themes_relieved(w, l, n),
                theme_lines(#[trigger] theme_names(EQUITY as int)[c], EQUITY as int),
                theme_limit(w, theme_names(EQUITY as int)[c]),
            ),
    decreases n,
{
    if n > 0 {
        themes_contained(w, l, n - 1);
        themes_sized(w, l, n - 1);
        let m = themes_relieved(w, l, n - 1);
        let next = themes_relieved(w, l, n);
        let theme = theme_names(EQUITY as int)[n - 1];
        let lines = theme_lines(theme, EQUITY as int);
        let target = weight_of_lines(lines, w.settings.cash_buffer_pct);
        theme_lines_in_order(theme, EQUITY as int);
        sized_weaker(m, line_bound(), relief_bound(16 + n - 1), line_bound(), WIDE as int);
        a_cap_relieves_its_group(
            w,
            m,
            lines,
            theme_limit(w, theme),
            theme_reason(w, theme, value_of_lines(m.mv, lines), target),
        );
        assert forall|c: int| 0 <= c < n implies contained(
            w,
            next,
            theme_lines(#[trigger] theme_names(EQUITY as int)[c], EQUITY as int),
            theme_limit(w, theme_names(EQUITY as int)[c]),
        ) by {
            if c < n - 1 {
                let own = theme_lines(theme_names(EQUITY as int)[c], EQUITY as int);
                theme_lines_in_order(theme_names(EQUITY as int)[c], EQUITY as int);
                lowering_keeps_contained(w, next, m, own, theme_limit(w, theme_names(EQUITY as int)[c]));
            }
        }
    }
}

/// Once the sales of a plan are made, a theme stands within its own target and the drift
/// band, and the bands of its members beyond that, or each member within its band of its
/// goal.
pub proof fn a_plan_contains_every_theme(w: Scene, deploy: bool, c: int)
    requires
        scene_within_limits(w),
        orderly(w),
        0 <= c < theme_names(EQUITY as int).len(),
    ensures
        ({
            let theme = theme_names(EQUITY as int)[c];
            let lines = theme_lines(theme, EQUITY as int);
            let left = after_sales(w, deploy);
            value_of_lines(left, lines) <= theme_limit(w, theme) + value_of_lines(bands(w), lines) || forall|k: int|
                0 <= k < lines.len() ==> left[#[trigger] lines[k]] <= aim(w, lines[k]) + slack(w, lines[k])
        }),
{
    let n = w.portfolio.holdings.len() as int;
    let theme = theme_names(EQUITY as int)[c];
    let lines = theme_lines(theme, EQUITY as int);
    let left = after_sales(w, deploy);
    let l = trimmed_ledger(w);
    let profits = profits_taken(w, n);
    profits_account(w, n);
    profits_sized(w, n);
    sized_weaker(profits, early_bound(n), early_bound(n), line_bound(), capped_bound(0));
    let capped = positions_capped(w, profits, EQUITY as int);
    caps_sized(w, profits, EQUITY as int);
    cluster_names_count(EQUITY as int);
    let m = cluster_names(EQUITY as int).len() as int;
    sized_weaker(capped, line_bound(), capped_bound(EQUITY as int), line_bound(), relief_bound(0));
    clusters_sized(w, capped, m);
    let spread = clusters_relieved(w, capped, m);
    sized_weaker(spread, line_bound(), relief_bound(m), line_bound(), relief_bound(16));
    themes_contained(w, spread, theme_names(EQUITY as int).len() as int);
    assert(contained(w, l, lines, theme_limit(w, theme_names(EQUITY as int)[c])));
    theme_lines_in_order(theme, EQUITY as int);
    assert forall|k: int| 0 <= k < lines.len() implies left[#[trigger] lines[k]] <= l.mv[lines[k]] + bands(w)[lines[k]] by {
        assert(0 <= lines[k] < EQUITY);
        plan_sales(w, deploy, lines[k]);
        slack_is_not_negative(w, lines[k]);
    }
    value_of_sums(l.mv, bands(w), left, lines);
}

} // verus!
