//! What the rules owe: every holding and every line that a rule is meant for gets what
//! the rule promises, whatever the size of its gain, its loss or its fall.
use vstd::math::min;
use vstd::prelude::*;

use crate::fixed::{times, within, LIMIT, ONE, WIDE};
use crate::portfolio::metrics::fall_from;
use crate::portfolio::state::holding_within_limits;
use crate::portfolio::targets::{
    cluster_lines, cluster_lines_in_order, cluster_names, labels_are_distinct, line_of, line_of_facts, line_weight,
    raw_sum_value, table, table_shape, theme_lines, theme_lines_in_order, theme_names, weight_of_lines, Tier, EQUITY,
    INVESTED,
};
use crate::ranking::{ranked, ranked_member, ranking_is_an_ordered_permutation, Candidate};
use crate::rebalance::laws::{
    a_cap_relieves_its_group, caps_sized, clusters_sized, flags_are_advice, profits_sized, ranked_has, themes_sized,
    trimmed_ledger_is_sized,
};
use crate::rebalance::ledger::{sized, sized_weaker, value_of_lines, Ledger, TrimView};
use crate::rebalance::outcome::{held_once, not_among, orderly, plan_sales, profits_account, slack_is_not_negative, sold_in};
use crate::rebalance::rules::{
    aim, bought, capped_bound, cluster_names_count, cluster_reason, clusters_relieved, deploy_reason, deployable,
    deployments, early_bound, eligible, emitted, fall_of, falls, flagged, least_band, line_bound, mark_of, may_buy,
    moon_line, moon_lines, opening, plan, positions_capped, profit_taken, profits_taken, relief_bound,
    scene_within_limits, slack, stressed, theme_reason, themes_relieved, triggered, trimmed_ledger, Scene,
};
use crate::rebalance::signal_bias::{multiplier, priority, priority_bound};
use crate::rebalance::sizes::{goal_range, nav_of};
use crate::rebalance::{buying, ActionKind, ActionView};
use crate::str_map::{lookup, lookup_found, lookup_inserted};

verus! {

// ── the sizes that the rules measure against ───────────────────────────────

/// A line aims at its raw share of what the buffer leaves of the account: with the raw
/// shares adding up to 95.2 %, the goal is that part, but for the two roundings down.
pub proof fn a_goal_is_its_share_of_the_account(w: Scene, i: int)
    requires
        scene_within_limits(w),
        0 <= i < INVESTED,
        w.settings.cash_buffer_pct <= ONE,
    ensures
        ({
            let exact = w.portfolio.nav * (table()[i].target_pct * (ONE - w.settings.cash_buffer_pct));
            let unit = 95_200_000_000_000int * ONE;
            w.portfolio.nav >= 1_000 ==> aim(w, i) * unit <= exact < (aim(w, i) + 1) * unit + 95_200_000_000_000
                * w.portfolio.nav
        }),
{
    raw_sum_value();
    let nav = w.portfolio.nav;
    if nav >= 1_000 {
        let s = 95_200_000_000_000int;
        let o = ONE as int;
        let p = table()[i].target_pct * (ONE - w.settings.cash_buffer_pct);
        let q = line_weight(i, w.settings.cash_buffer_pct);
        let a = aim(w, i);
        vstd::arithmetic::div_mod::lemma_fundamental_div_mod(p, s);
        vstd::arithmetic::div_mod::lemma_fundamental_div_mod(nav * q, o);
        assert(q == p / s);
        assert(a == nav * q / o);
        assert(a * (s * o) <= nav * p) by (nonlinear_arith)
            requires
                nav * q == o * a + (nav * q) % o,
                0 <= (nav * q) % o,
                p == s * q + p % s,
                0 <= p % s,
                0 < nav,
                0 < s,
        ;
        assert(nav * p < (a + 1) * (s * o) + s * nav) by (nonlinear_arith)
            requires
                nav * q == o * a + (nav * q) % o,
                (nav * q) % o < o,
                p == s * q + p % s,
                p % s < s,
                0 < nav,
                0 < s,
        ;
    }
}

/// The band of a line is the setting's part of its goal, rounded down.
pub proof fn a_band_is_its_part_of_the_goal(w: Scene, i: int)
    ensures
        slack(w, i) * ONE <= aim(w, i) * w.settings.rebalance_band_pct < (slack(w, i) + 1) * ONE,
{
    let n = aim(w, i) * w.settings.rebalance_band_pct;
    vstd::arithmetic::div_mod::lemma_fundamental_div_mod(n, ONE as int);
}

// ── profit-takes ───────────────────────────────────────────────────────────

/// Holding `k` is of equity line `i`.
pub open spec fn holds(w: Scene, k: int, i: int) -> bool {
    0 <= k < w.portfolio.holdings.len() && 0 <= i < EQUITY && w.portfolio.holdings[k].ticker == table()[i].ticker@
}

proof fn profit_of_a_holding(w: Scene, k: int, i: int, n: int)
    requires
        orderly(w),
        holds(w, k, i),
        k < n <= w.portfolio.holdings.len(),
    ensures
        opening(w).mv[i] == w.portfolio.holdings[k].market_value,
        profits_taken(w, n).mv[i] == profit_taken(w, profits_taken(w, k), w.portfolio.holdings[k]).mv[i],
        profits_taken(w, k).mv[i] == opening(w).mv[i],
        profits_taken(w, k).mv.len() == EQUITY,
        line_of(w.portfolio.holdings[k].ticker) == Some(i),
    decreases n,
{
    let label = table()[i].ticker@;
    line_of_facts(label);
    profits_account(w, k);
    profits_account(w, n - 1);
    assert(line_of(table()[i].ticker@) == Some(i));
    assert(table()[i].ticker@ == crate::text::upper(label));
    assert forall|j: int| 0 <= j < k implies (#[trigger] w.portfolio.holdings[j]).ticker != w.portfolio.holdings[k].ticker by {}
    held_once(w.portfolio.holdings, k, 0);
    assert(not_among(w, k, label));
    assert(profits_taken(w, k).mv[i] == opening(w).mv[i]);
    if k < n - 1 {
        profit_of_a_holding(w, k, i, n - 1);
        let h = w.portfolio.holdings[n - 1];
        assert(w.portfolio.holdings[k].ticker != w.portfolio.holdings[n - 1].ticker);
        table_shape();
        line_of_facts(h.ticker);
        if let Some(j) = line_of(h.ticker) {
            assert(table()[j].ticker@ == h.ticker);
            assert(j != i);
        }
    }
}

proof fn caps_lower(w: Scene, l: Ledger, n: int, i: int)
    requires
        scene_within_limits(w),
        orderly(w),
        l.mv.len() == EQUITY,
        0 <= n <= EQUITY,
        0 <= i < EQUITY,
    ensures
        positions_capped(w, l, n).mv.len() == EQUITY,
        min(l.mv[i], times(nav_of(w.portfolio), w.settings.position_trim_target_pct)) <= positions_capped(w, l, n).mv[i]
            <= l.mv[i],
        n <= i ==> positions_capped(w, l, n).mv[i] == l.mv[i],
        l.mv[i] <= times(nav_of(w.portfolio), w.settings.position_trim_trigger_pct) ==> positions_capped(w, l, n).mv[i]
            == l.mv[i],
    decreases n,
{
    if n > 0 {
        caps_lower(w, l, n - 1, i);
        slack_is_not_negative(w, n - 1);
    }
}

/// The trims after the profit-takes: a line ends between what they left and its goal
/// or the share that a position is trimmed to, whichever is lower.
proof fn trims_after_profits(w: Scene, i: int)
    requires
        scene_within_limits(w),
        orderly(w),
        0 <= i < EQUITY,
    ensures
        ({
            let start = profits_taken(w, w.portfolio.holdings.len() as int).mv[i];
            let target = times(nav_of(w.portfolio), w.settings.position_trim_target_pct);
            &&& min(min(start, target), aim(w, i)) <= trimmed_ledger(w).mv[i] <= start
            &&& start <= times(nav_of(w.portfolio), w.settings.position_trim_trigger_pct) ==> min(start, aim(w, i))
                <= trimmed_ledger(w).mv[i]
        }),
{
    let n = w.portfolio.holdings.len() as int;
    let profits = profits_taken(w, n);
    profits_account(w, n);
    profits_sized(w, n);
    sized_weaker(profits, early_bound(n), early_bound(n), line_bound(), capped_bound(0));
    let capped = positions_capped(w, profits, EQUITY as int);
    caps_lower(w, profits, EQUITY as int, i);
    caps_sized(w, profits, EQUITY as int);
    cluster_names_count(EQUITY as int);
    let c = cluster_names(EQUITY as int).len() as int;
    sized_weaker(capped, line_bound(), capped_bound(EQUITY as int), line_bound(), relief_bound(0));
    clusters_lower(w, capped, c, i);
    clusters_sized(w, capped, c);
    let spread = clusters_relieved(w, capped, c);
    sized_weaker(spread, line_bound(), relief_bound(c), line_bound(), relief_bound(16));
    themes_lower(w, spread, theme_names(EQUITY as int).len() as int, i);
}

proof fn clusters_lower(w: Scene, l: Ledger, n: int, i: int)
    requires
        scene_within_limits(w),
        sized(l, line_bound(), relief_bound(0)),
        0 <= n <= 16,
        0 <= i < EQUITY,
    ensures
        min(l.mv[i], aim(w, i)) <= clusters_relieved(w, l, n).mv[i] <= l.mv[i],
    decreases n,
{
    if n > 0 {
        clusters_lower(w, l, n - 1, i);
        clusters_sized(w, l, n - 1);
        let m = clusters_relieved(w, l, n - 1);
        let cluster = cluster_names(EQUITY as int)[n - 1];
        let lines = cluster_lines(cluster, EQUITY as int);
        cluster_lines_in_order(cluster, EQUITY as int);
        sized_weaker(m, line_bound(), relief_bound(n - 1), line_bound(), WIDE as int);
        a_cap_relieves_its_group(
            w,
            m,
            lines,
            times(nav_of(w.portfolio), w.settings.cluster_cap_pct),
            cluster_reason(w, cluster, value_of_lines(m.mv, lines)),
        );
        assert(clusters_relieved(w, l, n).mv[i] <= m.mv[i]);
    }
}

proof fn themes_lower(w: Scene, l: Ledger, n: int, i: int)
    requires
        scene_within_limits(w),
        sized(l, line_bound(), relief_bound(16)),
        0 <= n <= 16,
        0 <= i < EQUITY,
    ensures
        min(l.mv[i], aim(w, i)) <= themes_relieved(w, l, n).mv[i] <= l.mv[i],
    decreases n,
{
    if n > 0 {
        themes_lower(w, l, n - 1, i);
        themes_sized(w, l, n - 1);
        let m = themes_relieved(w, l, n - 1);
        let theme = theme_names(EQUITY as int)[n - 1];
        let lines = theme_lines(theme, EQUITY as int);
        let target = weight_of_lines(lines, w.settings.cash_buffer_pct);
        theme_lines_in_order(theme, EQUITY as int);
        sized_weaker(m, line_bound(), relief_bound(16 + n - 1), line_bound(), WIDE as int);
        a_cap_relieves_its_group(
            w,
            m,
            lines,
            times(nav_of(w.portfolio), target + w.settings.theme_drift_band_pct),
            theme_reason(w, theme, value_of_lines(m.mv, lines), target),
        );
        assert(themes_relieved(w, l, n).mv[i] <= m.mv[i]);
    }
}

/// The part of a holding that its tier sells at its gain: a quarter of a floor name
/// that has tripled or more, three tenths of an asymmetric name that is at five times
/// its cost or more, and nothing of any other.
pub open spec fn due_profit(tier: Tier, gain: int, value: int) -> int {
    if tier == Tier::Floor && gain >= 2_000_000_000_000 {
        value / 4
    } else if tier == Tier::Asymmetric && gain >= 4_000_000_000_000 {
        value * 3 / 10
    } else {
        0
    }
}

proof fn profit_left(w: Scene, k: int, i: int)
    requires
        orderly(w),
        holds(w, k, i),
    ensures
        ({
            let h = w.portfolio.holdings[k];
            let due = due_profit(table()[i].tier, h.unrealized_plpc, h.market_value);
            &&& opening(w).mv[i] == h.market_value
            &&& due > slack(w, i) ==> profits_taken(w, w.portfolio.holdings.len() as int).mv[i] == h.market_value - due
            &&& due <= slack(w, i) ==> profits_taken(w, w.portfolio.holdings.len() as int).mv[i] == h.market_value
        }),
{
    profit_of_a_holding(w, k, i, w.portfolio.holdings.len() as int);
    table_shape();
    let h = w.portfolio.holdings[k];
    assert(h.market_value * 250_000_000_000 / 1_000_000_000_000 == h.market_value / 4);
    assert(h.market_value * 300_000_000_000 / 1_000_000_000_000 == h.market_value * 3 / 10);
}

/// A profit that is due is taken, however far the name has run: a floor name at three
/// times its cost or more sells a quarter at least, an asymmetric name at five times or
/// more three tenths at least, where that is more than the line's band.
pub proof fn a_due_profit_is_taken(w: Scene, deploy: bool, k: int, i: int)
    requires
        scene_within_limits(w),
        orderly(w),
        holds(w, k, i),
    ensures
        table()[i].tier == Tier::Floor && w.portfolio.holdings[k].unrealized_plpc >= 2_000_000_000_000
            && w.portfolio.holdings[k].market_value / 4 > slack(w, i) ==> sold_in(plan(w, deploy), table()[i].ticker@)
            >= w.portfolio.holdings[k].market_value / 4,
        table()[i].tier == Tier::Asymmetric && w.portfolio.holdings[k].unrealized_plpc >= 4_000_000_000_000
            && w.portfolio.holdings[k].market_value * 3 / 10 > slack(w, i) ==> sold_in(
            plan(w, deploy),
            table()[i].ticker@,
        ) >= w.portfolio.holdings[k].market_value * 3 / 10,
{
    profit_left(w, k, i);
    trims_after_profits(w, i);
    plan_sales(w, deploy, i);
}

/// Nothing more is sold of a line than its due profit and what stands above its goal or
/// above the share that a position is trimmed to.
pub proof fn no_sale_without_a_rule(w: Scene, deploy: bool, k: int, i: int)
    requires
        scene_within_limits(w),
        orderly(w),
        holds(w, k, i),
    ensures
        ({
            let h = w.portfolio.holdings[k];
            let sold = sold_in(plan(w, deploy), table()[i].ticker@);
            let due = due_profit(table()[i].tier, h.unrealized_plpc, h.market_value);
            let nav = nav_of(w.portfolio);
            let floor = min(times(nav, w.settings.position_trim_target_pct), aim(w, i));
            &&& sold <= due || sold <= h.market_value - floor
            &&& h.market_value <= aim(w, i) && h.market_value <= times(nav, w.settings.position_trim_trigger_pct)
                ==> sold == if due > slack(w, i) {
                due
            } else {
                0
            }
        }),
{
    profit_left(w, k, i);
    trims_after_profits(w, i);
    plan_sales(w, deploy, i);
    slack_is_not_negative(w, i);
    let h = w.portfolio.holdings[k];
    assert(0 <= h.market_value);
}

// ── deploying cash ─────────────────────────────────────────────────────────

/// What some proposals buy under a label.
pub open spec fn bought_in(s: Seq<ActionView>, label: Seq<char>) -> int
    decreases s.len(),
{
    if s.len() == 0 {
        0
    } else if s.last().kind == ActionKind::Buy && s.last().ticker == label {
        bought_in(s.drop_last(), label) + s.last().dollars
    } else {
        bought_in(s.drop_last(), label)
    }
}

/// What some proposals buy in all.
pub open spec fn bought_in_all(s: Seq<ActionView>) -> int
    decreases s.len(),
{
    if s.len() == 0 {
        0
    } else if s.last().kind == ActionKind::Buy {
        bought_in_all(s.drop_last()) + s.last().dollars
    } else {
        bought_in_all(s.drop_last())
    }
}

/// Two lists of proposals buy what each of them buys.
pub proof fn bought_in_sum(a: Seq<ActionView>, b: Seq<ActionView>, label: Seq<char>)
    ensures
        bought_in(a + b, label) == bought_in(a, label) + bought_in(b, label),
        bought_in_all(a + b) == bought_in_all(a) + bought_in_all(b),
    decreases b.len(),
{
    if b.len() == 0 {
        assert(a + b =~= a);
    } else {
        assert((a + b).drop_last() =~= a + b.drop_last());
        bought_in_sum(a, b.drop_last(), label);
    }
}

proof fn nothing_bought(s: Seq<ActionView>, label: Seq<char>)
    requires
        forall|k: int| 0 <= k < s.len() ==> (#[trigger] s[k]).kind != ActionKind::Buy,
    ensures
        bought_in(s, label) == 0,
        bought_in_all(s) == 0,
    decreases s.len(),
{
    if s.len() > 0 {
        let front = s.drop_last();
        assert forall|k: int| 0 <= k < front.len() implies (#[trigger] front[k]).kind != ActionKind::Buy by {
            assert(front[k] == s[k]);
        }
        nothing_bought(front, label);
        assert(s[s.len() - 1].kind != ActionKind::Buy);
    }
}

/// A buy in front adds its dollars.
pub proof fn one_buy(a: ActionView, tail: Seq<ActionView>, label: Seq<char>)
    requires
        a.kind == ActionKind::Buy,
    ensures
        bought_in(seq![a] + tail, label) == bought_in(tail, label) + if a.ticker == label {
            a.dollars
        } else {
            0
        },
        bought_in_all(seq![a] + tail) == bought_in_all(tail) + a.dollars,
{
    bought_in_sum(seq![a], tail, label);
    assert(seq![a].drop_last() =~= Seq::<ActionView>::empty());
    assert(bought_in(Seq::<ActionView>::empty(), label) == 0);
    assert(bought_in_all(Seq::<ActionView>::empty()) == 0);
    assert(seq![a].last() == a);
}

/// Candidates of the equity sleeve, each once, each with more room than its band.
pub open spec fn fair(w: Scene, c: Seq<Candidate>) -> bool {
    &&& forall|k: int| 0 <= k < c.len() ==> (#[trigger] c[k]).index < EQUITY && -c[k].second > slack(w, c[k].index as int)
    &&& forall|j: int, k: int| 0 <= j < k < c.len() ==> (#[trigger] c[j]).index != (#[trigger] c[k]).index
}

/// The candidates behind the first are as fair.
pub proof fn fair_rest(w: Scene, c: Seq<Candidate>)
    requires
        fair(w, c),
        c.len() > 0,
    ensures
        fair(w, c.drop_first()),
        forall|k: int| 0 <= k < c.drop_first().len() ==> (#[trigger] c.drop_first()[k]).index != c[0].index,
{
    let rest = c.drop_first();
    assert forall|k: int| 0 <= k < rest.len() implies (#[trigger] rest[k]).index < EQUITY && -rest[k].second > slack(
        w,
        rest[k].index as int,
    ) && rest[k].index != c[0].index by {
        assert(rest[k] == c[k + 1]);
        assert(c[0].index != c[k + 1].index);
    }
    assert forall|j: int, k: int| 0 <= j < k < rest.len() implies (#[trigger] rest[j]).index != (#[trigger] rest[k]).index by {
        assert(rest[j] == c[j + 1] && rest[k] == c[k + 1]);
    }
}

/// Buying in order: a line that is no candidate gets nothing; nothing is spent that is
/// not there.
pub proof fn buys_of(w: Scene, c: Seq<Candidate>, cash: int, least: int, i: int)
    requires
        scene_within_limits(w),
        orderly(w),
        fair(w, c),
        0 <= i < EQUITY,
        0 <= cash,
    ensures
        (forall|k: int| 0 <= k < c.len() ==> (#[trigger] c[k]).index != i) ==> bought_in(
            bought(w, c, cash, least),
            table()[i].ticker@,
        ) == 0,
        0 <= bought_in(bought(w, c, cash, least), table()[i].ticker@) <= bought_in_all(bought(w, c, cash, least)) <= cash,
    decreases c.len(),
{
    let label = table()[i].ticker@;
    if c.len() > 0 && cash > least {
        let j = c[0].index as int;
        let take = min(-c[0].second as int, cash);
        let rest = c.drop_first();
        fair_rest(w, c);
        slack_is_not_negative(w, j);
        labels_are_distinct();
        assert(-c[0].second > slack(w, c[0].index as int));
        if take > slack(w, j) {
            let tail = bought(w, rest, cash - take, least);
            buys_of(w, rest, cash - take, least, i);
            one_buy(buying(table()[j].ticker@, take, deploy_reason(fall_of(w, table()[j].ticker@))), tail, label);
        } else {
            buys_of(w, rest, cash, least, i);
        }
        if j != i && table()[j].ticker@ == label {
            assert(false);
        }
        if forall|k: int| 0 <= k < c.len() ==> (#[trigger] c[k]).index != i {
            assert(c[0].index != i);
            assert forall|k: int| 0 <= k < rest.len() implies (#[trigger] rest[k]).index != i by {
                assert(rest[k] == c[k + 1]);
            }
        }
    } else {
        assert(bought(w, c, cash, least) =~= seq![]);
    }
}

proof fn a_candidate_is_served(w: Scene, c: Seq<Candidate>, cash: int, least: int, k: int)
    requires
        scene_within_limits(w),
        orderly(w),
        fair(w, c),
        0 <= k < c.len(),
        0 <= cash,
    ensures
        ({
            let i = c[k].index as int;
            let s = bought(w, c, cash, least);
            let got = bought_in(s, table()[i].ticker@);
            let left = cash - bought_in_all(s);
            &&& got <= -c[k].second
            &&& got == -c[k].second || left <= least || left <= slack(w, i)
        }),
    decreases c.len(),
{
    let i = c[k].index as int;
    let label = table()[i].ticker@;
    slack_is_not_negative(w, i);
    assert(-c[k].second > slack(w, c[k].index as int));
    if cash > least {
        let j = c[0].index as int;
        let take = min(-c[0].second as int, cash);
        let rest = c.drop_first();
        fair_rest(w, c);
        slack_is_not_negative(w, j);
        labels_are_distinct();
        let next = if take > slack(w, j) {
            cash - take
        } else {
            cash
        };
        let tail = bought(w, rest, next, least);
        buys_of(w, rest, next, least, i);
        if take > slack(w, j) {
            one_buy(buying(table()[j].ticker@, take, deploy_reason(fall_of(w, table()[j].ticker@))), tail, label);
        }
        if k > 0 {
            assert(rest[k - 1] == c[k]);
            assert(c[0].index != c[k].index);
            a_candidate_is_served(w, rest, next, least, k - 1);
        }
    } else {
        assert(bought(w, c, cash, least) =~= seq![]);
    }
}

/// The candidates are exactly the lines that may be bought, each with its keys.
pub proof fn eligible_lists(w: Scene, l: Ledger, n: int)
    requires
        scene_within_limits(w),
        sized(l, line_bound(), WIDE as int),
        0 <= n <= EQUITY,
    ensures
        fair(w, eligible(w, l, n)),
        forall|k: int| 0 <= k < eligible(w, l, n).len() ==> (#[trigger] eligible(w, l, n)[k]).index < n,
        forall|k: int|
            0 <= k < eligible(w, l, n).len() ==> (#[trigger] eligible(w, l, n)[k]).second == l.mv[eligible(w, l, n)[k].index as int]
                - aim(w, eligible(w, l, n)[k].index as int) && eligible(w, l, n)[k].first == priority(
                w.bias,
                table()[eligible(w, l, n)[k].index as int].ticker@,
            ),
        forall|i: int| #![trigger may_buy(w, l, i)]
            0 <= i < n && may_buy(w, l, i) ==> exists|k: int|
                0 <= k < eligible(w, l, n).len() && (#[trigger] eligible(w, l, n)[k]).index == i,
    decreases n,
{
    if n > 0 {
        eligible_lists(w, l, n - 1);
        let (before, all) = (eligible(w, l, n - 1), eligible(w, l, n));
        let i = n - 1;
        goal_range(w.portfolio, w.settings, i);
        priority_bound(w.bias, table()[i].ticker@);
        assert(within(l.mv[i], line_bound()));
        assert forall|k: int| 0 <= k < all.len() implies (#[trigger] all[k]).index < n && -all[k].second > slack(
            w,
            all[k].index as int,
        ) && all[k].second == l.mv[all[k].index as int] - aim(w, all[k].index as int) && all[k].first == priority(
            w.bias,
            table()[all[k].index as int].ticker@,
        ) by {
            if k < before.len() {
                assert(all[k] == before[k]);
            }
        }
        assert forall|j: int, k: int| 0 <= j < k < all.len() implies (#[trigger] all[j]).index != (#[trigger] all[k]).index by {
            assert(all[j] == before[j]);
            if k < before.len() {
                assert(all[k] == before[k]);
            }
        }
        assert forall|i: int| #![trigger may_buy(w, l, i)] 0 <= i < n && may_buy(w, l, i) implies exists|k: int|
            0 <= k < all.len() && (#[trigger] all[k]).index == i by {
            if i < n - 1 {
                let k = choose|k: int| 0 <= k < before.len() && (#[trigger] before[k]).index == i;
                assert(all[k] == before[k]);
            } else {
                assert(all[all.len() - 1].index == i);
            }
        }
    }
}

/// Ranking keeps the candidates fair.
pub proof fn ranked_fair(w: Scene, c: Seq<Candidate>)
    requires
        fair(w, c),
    ensures
        fair(w, ranked(c)),
{
    let r = ranked(c);
    ranking_is_an_ordered_permutation(c);
    assert(crate::ranking::distinct(c));
    crate::ranking::ranked_distinct(c);
    assert forall|k: int| 0 <= k < r.len() implies (#[trigger] r[k]).index < EQUITY && -r[k].second > slack(
        w,
        r[k].index as int,
    ) by {
        let m = ranked_member(c, k);
        assert(c[m] == r[k]);
    }
}

/// What a plan buys are its deployments.
pub proof fn plan_buys(w: Scene, label: Seq<char>)
    ensures
        bought_in(plan(w, true), label) == bought_in(deployments(w, trimmed_ledger(w)), label),
        bought_in_all(plan(w, true)) == bought_in_all(deployments(w, trimmed_ledger(w))),
        bought_in(plan(w, false), label) == 0,
{
    let n = w.portfolio.holdings.len() as int;
    let l = trimmed_ledger(w);
    let flags = flagged(w, n);
    let trims = emitted(w, l.trims, l.trims.len() as int);
    let moons = moon_lines(w, INVESTED as int);
    flags_are_advice(w, n);
    emitted_are_trims(w, l.trims, l.trims.len() as int);
    moon_lines_are_no_buys(w, INVESTED as int);
    nothing_bought(flags, label);
    nothing_bought(trims, label);
    nothing_bought(moons, label);
    let none = Seq::<ActionView>::empty();
    assert(bought_in(none, label) == 0);
    bought_in_sum(flags, trims, label);
    bought_in_sum(flags + trims, deployments(w, l), label);
    bought_in_sum(flags + trims + deployments(w, l), moons, label);
    bought_in_sum(flags + trims, none, label);
    bought_in_sum(flags + trims + none, moons, label);
}

/// What the trims lead to are sales.
pub proof fn emitted_are_trims(w: Scene, trims: Seq<(Seq<char>, TrimView)>, n: int)
    ensures
        forall|k: int| 0 <= k < emitted(w, trims, n).len() ==> (#[trigger] emitted(w, trims, n)[k]).kind == ActionKind::Trim,
    decreases n,
{
    if n > 0 {
        emitted_are_trims(w, trims, n - 1);
        let (before, all) = (emitted(w, trims, n - 1), emitted(w, trims, n));
        assert forall|k: int| 0 <= k < all.len() implies (#[trigger] all[k]).kind == ActionKind::Trim by {
            if k < before.len() {
                assert(all[k] == before[k]);
            }
        }
    }
}

proof fn moon_lines_are_no_buys(w: Scene, n: int)
    ensures
        forall|k: int| 0 <= k < moon_lines(w, n).len() ==> (#[trigger] moon_lines(w, n)[k]).kind != ActionKind::Buy,
    decreases n,
{
    if n > EQUITY {
        moon_lines_are_no_buys(w, n - 1);
        let (before, own, all) = (moon_lines(w, n - 1), moon_line(w, table()[n - 1]), moon_lines(w, n));
        assert forall|k: int| 0 <= k < all.len() implies (#[trigger] all[k]).kind != ActionKind::Buy by {
            if k < before.len() {
                assert(all[k] == before[k]);
            } else {
                assert(all[k] == own[k - before.len()]);
            }
        }
    }
}

proof fn falls_of_others(w: Scene, n: int, label: Seq<char>)
    requires
        forall|k: int| 0 <= k < n ==> (#[trigger] w.portfolio.holdings[k]).ticker != label,
    ensures
        lookup(falls(w, n), label) is None,
    decreases n,
{
    if n > 0 {
        falls_of_others(w, n - 1, label);
        let h = w.portfolio.holdings[n - 1];
        lookup_inserted(falls(w, n - 1), h.ticker, fall_from(mark_of(w, h), h.price) as i128, label);
        assert(w.portfolio.holdings[n - 1].ticker != label);
    } else {
        lookup_found(falls(w, n), label);
    }
}

proof fn fall_of_a_holding(w: Scene, k: int, i: int, n: int)
    requires
        scene_within_limits(w),
        orderly(w),
        holds(w, k, i),
        k < n <= w.portfolio.holdings.len(),
        w.portfolio.holdings[k].price > 0,
        mark_of(w, w.portfolio.holdings[k]) > 0,
    ensures
        lookup(falls(w, n), table()[i].ticker@) == Some(
            fall_from(mark_of(w, w.portfolio.holdings[k]), w.portfolio.holdings[k].price) as i128,
        ),
    decreases n,
{
    let label = table()[i].ticker@;
    let h = w.portfolio.holdings[n - 1];
    lookup_inserted(falls(w, n - 1), h.ticker, fall_from(mark_of(w, h), h.price) as i128, label);
    if k < n - 1 {
        fall_of_a_holding(w, k, i, n - 1);
        assert(w.portfolio.holdings[k].ticker != w.portfolio.holdings[n - 1].ticker);
    } else {
        line_of_facts(label);
        table_shape();
        assert(line_of(table()[i].ticker@) == Some(i));
    }
}

/// The mark of a holding: the highest price seen, or its price where none is recorded.
pub open spec fn high_of(w: Scene, k: int) -> int {
    match lookup(w.marks, w.portfolio.holdings[k].ticker) {
        Some(m) => m as int,
        None => w.portfolio.holdings[k].price,
    }
}

/// Holding `k` has fallen from its mark by more than a fraction of it.
pub open spec fn fallen_by_more(w: Scene, k: int, fraction: int) -> bool {
    &&& 0 < w.portfolio.holdings[k].price
    &&& 0 < high_of(w, k)
    &&& (high_of(w, k) - w.portfolio.holdings[k].price) * ONE >= (fraction + 1) * high_of(w, k)
}

/// A quotient of more than a number and one exceeds the number.
pub proof fn a_large_ratio(n: int, d: int, f: int)
    requires
        0 < d,
        n >= (f + 1) * d,
    ensures
        n / d > f,
{
    vstd::arithmetic::div_mod::lemma_fundamental_div_mod(n, d);
    let q = n / d;
    assert(q > f) by (nonlinear_arith)
        requires
            n == d * q + n % d,
            n % d < d,
            n >= (f + 1) * d,
            0 < d,
    ;
}

/// A name that has fallen by more than it may calls for a buy.
pub proof fn a_fall_triggers(w: Scene, k: int, i: int)
    requires
        scene_within_limits(w),
        orderly(w),
        holds(w, k, i),
        fallen_by_more(w, k, w.settings.drawdown_deploy_single_pct),
    ensures
        triggered(w, i),
{
    let h = w.portfolio.holdings[k];
    let (mark, price) = (high_of(w, k), h.price);
    fall_of_a_holding(w, k, i, w.portfolio.holdings.len() as int);
    a_large_ratio((mark - price) * ONE, mark, w.settings.drawdown_deploy_single_pct);
    lookup_found(w.marks, h.ticker);
    if let Some(m) = lookup(w.marks, h.ticker) {
        let x = choose|x: int| 0 <= x < w.marks.len() && #[trigger] w.marks[x] == (h.ticker, m);
        assert(within(w.marks[x].1 as int, 100_000 * LIMIT));
    }
    assert(holding_within_limits(w.portfolio.holdings[k]));
    assert(mark == mark_of(w, h));
    fall_is_a_fraction(mark, price);
}

proof fn fall_is_a_fraction(mark: int, price: int)
    requires
        0 < mark,
        0 < price,
    ensures
        0 <= fall_from(mark, price) <= ONE,
{
    let (n, d) = ((mark - price) * ONE, mark);
    vstd::arithmetic::div_mod::lemma_fundamental_div_mod(n, d);
    let q = n / d;
    assert(q <= 1_000_000_000_000) by (nonlinear_arith)
        requires
            n == d * q + n % d,
            0 <= n % d,
            n <= d * 1_000_000_000_000,
            0 < d,
    ;
}

/// The signal holds nothing against buying a label.
pub open spec fn not_vetoed(w: Scene, label: Seq<char>) -> bool {
    !w.bias.enabled || lookup(w.bias.buy_veto, label) is None
}

/// A line that the rule is meant for gets its cash, however far its name has fallen. It
/// stands below its goal by more than its band, nothing vetoes it, and its own name has
/// fallen by more than the single-name trigger or its cluster is stressed. Then a plan
/// that deploys buys it up to its goal, or what is left of the cash after all buys is
/// no more than the smallest amount worth deploying or the line's band.
pub proof fn a_fallen_line_is_funded(w: Scene, k: int, i: int)
    requires
        scene_within_limits(w),
        orderly(w),
        0 <= i < EQUITY,
        aim(w, i) - trimmed_ledger(w).mv[i] > slack(w, i),
        not_vetoed(w, table()[i].ticker@),
        (holds(w, k, i) && fallen_by_more(w, k, w.settings.drawdown_deploy_single_pct)) || stressed(
            w,
            table()[i].cluster@,
        ),
    ensures
        ({
            let got = bought_in(plan(w, true), table()[i].ticker@);
            let left = deployable(w, trimmed_ledger(w)) - bought_in_all(plan(w, true));
            &&& got == aim(w, i) - trimmed_ledger(w).mv[i] || left <= least_band(w, EQUITY as int) || left <= slack(w, i)
            &&& 0 <= got <= aim(w, i) - trimmed_ledger(w).mv[i]
        }),
{
    let l = trimmed_ledger(w);
    let label = table()[i].ticker@;
    if holds(w, k, i) && fallen_by_more(w, k, w.settings.drawdown_deploy_single_pct) {
        a_fall_triggers(w, k, i);
    }
    assert(may_buy(w, l, i));
    trimmed_ledger_is_sized(w);
    let c = eligible(w, l, EQUITY as int);
    eligible_lists(w, l, EQUITY as int);
    ranked_fair(w, c);
    let a = choose|a: int| 0 <= a < c.len() && (#[trigger] c[a]).index == i;
    ranked_has(c, a);
    let r = ranked(c);
    let b = choose|b: int| 0 <= b < r.len() && #[trigger] r[b] == c[a];
    let cash = deployable(w, l);
    cash_is_not_negative(w);
    a_candidate_is_served(w, r, cash, least_band(w, EQUITY as int), b);
    buys_of(w, r, cash, least_band(w, EQUITY as int), i);
    plan_buys(w, label);
}

/// The cash that may be deployed is never negative.
pub proof fn cash_is_not_negative(w: Scene)
    ensures
        0 <= deployable(w, trimmed_ledger(w)),
{
    let m = multiplier(w.bias.macro_score);
    let x = crate::safety::deployable_cash(trimmed_ledger(w).cash, nav_of(w.portfolio), w.settings.cash_buffer_pct);
    assert(0 <= x);
    assert(0 <= m);
    assert(0 <= x * m) by (nonlinear_arith)
        requires
            0 <= x,
            0 <= m,
    ;
}

/// A line that nothing calls for is not bought: its goal is met within its band, or the
/// signal vetoes it, or neither its own fall nor its cluster's passes the trigger.
pub proof fn no_buy_without_a_fall(w: Scene, i: int)
    requires
        scene_within_limits(w),
        orderly(w),
        0 <= i < EQUITY,
        ({
            ||| aim(w, i) - trimmed_ledger(w).mv[i] <= slack(w, i)
            ||| !not_vetoed(w, table()[i].ticker@)
            ||| fall_of(w, table()[i].ticker@) <= w.settings.drawdown_deploy_single_pct && !stressed(
                w,
                table()[i].cluster@,
            )
        }),
    ensures
        bought_in(plan(w, true), table()[i].ticker@) == 0,
{
    let l = trimmed_ledger(w);
    assert(!may_buy(w, l, i));
    trimmed_ledger_is_sized(w);
    let c = eligible(w, l, EQUITY as int);
    eligible_lists(w, l, EQUITY as int);
    eligible_may_buy(w, l, EQUITY as int);
    ranked_fair(w, c);
    ranking_is_an_ordered_permutation(c);
    let r = ranked(c);
    assert forall|k: int| 0 <= k < r.len() implies (#[trigger] r[k]).index != i by {
        let m = ranked_member(c, k);
        assert(c[m] == r[k]);
        assert(may_buy(w, l, c[m].index as int));
    }
    cash_is_not_negative(w);
    buys_of(w, r, deployable(w, l), least_band(w, EQUITY as int), i);
    plan_buys(w, table()[i].ticker@);
}

proof fn eligible_may_buy(w: Scene, l: Ledger, n: int)
    requires
        0 <= n <= EQUITY,
    ensures
        forall|k: int| 0 <= k < eligible(w, l, n).len() ==> may_buy(w, l, (#[trigger] eligible(w, l, n)[k]).index as int),
    decreases n,
{
    if n > 0 {
        eligible_may_buy(w, l, n - 1);
        let (before, all) = (eligible(w, l, n - 1), eligible(w, l, n));
        assert forall|k: int| 0 <= k < all.len() implies may_buy(w, l, (#[trigger] all[k]).index as int) by {
            if k < before.len() {
                assert(all[k] == before[k]);
            }
        }
    }
}

} // verus!
