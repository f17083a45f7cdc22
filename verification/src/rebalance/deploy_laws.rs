//! Who is funded first, how much may be deployed, and when a cluster counts as fallen.
use vstd::math::{max, min};
use vstd::prelude::*;

use crate::fixed::{LIMIT, ONE, WIDE};
use crate::portfolio::metrics::value_at;
use crate::portfolio::state::{held_is_a_holding, holding_within_limits};
use crate::portfolio::targets::{
    cluster_lines, cluster_lines_in_order, in_book_order, label_is_upper, labels_are_distinct, table, EQUITY,
};
use crate::ranking::{ahead, in_order, ranked, ranked_member, ranking_is_an_ordered_permutation, what_ties_keeps_its_order, Candidate};
use crate::rebalance::laws::{ranked_has, trimmed_ledger_is_sized};
use crate::rebalance::ledger::Ledger;
use crate::rebalance::outcome::{held_once, orderly, slack_is_not_negative};
use crate::rebalance::promises::{
    a_fall_triggers, a_large_ratio, bought_in, buys_of, cash_is_not_negative, eligible_lists, fair, fair_rest,
    fallen_by_more, high_of, holds, not_vetoed, one_buy, plan_buys, ranked_fair,
};
use crate::rebalance::rules::{
    aim, bought, cohort_at_marks, cohort_fall, cohort_now, counted, deploy_reason, deployable, eligible, fall_of,
    least_band, line_at_mark, line_now, may_buy, plan, scene_within_limits, slack, stressed, trimmed_ledger, Scene,
};
use crate::rebalance::signal_bias::priority;
use crate::rebalance::sizes::nav_of;
use crate::rebalance::buying;
use crate::text::upper;

verus! {

// ── who is funded first ────────────────────────────────────────────────────

proof fn a_later_line_waits(w: Scene, c: Seq<Candidate>, cash: int, least: int, k: int, m: int)
    requires
        scene_within_limits(w),
        orderly(w),
        fair(w, c),
        0 <= k < m < c.len(),
        0 <= cash,
    ensures
        ({
            let s = bought(w, c, cash, least);
            ||| bought_in(s, table()[c[k].index as int].ticker@) == -c[k].second
            ||| bought_in(s, table()[c[m].index as int].ticker@) <= slack(w, c[k].index as int)
        }),
    decreases c.len(),
{
    let (i, late) = (c[k].index as int, c[m].index as int);
    slack_is_not_negative(w, i);
    assert(-c[k].second > slack(w, c[k].index as int));
    assert(c[k].index != c[m].index);
    if cash > least {
        let j = c[0].index as int;
        let take = min(-c[0].second as int, cash);
        let rest = c.drop_first();
        fair_rest(w, c);
        slack_is_not_negative(w, j);
        labels_are_distinct();
        let next = if take > slack(w, j) {
            cash - take
        } else {
            cash
        };
        let tail = bought(w, rest, next, least);
        buys_of(w, rest, next, least, i);
        buys_of(w, rest, next, least, late);
        assert(c[0].index != c[m].index);
        assert(table()[j].ticker@ != table()[late].ticker@);
        if take > slack(w, j) {
            let a = buying(table()[j].ticker@, take, deploy_reason(fall_of(w, table()[j].ticker@)));
            one_buy(a, tail, table()[i].ticker@);
            one_buy(a, tail, table()[late].ticker@);
        }
        if k > 0 {
            assert(rest[k - 1] == c[k] && rest[m - 1] == c[m]);
            assert(c[0].index != c[k].index);
            assert(table()[j].ticker@ != table()[i].ticker@);
            a_later_line_waits(w, rest, next, least, k - 1, m - 1);
        }
    } else {
        assert(bought(w, c, cash, least) =~= seq![]);
    }
}

/// A line that the rule is meant for: nothing vetoes it, it stands below its goal by
/// more than its band, and its own fall, that of holding `k`, or its cluster's calls
/// for a buy.
pub open spec fn called_for(w: Scene, k: int, i: int) -> bool {
    &&& 0 <= i < EQUITY
    &&& aim(w, i) - trimmed_ledger(w).mv[i] > slack(w, i)
    &&& not_vetoed(w, table()[i].ticker@)
    &&& (holds(w, k, i) && fallen_by_more(w, k, w.settings.drawdown_deploy_single_pct)) || stressed(w, table()[i].cluster@)
}

/// The line with the larger key is funded first, and at equal keys the one that stands
/// further below its goal: the other is bought for no more than the first one's band
/// while the first is not bought up to its goal.
pub proof fn the_first_in_line_is_funded_first(w: Scene, k: int, i: int, j: int)
    requires
        scene_within_limits(w),
        orderly(w),
        called_for(w, k, i),
        0 <= j < EQUITY,
        ({
            let x = priority(w.bias, table()[i].ticker@);
            let y = priority(w.bias, table()[j].ticker@);
            x > y || (x == y && aim(w, i) - trimmed_ledger(w).mv[i] > aim(w, j) - trimmed_ledger(w).mv[j])
        }),
    ensures
        ({
            ||| bought_in(plan(w, true), table()[i].ticker@) == aim(w, i) - trimmed_ledger(w).mv[i]
            ||| bought_in(plan(w, true), table()[j].ticker@) <= slack(w, i)
        }),
{
    let l = trimmed_ledger(w);
    let least = least_band(w, EQUITY as int);
    if holds(w, k, i) && fallen_by_more(w, k, w.settings.drawdown_deploy_single_pct) {
        a_fall_triggers(w, k, i);
    }
    assert(may_buy(w, l, i));
    slack_is_not_negative(w, i);
    trimmed_ledger_is_sized(w);
    let c = eligible(w, l, EQUITY as int);
    eligible_lists(w, l, EQUITY as int);
    ranked_fair(w, c);
    ranking_is_an_ordered_permutation(c);
    let r = ranked(c);
    let a = choose|a: int| 0 <= a < c.len() && (#[trigger] c[a]).index == i;
    ranked_has(c, a);
    let x = choose|x: int| 0 <= x < r.len() && #[trigger] r[x] == c[a];
    cash_is_not_negative(w);
    plan_buys(w, table()[i].ticker@);
    plan_buys(w, table()[j].ticker@);
    if exists|b: int| 0 <= b < r.len() && (#[trigger] r[b]).index == j {
        let y = choose|b: int| 0 <= b < r.len() && (#[trigger] r[b]).index == j;
        let b = ranked_member(c, y);
        assert(c[b] == r[y]);
        assert(c[a].second == l.mv[c[a].index as int] - aim(w, c[a].index as int));
        assert(c[b].second == l.mv[c[b].index as int] - aim(w, c[b].index as int));
        assert(ahead(r[x], r[y]));
        assert(in_order(r));
        if y < x {
            assert(!ahead(r[x], r[y]));
        }
        a_later_line_waits(w, r, deployable(w, l), least, x, y);
    } else {
        assert forall|b: int| 0 <= b < r.len() implies (#[trigger] r[b]).index != j by {}
        buys_of(w, r, deployable(w, l), least, j);
    }
}

proof fn eligible_ascend(w: Scene, l: Ledger, n: int)
    requires
        0 <= n <= EQUITY,
    ensures
        forall|j: int, k: int|
            0 <= j < k < eligible(w, l, n).len() ==> (#[trigger] eligible(w, l, n)[j]).index < (#[trigger] eligible(
                w,
                l,
                n,
            )[k]).index,
        forall|k: int| 0 <= k < eligible(w, l, n).len() ==> (#[trigger] eligible(w, l, n)[k]).index < n,
    decreases n,
{
    if n > 0 {
        eligible_ascend(w, l, n - 1);
        let (before, all) = (eligible(w, l, n - 1), eligible(w, l, n));
        assert forall|k: int| 0 <= k < all.len() implies (#[trigger] all[k]).index < n by {
            if k < before.len() {
                assert(all[k] == before[k]);
            }
        }
        assert forall|j: int, k: int| 0 <= j < k < all.len() implies (#[trigger] all[j]).index < (#[trigger] all[k]).index by {
            assert(all[j] == before[j]);
            if k < before.len() {
                assert(all[k] == before[k]);
            }
        }
    }
}

/// Lines with the same key that stand as far below their goals are funded in the order of
/// the book.
pub proof fn equal_lines_are_funded_in_book_order(w: Scene, k: int, i: int, j: int)
    requires
        scene_within_limits(w),
        orderly(w),
        called_for(w, k, i),
        i < j < EQUITY,
        priority(w.bias, table()[i].ticker@) == priority(w.bias, table()[j].ticker@),
        aim(w, i) - trimmed_ledger(w).mv[i] == aim(w, j) - trimmed_ledger(w).mv[j],
    ensures
        ({
            ||| bought_in(plan(w, true), table()[i].ticker@) == aim(w, i) - trimmed_ledger(w).mv[i]
            ||| bought_in(plan(w, true), table()[j].ticker@) <= slack(w, i)
        }),
{
    let l = trimmed_ledger(w);
    let least = least_band(w, EQUITY as int);
    if holds(w, k, i) && fallen_by_more(w, k, w.settings.drawdown_deploy_single_pct) {
        a_fall_triggers(w, k, i);
    }
    assert(may_buy(w, l, i));
    slack_is_not_negative(w, i);
    trimmed_ledger_is_sized(w);
    let c = eligible(w, l, EQUITY as int);
    eligible_lists(w, l, EQUITY as int);
    eligible_ascend(w, l, EQUITY as int);
    ranked_fair(w, c);
    let r = ranked(c);
    let a = choose|a: int| 0 <= a < c.len() && (#[trigger] c[a]).index == i;
    cash_is_not_negative(w);
    plan_buys(w, table()[i].ticker@);
    plan_buys(w, table()[j].ticker@);
    if exists|b: int| 0 <= b < c.len() && (#[trigger] c[b]).index == j {
        let b = choose|b: int| 0 <= b < c.len() && (#[trigger] c[b]).index == j;
        if b < a {
            assert(c[b].index < c[a].index);
        }
        assert(c[a].second == l.mv[c[a].index as int] - aim(w, c[a].index as int));
        assert(c[b].second == l.mv[c[b].index as int] - aim(w, c[b].index as int));
        let (x, y) = what_ties_keeps_its_order(c, a, b);
        a_later_line_waits(w, r, deployable(w, l), least, x, y);
    } else {
        ranking_is_an_ordered_permutation(c);
        assert forall|b: int| 0 <= b < r.len() implies (#[trigger] r[b]).index != j by {
            let m = ranked_member(c, b);
            assert(c[m] == r[b]);
        }
        buys_of(w, r, deployable(w, l), least, j);
    }
}

// ── how much may be deployed ───────────────────────────────────────────────

/// The smallest amount worth deploying is no more than any positive band of a line and
/// no more than the band on the whole account; and it is one of these.
pub proof fn the_least_amount_is_the_smallest_band(w: Scene, n: int)
    requires
        0 <= n,
    ensures
        forall|i: int| 0 <= i < n && #[trigger] slack(w, i) > 0 ==> least_band(w, n) <= slack(w, i),
        least_band(w, n) <= nav_of(w.portfolio) * w.settings.rebalance_band_pct / 1_000_000_000_000,
        least_band(w, n) == nav_of(w.portfolio) * w.settings.rebalance_band_pct / 1_000_000_000_000 || exists|i: int|
            0 <= i < n && #[trigger] slack(w, i) > 0 && least_band(w, n) == slack(w, i),
    decreases n,
{
    if n > 0 {
        the_least_amount_is_the_smallest_band(w, n - 1);
    }
}

/// What may be deployed: the cash that the trims leave, less the protected share of the
/// account. The market regime releases all of it from a score of seventy on or without
/// a score, half of it under thirty, and between them a share that grows by an
/// eightieth with each point.
pub proof fn the_regime_slows_deployment(w: Scene)
    ensures
        ({
            let buffer = max(nav_of(w.portfolio) * w.settings.cash_buffer_pct / 1_000_000_000_000, 0);
            let free = max(trimmed_ledger(w).cash - buffer, 0);
            let d = deployable(w, trimmed_ledger(w));
            match w.bias.macro_score {
                None => d == free,
                Some(score) => {
                    &&& score >= 70 ==> d == free
                    &&& score < 30 ==> d == free / 2
                    &&& 30 <= score < 70 ==> 80 * d <= free * (score + 10) < 80 * d + 80
                },
            }
        }),
{
    let buffer = max(nav_of(w.portfolio) * w.settings.cash_buffer_pct / 1_000_000_000_000, 0);
    let free = max(trimmed_ledger(w).cash - buffer, 0);
    let d = deployable(w, trimmed_ledger(w));
    assert(free * 1_000_000_000_000 / 1_000_000_000_000 == free);
    assert(free * 500_000_000_000 / 1_000_000_000_000 == free / 2);
    if let Some(score) = w.bias.macro_score {
        if 30 <= score < 70 {
            let m = 12_500_000_000 * (score + 10);
            let n = free * (score + 10);
            assert(free * m == 12_500_000_000 * n) by (nonlinear_arith)
                requires
                    m == 12_500_000_000 * (score + 10),
                    n == free * (score + 10),
            ;
            assert(d == free * m / 1_000_000_000_000);
        }
    }
}

// ── when a cluster counts as fallen ────────────────────────────────────────

/// What is known of the holding that counts for a line: it is held under the line's
/// label, and its value, its price and its mark are positive.
proof fn the_counted_holding(w: Scene, i: int)
    requires
        scene_within_limits(w),
        0 <= i < EQUITY,
    ensures
        counted(w, i) matches Some(h) ==> exists|k: int|
            #[trigger] holds(w, k, i) && w.portfolio.holdings[k] == h && h.market_value > 0 && h.price > 0 && high_of(w, k) > 0
                && line_now(w, i) == h.market_value && line_at_mark(w, i) == value_at(high_of(w, k), h.price, h.market_value)
                && h.market_value <= LIMIT,
        counted(w, i) is None ==> line_now(w, i) == 0 && line_at_mark(w, i) == 0,
{
    let label = table()[i].ticker@;
    if let Some(h) = counted(w, i) {
        held_is_a_holding(w.portfolio, label);
        label_is_upper(i);
        let k = choose|k: int|
            0 <= k < w.portfolio.holdings.len() && #[trigger] w.portfolio.holdings[k] == h && h.ticker == upper(label);
        assert(holding_within_limits(w.portfolio.holdings[k]));
        assert(holds(w, k, i));
    }
}

proof fn a_fallen_line(mark: int, price: int, value: int, f: int)
    requires
        0 < mark,
        0 < price,
        0 < value <= LIMIT,
        0 <= f,
        f + 1_000 <= ONE,
        (mark - price) * ONE >= f * mark,
    ensures
        value * ONE <= (value_at(mark, price, value) + 1) * (ONE - f),
        value <= value_at(mark, price, value),
{
    let o = ONE as int;
    let n = value * mark;
    let q = n / price;
    let at = value_at(mark, price, value);
    vstd::arithmetic::div_mod::lemma_fundamental_div_mod(n, price);
    assert(n < (q + 1) * price) by (nonlinear_arith)
        requires
            n == price * q + n % price,
            n % price < price,
    ;
    let g = o - f;
    assert(price * o <= mark * g) by (nonlinear_arith)
        requires
            (mark - price) * o >= f * mark,
            g == o - f,
    ;
    assert(price <= mark) by (nonlinear_arith)
        requires
            price * o <= mark * g,
            0 < g <= o,
            0 < mark,
    ;
    assert(value <= q) by (nonlinear_arith)
        requires
            n == value * mark,
            n < (q + 1) * price,
            price <= mark,
            0 < value,
            0 < price,
    ;
    if q <= WIDE {
        assert(value * o <= (q + 1) * g) by (nonlinear_arith)
            requires
                n == value * mark,
                n < (q + 1) * price,
                price * o <= mark * g,
                0 < mark,
                0 < price,
                0 < g,
                0 < o,
                0 <= q,
        {
            assert(value * mark * o <= (q + 1) * price * o) by (nonlinear_arith)
                requires
                    n == value * mark,
                    n < (q + 1) * price,
                    0 < o,
            ;
            assert((q + 1) * (price * o) <= (q + 1) * (mark * g)) by (nonlinear_arith)
                requires
                    price * o <= mark * g,
                    0 <= q,
            ;
            assert((value * o) * mark <= ((q + 1) * g) * mark) by (nonlinear_arith)
                requires
                    value * mark * o <= (q + 1) * price * o,
                    (q + 1) * (price * o) <= (q + 1) * (mark * g),
            ;
        }
    } else {
        assert(value * o <= (1_000_000_000_000_000_000_000_000_000_000 + 1) * g) by (nonlinear_arith)
            requires
                value <= 1_000_000_000_000_000_000_000,
                o == 1_000_000_000_000,
                g >= 1_000,
        ;
    }
}

proof fn a_standing_line(mark: int, price: int, value: int, f: int)
    requires
        0 < mark,
        0 < price,
        0 < value,
        0 <= f,
        (mark - price) * ONE <= f * mark,
    ensures
        value_at(mark, price, value) * (ONE - f) <= value * ONE,
        0 <= value_at(mark, price, value),
{
    let o = ONE as int;
    let n = value * mark;
    let q = n / price;
    let at = value_at(mark, price, value);
    vstd::arithmetic::div_mod::lemma_fundamental_div_mod(n, price);
    assert(0 <= n) by (nonlinear_arith)
        requires
            n == value * mark,
            0 < value,
            0 < mark,
    ;
    assert(0 <= q) by (nonlinear_arith)
        requires
            n == price * q + n % price,
            n % price < price,
            0 <= n,
            0 < price,
    ;
    let g = o - f;
    if g > 0 {
        assert(at * g <= value * o) by (nonlinear_arith)
            requires
                n == value * mark,
                n == price * q + n % price,
                0 <= n % price,
                (mark - price) * o <= f * mark,
                g == o - f,
                0 <= at <= q,
                0 < mark,
                0 < price,
                0 < g,
                0 < o,
        {
            assert(at * price <= value * mark) by (nonlinear_arith)
                requires
                    n == value * mark,
                    n == price * q + n % price,
                    0 <= n % price,
                    0 <= at <= q,
                    0 < price,
            ;
            assert(mark * g <= price * o) by (nonlinear_arith)
                requires
                    (mark - price) * o <= f * mark,
                    g == o - f,
            ;
            assert(at * (mark * g) <= at * (price * o)) by (nonlinear_arith)
                requires
                    mark * g <= price * o,
                    0 <= at,
            ;
            assert((at * price) * o <= (value * mark) * o) by (nonlinear_arith)
                requires
                    at * price <= value * mark,
                    0 < o,
            ;
            assert((at * g) * mark <= (value * o) * mark) by (nonlinear_arith)
                requires
                    at * (mark * g) <= at * (price * o),
                    (at * price) * o <= (value * mark) * o,
            ;
        }
    } else {
        assert(at * g <= 0) by (nonlinear_arith)
            requires
                0 <= at,
                g <= 0,
        ;
        assert(0 <= value * o) by (nonlinear_arith)
            requires
                0 < value,
                0 < o,
        ;
    }
}

/// Holding `k` is worth something, and its price and its mark are known.
pub open spec fn counts(w: Scene, k: int) -> bool {
    w.portfolio.holdings[k].market_value > 0 && w.portfolio.holdings[k].price > 0 && high_of(w, k) > 0
}

/// Every holding of these lines that counts has fallen from its mark by at least `f`.
pub open spec fn all_fallen(w: Scene, lines: Seq<int>, f: int) -> bool {
    forall|k: int, i: int|
        #[trigger] holds(w, k, i) && lines.contains(i) && counts(w, k) ==> (high_of(w, k) - w.portfolio.holdings[k].price)
            * ONE >= f * high_of(w, k)
}

/// No holding of these lines that counts has fallen from its mark by more than `f`.
pub open spec fn none_fallen(w: Scene, lines: Seq<int>, f: int) -> bool {
    forall|k: int, i: int|
        #[trigger] holds(w, k, i) && lines.contains(i) && counts(w, k) ==> (high_of(w, k) - w.portfolio.holdings[k].price)
            * ONE <= f * high_of(w, k)
}

proof fn a_fallen_cohort(w: Scene, lines: Seq<int>, f: int)
    requires
        scene_within_limits(w),
        in_book_order(lines, EQUITY as int),
        all_fallen(w, lines, f),
        0 <= f,
        f + 1_000 <= ONE,
    ensures
        cohort_now(w, lines) * ONE <= (cohort_at_marks(w, lines) + lines.len()) * (ONE - f),
        0 <= cohort_now(w, lines) <= cohort_at_marks(w, lines),
        forall|k: int, i: int|
            #[trigger] holds(w, k, i) && lines.contains(i) && counted(w, i) == Some(w.portfolio.holdings[k])
                ==> w.portfolio.holdings[k].market_value <= cohort_now(w, lines),
    decreases lines.len(),
{
    let g = ONE - f;
    if lines.len() > 0 {
        let front = lines.drop_last();
        let i = lines.last();
        assert forall|k: int| 0 <= k < front.len() implies 0 <= #[trigger] front[k] < EQUITY by {
            assert(front[k] == lines[k]);
        }
        assert forall|j: int, k: int| 0 <= j < k < front.len() implies #[trigger] front[j] < #[trigger] front[k] by {
            assert(front[j] == lines[j] && front[k] == lines[k]);
        }
        assert(lines.len() <= EQUITY);
        assert forall|k: int, j: int| #[trigger] holds(w, k, j) && front.contains(j) && counts(w, k) implies (high_of(w, k)
            - w.portfolio.holdings[k].price) * ONE >= f * high_of(w, k) by {
            let m = choose|m: int| 0 <= m < front.len() && front[m] == j;
            assert(lines[m] == j);
        }
        a_fallen_cohort(w, front, f);
        assert(lines[lines.len() - 1] == i);
        the_counted_holding(w, i);
        if let Some(h) = counted(w, i) {
            let k = choose|k: int|
                #[trigger] holds(w, k, i) && w.portfolio.holdings[k] == h && h.market_value > 0 && h.price > 0 && high_of(w, k)
                    > 0 && line_now(w, i) == h.market_value && line_at_mark(w, i) == value_at(
                    high_of(w, k),
                    h.price,
                    h.market_value,
                ) && h.market_value <= LIMIT;
            assert(lines.contains(i));
            a_fallen_line(high_of(w, k), h.price, h.market_value, f);
        }
        let (a, b) = (cohort_at_marks(w, front) + front.len(), line_at_mark(w, i) + 1);
        assert(line_now(w, i) * ONE <= b * g) by {
            if counted(w, i) is None {
                assert(0 <= b * g) by (nonlinear_arith)
                    requires
                        b == 1,
                        0 <= g,
                ;
            }
        }
        assert((a + b) * g == a * g + b * g) by (nonlinear_arith);
        assert forall|k: int, j: int|
            #[trigger] holds(w, k, j) && lines.contains(j) && counted(w, j) == Some(w.portfolio.holdings[k]) implies w.portfolio.holdings[k].market_value
            <= cohort_now(w, lines) by {
            let m = choose|m: int| 0 <= m < lines.len() && lines[m] == j;
            if m < front.len() {
                assert(front[m] == j);
                assert(front.contains(j));
            }
        }
    } else {
        assert(0 <= (0 + 0) * g);
    }
}

proof fn a_standing_cohort(w: Scene, lines: Seq<int>, f: int)
    requires
        scene_within_limits(w),
        in_book_order(lines, EQUITY as int),
        none_fallen(w, lines, f),
        0 <= f,
    ensures
        cohort_at_marks(w, lines) * (ONE - f) <= cohort_now(w, lines) * ONE,
        0 <= cohort_at_marks(w, lines),
    decreases lines.len(),
{
    let g = ONE - f;
    if lines.len() > 0 {
        let front = lines.drop_last();
        let i = lines.last();
        assert forall|k: int| 0 <= k < front.len() implies 0 <= #[trigger] front[k] < EQUITY by {
            assert(front[k] == lines[k]);
        }
        assert forall|j: int, k: int| 0 <= j < k < front.len() implies #[trigger] front[j] < #[trigger] front[k] by {
            assert(front[j] == lines[j] && front[k] == lines[k]);
        }
        assert forall|k: int, j: int| #[trigger] holds(w, k, j) && front.contains(j) && counts(w, k) implies (high_of(w, k)
            - w.portfolio.holdings[k].price) * ONE <= f * high_of(w, k) by {
            let m = choose|m: int| 0 <= m < front.len() && front[m] == j;
            assert(lines[m] == j);
        }
        a_standing_cohort(w, front, f);
        assert(lines[lines.len() - 1] == i);
        the_counted_holding(w, i);
        if let Some(h) = counted(w, i) {
            let k = choose|k: int|
                #[trigger] holds(w, k, i) && w.portfolio.holdings[k] == h && h.market_value > 0 && h.price > 0 && high_of(w, k)
                    > 0 && line_now(w, i) == h.market_value && line_at_mark(w, i) == value_at(
                    high_of(w, k),
                    h.price,
                    h.market_value,
                ) && h.market_value <= LIMIT;
            assert(lines.contains(i));
            a_standing_line(high_of(w, k), h.price, h.market_value, f);
        }
        let (a, b) = (cohort_at_marks(w, front), line_at_mark(w, i));
        assert((a + b) * g == a * g + b * g) by (nonlinear_arith);
    }
}

/// A cluster whose held names have all fallen by more than the trigger is stressed,
/// however far they fell, once one of them is worth a dollar. The seventeen millionths
/// of a millionth beyond the trigger are what rounding can take.
pub proof fn a_fallen_cluster_is_stressed(w: Scene, cluster: Seq<char>, k: int, i: int)
    requires
        scene_within_limits(w),
        orderly(w),
        0 <= w.settings.drawdown_deploy_pct <= ONE - 2_000,
        all_fallen(w, cluster_lines(cluster, EQUITY as int), w.settings.drawdown_deploy_pct + 17),
        cluster_lines(cluster, EQUITY as int).contains(i),
        holds(w, k, i),
        counts(w, k),
        w.portfolio.holdings[k].market_value >= ONE,
    ensures
        stressed(w, cluster),
{
    let lines = cluster_lines(cluster, EQUITY as int);
    let f = w.settings.drawdown_deploy_pct + 17;
    cluster_lines_in_order(cluster, EQUITY as int);
    a_fallen_cohort(w, lines, f);
    held_once(w.portfolio.holdings, k, 0);
    label_is_upper(i);
    assert(counted(w, i) == Some(w.portfolio.holdings[k]));
    let (now, at) = (cohort_now(w, lines), cohort_at_marks(w, lines));
    let n = lines.len() as int;
    let o = ONE as int;
    assert((at - now) * o >= (f - 17 + 1) * at) by (nonlinear_arith)
        requires
            now * o <= (at + n) * (o - f),
            o <= now <= at,
            0 <= n <= 16,
            0 <= f <= o,
            0 < o,
    {
        assert((at + n) * (o - f) == at * o - at * f + n * o - n * f) by (nonlinear_arith);
        assert(n * o <= 16 * at) by (nonlinear_arith)
            requires
                0 <= n <= 16,
                0 < o <= at,
        ;
        assert(0 <= n * f) by (nonlinear_arith)
            requires
                0 <= n,
                0 <= f,
        ;
        assert((f - 17 + 1) * at == at * f - 16 * at) by (nonlinear_arith);
        assert((at - now) * o == at * o - now * o) by (nonlinear_arith);
    }
    a_large_ratio((at - now) * o, at, w.settings.drawdown_deploy_pct);
}

/// A cluster none of whose held names has fallen by more than the trigger is not
/// stressed.
pub proof fn a_standing_cluster_is_not_stressed(w: Scene, cluster: Seq<char>)
    requires
        scene_within_limits(w),
        0 <= w.settings.drawdown_deploy_pct,
        none_fallen(w, cluster_lines(cluster, EQUITY as int), w.settings.drawdown_deploy_pct),
    ensures
        !stressed(w, cluster),
{
    let lines = cluster_lines(cluster, EQUITY as int);
    let f = w.settings.drawdown_deploy_pct;
    cluster_lines_in_order(cluster, EQUITY as int);
    a_standing_cohort(w, lines, f);
    let (now, at) = (cohort_now(w, lines), cohort_at_marks(w, lines));
    let o = ONE as int;
    if at > 0 {
        let n = (at - now) * o;
        vstd::arithmetic::div_mod::lemma_fundamental_div_mod(n, at);
        let q = n / at;
        assert(q <= f) by (nonlinear_arith)
            requires
                n == at * q + n % at,
                0 <= n % at,
                n == (at - now) * o,
                at * (o - f) <= now * o,
                0 < at,
        ;
    }
}

/// A cluster falls as a whole: each member adds what it is worth and what it would be
/// worth at its mark, and the cluster is stressed exactly where what is missing from
/// the marks, in parts of what the marks would make it worth, exceeds the trigger.
pub proof fn a_cluster_falls_as_a_whole(w: Scene, lines: Seq<int>, i: int, k: int)
    requires
        scene_within_limits(w),
        orderly(w),
        holds(w, k, i),
    ensures
        ({
            let h = w.portfolio.holdings[k];
            let more = lines.push(i);
            let gain = cohort_at_marks(w, more) - cohort_at_marks(w, lines);
            &&& counts(w, k) ==> cohort_now(w, more) == cohort_now(w, lines) + h.market_value
            &&& counts(w, k) && h.market_value * high_of(w, k) <= WIDE * h.price ==> gain * h.price <= h.market_value
                * high_of(w, k) < (gain + 1) * h.price
            &&& !counts(w, k) ==> cohort_now(w, more) == cohort_now(w, lines) && gain == 0
        }),
        cohort_at_marks(w, lines) > cohort_now(w, lines) && cohort_at_marks(w, lines) > 0 ==> cohort_fall(w, lines)
            * cohort_at_marks(w, lines) <= (cohort_at_marks(w, lines) - cohort_now(w, lines)) * ONE < (cohort_fall(w, lines)
            + 1) * cohort_at_marks(w, lines),
{
    let h = w.portfolio.holdings[k];
    let more = lines.push(i);
    assert(more.drop_last() =~= lines);
    held_once(w.portfolio.holdings, k, 0);
    label_is_upper(i);
    let (n, p) = (h.market_value * high_of(w, k), h.price);
    if counts(w, k) {
        vstd::arithmetic::div_mod::lemma_fundamental_div_mod(n, p);
        let q = n / p;
        assert(q * p <= n < (q + 1) * p) by (nonlinear_arith)
            requires
                n == p * q + n % p,
                0 <= n % p < p,
        ;
        if n <= WIDE * p {
            assert(q <= 1_000_000_000_000_000_000_000_000_000_000) by (nonlinear_arith)
                requires
                    q * p <= n,
                    n <= 1_000_000_000_000_000_000_000_000_000_000 * p,
                    0 < p,
            ;
        }
    }
    let (now, at) = (cohort_now(w, lines), cohort_at_marks(w, lines));
    if at > now && at > 0 {
        let m = (at - now) * ONE;
        vstd::arithmetic::div_mod::lemma_fundamental_div_mod(m, at);
        let q = m / at;
        assert(q * at <= m < (q + 1) * at) by (nonlinear_arith)
            requires
                m == at * q + m % at,
                0 <= m % at < at,
        ;
        assert(0 <= q) by (nonlinear_arith)
            requires
                m < (q + 1) * at,
                0 <= m,
                0 < at,
        ;
    }
}

} // verus!
