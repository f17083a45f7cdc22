//! What a day's tranche owes to every line: which lines it buys, for how much, and
//! which line comes before which when the cash does not reach.
use vstd::math::min;
use vstd::prelude::*;

use crate::calendar::{day_number, weekday, Ymd};
use crate::config::{settings_within_limits, Settings};
use crate::fixed::ONE;
use crate::portfolio::state::{held_is_a_holding, portfolio_within_limits, value_held, Portfolio};
use crate::portfolio::targets::{
    labels_are_distinct, line_of, line_of_facts, symbol_of, table, table_shape, Target, Tier, COUNT, INVESTED,
};
use crate::ranking::{
    ahead, distinct, placed, ranked, ranked_distinct, ranked_member, ranking_is_an_ordered_permutation, what_ties_keeps_its_order,
    Candidate,
};
use crate::rebalance::laws::ranked_has;
use crate::rebalance::phased_build::{
    build_reason, filled, short_lines, shortfall, stage_at, stage_budget, stage_filled, stage_for, stages_filled, tranche,
    weekday_count, Stage,
};
use crate::rebalance::promises::{bought_in, bought_in_all, bought_in_sum, one_buy};
use crate::rebalance::sizes::{goal, goal_range, nav_of};
use crate::rebalance::{buying, ActionKind, ActionView};
use crate::safety::deployable_cash;

verus! {

/// Lines of the book, each once, each short by more than a dollar.
pub open spec fn wanting(c: Seq<Candidate>) -> bool {
    &&& forall|k: int| 0 <= k < c.len() ==> (#[trigger] c[k]).index < INVESTED && c[k].first > ONE
    &&& distinct(c)
}

proof fn wanting_rest(c: Seq<Candidate>)
    requires
        wanting(c),
        c.len() > 0,
    ensures
        wanting(c.drop_first()),
        forall|k: int| 0 <= k < c.drop_first().len() ==> (#[trigger] c.drop_first()[k]).index != c[0].index,
{
    let rest = c.drop_first();
    assert forall|k: int| 0 <= k < rest.len() implies (#[trigger] rest[k]).index < INVESTED && rest[k].first > ONE
        && rest[k].index != c[0].index by {
        assert(rest[k] == c[k + 1]);
        assert(c[0].index != c[k + 1].index);
    }
    assert forall|j: int, k: int| 0 <= j < k < rest.len() implies (#[trigger] rest[j]).index != (#[trigger] rest[k]).index by {
        assert(rest[j] == c[j + 1] && rest[k] == c[k + 1]);
    }
}

/// What the buys of a tier come to.
pub open spec fn bought_of_tier(s: Seq<ActionView>, tier: Tier) -> int
    decreases s.len(),
{
    if s.len() == 0 {
        0
    } else if s.last().kind == ActionKind::Buy && (line_of(s.last().ticker) matches Some(i) && table()[i].tier == tier) {
        bought_of_tier(s.drop_last(), tier) + s.last().dollars
    } else {
        bought_of_tier(s.drop_last(), tier)
    }
}

proof fn bought_of_tier_sum(a: Seq<ActionView>, b: Seq<ActionView>, tier: Tier)
    ensures
        bought_of_tier(a + b, tier) == bought_of_tier(a, tier) + bought_of_tier(b, tier),
    decreases b.len(),
{
    if b.len() == 0 {
        assert(a + b =~= a);
    } else {
        assert((a + b).drop_last() =~= a + b.drop_last());
        bought_of_tier_sum(a, b.drop_last(), tier);
    }
}

proof fn one_buy_of_tier(a: ActionView, tail: Seq<ActionView>, i: int, tier: Tier)
    requires
        0 <= i < COUNT,
        a.kind == ActionKind::Buy,
        a.ticker == table()[i].ticker@,
    ensures
        bought_of_tier(seq![a] + tail, tier) == bought_of_tier(tail, tier) + if table()[i].tier == tier {
            a.dollars
        } else {
            0
        },
{
    bought_of_tier_sum(seq![a], tail, tier);
    line_of_facts(a.ticker);
    assert(line_of(table()[i].ticker@) == Some(i));
    assert(seq![a].drop_last() =~= Seq::<ActionView>::empty());
    assert(bought_of_tier(Seq::<ActionView>::empty(), tier) == 0);
    assert(seq![a].last() == a);
}

/// Filling in order: a line that is no candidate gets nothing, and what is spent
/// comes out of the cash.
proof fn fills_of(c: Seq<Candidate>, cash: int, budget: int, elapsed: int, i: int)
    requires
        wanting(c),
        0 <= i < INVESTED,
        0 <= cash,
    ensures
        ({
            let f = filled(c, cash, budget, elapsed);
            let got = bought_in(f.actions, table()[i].ticker@);
            &&& (forall|k: int| 0 <= k < c.len() ==> (#[trigger] c[k]).index != i) ==> got == 0
            &&& 0 <= got <= bought_in_all(f.actions)
            &&& f.cash == cash - bought_in_all(f.actions)
            &&& 0 <= f.cash
            &&& cash <= ONE || budget <= ONE ==> bought_in_all(f.actions) == 0
        }),
    decreases c.len(),
{
    let label = table()[i].ticker@;
    if c.len() > 0 && cash > 0 && budget > 0 {
        let j = c[0].index as int;
        let t = table()[j];
        let take = min(min(c[0].first as int, cash), budget);
        let rest = c.drop_first();
        wanting_rest(c);
        labels_are_distinct();
        if take > ONE {
            fills_of(rest, cash - take, budget - take, elapsed, i);
            one_buy(
                buying(t.ticker@, take, build_reason(t.tier, elapsed)),
                filled(rest, cash - take, budget - take, elapsed).actions,
                label,
            );
        } else {
            fills_of(rest, cash, budget, elapsed, i);
        }
        if forall|k: int| 0 <= k < c.len() ==> (#[trigger] c[k]).index != i {
            assert(c[0].index != i);
            assert forall|k: int| 0 <= k < rest.len() implies (#[trigger] rest[k]).index != i by {
                assert(rest[k] == c[k + 1]);
            }
            assert(table()[j].ticker@ != table()[i].ticker@);
        }
    } else {
        assert(filled(c, cash, budget, elapsed).actions =~= seq![]);
    }
}

proof fn a_candidate_is_filled(c: Seq<Candidate>, cash: int, budget: int, elapsed: int, k: int)
    requires
        wanting(c),
        0 <= k < c.len(),
        0 <= cash,
    ensures
        ({
            let f = filled(c, cash, budget, elapsed);
            let got = bought_in(f.actions, table()[c[k].index as int].ticker@);
            let free = budget - bought_in_all(f.actions);
            &&& got <= c[k].first
            &&& got == c[k].first || (f.cash <= ONE && f.cash + got < c[k].first) || (free <= ONE && free + got
                < c[k].first)
        }),
    decreases c.len(),
{
    let i = c[k].index as int;
    let label = table()[i].ticker@;
    assert(c[k].first > ONE);
    if cash > 0 && budget > 0 {
        let j = c[0].index as int;
        let t = table()[j];
        let take = min(min(c[0].first as int, cash), budget);
        let rest = c.drop_first();
        wanting_rest(c);
        labels_are_distinct();
        let (cash2, budget2) = if take > ONE {
            (cash - take, budget - take)
        } else {
            (cash, budget)
        };
        fills_of(rest, cash2, budget2, elapsed, i);
        if take > ONE {
            one_buy(
                buying(t.ticker@, take, build_reason(t.tier, elapsed)),
                filled(rest, cash2, budget2, elapsed).actions,
                label,
            );
        }
        if k > 0 {
            assert(rest[k - 1] == c[k]);
            assert(c[0].index != c[k].index);
            assert(table()[j].ticker@ != table()[i].ticker@);
            a_candidate_is_filled(rest, cash2, budget2, elapsed, k - 1);
        }
    } else {
        assert(filled(c, cash, budget, elapsed).actions =~= seq![]);
    }
}

proof fn a_later_candidate_waits(c: Seq<Candidate>, cash: int, budget: int, elapsed: int, k: int, m: int)
    requires
        wanting(c),
        0 <= k < m < c.len(),
        0 <= cash,
    ensures
        ({
            let f = filled(c, cash, budget, elapsed);
            bought_in(f.actions, table()[c[m].index as int].ticker@) > 0 ==> bought_in(
                f.actions,
                table()[c[k].index as int].ticker@,
            ) == c[k].first
        }),
    decreases c.len(),
{
    let (i, late) = (c[k].index as int, c[m].index as int);
    assert(c[k].first > ONE);
    assert(c[k].index != c[m].index);
    if cash > 0 && budget > 0 {
        let j = c[0].index as int;
        let t = table()[j];
        let take = min(min(c[0].first as int, cash), budget);
        let rest = c.drop_first();
        wanting_rest(c);
        labels_are_distinct();
        let (cash2, budget2) = if take > ONE {
            (cash - take, budget - take)
        } else {
            (cash, budget)
        };
        fills_of(rest, cash2, budget2, elapsed, i);
        fills_of(rest, cash2, budget2, elapsed, late);
        assert(c[0].index != c[m].index);
        assert(table()[j].ticker@ != table()[late].ticker@);
        if take > ONE {
            let tail = filled(rest, cash2, budget2, elapsed).actions;
            one_buy(buying(t.ticker@, take, build_reason(t.tier, elapsed)), tail, table()[i].ticker@);
            one_buy(buying(t.ticker@, take, build_reason(t.tier, elapsed)), tail, table()[late].ticker@);
        }
        if k > 0 {
            assert(rest[k - 1] == c[k] && rest[m - 1] == c[m]);
            assert(c[0].index != c[k].index);
            assert(table()[j].ticker@ != table()[i].ticker@);
            a_later_candidate_waits(rest, cash2, budget2, elapsed, k - 1, m - 1);
        }
    } else {
        assert(filled(c, cash, budget, elapsed).actions =~= seq![]);
    }
}

// ── the lines that are short ───────────────────────────────────────────────

/// What a line is short of its goal, where there is something to buy for it; below
/// zero where it stands above.
pub open spec fn missing(p: Portfolio, s: Settings, i: int) -> int {
    match symbol_of(table()[i], s) {
        Some(symbol) => goal(p, s, i) - value_held(p, symbol),
        None => 0,
    }
}

/// After how many trading days a line may be bought: the floor at once, the
/// asymmetric names after seven days, the calls after fourteen, the micro-caps after
/// twenty-one.
pub open spec fn begun(t: Target, elapsed: int) -> bool {
    match t.tier {
        Tier::Floor => true,
        Tier::Asymmetric => elapsed >= 7,
        Tier::Moonshot => if t.instrument is MicroCap {
            elapsed >= 21
        } else {
            elapsed >= 14
        },
        Tier::Cash => false,
    }
}

proof fn short_lines_list(p: Portfolio, s: Settings, stage: Stage, n: int)
    requires
        portfolio_within_limits(p),
        settings_within_limits(s),
        0 <= n <= INVESTED,
    ensures
        wanting(short_lines(p, s, stage, n)),
        forall|k: int|
            0 <= k < short_lines(p, s, stage, n).len() ==> (#[trigger] short_lines(p, s, stage, n)[k]).index < n
                && short_lines(p, s, stage, n)[k].first == missing(p, s, short_lines(p, s, stage, n)[k].index as int)
                && short_lines(p, s, stage, n)[k].second == 0 && stage_for(
                table()[short_lines(p, s, stage, n)[k].index as int],
            ) == stage,
        forall|i: int| #![trigger missing(p, s, i)]
            0 <= i < n && missing(p, s, i) > ONE && stage_for(table()[i]) == stage ==> exists|k: int|
                0 <= k < short_lines(p, s, stage, n).len() && (#[trigger] short_lines(p, s, stage, n)[k]).index == i,
    decreases n,
{
    if n > 0 {
        short_lines_list(p, s, stage, n - 1);
        let (before, all) = (short_lines(p, s, stage, n - 1), short_lines(p, s, stage, n));
        let i = n - 1;
        goal_range(p, s, i);
        if let Some(symbol) = symbol_of(table()[i], s) {
            held_is_a_holding(p, symbol);
        }
        assert forall|k: int| 0 <= k < all.len() implies (#[trigger] all[k]).index < n && all[k].first == missing(
            p,
            s,
            all[k].index as int,
        ) && all[k].second == 0 && stage_for(table()[all[k].index as int]) == stage && all[k].first > ONE by {
            if k < before.len() {
                assert(all[k] == before[k]);
            }
        }
        assert forall|j: int, k: int| 0 <= j < k < all.len() implies (#[trigger] all[j]).index != (#[trigger] all[k]).index by {
            assert(all[j] == before[j]);
            if k < before.len() {
                assert(all[k] == before[k]);
            }
        }
        assert forall|i: int| #![trigger missing(p, s, i)]
            0 <= i < n && missing(p, s, i) > ONE && stage_for(table()[i]) == stage implies exists|k: int|
            0 <= k < all.len() && (#[trigger] all[k]).index == i by {
            if i < n - 1 {
                let k = choose|k: int| 0 <= k < before.len() && (#[trigger] before[k]).index == i;
                assert(all[k] == before[k]);
            } else {
                assert(all[all.len() - 1].index == i);
            }
        }
    }
}

/// The candidates of a stage in the order in which they are filled.
pub open spec fn in_line(p: Portfolio, s: Settings, stage: Stage) -> Seq<Candidate> {
    ranked(short_lines(p, s, stage, INVESTED as int))
}

proof fn in_line_facts(p: Portfolio, s: Settings, stage: Stage)
    requires
        portfolio_within_limits(p),
        settings_within_limits(s),
    ensures
        wanting(in_line(p, s, stage)),
        forall|k: int|
            0 <= k < in_line(p, s, stage).len() ==> (#[trigger] in_line(p, s, stage)[k]).first == missing(
                p,
                s,
                in_line(p, s, stage)[k].index as int,
            ) && stage_for(table()[in_line(p, s, stage)[k].index as int]) == stage,
        forall|j: int, k: int|
            0 <= j < k < in_line(p, s, stage).len() ==> (#[trigger] in_line(p, s, stage)[j]).first >= (#[trigger] in_line(
                p,
                s,
                stage,
            )[k]).first,
        forall|i: int| #![trigger missing(p, s, i)]
            0 <= i < INVESTED && missing(p, s, i) > ONE && stage_for(table()[i]) == stage ==> exists|k: int|
                0 <= k < in_line(p, s, stage).len() && (#[trigger] in_line(p, s, stage)[k]).index == i,
{
    let c = short_lines(p, s, stage, INVESTED as int);
    let r = in_line(p, s, stage);
    short_lines_list(p, s, stage, INVESTED as int);
    ranking_is_an_ordered_permutation(c);
    ranked_distinct(c);
    assert forall|k: int| 0 <= k < r.len() implies (#[trigger] r[k]).first == missing(p, s, r[k].index as int) && stage_for(
        table()[r[k].index as int],
    ) == stage && r[k].index < INVESTED && r[k].first > ONE && r[k].second == 0 by {
        let m = ranked_member(c, k);
        assert(c[m] == r[k]);
    }
    assert forall|j: int, k: int| 0 <= j < k < r.len() implies (#[trigger] r[j]).first >= (#[trigger] r[k]).first by {
        assert(!ahead(r[k], r[j]));
    }
    assert forall|i: int| #![trigger missing(p, s, i)]
        0 <= i < INVESTED && missing(p, s, i) > ONE && stage_for(table()[i]) == stage implies exists|k: int|
        0 <= k < r.len() && (#[trigger] r[k]).index == i by {
        let a = choose|a: int| 0 <= a < c.len() && (#[trigger] c[a]).index == i;
        ranked_has(c, a);
        let b = choose|b: int| 0 <= b < r.len() && #[trigger] r[b] == c[a];
        assert(r[b].index == i);
    }
}

// ── one stage, all stages ──────────────────────────────────────────────────

/// What one stage owes a line: nothing to a line of another stage or one that is not
/// short by more than a dollar; to the others what they miss, unless the cash or the
/// budget of the stage runs out.
proof fn a_stage_serves(p: Portfolio, s: Settings, stage: Stage, elapsed: int, cash: int, i: int)
    requires
        portfolio_within_limits(p),
        settings_within_limits(s),
        0 <= cash,
        0 <= elapsed,
        0 <= i < INVESTED,
    ensures
        ({
            let f = stage_filled(p, s, stage, elapsed, cash);
            let got = bought_in(f.actions, table()[i].ticker@);
            let total = bought_in_all(f.actions);
            let free = s.build_daily_budget - total;
            &&& 0 <= got <= total
            &&& 0 <= f.cash == cash - total
            &&& cash <= ONE ==> total == 0
            &&& stage_for(table()[i]) != stage || missing(p, s, i) <= ONE || !begun(table()[i], elapsed) ==> got == 0
            &&& got > 0 ==> got <= missing(p, s, i)
            &&& stage_for(table()[i]) == stage && missing(p, s, i) > ONE && begun(table()[i], elapsed) ==> {
                ||| got == missing(p, s, i)
                ||| f.cash <= ONE && f.cash + got < missing(p, s, i)
                ||| stage == Stage::Asymmetric && free <= ONE && free + got < missing(p, s, i)
            }
        }),
{
    table_shape();
    let f = stage_filled(p, s, stage, elapsed, cash);
    let c = in_line(p, s, stage);
    in_line_facts(p, s, stage);
    if f.actions.len() == 0 {
        assert(f.actions =~= seq![]);
    }
    let budget = stage_budget(s, stage, cash);
    fills_of(c, cash, budget, elapsed, i);
    if stage_for(table()[i]) != stage || missing(p, s, i) <= ONE {
        assert forall|k: int| 0 <= k < c.len() implies (#[trigger] c[k]).index != i by {}
    } else {
        let k = choose|k: int| 0 <= k < c.len() && (#[trigger] c[k]).index == i;
        assert(c[k].first == missing(p, s, c[k].index as int));
        a_candidate_is_filled(c, cash, budget, elapsed, k);
    }
}

/// The place of a line's stage in the order of filling.
pub open spec fn place_of(t: Target) -> int {
    match t.tier {
        Tier::Floor => 0,
        Tier::Asymmetric => 1,
        Tier::Moonshot => if t.instrument is MicroCap {
            3
        } else {
            2
        },
        Tier::Cash => 3,
    }
}

proof fn stages_serve(p: Portfolio, s: Settings, elapsed: int, n: int, i: int)
    requires
        portfolio_within_limits(p),
        settings_within_limits(s),
        0 <= n <= 4,
        0 <= elapsed,
        0 <= i < INVESTED,
    ensures
        ({
            let f = stages_filled(p, s, elapsed, n);
            let got = bought_in(f.actions, table()[i].ticker@);
            let free = s.build_daily_budget - bought_of_tier(f.actions, Tier::Asymmetric);
            &&& 0 <= got
            &&& 0 <= f.cash == deployable_cash(p.cash, nav_of(p), s.cash_buffer_pct) - bought_in_all(f.actions)
            &&& missing(p, s, i) <= ONE || !begun(table()[i], elapsed) || place_of(table()[i]) >= n ==> got == 0
            &&& got > 0 ==> got <= missing(p, s, i)
            &&& place_of(table()[i]) < n && missing(p, s, i) > ONE && begun(table()[i], elapsed) ==> {
                ||| got == missing(p, s, i)
                ||| f.cash <= ONE && f.cash + got < missing(p, s, i)
                ||| table()[i].tier == Tier::Asymmetric && free <= ONE && free + got < missing(p, s, i)
            }
        }),
    decreases n,
{
    table_shape();
    if n == 0 {
        assert(stages_filled(p, s, elapsed, 0).actions =~= seq![]);
    } else {
        stages_serve(p, s, elapsed, n - 1, i);
        let before = stages_filled(p, s, elapsed, n - 1);
        let next = stage_filled(p, s, stage_at(n - 1), elapsed, before.cash);
        a_stage_serves(p, s, stage_at(n - 1), elapsed, before.cash, i);
        bought_in_sum(before.actions, next.actions, table()[i].ticker@);
        bought_of_tier_sum(before.actions, next.actions, Tier::Asymmetric);
        stage_tier(p, s, stage_at(n - 1), elapsed, before.cash, Tier::Asymmetric);
        stages_tier(p, s, elapsed, n - 1, Tier::Asymmetric);
        assert(n - 1 == place_of(table()[i]) <==> stage_for(table()[i]) == stage_at(n - 1));
    }
}

/// The stage in which the lines of a tier are bought; none for the moonshots, which
/// have two.
pub open spec fn stage_of_tier(tier: Tier) -> Option<Stage> {
    match tier {
        Tier::Floor => Some(Stage::Floor),
        Tier::Asymmetric => Some(Stage::Asymmetric),
        _ => None,
    }
}

proof fn fill_tier(c: Seq<Candidate>, stage: Stage, cash: int, budget: int, elapsed: int, tier: Tier)
    requires
        wanting(c),
        forall|k: int| 0 <= k < c.len() ==> stage_for(table()[(#[trigger] c[k]).index as int]) == stage,
        stage_of_tier(tier) is Some,
    ensures
        stage_of_tier(tier) == Some(stage) ==> bought_of_tier(filled(c, cash, budget, elapsed).actions, tier)
            == bought_in_all(filled(c, cash, budget, elapsed).actions),
        stage_of_tier(tier) != Some(stage) ==> bought_of_tier(filled(c, cash, budget, elapsed).actions, tier) == 0,
    decreases c.len(),
{
    if c.len() > 0 && cash > 0 && budget > 0 {
        let j = c[0].index as int;
        let t = table()[j];
        let take = min(min(c[0].first as int, cash), budget);
        let rest = c.drop_first();
        wanting_rest(c);
        table_shape();
        assert forall|k: int| 0 <= k < rest.len() implies stage_for(table()[(#[trigger] rest[k]).index as int]) == stage by {
            assert(rest[k] == c[k + 1]);
        }
        assert(stage_for(table()[c[0].index as int]) == stage);
        if take > ONE {
            let tail = filled(rest, cash - take, budget - take, elapsed).actions;
            let a = buying(t.ticker@, take, build_reason(t.tier, elapsed));
            fill_tier(rest, stage, cash - take, budget - take, elapsed, tier);
            one_buy(a, tail, t.ticker@);
            one_buy_of_tier(a, tail, j, tier);
        } else {
            fill_tier(rest, stage, cash, budget, elapsed, tier);
        }
    } else {
        assert(filled(c, cash, budget, elapsed).actions =~= seq![]);
    }
}

proof fn stage_tier(p: Portfolio, s: Settings, stage: Stage, elapsed: int, cash: int, tier: Tier)
    requires
        portfolio_within_limits(p),
        settings_within_limits(s),
        stage_of_tier(tier) is Some,
    ensures
        ({
            let f = stage_filled(p, s, stage, elapsed, cash);
            bought_of_tier(f.actions, tier) == if stage_of_tier(tier) == Some(stage) {
                bought_in_all(f.actions)
            } else {
                0
            }
        }),
{
    let f = stage_filled(p, s, stage, elapsed, cash);
    if f.actions.len() == 0 {
        assert(f.actions =~= seq![]);
    }
    in_line_facts(p, s, stage);
    fill_tier(
        in_line(p, s, stage),
        stage,
        cash,
        stage_budget(s, stage, cash),
        elapsed,
        tier,
    );
}

proof fn stages_tier(p: Portfolio, s: Settings, elapsed: int, n: int, tier: Tier)
    requires
        portfolio_within_limits(p),
        settings_within_limits(s),
        stage_of_tier(tier) is Some,
        0 <= n <= 4,
    ensures
        n <= 1 && tier == Tier::Asymmetric ==> bought_of_tier(stages_filled(p, s, elapsed, n).actions, tier) == 0,
    decreases n,
{
    if n == 0 {
        assert(stages_filled(p, s, elapsed, 0).actions =~= seq![]);
    } else {
        stages_tier(p, s, elapsed, n - 1, tier);
        let before = stages_filled(p, s, elapsed, n - 1);
        let next = stage_filled(p, s, stage_at(n - 1), elapsed, before.cash);
        bought_of_tier_sum(before.actions, next.actions, tier);
        stage_tier(p, s, stage_at(n - 1), elapsed, before.cash, tier);
    }
}

proof fn days_are_counted_up(a: int, b: int)
    ensures
        0 <= weekday_count(a, b),
    decreases b - a + 1,
{
    if a <= b {
        days_are_counted_up(a, b - 1);
    }
}

/// Every line that is short is served, whether it is held already or not. A line
/// whose days have begun and that misses more than a dollar of its goal is bought for
/// exactly what it misses. The one excuse is that the money has run out: no more than
/// a dollar of the deployable cash is left, or, for an asymmetric name, of the daily
/// budget, and what is left would not have completed the line.
pub proof fn a_short_line_is_bought(p: Portfolio, s: Settings, asof: Ymd, start: Ymd, i: int)
    requires
        portfolio_within_limits(p),
        settings_within_limits(s),
        0 <= i < INVESTED,
        missing(p, s, i) > ONE,
        begun(table()[i], weekday_count(day_number(start), day_number(asof))),
    ensures
        ({
            let v = tranche(p, s, asof, start);
            let got = bought_in(v, table()[i].ticker@);
            let left = deployable_cash(p.cash, nav_of(p), s.cash_buffer_pct) - bought_in_all(v);
            let free = s.build_daily_budget - bought_of_tier(v, Tier::Asymmetric);
            &&& 0 <= got <= missing(p, s, i)
            &&& {
                ||| got == missing(p, s, i)
                ||| left <= ONE && left + got < missing(p, s, i)
                ||| table()[i].tier == Tier::Asymmetric && free <= ONE && free + got < missing(p, s, i)
            }
        }),
{
    table_shape();
    days_are_counted_up(day_number(start), day_number(asof));
    stages_serve(p, s, weekday_count(day_number(start), day_number(asof)), 4, i);
}

/// A line gets nothing before its days have begun, nor where it misses a dollar of
/// its goal or less.
pub proof fn a_tranche_buys_nothing_else(p: Portfolio, s: Settings, asof: Ymd, start: Ymd, i: int)
    requires
        portfolio_within_limits(p),
        settings_within_limits(s),
        0 <= i < INVESTED,
        missing(p, s, i) <= ONE || !begun(table()[i], weekday_count(day_number(start), day_number(asof))),
    ensures
        bought_in(tranche(p, s, asof, start), table()[i].ticker@) == 0,
{
    table_shape();
    days_are_counted_up(day_number(start), day_number(asof));
    stages_serve(p, s, weekday_count(day_number(start), day_number(asof)), 4, i);
}

/// Between lines of one stage the larger gap comes first: a line gets nothing while a
/// line that misses more is not complete.
pub proof fn the_larger_gap_comes_first(p: Portfolio, s: Settings, asof: Ymd, start: Ymd, i: int, j: int)
    requires
        portfolio_within_limits(p),
        settings_within_limits(s),
        0 <= i < INVESTED,
        0 <= j < INVESTED,
        place_of(table()[i]) == place_of(table()[j]),
        missing(p, s, i) > missing(p, s, j),
        bought_in(tranche(p, s, asof, start), table()[j].ticker@) > 0,
    ensures
        bought_in(tranche(p, s, asof, start), table()[i].ticker@) == missing(p, s, i),
{
    let elapsed = weekday_count(day_number(start), day_number(asof));
    let m = place_of(table()[i]);
    let stage = stage_at(m);
    table_shape();
    days_are_counted_up(day_number(start), day_number(asof));
    only_its_stage_buys(p, s, elapsed, 4, i);
    only_its_stage_buys(p, s, elapsed, 4, j);
    let cash = stages_filled(p, s, elapsed, m).cash;
    stages_serve(p, s, elapsed, m, i);
    a_stage_serves(p, s, stage, elapsed, cash, j);
    let c = in_line(p, s, stage);
    in_line_facts(p, s, stage);
    let a = choose|a: int| 0 <= a < c.len() && (#[trigger] c[a]).index == i;
    let b = choose|b: int| 0 <= b < c.len() && (#[trigger] c[b]).index == j;
    assert(c[a].first == missing(p, s, c[a].index as int) && c[b].first == missing(p, s, c[b].index as int));
    if stage_filled(p, s, stage, elapsed, cash).actions.len() == 0 {
        assert(stage_filled(p, s, stage, elapsed, cash).actions =~= seq![]);
    }
    a_later_candidate_waits(c, cash, stage_budget(s, stage, cash), elapsed, a, b);
}

proof fn only_its_stage_buys(p: Portfolio, s: Settings, elapsed: int, n: int, i: int)
    requires
        portfolio_within_limits(p),
        settings_within_limits(s),
        0 <= n <= 4,
        0 <= elapsed,
        0 <= i < INVESTED,
    ensures
        ({
            let m = place_of(table()[i]);
            bought_in(stages_filled(p, s, elapsed, n).actions, table()[i].ticker@) == if m < n {
                bought_in(
                    stage_filled(p, s, stage_at(m), elapsed, stages_filled(p, s, elapsed, m).cash).actions,
                    table()[i].ticker@,
                )
            } else {
                0
            }
        }),
    decreases n,
{
    table_shape();
    if n == 0 {
        assert(stages_filled(p, s, elapsed, 0).actions =~= seq![]);
    } else {
        only_its_stage_buys(p, s, elapsed, n - 1, i);
        stages_serve(p, s, elapsed, n - 1, i);
        let before = stages_filled(p, s, elapsed, n - 1);
        let next = stage_filled(p, s, stage_at(n - 1), elapsed, before.cash);
        a_stage_serves(p, s, stage_at(n - 1), elapsed, before.cash, i);
        bought_in_sum(before.actions, next.actions, table()[i].ticker@);
        assert(n - 1 == place_of(table()[i]) <==> stage_for(table()[i]) == stage_at(n - 1));
    }
}

/// An earlier stage comes first: nothing is bought of a later stage while a floor name
/// or a call of an earlier one still misses more than a dollar of its goal.
pub proof fn an_earlier_stage_comes_first(p: Portfolio, s: Settings, asof: Ymd, start: Ymd, i: int, j: int)
    requires
        portfolio_within_limits(p),
        settings_within_limits(s),
        0 <= i < INVESTED,
        0 <= j < INVESTED,
        place_of(table()[i]) < place_of(table()[j]),
        table()[i].tier != Tier::Asymmetric,
        missing(p, s, i) > ONE,
        bought_in(tranche(p, s, asof, start), table()[j].ticker@) > 0,
    ensures
        bought_in(tranche(p, s, asof, start), table()[i].ticker@) == missing(p, s, i),
{
    let elapsed = weekday_count(day_number(start), day_number(asof));
    let m = place_of(table()[j]);
    table_shape();
    days_are_counted_up(day_number(start), day_number(asof));
    only_its_stage_buys(p, s, elapsed, 4, i);
    only_its_stage_buys(p, s, elapsed, m, i);
    only_its_stage_buys(p, s, elapsed, 4, j);
    stages_serve(p, s, elapsed, m, i);
    stages_serve(p, s, elapsed, 4, j);
    a_stage_serves(p, s, stage_at(m), elapsed, stages_filled(p, s, elapsed, m).cash, j);
}

/// What all candidates want together.
pub open spec fn wanted(c: Seq<Candidate>) -> int
    decreases c.len(),
{
    if c.len() == 0 {
        0
    } else {
        wanted(c.drop_last()) + c.last().first
    }
}

proof fn wanted_of_placed(s: Seq<Candidate>, x: Candidate)
    ensures
        wanted(placed(s, x)) == wanted(s) + x.first,
    decreases s.len(),
{
    if s.len() > 0 && ahead(x, s.last()) {
        wanted_of_placed(s.drop_last(), x);
        assert(placed(s.drop_last(), x).push(s.last()).drop_last() =~= placed(s.drop_last(), x));
    } else {
        assert(s.push(x).drop_last() =~= s);
    }
}

proof fn wanted_of_ranked(s: Seq<Candidate>)
    ensures
        wanted(ranked(s)) == wanted(s),
    decreases s.len(),
{
    if s.len() > 0 {
        wanted_of_ranked(s.drop_last());
        wanted_of_placed(ranked(s.drop_last()), s.last());
    }
}

proof fn wanted_from_the_front(c: Seq<Candidate>)
    requires
        c.len() > 0,
    ensures
        wanted(c) == c[0].first + wanted(c.drop_first()),
    decreases c.len(),
{
    if c.len() == 1 {
        assert(c.drop_last() =~= c.drop_first());
    } else {
        wanted_from_the_front(c.drop_last());
        assert(c.drop_last().drop_first() =~= c.drop_first().drop_last());
    }
}

proof fn wanted_is_positive(c: Seq<Candidate>)
    requires
        wanting(c),
    ensures
        0 <= wanted(c),
    decreases c.len(),
{
    if c.len() > 0 {
        wanting_rest(c);
        wanted_from_the_front(c);
        wanted_is_positive(c.drop_first());
        assert(c[0].first > ONE);
    }
}

proof fn enough_for_all(c: Seq<Candidate>, cash: int, budget: int, elapsed: int, k: int)
    requires
        wanting(c),
        0 <= k < c.len(),
        wanted(c) <= cash,
        wanted(c) <= budget,
    ensures
        bought_in(filled(c, cash, budget, elapsed).actions, table()[c[k].index as int].ticker@) == c[k].first,
    decreases c.len(),
{
    let (i, j) = (c[k].index as int, c[0].index as int);
    let t = table()[j];
    let rest = c.drop_first();
    wanting_rest(c);
    wanted_from_the_front(c);
    wanted_is_positive(rest);
    labels_are_distinct();
    assert(c[0].first > ONE);
    let take = c[0].first as int;
    one_buy(
        buying(t.ticker@, take, build_reason(t.tier, elapsed)),
        filled(rest, cash - take, budget - take, elapsed).actions,
        table()[i].ticker@,
    );
    if k > 0 {
        assert(rest[k - 1] == c[k]);
        assert(c[0].index != c[k].index);
        assert(table()[j].ticker@ != table()[i].ticker@);
        enough_for_all(rest, cash - take, budget - take, elapsed, k - 1);
    } else {
        fills_of(rest, cash - take, budget - take, elapsed, i);
    }
}

/// What the floor names among the first `n` lines miss together, each that misses
/// more than a dollar.
pub open spec fn floor_gap(p: Portfolio, s: Settings, n: int) -> int
    decreases n,
{
    if n <= 0 {
        0
    } else {
        floor_gap(p, s, n - 1) + if table()[n - 1].tier == Tier::Floor && missing(p, s, n - 1) > ONE {
            missing(p, s, n - 1)
        } else {
            0
        }
    }
}

proof fn the_floor_wants_its_gap(p: Portfolio, s: Settings, n: int)
    requires
        portfolio_within_limits(p),
        settings_within_limits(s),
        0 <= n <= INVESTED,
    ensures
        wanted(short_lines(p, s, Stage::Floor, n)) == floor_gap(p, s, n),
    decreases n,
{
    if n > 0 {
        the_floor_wants_its_gap(p, s, n - 1);
        let before = short_lines(p, s, Stage::Floor, n - 1);
        let i = n - 1;
        table_shape();
        goal_range(p, s, i);
        if let Some(symbol) = symbol_of(table()[i], s) {
            held_is_a_holding(p, symbol);
        }
        let x = Candidate { index: i as usize, first: shortfall(p, s, i) as i128, second: 0 };
        assert(before.push(x).drop_last() =~= before);
    }
}

/// Where the deployable cash covers what the floor misses, the tranche completes every
/// floor name.
pub proof fn enough_cash_completes_the_floor(p: Portfolio, s: Settings, asof: Ymd, start: Ymd, i: int)
    requires
        portfolio_within_limits(p),
        settings_within_limits(s),
        0 <= i < INVESTED,
        table()[i].tier == Tier::Floor,
        missing(p, s, i) > ONE,
        floor_gap(p, s, INVESTED as int) <= deployable_cash(p.cash, nav_of(p), s.cash_buffer_pct),
    ensures
        bought_in(tranche(p, s, asof, start), table()[i].ticker@) == missing(p, s, i),
{
    let elapsed = weekday_count(day_number(start), day_number(asof));
    let cash = deployable_cash(p.cash, nav_of(p), s.cash_buffer_pct);
    let found = short_lines(p, s, Stage::Floor, INVESTED as int);
    let c = in_line(p, s, Stage::Floor);
    table_shape();
    days_are_counted_up(day_number(start), day_number(asof));
    only_its_stage_buys(p, s, elapsed, 4, i);
    in_line_facts(p, s, Stage::Floor);
    the_floor_wants_its_gap(p, s, INVESTED as int);
    wanted_of_ranked(found);
    let k = choose|k: int| 0 <= k < c.len() && (#[trigger] c[k]).index == i;
    assert(c[k].first == missing(p, s, c[k].index as int));
    enough_for_all(c, cash, cash, elapsed, k);
    wanted_from_the_front(c);
    wanting_rest(c);
    wanted_is_positive(c.drop_first());
    assert(c[0].first > ONE);
    assert(stages_filled(p, s, elapsed, 0).cash == cash);
}

/// The days of a build are counted from Monday to Friday: a day adds one where it is one
/// of these, and nothing otherwise.
pub proof fn a_weekday_is_counted(a: int, d: Ymd)
    requires
        a <= day_number(d),
    ensures
        weekday_count(a, day_number(d)) - weekday_count(a, day_number(d) - 1) == if weekday(d) <= 4 {
            1int
        } else {
            0
        },
        weekday_count(a, a - 1) == 0,
{
}

proof fn short_lines_ascend(p: Portfolio, s: Settings, stage: Stage, n: int)
    requires
        0 <= n <= INVESTED,
    ensures
        forall|j: int, k: int|
            0 <= j < k < short_lines(p, s, stage, n).len() ==> (#[trigger] short_lines(p, s, stage, n)[j]).index < (
            #[trigger] short_lines(p, s, stage, n)[k]).index,
        forall|k: int| 0 <= k < short_lines(p, s, stage, n).len() ==> (#[trigger] short_lines(p, s, stage, n)[k]).index < n,
    decreases n,
{
    if n > 0 {
        short_lines_ascend(p, s, stage, n - 1);
        let (before, all) = (short_lines(p, s, stage, n - 1), short_lines(p, s, stage, n));
        assert forall|k: int| 0 <= k < all.len() implies (#[trigger] all[k]).index < n by {
            if k < before.len() {
                assert(all[k] == before[k]);
            }
        }
        assert forall|j: int, k: int| 0 <= j < k < all.len() implies (#[trigger] all[j]).index < (#[trigger] all[k]).index by {
            assert(all[j] == before[j]);
            if k < before.len() {
                assert(all[k] == before[k]);
            }
        }
    }
}

/// Lines of one stage that miss the same are filled in the order of the book.
pub proof fn equal_gaps_go_in_book_order(p: Portfolio, s: Settings, asof: Ymd, start: Ymd, i: int, j: int)
    requires
        portfolio_within_limits(p),
        settings_within_limits(s),
        0 <= i < j < INVESTED,
        place_of(table()[i]) == place_of(table()[j]),
        missing(p, s, i) == missing(p, s, j),
        bought_in(tranche(p, s, asof, start), table()[j].ticker@) > 0,
    ensures
        bought_in(tranche(p, s, asof, start), table()[i].ticker@) == missing(p, s, i),
{
    let elapsed = weekday_count(day_number(start), day_number(asof));
    let m = place_of(table()[i]);
    let stage = stage_at(m);
    table_shape();
    days_are_counted_up(day_number(start), day_number(asof));
    only_its_stage_buys(p, s, elapsed, 4, i);
    only_its_stage_buys(p, s, elapsed, 4, j);
    let cash = stages_filled(p, s, elapsed, m).cash;
    stages_serve(p, s, elapsed, m, i);
    a_stage_serves(p, s, stage, elapsed, cash, j);
    let found = short_lines(p, s, stage, INVESTED as int);
    let c = in_line(p, s, stage);
    short_lines_list(p, s, stage, INVESTED as int);
    short_lines_ascend(p, s, stage, INVESTED as int);
    in_line_facts(p, s, stage);
    let a = choose|a: int| 0 <= a < found.len() && (#[trigger] found[a]).index == i;
    let b = choose|b: int| 0 <= b < found.len() && (#[trigger] found[b]).index == j;
    if b < a {
        assert(found[b].index < found[a].index);
    }
    assert(found[a].first == missing(p, s, found[a].index as int) && found[b].first == missing(
        p,
        s,
        found[b].index as int,
    ));
    let (x, y) = what_ties_keeps_its_order(found, a, b);
    if stage_filled(p, s, stage, elapsed, cash).actions.len() == 0 {
        assert(stage_filled(p, s, stage, elapsed, cash).actions =~= seq![]);
    }
    a_later_candidate_waits(c, cash, stage_budget(s, stage, cash), elapsed, x, y);
}

} // verus!
