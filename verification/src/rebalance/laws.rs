//! What holds of every plan.
use vstd::math::min;
use vstd::prelude::*;

use crate::fixed::{times, within, LIMIT, ONE, WIDE};
use crate::execute::{action_within_limits, actions_within_limits};
use crate::portfolio::state::{held, held_is_a_holding};
use crate::portfolio::targets::{
    cluster_lines, cluster_lines_in_order, cluster_names, in_book_order, labels_are_distinct, symbol_of, table, theme_lines, theme_lines_in_order,
    theme_names, weight_of_lines, EQUITY, INVESTED,
};
use crate::ranking::{ranked, ranked_member, ranking_is_an_ordered_permutation, Candidate};
use crate::rebalance::ledger::{
    booked, booked_sized, relief_step, relieved, sellable, sized, sized_weaker, trims_within, value_of_lines, Ledger, TrimView,
};
use crate::rebalance::rules::{
    aim, bought, capped_bound, cluster_names_count, cluster_reason, clusters_relieved, cohort_at_marks, cohort_now, counted, deployable, deployments,
    early_bound, eligible, emitted, fall_of, falls, flagged, group_relieved, least_band, line_bound, mark_of, may_buy,
    moon_line, moon_lines, opening, overweight, overweight_facts, plan, position_capped, positions_capped, profit_taken,
    profit_taken_sized, profits_taken, ranked_sellable, relief_bound, reviews, scene_within_limits, slack, theme_reason,
    themes_relieved, triggered, trimmed_ledger, Scene, LEAPS_PT_TRIM, MICROCAP_PT_TRIM,
};
use crate::rebalance::signal_bias::{multiplier, silent, Bias};
use crate::rebalance::sizes::{goal_range, label_band, nav_of, times_bound};
use crate::rebalance::{ActionKind, ActionView};
use crate::str_map::{inserted, inserted_entry};

verus! {

/// No proposal is to buy.
pub open spec fn no_buys(s: Seq<ActionView>) -> bool {
    forall|k: int| 0 <= k < s.len() ==> (#[trigger] s[k]).kind != ActionKind::Buy
}

/// Every proposal is to buy.
pub open spec fn all_buys(s: Seq<ActionView>) -> bool {
    forall|k: int| 0 <= k < s.len() ==> (#[trigger] s[k]).kind == ActionKind::Buy
}

/// The proposals that are not to buy, in order.
pub open spec fn without_buys(s: Seq<ActionView>) -> Seq<ActionView>
    decreases s.len(),
{
    if s.len() == 0 {
        seq![]
    } else if s.last().kind == ActionKind::Buy {
        without_buys(s.drop_last())
    } else {
        without_buys(s.drop_last()).push(s.last())
    }
}

proof fn without_buys_of_sum(a: Seq<ActionView>, b: Seq<ActionView>)
    ensures
        without_buys(a + b) == without_buys(a) + without_buys(b),
    decreases b.len(),
{
    if b.len() == 0 {
        assert(a + b =~= a);
        assert(without_buys(a) + without_buys(b) =~= without_buys(a));
    } else {
        assert((a + b).drop_last() =~= a + b.drop_last());
        assert((a + b).last() == b.last());
        without_buys_of_sum(a, b.drop_last());
        assert(without_buys(a) + without_buys(b.drop_last()).push(b.last()) =~= (without_buys(a)
            + without_buys(b.drop_last())).push(b.last()));
    }
}

proof fn without_buys_keeps(s: Seq<ActionView>)
    requires
        no_buys(s),
    ensures
        without_buys(s) == s,
    decreases s.len(),
{
    if s.len() > 0 {
        let front = s.drop_last();
        assert forall|k: int| 0 <= k < front.len() implies (#[trigger] front[k]).kind != ActionKind::Buy by {
            assert(front[k] == s[k]);
        }
        without_buys_keeps(front);
        assert(s[s.len() - 1].kind != ActionKind::Buy);
        assert(front.push(s.last()) =~= s);
    } else {
        assert(s =~= seq![]);
    }
}

proof fn without_buys_drops(s: Seq<ActionView>)
    requires
        all_buys(s),
    ensures
        without_buys(s) == Seq::<ActionView>::empty(),
    decreases s.len(),
{
    if s.len() > 0 {
        let front = s.drop_last();
        assert forall|k: int| 0 <= k < front.len() implies (#[trigger] front[k]).kind == ActionKind::Buy by {
            assert(front[k] == s[k]);
        }
        without_buys_drops(front);
        assert(s[s.len() - 1].kind == ActionKind::Buy);
    }
}

// ── the parts of a plan ────────────────────────────────────────────────────

/// Every proposal is advice: no order and no dollars.
pub open spec fn all_advice(s: Seq<ActionView>) -> bool {
    forall|k: int|
        0 <= k < s.len() ==> (#[trigger] s[k]).kind == ActionKind::ThesisRevalidate && s[k].dollars == 0
}

proof fn reviews_are_advice(w: Scene, n: int)
    ensures
        all_advice(reviews(w, n)),
    decreases n,
{
    if n > 0 {
        reviews_are_advice(w, n - 1);
    }
}

/// The reviews and flags are advice.
pub proof fn flags_are_advice(w: Scene, n: int)
    ensures
        all_advice(flagged(w, n)),
    decreases n,
{
    if n > 0 {
        flags_are_advice(w, n - 1);
    } else {
        reviews_are_advice(w, w.portfolio.holdings.len() as int);
    }
}

/// Every proposal is a sale larger than the band of its ticker.
pub open spec fn trims_beyond_bands(w: Scene, s: Seq<ActionView>) -> bool {
    forall|k: int|
        0 <= k < s.len() ==> (#[trigger] s[k]).kind == ActionKind::Trim && s[k].dollars > label_band(
            w.portfolio,
            w.settings,
            s[k].ticker,
        )
}

/// Every equity trim of a plan is larger than the band of its ticker.
pub proof fn trims_exceed_their_bands(w: Scene, trims: Seq<(Seq<char>, TrimView)>, n: int)
    ensures
        trims_beyond_bands(w, emitted(w, trims, n)),
    decreases n,
{
    if n > 0 {
        trims_exceed_their_bands(w, trims, n - 1);
    }
}

/// The cash deployment only buys.
pub proof fn deployments_are_buys(w: Scene, c: Seq<Candidate>, cash: int, least: int)
    ensures
        all_buys(bought(w, c, cash, least)),
    decreases c.len(),
{
    if c.len() > 0 && cash > least {
        let i = c[0].index as int;
        let take = min(-c[0].second as int, cash);
        let rest = c.drop_first();
        deployments_are_buys(w, rest, cash - take, least);
        deployments_are_buys(w, rest, cash, least);
        if take > slack(w, i) {
            let tail = bought(w, rest, cash - take, least);
            let whole = bought(w, c, cash, least);
            assert forall|k: int| 0 <= k < whole.len() implies (#[trigger] whole[k]).kind == ActionKind::Buy by {
                if k > 0 {
                    assert(whole[k] == tail[k - 1]);
                }
            }
        }
    }
}

proof fn moon_lines_never_buy(w: Scene, n: int)
    ensures
        no_buys(moon_lines(w, n)),
    decreases n,
{
    if n > EQUITY {
        moon_lines_never_buy(w, n - 1);
        let (a, b) = (moon_lines(w, n - 1), moon_line(w, table()[n - 1]));
        assert(no_buys(b));
        assert forall|k: int| 0 <= k < (a + b).len() implies (#[trigger] (a + b)[k]).kind != ActionKind::Buy by {
            if k < a.len() {
                assert((a + b)[k] == a[k]);
            } else {
                assert((a + b)[k] == b[k - a.len()]);
            }
        }
    }
}

// ── laws of the two modes ──────────────────────────────────────────────────

/// The protective plan never buys: while the book is being built, the build
/// stages own all buying.
pub proof fn protective_never_buys(w: Scene)
    ensures
        no_buys(plan(w, false)),
{
    let l = trimmed_ledger(w);
    let a = flagged(w, w.portfolio.holdings.len() as int);
    let b = emitted(w, l.trims, l.trims.len() as int);
    let d = moon_lines(w, INVESTED as int);
    flags_are_advice(w, w.portfolio.holdings.len() as int);
    trims_exceed_their_bands(w, l.trims, l.trims.len() as int);
    moon_lines_never_buy(w, INVESTED as int);
    let p = plan(w, false);
    assert(p =~= a + b + d);
    assert forall|k: int| 0 <= k < p.len() implies (#[trigger] p[k]).kind != ActionKind::Buy by {
        if k < a.len() {
            assert(p[k] == a[k]);
        } else if k < a.len() + b.len() {
            assert(p[k] == b[k - a.len()]);
        } else {
            assert(p[k] == d[k - a.len() - b.len()]);
        }
    }
}

/// The two modes differ in the cash deployment only: the maintenance plan without
/// its buys is the protective plan.
pub proof fn modes_differ_only_in_buys(w: Scene)
    ensures
        without_buys(plan(w, true)) == plan(w, false),
{
    let l = trimmed_ledger(w);
    let a = flagged(w, w.portfolio.holdings.len() as int);
    let b = emitted(w, l.trims, l.trims.len() as int);
    let c = deployments(w, l);
    let d = moon_lines(w, INVESTED as int);
    flags_are_advice(w, w.portfolio.holdings.len() as int);
    trims_exceed_their_bands(w, l.trims, l.trims.len() as int);
    moon_lines_never_buy(w, INVESTED as int);
    deployments_are_buys(
        w,
        ranked(eligible(w, l, EQUITY as int)),
        deployable(w, l),
        least_band(w, EQUITY as int),
    );
    without_buys_keeps(a);
    without_buys_keeps(b);
    without_buys_keeps(d);
    without_buys_drops(c);
    without_buys_of_sum(a, b);
    without_buys_of_sum(a + b, c);
    without_buys_of_sum(a + b + c, d);
    assert(plan(w, true) == a + b + c + d);
    assert(plan(w, false) =~= a + b + d);
    assert(a + b + Seq::<ActionView>::empty() + d =~= a + b + d);
}

/// A review or a flag never carries an order or dollars.
pub proof fn reviews_carry_no_dollars(w: Scene)
    ensures
        all_advice(flagged(w, w.portfolio.holdings.len() as int)),
{
    flags_are_advice(w, w.portfolio.holdings.len() as int);
}

// ── laws of the buys ───────────────────────────────────────────────────────

/// The dollars of some proposals together.
pub open spec fn total_dollars(s: Seq<ActionView>) -> int
    decreases s.len(),
{
    if s.len() == 0 {
        0
    } else {
        s[0].dollars + total_dollars(s.drop_first())
    }
}

proof fn bought_within_cash(w: Scene, c: Seq<Candidate>, cash: int, least: int)
    requires
        0 <= cash,
    ensures
        total_dollars(bought(w, c, cash, least)) <= cash,
    decreases c.len(),
{
    if c.len() > 0 && cash > least {
        let i = c[0].index as int;
        let take = min(-c[0].second as int, cash);
        let rest = c.drop_first();
        if take > slack(w, i) {
            bought_within_cash(w, rest, cash - take, least);
            let tail = bought(w, rest, cash - take, least);
            assert(bought(w, c, cash, least).drop_first() =~= tail);
        } else {
            bought_within_cash(w, rest, cash, least);
        }
    }
}

/// The buys of a plan together never cost more than the cash beyond the protected
/// buffer: no leverage.
pub proof fn deployments_stay_within_cash(w: Scene)
    ensures
        total_dollars(deployments(w, trimmed_ledger(w))) <= deployable(w, trimmed_ledger(w)),
        0 <= deployable(w, trimmed_ledger(w)) <= crate::safety::deployable_cash(
            trimmed_ledger(w).cash,
            nav_of(w.portfolio),
            w.settings.cash_buffer_pct,
        ),
{
    let l = trimmed_ledger(w);
    let free = crate::safety::deployable_cash(
        l.cash,
        nav_of(w.portfolio),
        w.settings.cash_buffer_pct,
    );
    let m = multiplier(w.bias.macro_score);
    assert(500_000_000_000 <= m <= ONE);
    let n = free * m;
    vstd::arithmetic::div_mod::lemma_fundamental_div_mod(n, ONE as int);
    assert(0 <= n / 1_000_000_000_000 <= free) by (nonlinear_arith)
        requires
            n == free * m,
            0 <= free,
            0 <= m <= 1_000_000_000_000,
            n == 1_000_000_000_000 * (n / 1_000_000_000_000) + n % 1_000_000_000_000,
            0 <= n % 1_000_000_000_000 < 1_000_000_000_000,
    ;
    bought_within_cash(
        w,
        ranked(eligible(w, l, EQUITY as int)),
        deployable(w, l),
        least_band(w, EQUITY as int),
    );
}

/// A buy of the plan is a permitted one: its line may be bought, and it is bought
/// up to its goal at most and by more than its band.
pub open spec fn permitted_buys(w: Scene, l: Ledger, s: Seq<ActionView>) -> bool {
    forall|k: int|
        0 <= k < s.len() ==> exists|i: int|
            #![trigger may_buy(w, l, i)]
            0 <= i < EQUITY && may_buy(w, l, i) && (#[trigger] s[k]).ticker == table()[i].ticker@
                && slack(w, i) < s[k].dollars <= aim(w, i) - l.mv[i]
}

proof fn eligible_facts(w: Scene, l: Ledger, n: int)
    requires
        scene_within_limits(w),
        sized(l, line_bound(), WIDE as int),
        0 <= n <= EQUITY,
    ensures
        forall|k: int|
            0 <= k < eligible(w, l, n).len() ==> (#[trigger] eligible(w, l, n)[k]).index < n && may_buy(
                w,
                l,
                eligible(w, l, n)[k].index as int,
            ) && eligible(w, l, n)[k].second == l.mv[eligible(w, l, n)[k].index as int] - aim(
                w,
                eligible(w, l, n)[k].index as int,
            ),
    decreases n,
{
    if n > 0 {
        eligible_facts(w, l, n - 1);
        goal_range(w.portfolio, w.settings, n - 1);
        assert(within(l.mv[n - 1], line_bound()));
        let (before, all) = (eligible(w, l, n - 1), eligible(w, l, n));
        assert forall|k: int| 0 <= k < all.len() implies (#[trigger] all[k]).index < n && may_buy(
            w,
            l,
            all[k].index as int,
        ) && all[k].second == l.mv[all[k].index as int] - aim(w, all[k].index as int) by {
            if k < before.len() {
                assert(all[k] == before[k]);
            }
        }
    }
}

proof fn bought_permitted(w: Scene, l: Ledger, c: Seq<Candidate>, cash: int, least: int)
    requires
        forall|k: int|
            0 <= k < c.len() ==> (#[trigger] c[k]).index < EQUITY && may_buy(w, l, c[k].index as int)
                && c[k].second == l.mv[c[k].index as int] - aim(w, c[k].index as int),
    ensures
        permitted_buys(w, l, bought(w, c, cash, least)),
    decreases c.len(),
{
    if c.len() > 0 && cash > least {
        let i = c[0].index as int;
        let take = min(-c[0].second as int, cash);
        let rest = c.drop_first();
        assert forall|k: int| 0 <= k < rest.len() implies (#[trigger] rest[k]).index < EQUITY && may_buy(
            w,
            l,
            rest[k].index as int,
        ) && rest[k].second == l.mv[rest[k].index as int] - aim(w, rest[k].index as int) by {
            assert(rest[k] == c[k + 1]);
        }
        bought_permitted(w, l, rest, cash - take, least);
        bought_permitted(w, l, rest, cash, least);
        if take > slack(w, i) {
            let tail = bought(w, rest, cash - take, least);
            let whole = bought(w, c, cash, least);
            assert forall|k: int| 0 <= k < whole.len() implies exists|i: int|
                #![trigger may_buy(w, l, i)]
                0 <= i < EQUITY && may_buy(w, l, i) && (#[trigger] whole[k]).ticker == table()[i].ticker@
                    && slack(w, i) < whole[k].dollars <= aim(w, i) - l.mv[i] by {
                if k == 0 {
                    assert(may_buy(w, l, i));
                } else {
                    assert(whole[k] == tail[k - 1]);
                }
            }
        }
    }
}

/// Every buy is permitted by the rule: its name is not vetoed, has fallen far
/// enough or stands in a stressed cluster, and is never bought past its goal.
pub proof fn deployments_are_permitted(w: Scene, l: Ledger)
    requires
        scene_within_limits(w),
        sized(l, line_bound(), WIDE as int),
    ensures
        permitted_buys(w, l, deployments(w, l)),
{
    let c = eligible(w, l, EQUITY as int);
    let r = ranked(c);
    eligible_facts(w, l, EQUITY as int);
    ranking_is_an_ordered_permutation(c);
    assert forall|k: int| 0 <= k < r.len() implies (#[trigger] r[k]).index < EQUITY && may_buy(
        w,
        l,
        r[k].index as int,
    ) && r[k].second == l.mv[r[k].index as int] - aim(w, r[k].index as int) by {
        let j = ranked_member(c, k);
        assert(c[j] == r[k]);
    }
    bought_permitted(w, l, r, deployable(w, l), least_band(w, EQUITY as int));
}

// ── laws of the signal ─────────────────────────────────────────────────────

/// The same scene under another signal.
pub open spec fn under(w: Scene, b: Bias) -> Scene {
    Scene { bias: b, ..w }
}

proof fn falls_ignore_the_signal(w: Scene, b: Bias, n: int)
    ensures
        falls(under(w, b), n) == falls(w, n),
    decreases n,
{
    if n > 0 {
        falls_ignore_the_signal(w, b, n - 1);
        assert(mark_of(under(w, b), w.portfolio.holdings[n - 1]) == mark_of(
            w,
            w.portfolio.holdings[n - 1],
        ));
    }
}

proof fn cohorts_ignore_the_signal(w: Scene, b: Bias, lines: Seq<int>)
    ensures
        cohort_now(under(w, b), lines) == cohort_now(w, lines),
        cohort_at_marks(under(w, b), lines) == cohort_at_marks(w, lines),
    decreases lines.len(),
{
    if lines.len() > 0 {
        cohorts_ignore_the_signal(w, b, lines.drop_last());
        if let Some(h) = held(w.portfolio, table()[lines.last()].ticker@) {
            assert(mark_of(under(w, b), h) == mark_of(w, h));
        }
        assert(counted(under(w, b), lines.last()) == counted(w, lines.last()));
    }
}

proof fn triggers_ignore_the_signal(w: Scene, b: Bias, i: int)
    ensures
        triggered(under(w, b), i) == triggered(w, i),
{
    let v = under(w, b);
    falls_ignore_the_signal(w, b, w.portfolio.holdings.len() as int);
    assert forall|label: Seq<char>| fall_of(v, label) == fall_of(w, label) by {}
    cohorts_ignore_the_signal(w, b, cluster_lines(table()[i].cluster@, EQUITY as int));
}

/// The signal never authorises a buy: whatever may be bought under it may be
/// bought under a silent one, and it never releases more cash than that.
pub proof fn the_signal_never_adds_a_buy(w: Scene, l: Ledger, i: int)
    requires
        may_buy(w, l, i),
    ensures
        may_buy(under(w, silent(false)), l, i),
        multiplier(w.bias.macro_score) <= multiplier(silent(false).macro_score),
{
    triggers_ignore_the_signal(w, silent(false), i);
}

proof fn early_rules_ignore_the_signal(w: Scene, b: Bias, n: int)
    ensures
        profits_taken(under(w, b), n) == profits_taken(w, n),
    decreases n,
{
    if n > 0 {
        early_rules_ignore_the_signal(w, b, n - 1);
        assert(profit_taken(
            under(w, b),
            profits_taken(w, n - 1),
            w.portfolio.holdings[n - 1],
        ) == profit_taken(w, profits_taken(w, n - 1), w.portfolio.holdings[n - 1]));
    } else {
        assert(opening(under(w, b)) == opening(w));
    }
}

proof fn caps_ignore_the_signal(w: Scene, b: Bias, l: Ledger, n: int)
    ensures
        positions_capped(under(w, b), l, n) == positions_capped(w, l, n),
    decreases n,
{
    if n > 0 {
        caps_ignore_the_signal(w, b, l, n - 1);
        let m = positions_capped(w, l, n - 1);
        assert(position_capped(under(w, b), m, n - 1) == position_capped(w, m, n - 1));
    }
}

proof fn moon_rules_ignore_the_signal(w: Scene, b: Bias, n: int)
    ensures
        moon_lines(under(w, b), n) == moon_lines(w, n),
    decreases n,
{
    if n > EQUITY {
        moon_rules_ignore_the_signal(w, b, n - 1);
        assert(moon_line(under(w, b), table()[n - 1]) == moon_line(w, table()[n - 1]));
    }
}

/// The profit-takes, the position cap and the moonshot lifecycle do not depend
/// on the signal.
pub proof fn the_signal_leaves_these_rules_alone(w: Scene, b: Bias)
    ensures
        profits_taken(under(w, b), w.portfolio.holdings.len() as int) == profits_taken(
            w,
            w.portfolio.holdings.len() as int,
        ),
        forall|l: Ledger|
            #![trigger positions_capped(w, l, EQUITY as int)]
            positions_capped(under(w, b), l, EQUITY as int) == positions_capped(w, l, EQUITY as int),
        moon_lines(under(w, b), INVESTED as int) == moon_lines(w, INVESTED as int),
{
    early_rules_ignore_the_signal(w, b, w.portfolio.holdings.len() as int);
    moon_rules_ignore_the_signal(w, b, INVESTED as int);
    assert forall|l: Ledger|
        #![trigger positions_capped(w, l, EQUITY as int)]
        positions_capped(under(w, b), l, EQUITY as int) == positions_capped(w, l, EQUITY as int) by {
        caps_ignore_the_signal(w, b, l, EQUITY as int);
    }
}

// ── laws of the trims ──────────────────────────────────────────────────────

/// The value of the first `n` lines together.
pub open spec fn lines_worth(mv: Seq<int>, n: int) -> int
    decreases n,
{
    if n <= 0 {
        0
    } else {
        lines_worth(mv, n - 1) + mv[n - 1]
    }
}

/// What the equity lines and the cash are worth together.
pub open spec fn worth(l: Ledger) -> int {
    l.cash + lines_worth(l.mv, EQUITY as int)
}

proof fn lines_worth_updated(mv: Seq<int>, i: int, x: int, n: int)
    requires
        0 <= i < mv.len(),
        0 <= n <= mv.len(),
    ensures
        lines_worth(mv.update(i, x), n) == lines_worth(mv, n) + if i < n {
            x - mv[i]
        } else {
            0
        },
    decreases n,
{
    if n > 0 {
        lines_worth_updated(mv, i, x, n - 1);
    }
}

proof fn booking_conserves(l: Ledger, ticker: Seq<char>, i: int, dollars: int, reason: Seq<char>)
    requires
        l.mv.len() == EQUITY,
        0 <= i < EQUITY,
    ensures
        worth(booked(l, ticker, i, dollars, reason)) == worth(l),
        booked(l, ticker, i, dollars, reason).mv.len() == EQUITY,
{
    lines_worth_updated(l.mv, i, l.mv[i] - dollars, EQUITY as int);
}

proof fn profits_conserve(w: Scene, n: int)
    ensures
        worth(profits_taken(w, n)) == worth(opening(w)),
        profits_taken(w, n).mv.len() == EQUITY,
    decreases n,
{
    if n > 0 {
        profits_conserve(w, n - 1);
        let l = profits_taken(w, n - 1);
        let h = w.portfolio.holdings[n - 1];
        crate::portfolio::targets::table_shape();
        crate::portfolio::targets::line_of_facts(h.ticker);
        if let Some(i) = crate::portfolio::targets::line_of(h.ticker) {
            if let Some(r) = crate::rebalance::rules::profit_rule(table()[i].tier) {
                assert(crate::portfolio::targets::in_equity(table()[i].tier));
                booking_conserves(
                    l,
                    h.ticker,
                    i,
                    times(h.market_value, r.1),
                    r.2 + crate::fixed::rendered(h.unrealized_plpc + ONE, 1, false) + r.3,
                );
            }
        }
    }
}

proof fn caps_conserve(w: Scene, l: Ledger, n: int)
    requires
        l.mv.len() == EQUITY,
        n <= EQUITY,
    ensures
        worth(positions_capped(w, l, n)) == worth(l),
        positions_capped(w, l, n).mv.len() == EQUITY,
    decreases n,
{
    if n > 0 {
        caps_conserve(w, l, n - 1);
        let m = positions_capped(w, l, n - 1);
        booking_conserves(
            m,
            table()[n - 1].ticker@,
            n - 1,
            m.mv[n - 1] - times(nav_of(w.portfolio), w.settings.position_trim_target_pct),
            crate::rebalance::rules::position_reason(w, m.mv[n - 1]),
        );
    }
}

/// The candidates are equity lines.
pub open spec fn of_equity(c: Seq<Candidate>) -> bool {
    forall|k: int| 0 <= k < c.len() ==> (#[trigger] c[k]).index < EQUITY
}

proof fn relief_conserves(l: Ledger, c: Seq<Candidate>, excess: int, reason: Seq<char>)
    requires
        l.mv.len() == EQUITY,
        of_equity(c),
    ensures
        worth(relieved(l, c, excess, reason)) == worth(l),
        relieved(l, c, excess, reason).mv.len() == EQUITY,
    decreases c.len(),
{
    if c.len() > 0 && excess > 0 {
        let i = c[0].index as int;
        let take = min(c[0].first as int, excess);
        booking_conserves(l, table()[i].ticker@, i, take, reason);
        let rest = c.drop_first();
        assert forall|k: int| 0 <= k < rest.len() implies (#[trigger] rest[k]).index < EQUITY by {
            assert(rest[k] == c[k + 1]);
        }
        relief_conserves(
            booked(l, table()[i].ticker@, i, take, reason),
            rest,
            excess - take,
            reason,
        );
    }
}

proof fn overweight_of_equity(w: Scene, l: Ledger, lines: Seq<int>)
    requires
        in_book_order(lines, EQUITY as int),
    ensures
        of_equity(overweight(w, l, lines)),
    decreases lines.len(),
{
    if lines.len() > 0 {
        let front = lines.drop_last();
        assert forall|k: int| 0 <= k < front.len() implies 0 <= #[trigger] front[k] < EQUITY by {
            assert(front[k] == lines[k]);
        }
        assert forall|j: int, k: int| 0 <= j < k < front.len() implies #[trigger] front[j]
            < #[trigger] front[k] by {
            assert(lines[j] < lines[k]);
        }
        overweight_of_equity(w, l, front);
        assert(0 <= lines[lines.len() - 1] < EQUITY);
    }
}

proof fn group_conserves(w: Scene, l: Ledger, lines: Seq<int>, limit: int, reason: Seq<char>)
    requires
        l.mv.len() == EQUITY,
        in_book_order(lines, EQUITY as int),
    ensures
        worth(group_relieved(w, l, lines, limit, reason)) == worth(l),
        group_relieved(w, l, lines, limit, reason).mv.len() == EQUITY,
{
    let c = overweight(w, l, lines);
    overweight_of_equity(w, l, lines);
    let r = ranked(c);
    assert forall|k: int| 0 <= k < r.len() implies (#[trigger] r[k]).index < EQUITY by {
        let j = ranked_member(c, k);
        assert(c[j] == r[k]);
    }
    relief_conserves(l, r, value_of_lines(l.mv, lines) - limit, reason);
}

proof fn clusters_conserve(w: Scene, l: Ledger, n: int)
    requires
        l.mv.len() == EQUITY,
    ensures
        worth(clusters_relieved(w, l, n)) == worth(l),
        clusters_relieved(w, l, n).mv.len() == EQUITY,
    decreases n,
{
    if n > 0 {
        clusters_conserve(w, l, n - 1);
        let m = clusters_relieved(w, l, n - 1);
        let c = cluster_names(EQUITY as int)[n - 1];
        let lines = cluster_lines(c, EQUITY as int);
        crate::portfolio::targets::cluster_lines_in_order(c, EQUITY as int);
        group_conserves(
            w,
            m,
            lines,
            times(nav_of(w.portfolio), w.settings.cluster_cap_pct),
            crate::rebalance::rules::cluster_reason(w, c, value_of_lines(m.mv, lines)),
        );
    }
}

proof fn themes_conserve(w: Scene, l: Ledger, n: int)
    requires
        l.mv.len() == EQUITY,
    ensures
        worth(themes_relieved(w, l, n)) == worth(l),
        themes_relieved(w, l, n).mv.len() == EQUITY,
    decreases n,
{
    if n > 0 {
        themes_conserve(w, l, n - 1);
        let m = themes_relieved(w, l, n - 1);
        let th = theme_names(EQUITY as int)[n - 1];
        let lines = crate::portfolio::targets::theme_lines(th, EQUITY as int);
        let target = crate::portfolio::targets::weight_of_lines(lines, w.settings.cash_buffer_pct);
        crate::portfolio::targets::theme_lines_in_order(th, EQUITY as int);
        group_conserves(
            w,
            m,
            lines,
            times(nav_of(w.portfolio), target + w.settings.theme_drift_band_pct),
            crate::rebalance::rules::theme_reason(w, th, value_of_lines(m.mv, lines), target),
        );
    }
}

/// Trimming moves money and makes none: the equity lines and the cash are worth
/// the same together before and after.
pub proof fn trimming_conserves_worth(w: Scene)
    ensures
        worth(trimmed_ledger(w)) == worth(opening(w)),
{
    let profits = profits_taken(w, w.portfolio.holdings.len() as int);
    profits_conserve(w, w.portfolio.holdings.len() as int);
    let capped = positions_capped(w, profits, EQUITY as int);
    caps_conserve(w, profits, EQUITY as int);
    let spread = clusters_relieved(w, capped, cluster_names(EQUITY as int).len() as int);
    clusters_conserve(w, capped, cluster_names(EQUITY as int).len() as int);
    themes_conserve(w, spread, theme_names(EQUITY as int).len() as int);
}

/// The position cap leaves no line above the trigger that could be brought down
/// by more than its band: after it, a line stands at or below the trigger, or
/// within its band of the target share.
pub proof fn no_position_stays_oversized(w: Scene, l: Ledger, n: int, i: int)
    requires
        l.mv.len() == EQUITY,
        0 <= i < n <= EQUITY,
        0 <= slack(w, i),
    ensures
        ({
            let v = positions_capped(w, l, n).mv[i];
            let nav = nav_of(w.portfolio);
            v <= times(nav, w.settings.position_trim_trigger_pct) || v - times(
                nav,
                w.settings.position_trim_target_pct,
            ) <= slack(w, i)
        }),
    decreases n,
{
    caps_conserve(w, l, n - 1);
    if i < n - 1 {
        no_position_stays_oversized(w, l, n - 1, i);
    }
}

/// What a relief takes from the candidates in all.
pub open spec fn taken(c: Seq<Candidate>, excess: int) -> int
    decreases c.len(),
{
    if c.len() == 0 || excess <= 0 {
        0
    } else {
        let take = min(c[0].first as int, excess);
        take + taken(c.drop_first(), excess - take)
    }
}

proof fn value_of_lines_updated(mv: Seq<int>, lines: Seq<int>, i: int, x: int)
    requires
        in_book_order(lines, mv.len() as int),
        0 <= i < mv.len(),
    ensures
        value_of_lines(mv.update(i, x), lines) == value_of_lines(mv, lines) + if lines.contains(i) {
            x - mv[i]
        } else {
            0
        },
    decreases lines.len(),
{
    if lines.len() > 0 {
        let front = lines.drop_last();
        let last = lines[lines.len() - 1];
        assert forall|k: int| 0 <= k < front.len() implies 0 <= #[trigger] front[k] < mv.len() by {
            assert(front[k] == lines[k]);
        }
        assert forall|j: int, k: int| 0 <= j < k < front.len() implies #[trigger] front[j]
            < #[trigger] front[k] by {
            assert(lines[j] < lines[k]);
        }
        value_of_lines_updated(mv, front, i, x);
        assert(0 <= last < mv.len());
        if front.contains(i) {
            let k = choose|k: int| 0 <= k < front.len() && front[k] == i;
            assert(lines[k] < lines[lines.len() - 1]);
            assert(lines[k] == i);
        }
        if lines.contains(i) {
            let k = choose|k: int| 0 <= k < lines.len() && lines[k] == i;
            if k < front.len() {
                assert(front[k] == i);
            }
        }
        if last == i {
            assert(lines.contains(i));
        }
    }
}

/// What a relief does: it takes the excess, or all that the candidates may give;
/// no candidate gives more than it may; and nothing else changes.
/// What selling in order comes to.
pub proof fn relief_facts(l: Ledger, c: Seq<Candidate>, lines: Seq<int>, excess: int, reason: Seq<char>)
    requires
        l.mv.len() == EQUITY,
        in_book_order(lines, EQUITY as int),
        sellable(l, c),
        forall|k: int| 0 <= k < c.len() ==> lines.contains((#[trigger] c[k]).index as int),
    ensures
        ({
            let r = relieved(l, c, excess, reason);
            &&& r.mv.len() == EQUITY
            &&& value_of_lines(r.mv, lines) == value_of_lines(l.mv, lines) - taken(c, excess)
            &&& excess >= 0 ==> 0 <= taken(c, excess) <= excess
            &&& excess >= 0 && taken(c, excess) < excess ==> forall|k: int|
                0 <= k < c.len() ==> r.mv[(#[trigger] c[k]).index as int] == l.mv[c[k].index as int]
                    - c[k].first
            &&& forall|k: int|
                0 <= k < c.len() ==> l.mv[(#[trigger] c[k]).index as int] - c[k].first
                    <= r.mv[c[k].index as int] <= l.mv[c[k].index as int]
            &&& forall|i: int|
                0 <= i < EQUITY && (forall|k: int| 0 <= k < c.len() ==> (#[trigger] c[k]).index != i)
                    ==> #[trigger] r.mv[i] == l.mv[i]
        }),
    decreases c.len(),
{
    let r = relieved(l, c, excess, reason);
    if c.len() > 0 && excess > 0 {
        let i = c[0].index as int;
        let take = min(c[0].first as int, excess);
        let next = booked(l, table()[i].ticker@, i, take, reason);
        let rest = c.drop_first();
        assert(lines.contains(c[0].index as int));
        value_of_lines_updated(l.mv, lines, i, l.mv[i] - take);
        assert forall|k: int| 0 <= k < rest.len() implies (#[trigger] rest[k]).index < EQUITY && 0
            < rest[k].first <= next.mv[rest[k].index as int] && rest[k].index != i by {
            assert(rest[k] == c[k + 1]);
            assert(c[0].index != c[k + 1].index);
        }
        assert forall|j: int, k: int| 0 <= j < k < rest.len() implies (#[trigger] rest[j]).index != (
        #[trigger] rest[k]).index by {
            assert(rest[j] == c[j + 1] && rest[k] == c[k + 1]);
        }
        assert forall|k: int| 0 <= k < rest.len() implies lines.contains(
            (#[trigger] rest[k]).index as int,
        ) by {
            assert(rest[k] == c[k + 1]);
        }
        relief_facts(next, rest, lines, excess - take, reason);
        assert(r.mv[i] == next.mv[i]);
        assert forall|k: int| 0 <= k < c.len() implies l.mv[(#[trigger] c[k]).index as int] - c[k].first
            <= r.mv[c[k].index as int] <= l.mv[c[k].index as int] by {
            if k > 0 {
                assert(rest[k - 1] == c[k]);
            }
        }
        if taken(c, excess) < excess {
            assert forall|k: int| 0 <= k < c.len() implies r.mv[(#[trigger] c[k]).index as int]
                == l.mv[c[k].index as int] - c[k].first by {
                if k > 0 {
                    assert(rest[k - 1] == c[k]);
                }
            }
        }
        assert forall|j: int|
            0 <= j < EQUITY && (forall|k: int| 0 <= k < c.len() ==> (#[trigger] c[k]).index != j) implies #[trigger] r.mv[j]
            == l.mv[j] by {
            assert(c[0].index != j);
            assert forall|k: int| 0 <= k < rest.len() implies (#[trigger] rest[k]).index != j by {
                assert(rest[k] == c[k + 1]);
            }
        }
    }
}

/// Every member above its goal is a candidate.
pub proof fn overweight_is_complete(w: Scene, l: Ledger, lines: Seq<int>, j: int)
    requires
        scene_within_limits(w),
        sized(l, line_bound(), WIDE as int),
        in_book_order(lines, EQUITY as int),
        0 <= j < lines.len(),
        l.mv[lines[j]] > aim(w, lines[j]),
    ensures
        exists|k: int|
            0 <= k < overweight(w, l, lines).len() && (#[trigger] overweight(w, l, lines)[k]).index
                == lines[j] && overweight(w, l, lines)[k].first == l.mv[lines[j]] - aim(w, lines[j]),
    decreases lines.len(),
{
    let front = lines.drop_last();
    let all = overweight(w, l, lines);
    let i = lines[lines.len() - 1];
    goal_range(w.portfolio, w.settings, i);
    assert(within(l.mv[i], line_bound()));
    if j == lines.len() - 1 {
        assert(all[all.len() - 1].index == i);
    } else {
        assert forall|k: int| 0 <= k < front.len() implies 0 <= #[trigger] front[k] < EQUITY by {
            assert(front[k] == lines[k]);
        }
        assert forall|a: int, b: int| 0 <= a < b < front.len() implies #[trigger] front[a]
            < #[trigger] front[b] by {
            assert(lines[a] < lines[b]);
        }
        assert(front[j] == lines[j]);
        overweight_is_complete(w, l, front, j);
        let before = overweight(w, l, front);
        let k = choose|k: int|
            0 <= k < before.len() && (#[trigger] before[k]).index == front[j] && before[k].first
                == l.mv[front[j]] - aim(w, front[j]);
        assert(all[k] == before[k]);
    }
}

/// A cap brings its group down to the limit, or every member down to its own
/// goal; it sells no member below its goal, sells nothing of a member that is not
/// above it, and touches nothing outside the group.
pub proof fn a_cap_relieves_its_group(w: Scene, l: Ledger, lines: Seq<int>, limit: int, reason: Seq<char>)
    requires
        scene_within_limits(w),
        sized(l, line_bound(), WIDE as int),
        in_book_order(lines, EQUITY as int),
    ensures
        ({
            let r = group_relieved(w, l, lines, limit, reason);
            &&& value_of_lines(r.mv, lines) <= limit || forall|k: int|
                0 <= k < lines.len() ==> r.mv[#[trigger] lines[k]] <= aim(w, lines[k])
            &&& forall|i: int|
                0 <= i < EQUITY ==> min(l.mv[i], aim(w, i)) <= #[trigger] r.mv[i] <= l.mv[i]
            &&& forall|i: int|
                0 <= i < EQUITY && !lines.contains(i) ==> #[trigger] r.mv[i] == l.mv[i]
        }),
{
    let r = group_relieved(w, l, lines, limit, reason);
    let value = value_of_lines(l.mv, lines);
    if value > limit {
        let found = overweight(w, l, lines);
        let c = ranked(found);
        overweight_facts(w, l, lines);
        ranked_sellable(l, found);
        assert forall|k: int| 0 <= k < c.len() implies lines.contains((#[trigger] c[k]).index as int)
            && c[k].first == l.mv[c[k].index as int] - aim(w, c[k].index as int) by {
            let m = ranked_member(found, k);
            let j = choose|j: int|
                0 <= j < lines.len() && lines[j] == found[m].index && found[m].first == l.mv[lines[j]] - aim(
                    w,
                    lines[j],
                );
            assert(lines[j] == c[k].index);
        }
        relief_facts(l, c, lines, value - limit, reason);
        assert forall|i: int| 0 <= i < EQUITY implies min(l.mv[i], aim(w, i)) <= #[trigger] r.mv[i]
            <= l.mv[i] by {
            if exists|k: int| 0 <= k < c.len() && (#[trigger] c[k]).index == i {
                let k = choose|k: int| 0 <= k < c.len() && (#[trigger] c[k]).index == i;
                assert(l.mv[c[k].index as int] - c[k].first <= r.mv[c[k].index as int]);
            }
        }
        assert forall|i: int| 0 <= i < EQUITY && !lines.contains(i) implies #[trigger] r.mv[i] == l.mv[i] by {
            assert forall|k: int| 0 <= k < c.len() implies (#[trigger] c[k]).index != i by {
                assert(lines.contains(c[k].index as int));
            }
        }
        if value_of_lines(r.mv, lines) > limit {
            assert(taken(c, value - limit) < value - limit);
            assert forall|k: int| 0 <= k < lines.len() implies r.mv[#[trigger] lines[k]] <= aim(
                w,
                lines[k],
            ) by {
                if l.mv[lines[k]] > aim(w, lines[k]) {
                    overweight_is_complete(w, l, lines, k);
                    let a = choose|a: int|
                        0 <= a < found.len() && (#[trigger] found[a]).index == lines[k]
                            && found[a].first == l.mv[lines[k]] - aim(w, lines[k]);
                    ranked_has(found, a);
                    let b = choose|b: int| 0 <= b < c.len() && #[trigger] c[b] == found[a];
                    assert(r.mv[c[b].index as int] == l.mv[c[b].index as int] - c[b].first);
                } else {
                    assert(0 <= lines[k] < EQUITY);
                }
            }
        }
    }
}

/// Every candidate stands in the ranking.
pub proof fn ranked_has(s: Seq<Candidate>, a: int)
    requires
        0 <= a < s.len(),
    ensures
        exists|b: int| 0 <= b < ranked(s).len() && #[trigger] ranked(s)[b] == s[a],
{
    broadcast use vstd::seq_lib::group_to_multiset_ensures;

    ranking_is_an_ordered_permutation(s);
    assert(s.contains(s[a]));
    assert(s.to_multiset().contains(s[a]));
    assert(ranked(s).to_multiset().contains(s[a]));
    assert(ranked(s).contains(s[a]));
}

/// A group none of whose members stands above its own goal is left alone, however
/// much of the account it is: a cap bounds drift and does not override the targets.
pub proof fn a_group_at_its_goals_is_left_alone(
    w: Scene,
    l: Ledger,
    lines: Seq<int>,
    limit: int,
    reason: Seq<char>,
)
    requires
        forall|k: int| 0 <= k < lines.len() ==> l.mv[#[trigger] lines[k]] <= aim(w, lines[k]),
    ensures
        group_relieved(w, l, lines, limit, reason) == l,
{
    nothing_overweight(w, l, lines);
    assert(ranked(overweight(w, l, lines)).len() == 0);
}

/// A book none of whose lines stands above its own goal is left alone by both caps,
/// however concentrated it is by design.
pub proof fn a_book_at_its_goals_is_left_alone(w: Scene, l: Ledger, n: int, m: int)
    requires
        0 <= n <= cluster_names(EQUITY as int).len(),
        0 <= m <= theme_names(EQUITY as int).len(),
        forall|i: int| 0 <= i < EQUITY ==> #[trigger] l.mv[i] <= aim(w, i),
    ensures
        clusters_relieved(w, l, n) == l,
        themes_relieved(w, l, m) == l,
    decreases n + m,
{
    if n > 0 {
        a_book_at_its_goals_is_left_alone(w, l, n - 1, m);
        let c = cluster_names(EQUITY as int)[n - 1];
        let lines = cluster_lines(c, EQUITY as int);
        cluster_lines_in_order(c, EQUITY as int);
        assert forall|k: int| 0 <= k < lines.len() implies l.mv[#[trigger] lines[k]] <= aim(w, lines[k]) by {
            assert(0 <= lines[k] < EQUITY);
        }
        a_group_at_its_goals_is_left_alone(
            w,
            l,
            lines,
            times(nav_of(w.portfolio), w.settings.cluster_cap_pct),
            cluster_reason(w, c, value_of_lines(l.mv, lines)),
        );
    }
    if m > 0 {
        a_book_at_its_goals_is_left_alone(w, l, n, m - 1);
        let t = theme_names(EQUITY as int)[m - 1];
        let lines = theme_lines(t, EQUITY as int);
        theme_lines_in_order(t, EQUITY as int);
        assert forall|k: int| 0 <= k < lines.len() implies l.mv[#[trigger] lines[k]] <= aim(w, lines[k]) by {
            assert(0 <= lines[k] < EQUITY);
        }
        let target = weight_of_lines(lines, w.settings.cash_buffer_pct);
        a_group_at_its_goals_is_left_alone(
            w,
            l,
            lines,
            times(nav_of(w.portfolio), target + w.settings.theme_drift_band_pct),
            theme_reason(w, t, value_of_lines(l.mv, lines), target),
        );
    }
}

proof fn nothing_overweight(w: Scene, l: Ledger, lines: Seq<int>)
    requires
        forall|k: int| 0 <= k < lines.len() ==> l.mv[#[trigger] lines[k]] <= aim(w, lines[k]),
    ensures
        overweight(w, l, lines).len() == 0,
    decreases lines.len(),
{
    if lines.len() > 0 {
        let front = lines.drop_last();
        assert forall|k: int| 0 <= k < front.len() implies l.mv[#[trigger] front[k]] <= aim(w, front[k]) by {
            assert(front[k] == lines[k]);
        }
        nothing_overweight(w, l, front);
        assert(l.mv[lines[lines.len() - 1]] <= aim(w, lines[lines.len() - 1]));
    }
}

// ── the sizes of a ledger, and the laws of a whole plan ────────────────────

proof fn opening_sized(w: Scene)
    requires
        scene_within_limits(w),
    ensures
        sized(opening(w), early_bound(0), early_bound(0)),
{
    let l = opening(w);
    assert forall|i: int| 0 <= i < EQUITY implies within(#[trigger] l.mv[i], early_bound(0)) by {
        crate::portfolio::state::held_is_a_holding(w.portfolio, table()[i].ticker@);
    }
}

/// The profit-takes keep the ledger within bounds.
pub proof fn profits_sized(w: Scene, n: int)
    requires
        scene_within_limits(w),
        0 <= n <= w.portfolio.holdings.len(),
    ensures
        sized(profits_taken(w, n), early_bound(n), early_bound(n)),
    decreases n,
{
    if n > 0 {
        profits_sized(w, n - 1);
        assert(crate::portfolio::state::holding_within_limits(w.portfolio.holdings[n - 1]));
        profit_taken_sized(w, profits_taken(w, n - 1), w.portfolio.holdings[n - 1], n - 1);
    } else {
        opening_sized(w);
    }
}

/// The position cap keeps the ledger within bounds.
pub proof fn caps_sized(w: Scene, l: Ledger, n: int)
    requires
        scene_within_limits(w),
        sized(l, line_bound(), capped_bound(0)),
        0 <= n <= EQUITY,
    ensures
        sized(positions_capped(w, l, n), line_bound(), capped_bound(n)),
    decreases n,
{
    if n > 0 {
        caps_sized(w, l, n - 1);
        let m = positions_capped(w, l, n - 1);
        let i = n - 1;
        let dest = times(nav_of(w.portfolio), w.settings.position_trim_target_pct);
        goal_range(w.portfolio, w.settings, i);
        times_bound(
            nav_of(w.portfolio),
            w.settings.position_trim_target_pct,
            LIMIT as int,
            1_000,
        );
        assert(within(m.mv[i], line_bound()));
        booked_sized(
            m,
            table()[i].ticker@,
            i,
            m.mv[i] - dest,
            crate::rebalance::rules::position_reason(w, m.mv[i]),
            line_bound(),
            capped_bound(n - 1),
            40_000 * LIMIT,
        );
        sized_weaker(m, line_bound(), capped_bound(n - 1), line_bound(), capped_bound(n));
    }
}

proof fn relief_sized(l: Ledger, c: Seq<Candidate>, excess: int, reason: Seq<char>, b: int)
    requires
        sized(l, line_bound(), b),
        0 <= b,
        sellable(l, c),
    ensures
        sized(relieved(l, c, excess, reason), line_bound(), b + LIMIT * (20_000 * c.len())),
    decreases c.len(),
{
    if c.len() > 0 && excess > 0 {
        let i = c[0].index as int;
        let take = min(c[0].first as int, excess);
        relief_step(l, c, take, reason, line_bound(), b);
        relief_sized(
            booked(l, table()[i].ticker@, i, take, reason),
            c.drop_first(),
            excess - take,
            reason,
            b + line_bound(),
        );
    } else {
        sized_weaker(l, line_bound(), b, line_bound(), b + LIMIT * (20_000 * c.len()));
    }
}

proof fn group_sized(w: Scene, l: Ledger, lines: Seq<int>, limit: int, reason: Seq<char>, n: int)
    requires
        scene_within_limits(w),
        0 <= n < 64,
        sized(l, line_bound(), relief_bound(n)),
        in_book_order(lines, EQUITY as int),
    ensures
        sized(group_relieved(w, l, lines, limit, reason), line_bound(), relief_bound(n + 1)),
{
    let value = value_of_lines(l.mv, lines);
    sized_weaker(l, line_bound(), relief_bound(n), line_bound(), WIDE as int);
    sized_weaker(l, line_bound(), relief_bound(n), line_bound(), relief_bound(n + 1));
    if value > limit {
        let c = overweight(w, l, lines);
        overweight_facts(w, l, lines);
        ranked_sellable(l, c);
        relief_sized(l, ranked(c), value - limit, reason, relief_bound(n));
        sized_weaker(
            group_relieved(w, l, lines, limit, reason),
            line_bound(),
            relief_bound(n) + LIMIT * (20_000 * ranked(c).len()),
            line_bound(),
            relief_bound(n + 1),
        );
    }
}

/// The cluster cap keeps the ledger within bounds.
pub proof fn clusters_sized(w: Scene, l: Ledger, n: int)
    requires
        scene_within_limits(w),
        0 <= n <= 16,
        sized(l, line_bound(), relief_bound(0)),
    ensures
        sized(clusters_relieved(w, l, n), line_bound(), relief_bound(n)),
    decreases n,
{
    if n > 0 {
        clusters_sized(w, l, n - 1);
        let m = clusters_relieved(w, l, n - 1);
        let c = cluster_names(EQUITY as int)[n - 1];
        let lines = cluster_lines(c, EQUITY as int);
        crate::portfolio::targets::cluster_lines_in_order(c, EQUITY as int);
        group_sized(
            w,
            m,
            lines,
            times(nav_of(w.portfolio), w.settings.cluster_cap_pct),
            crate::rebalance::rules::cluster_reason(w, c, value_of_lines(m.mv, lines)),
            n - 1,
        );
    }
}

/// The theme cap keeps the ledger within bounds.
pub proof fn themes_sized(w: Scene, l: Ledger, n: int)
    requires
        scene_within_limits(w),
        0 <= n <= 16,
        sized(l, line_bound(), relief_bound(16)),
    ensures
        sized(themes_relieved(w, l, n), line_bound(), relief_bound(16 + n)),
    decreases n,
{
    if n > 0 {
        themes_sized(w, l, n - 1);
        let m = themes_relieved(w, l, n - 1);
        let th = theme_names(EQUITY as int)[n - 1];
        let lines = crate::portfolio::targets::theme_lines(th, EQUITY as int);
        let target = crate::portfolio::targets::weight_of_lines(lines, w.settings.cash_buffer_pct);
        crate::portfolio::targets::theme_lines_in_order(th, EQUITY as int);
        group_sized(
            w,
            m,
            lines,
            times(nav_of(w.portfolio), target + w.settings.theme_drift_band_pct),
            crate::rebalance::rules::theme_reason(w, th, value_of_lines(m.mv, lines), target),
            16 + n - 1,
        );
    }
}

/// The ledger of a plan stays of a size that the rules can reckon with.
pub proof fn trimmed_ledger_is_sized(w: Scene)
    requires
        scene_within_limits(w),
    ensures
        sized(trimmed_ledger(w), line_bound(), WIDE as int),
{
    let n = w.portfolio.holdings.len() as int;
    let profits = profits_taken(w, n);
    profits_sized(w, n);
    sized_weaker(profits, early_bound(n), early_bound(n), line_bound(), capped_bound(0));
    let capped = positions_capped(w, profits, EQUITY as int);
    caps_sized(w, profits, EQUITY as int);
    cluster_names_count(EQUITY as int);
    let c = cluster_names(EQUITY as int).len() as int;
    let spread = clusters_relieved(w, capped, c);
    clusters_sized(w, capped, c);
    sized_weaker(spread, line_bound(), relief_bound(c), line_bound(), relief_bound(16));
    let t = theme_names(EQUITY as int).len() as int;
    themes_sized(w, spread, t);
    sized_weaker(trimmed_ledger(w), line_bound(), relief_bound(16 + t), line_bound(), WIDE as int);
}

/// Every buy of a plan is permitted: its name is not vetoed, has fallen far enough
/// or stands in a stressed cluster, and is bought by more than its band and never
/// past its goal.
pub proof fn buys_of_a_plan_are_permitted(w: Scene)
    requires
        scene_within_limits(w),
    ensures
        permitted_buys(w, trimmed_ledger(w), deployments(w, trimmed_ledger(w))),
{
    trimmed_ledger_is_sized(w);
    deployments_are_permitted(w, trimmed_ledger(w));
}

proof fn emitted_sized(w: Scene, trims: Seq<(Seq<char>, TrimView)>, n: int)
    requires
        trims_within(trims, WIDE as int),
        n <= trims.len(),
    ensures
        actions_within_limits(emitted(w, trims, n)),
    decreases n,
{
    if n > 0 {
        emitted_sized(w, trims, n - 1);
        assert(within(trims[n - 1].1.dollars, WIDE as int));
    }
}

proof fn moon_lines_sized(w: Scene, n: int)
    requires
        scene_within_limits(w),
    ensures
        actions_within_limits(moon_lines(w, n)),
    decreases n,
{
    if n > EQUITY {
        moon_lines_sized(w, n - 1);
        let t = table()[n - 1];
        let (before, own, all) = (moon_lines(w, n - 1), moon_line(w, t), moon_lines(w, n));
        if let Some(symbol) = symbol_of(t, w.settings) {
            held_is_a_holding(w.portfolio, symbol);
            if let Some(h) = held(w.portfolio, symbol) {
                times_bound(h.market_value, LEAPS_PT_TRIM as int, LIMIT as int, 1);
                times_bound(h.market_value, MICROCAP_PT_TRIM as int, LIMIT as int, 1);
            }
        }
        assert forall|k: int| 0 <= k < all.len() implies action_within_limits(#[trigger] all[k]) by {
            if k < before.len() {
                assert(all[k] == before[k]);
            } else {
                assert(all[k] == own[k - before.len()]);
            }
        }
    }
}

/// Every proposal of a plan is of a size that can be reckoned with.
pub proof fn a_plan_is_sized(w: Scene, deploy: bool)
    requires
        scene_within_limits(w),
    ensures
        actions_within_limits(plan(w, deploy)),
{
    let n = w.portfolio.holdings.len() as int;
    let l = trimmed_ledger(w);
    trimmed_ledger_is_sized(w);
    flags_are_advice(w, n);
    emitted_sized(w, l.trims, l.trims.len() as int);
    deployments_are_permitted(w, l);
    moon_lines_sized(w, INVESTED as int);
    let buys = deployments(w, l);
    assert forall|k: int| 0 <= k < buys.len() implies action_within_limits(#[trigger] buys[k]) by {
        let i = choose|i: int|
            #![trigger may_buy(w, l, i)]
            0 <= i < EQUITY && may_buy(w, l, i) && buys[k].ticker == table()[i].ticker@ && slack(w, i)
                < buys[k].dollars <= aim(w, i) - l.mv[i];
        goal_range(w.portfolio, w.settings, i);
        assert(within(l.mv[i], line_bound()));
    }
    let (flags, trims, moons) = (
        flagged(w, n),
        emitted(w, l.trims, l.trims.len() as int),
        moon_lines(w, INVESTED as int),
    );
    let middle = if deploy {
        buys
    } else {
        seq![]
    };
    let all = plan(w, deploy);
    assert forall|k: int| 0 <= k < all.len() implies action_within_limits(#[trigger] all[k]) by {
        if k < flags.len() {
            assert(all[k] == flags[k]);
        } else if k < flags.len() + trims.len() {
            assert(all[k] == trims[k - flags.len()]);
        } else if k < flags.len() + trims.len() + middle.len() {
            assert(all[k] == middle[k - flags.len() - trims.len()]);
        } else {
            assert(all[k] == moons[k - flags.len() - trims.len() - middle.len()]);
        }
    }
}

// ── the signal and the moonshot sleeve ─────────────────────────────────────

/// The label of a line of the moonshot sleeve.
pub open spec fn moonshot_label(ticker: Seq<char>) -> bool {
    exists|i: int| EQUITY <= i < INVESTED && #[trigger] table()[i].ticker@ == ticker
}

/// The proposals for the moonshot sleeve, in order.
pub open spec fn on_moonshots(s: Seq<ActionView>) -> Seq<ActionView>
    decreases s.len(),
{
    if s.len() == 0 {
        seq![]
    } else if moonshot_label(s.last().ticker) {
        on_moonshots(s.drop_last()).push(s.last())
    } else {
        on_moonshots(s.drop_last())
    }
}

/// No holding goes by the label of a moonshot line: a call is held under its own
/// symbol, a micro-cap under the ticker that fills its slot.
pub open spec fn labels_not_held(w: Scene) -> bool {
    forall|i: int| 0 <= i < w.portfolio.holdings.len() ==> !moonshot_label((#[trigger] w.portfolio.holdings[i]).ticker)
}

/// No proposal is for the moonshot sleeve.
pub open spec fn off_moonshots(s: Seq<ActionView>) -> bool {
    forall|k: int| 0 <= k < s.len() ==> !moonshot_label((#[trigger] s[k]).ticker)
}

/// No trim is of the moonshot sleeve.
pub open spec fn trims_off_moonshots(trims: Seq<(Seq<char>, TrimView)>) -> bool {
    forall|k: int| 0 <= k < trims.len() ==> !moonshot_label((#[trigger] trims[k]).0)
}

proof fn on_moonshots_of_sum(a: Seq<ActionView>, b: Seq<ActionView>)
    ensures
        on_moonshots(a + b) == on_moonshots(a) + on_moonshots(b),
    decreases b.len(),
{
    if b.len() == 0 {
        assert(a + b =~= a);
        assert(on_moonshots(a) + on_moonshots(b) =~= on_moonshots(a));
    } else {
        assert((a + b).drop_last() =~= a + b.drop_last());
        assert((a + b).last() == b.last());
        on_moonshots_of_sum(a, b.drop_last());
        assert(on_moonshots(a) + on_moonshots(b.drop_last()).push(b.last()) =~= (on_moonshots(a)
            + on_moonshots(b.drop_last())).push(b.last()));
    }
}

proof fn on_moonshots_of_others(s: Seq<ActionView>)
    requires
        off_moonshots(s),
    ensures
        on_moonshots(s) == Seq::<ActionView>::empty(),
    decreases s.len(),
{
    if s.len() > 0 {
        let front = s.drop_last();
        assert forall|k: int| 0 <= k < front.len() implies !moonshot_label((#[trigger] front[k]).ticker) by {
            assert(front[k] == s[k]);
        }
        on_moonshots_of_others(front);
        assert(!moonshot_label(s[s.len() - 1].ticker));
    }
}

proof fn on_moonshots_keeps(s: Seq<ActionView>)
    requires
        forall|k: int| 0 <= k < s.len() ==> moonshot_label((#[trigger] s[k]).ticker),
    ensures
        on_moonshots(s) == s,
    decreases s.len(),
{
    if s.len() > 0 {
        let front = s.drop_last();
        assert forall|k: int| 0 <= k < front.len() implies moonshot_label((#[trigger] front[k]).ticker) by {
            assert(front[k] == s[k]);
        }
        on_moonshots_keeps(front);
        assert(moonshot_label(s[s.len() - 1].ticker));
        assert(front.push(s.last()) =~= s);
    } else {
        assert(s =~= seq![]);
    }
}

/// No equity line goes by the label of a moonshot line.
pub proof fn equity_labels_are_no_moonshots()
    ensures
        forall|i: int| 0 <= i < EQUITY ==> !moonshot_label(#[trigger] table()[i].ticker@),
{
    labels_are_distinct();
}

proof fn reviews_off_moonshots(w: Scene, n: int)
    requires
        labels_not_held(w),
        n <= w.portfolio.holdings.len(),
    ensures
        off_moonshots(reviews(w, n)),
    decreases n,
{
    if n > 0 {
        reviews_off_moonshots(w, n - 1);
        assert(!moonshot_label(w.portfolio.holdings[n - 1].ticker));
    }
}

proof fn flags_off_moonshots(w: Scene, n: int)
    requires
        labels_not_held(w),
        n <= w.portfolio.holdings.len(),
    ensures
        off_moonshots(flagged(w, n)),
    decreases n,
{
    if n > 0 {
        flags_off_moonshots(w, n - 1);
        assert(!moonshot_label(w.portfolio.holdings[n - 1].ticker));
    } else {
        reviews_off_moonshots(w, w.portfolio.holdings.len() as int);
    }
}

proof fn inserted_off_moonshots(s: Seq<(Seq<char>, TrimView)>, k: Seq<char>, v: TrimView)
    requires
        trims_off_moonshots(s),
        !moonshot_label(k),
    ensures
        trims_off_moonshots(inserted(s, k, v)),
{
    let t = inserted(s, k, v);
    assert forall|i: int| 0 <= i < t.len() implies !moonshot_label((#[trigger] t[i]).0) by {
        inserted_entry(s, k, v, i);
    }
}

proof fn profits_off_moonshots(w: Scene, n: int)
    requires
        labels_not_held(w),
        n <= w.portfolio.holdings.len(),
    ensures
        trims_off_moonshots(profits_taken(w, n).trims),
    decreases n,
{
    if n > 0 {
        profits_off_moonshots(w, n - 1);
        let l = profits_taken(w, n - 1);
        let h = w.portfolio.holdings[n - 1];
        assert(!moonshot_label(h.ticker));
        assert forall|v: TrimView| trims_off_moonshots(#[trigger] inserted(l.trims, h.ticker, v)) by {
            inserted_off_moonshots(l.trims, h.ticker, v);
        }
    }
}

proof fn caps_off_moonshots(w: Scene, l: Ledger, n: int)
    requires
        trims_off_moonshots(l.trims),
        n <= EQUITY,
    ensures
        trims_off_moonshots(positions_capped(w, l, n).trims),
    decreases n,
{
    if n > 0 {
        caps_off_moonshots(w, l, n - 1);
        equity_labels_are_no_moonshots();
        let m = positions_capped(w, l, n - 1);
        let ticker = table()[n - 1].ticker@;
        assert forall|v: TrimView| trims_off_moonshots(#[trigger] inserted(m.trims, ticker, v)) by {
            inserted_off_moonshots(m.trims, ticker, v);
        }
    }
}

proof fn overweight_in_equity(w: Scene, l: Ledger, lines: Seq<int>)
    requires
        forall|k: int| 0 <= k < lines.len() ==> 0 <= #[trigger] lines[k] < EQUITY,
    ensures
        forall|k: int| 0 <= k < overweight(w, l, lines).len() ==> (#[trigger] overweight(w, l, lines)[k]).index < EQUITY,
    decreases lines.len(),
{
    if lines.len() > 0 {
        let front = lines.drop_last();
        assert forall|k: int| 0 <= k < front.len() implies 0 <= #[trigger] front[k] < EQUITY by {
            assert(front[k] == lines[k]);
        }
        overweight_in_equity(w, l, front);
        assert(0 <= lines[lines.len() - 1] < EQUITY);
        let (before, all) = (overweight(w, l, front), overweight(w, l, lines));
        assert forall|k: int| 0 <= k < all.len() implies (#[trigger] all[k]).index < EQUITY by {
            if k < before.len() {
                assert(all[k] == before[k]);
            }
        }
    }
}

proof fn relief_off_moonshots(l: Ledger, c: Seq<Candidate>, excess: int, reason: Seq<char>)
    requires
        trims_off_moonshots(l.trims),
        forall|k: int| 0 <= k < c.len() ==> (#[trigger] c[k]).index < EQUITY,
    ensures
        trims_off_moonshots(relieved(l, c, excess, reason).trims),
    decreases c.len(),
{
    if c.len() > 0 && excess > 0 {
        equity_labels_are_no_moonshots();
        let i = c[0].index as int;
        let take = min(c[0].first as int, excess);
        let next = booked(l, table()[i].ticker@, i, take, reason);
        assert(!moonshot_label(table()[i].ticker@));
        assert forall|v: TrimView| trims_off_moonshots(#[trigger] inserted(l.trims, table()[i].ticker@, v)) by {
            inserted_off_moonshots(l.trims, table()[i].ticker@, v);
        }
        let rest = c.drop_first();
        assert forall|k: int| 0 <= k < rest.len() implies (#[trigger] rest[k]).index < EQUITY by {
            assert(rest[k] == c[k + 1]);
        }
        relief_off_moonshots(next, rest, excess - take, reason);
    }
}

proof fn group_off_moonshots(w: Scene, l: Ledger, lines: Seq<int>, limit: int, reason: Seq<char>)
    requires
        trims_off_moonshots(l.trims),
        in_book_order(lines, EQUITY as int),
    ensures
        trims_off_moonshots(group_relieved(w, l, lines, limit, reason).trims),
{
    let c = overweight(w, l, lines);
    overweight_in_equity(w, l, lines);
    ranking_is_an_ordered_permutation(c);
    let r = ranked(c);
    assert forall|k: int| 0 <= k < r.len() implies (#[trigger] r[k]).index < EQUITY by {
        let j = ranked_member(c, k);
        assert(c[j] == r[k]);
    }
    relief_off_moonshots(l, r, value_of_lines(l.mv, lines) - limit, reason);
}

proof fn clusters_off_moonshots(w: Scene, l: Ledger, n: int)
    requires
        trims_off_moonshots(l.trims),
    ensures
        trims_off_moonshots(clusters_relieved(w, l, n).trims),
    decreases n,
{
    if n > 0 {
        clusters_off_moonshots(w, l, n - 1);
        let m = clusters_relieved(w, l, n - 1);
        let cluster = cluster_names(EQUITY as int)[n - 1];
        let lines = cluster_lines(cluster, EQUITY as int);
        cluster_lines_in_order(cluster, EQUITY as int);
        group_off_moonshots(
            w,
            m,
            lines,
            times(nav_of(w.portfolio), w.settings.cluster_cap_pct),
            cluster_reason(w, cluster, value_of_lines(m.mv, lines)),
        );
    }
}

proof fn themes_off_moonshots(w: Scene, l: Ledger, n: int)
    requires
        trims_off_moonshots(l.trims),
    ensures
        trims_off_moonshots(themes_relieved(w, l, n).trims),
    decreases n,
{
    if n > 0 {
        themes_off_moonshots(w, l, n - 1);
        let m = themes_relieved(w, l, n - 1);
        let theme = theme_names(EQUITY as int)[n - 1];
        let lines = theme_lines(theme, EQUITY as int);
        theme_lines_in_order(theme, EQUITY as int);
        let target = weight_of_lines(lines, w.settings.cash_buffer_pct);
        group_off_moonshots(
            w,
            m,
            lines,
            times(nav_of(w.portfolio), target + w.settings.theme_drift_band_pct),
            theme_reason(w, theme, value_of_lines(m.mv, lines), target),
        );
    }
}

proof fn emitted_off_moonshots(w: Scene, trims: Seq<(Seq<char>, TrimView)>, n: int)
    requires
        trims_off_moonshots(trims),
        n <= trims.len(),
    ensures
        off_moonshots(emitted(w, trims, n)),
    decreases n,
{
    if n > 0 {
        emitted_off_moonshots(w, trims, n - 1);
        assert(!moonshot_label(trims[n - 1].0));
    }
}

proof fn bought_off_moonshots(w: Scene, c: Seq<Candidate>, cash: int, least: int)
    requires
        forall|k: int| 0 <= k < c.len() ==> (#[trigger] c[k]).index < EQUITY,
    ensures
        off_moonshots(bought(w, c, cash, least)),
    decreases c.len(),
{
    if c.len() > 0 && cash > least {
        equity_labels_are_no_moonshots();
        let i = c[0].index as int;
        let take = min(-c[0].second as int, cash);
        assert(!moonshot_label(table()[i].ticker@));
        let rest = c.drop_first();
        assert forall|k: int| 0 <= k < rest.len() implies (#[trigger] rest[k]).index < EQUITY by {
            assert(rest[k] == c[k + 1]);
        }
        bought_off_moonshots(w, rest, cash - take, least);
        bought_off_moonshots(w, rest, cash, least);
        if take > slack(w, i) {
            let whole = bought(w, c, cash, least);
            let tail = bought(w, rest, cash - take, least);
            assert forall|k: int| 0 <= k < whole.len() implies !moonshot_label((#[trigger] whole[k]).ticker) by {
                if k > 0 {
                    assert(whole[k] == tail[k - 1]);
                }
            }
        }
    }
}

proof fn eligible_in_equity(w: Scene, l: Ledger, n: int)
    requires
        n <= EQUITY,
    ensures
        forall|k: int| 0 <= k < eligible(w, l, n).len() ==> (#[trigger] eligible(w, l, n)[k]).index < EQUITY,
    decreases n,
{
    if n > 0 {
        eligible_in_equity(w, l, n - 1);
        let (before, all) = (eligible(w, l, n - 1), eligible(w, l, n));
        assert forall|k: int| 0 <= k < all.len() implies (#[trigger] all[k]).index < EQUITY by {
            if k < before.len() {
                assert(all[k] == before[k]);
            }
        }
    }
}

proof fn deployments_off_moonshots(w: Scene, l: Ledger)
    ensures
        off_moonshots(deployments(w, l)),
{
    let c = eligible(w, l, EQUITY as int);
    eligible_in_equity(w, l, EQUITY as int);
    ranking_is_an_ordered_permutation(c);
    let r = ranked(c);
    assert forall|k: int| 0 <= k < r.len() implies (#[trigger] r[k]).index < EQUITY by {
        let j = ranked_member(c, k);
        assert(c[j] == r[k]);
    }
    bought_off_moonshots(w, r, deployable(w, l), least_band(w, EQUITY as int));
}

/// The moonshot lifecycle names moonshot lines only.
pub proof fn moon_lines_on_moonshots(w: Scene, n: int)
    requires
        n <= INVESTED,
    ensures
        forall|k: int| 0 <= k < moon_lines(w, n).len() ==> moonshot_label((#[trigger] moon_lines(w, n)[k]).ticker),
    decreases n,
{
    if n > EQUITY {
        moon_lines_on_moonshots(w, n - 1);
        let t = table()[n - 1];
        assert(moonshot_label(t.ticker@));
        let before = moon_lines(w, n - 1);
        let own = moon_line(w, t);
        assert forall|k: int| 0 <= k < moon_lines(w, n).len() implies moonshot_label(
            (#[trigger] moon_lines(w, n)[k]).ticker,
        ) by {
            if k < before.len() {
                assert(moon_lines(w, n)[k] == before[k]);
            } else {
                assert(moon_lines(w, n)[k] == own[k - before.len()]);
                assert(own[k - before.len()].ticker == t.ticker@);
            }
        }
    }
}

/// What a plan proposes for the moonshot sleeve is its lifecycle and nothing else: no
/// other rule names one of its lines.
pub proof fn moonshots_follow_their_lifecycle(w: Scene, deploy: bool)
    requires
        labels_not_held(w),
    ensures
        on_moonshots(plan(w, deploy)) == moon_lines(w, INVESTED as int),
{
    let n = w.portfolio.holdings.len() as int;
    let l = trimmed_ledger(w);
    profits_off_moonshots(w, n);
    let capped = positions_capped(w, profits_taken(w, n), EQUITY as int);
    caps_off_moonshots(w, profits_taken(w, n), EQUITY as int);
    let spread = clusters_relieved(w, capped, cluster_names(EQUITY as int).len() as int);
    clusters_off_moonshots(w, capped, cluster_names(EQUITY as int).len() as int);
    themes_off_moonshots(w, spread, theme_names(EQUITY as int).len() as int);
    let flags = flagged(w, n);
    let trims = emitted(w, l.trims, l.trims.len() as int);
    let buys = if deploy {
        deployments(w, l)
    } else {
        seq![]
    };
    let moons = moon_lines(w, INVESTED as int);
    flags_off_moonshots(w, n);
    emitted_off_moonshots(w, l.trims, l.trims.len() as int);
    deployments_off_moonshots(w, l);
    moon_lines_on_moonshots(w, INVESTED as int);
    on_moonshots_of_sum(flags, trims);
    on_moonshots_of_sum(flags + trims, buys);
    on_moonshots_of_sum(flags + trims + buys, moons);
    on_moonshots_of_others(flags);
    on_moonshots_of_others(trims);
    on_moonshots_of_others(buys);
    on_moonshots_keeps(moons);
    assert(on_moonshots(plan(w, deploy)) =~= moons);
}

/// The signal never touches the moonshot sleeve: what a plan proposes for it is the
/// same list under any two signals.
pub proof fn the_signal_leaves_the_moonshots_alone(w: Scene, b: Bias, deploy: bool)
    requires
        labels_not_held(w),
    ensures
        on_moonshots(plan(under(w, b), deploy)) == on_moonshots(plan(w, deploy)),
{
    moonshots_follow_their_lifecycle(w, deploy);
    moonshots_follow_their_lifecycle(under(w, b), deploy);
    moon_rules_ignore_the_signal(w, b, INVESTED as int);
}

} // verus!
