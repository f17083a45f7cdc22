//! Which names a plan flags for review and which it does not, and what it owes to a
//! line of the moonshot sleeve.
use vstd::prelude::*;

use crate::alpaca_data::{occ_fields, occ_round_trip, third_friday_is_the_third_friday, third_friday_of};
use crate::calendar::{day_number, Ymd};
use crate::fixed::ONE;
use crate::order_laws::{first_held, held_from_first};
use crate::portfolio::book_laws::the_terms_of_a_call;
use crate::portfolio::state::{held, held_is_a_holding, HoldingView};
use crate::portfolio::targets::{
    labels_are_distinct, line_of, line_of_facts, symbol_of, table, Instrument, Target, Tier, COUNT, EQUITY, INVESTED,
};
use crate::ranking::ranked;
use crate::rebalance::laws::{
    deployments_are_buys, labels_not_held, moon_lines_on_moonshots, moonshot_label, moonshots_follow_their_lifecycle,
    on_moonshots,
};
use crate::rebalance::outcome::{nothing_sold, orderly, sold_in, sold_in_sum};
use crate::rebalance::promises::emitted_are_trims;
use crate::rebalance::rules::{
    deployable, deployments, eligible, emitted, flagged, least_band, listed_for_review, moon_line, moon_lines, moon_profit,
    needs_review, objections, plan, reviews, time_stop, trimmed_ledger, Scene,
};
use crate::rebalance::{ActionKind, ActionView};
use crate::str_map::lookup;
use crate::text::upper;

verus! {

// ── reviews ────────────────────────────────────────────────────────────────

/// How often a name is flagged for review.
pub open spec fn times_flagged(s: Seq<ActionView>, label: Seq<char>) -> int
    decreases s.len(),
{
    if s.len() == 0 {
        0
    } else if s.last().kind == ActionKind::ThesisRevalidate && s.last().ticker == label {
        times_flagged(s.drop_last(), label) + 1
    } else {
        times_flagged(s.drop_last(), label)
    }
}

proof fn times_flagged_sum(a: Seq<ActionView>, b: Seq<ActionView>, label: Seq<char>)
    ensures
        times_flagged(a + b, label) == times_flagged(a, label) + times_flagged(b, label),
    decreases b.len(),
{
    if b.len() == 0 {
        assert(a + b =~= a);
    } else {
        assert((a + b).drop_last() =~= a + b.drop_last());
        times_flagged_sum(a, b.drop_last(), label);
    }
}

proof fn never_flagged(s: Seq<ActionView>, label: Seq<char>)
    requires
        forall|k: int| 0 <= k < s.len() ==> (#[trigger] s[k]).kind != ActionKind::ThesisRevalidate || s[k].ticker != label,
    ensures
        times_flagged(s, label) == 0,
    decreases s.len(),
{
    if s.len() > 0 {
        let front = s.drop_last();
        assert forall|k: int| 0 <= k < front.len() implies (#[trigger] front[k]).kind != ActionKind::ThesisRevalidate
            || front[k].ticker != label by {
            assert(front[k] == s[k]);
        }
        never_flagged(front, label);
        assert(s[s.len() - 1].kind != ActionKind::ThesisRevalidate || s[s.len() - 1].ticker != label);
    }
}

proof fn flagged_is_listed(s: Seq<ActionView>, label: Seq<char>)
    ensures
        times_flagged(s, label) >= 0,
        listed_for_review(s, label) <==> times_flagged(s, label) > 0,
    decreases s.len(),
{
    if s.len() > 0 {
        let front = s.drop_last();
        flagged_is_listed(front, label);
        if listed_for_review(front, label) {
            let k = choose|k: int|
                0 <= k < front.len() && (#[trigger] front[k]).kind == ActionKind::ThesisRevalidate && front[k].ticker == label;
            assert(s[k] == front[k]);
        }
        if listed_for_review(s, label) {
            let k = choose|k: int|
                0 <= k < s.len() && (#[trigger] s[k]).kind == ActionKind::ThesisRevalidate && s[k].ticker == label;
            if k < front.len() {
                assert(front[k] == s[k]);
            }
        }
        if s.last().kind == ActionKind::ThesisRevalidate && s.last().ticker == label {
            assert(s[s.len() - 1].ticker == label);
        }
    }
}

/// A floor name that has lost a quarter of its cost or more.
pub open spec fn lost_a_quarter(w: Scene, k: int) -> bool {
    let h = w.portfolio.holdings[k];
    h.unrealized_plpc <= -250_000_000_000 && exists|i: int|
        0 <= i < COUNT && #[trigger] table()[i].ticker@ == h.ticker && table()[i].tier == Tier::Floor
}

/// The signal is on and holds something against a name: a reason not to buy it, or a
/// strongly bearish record.
pub open spec fn spoken_against(w: Scene, label: Seq<char>) -> bool {
    w.bias.enabled && (lookup(w.bias.buy_veto, label) is Some || w.bias.strong_bearish.contains(label))
}

proof fn a_loss_is_reviewed(w: Scene, k: int)
    requires
        orderly(w),
        0 <= k < w.portfolio.holdings.len(),
    ensures
        needs_review(w.portfolio.holdings[k]) <==> lost_a_quarter(w, k),
{
    let h = w.portfolio.holdings[k];
    line_of_facts(h.ticker);
    assert(upper(w.portfolio.holdings[k].ticker) == h.ticker);
    if lost_a_quarter(w, k) {
        let i = choose|i: int| 0 <= i < COUNT && #[trigger] table()[i].ticker@ == h.ticker && table()[i].tier == Tier::Floor;
        assert(line_of(table()[i].ticker@) == Some(i));
    }
    if needs_review(h) {
        if let Some(i) = line_of(h.ticker) {
            assert(table()[i].ticker@ == h.ticker && table()[i].tier == Tier::Floor);
        }
    }
}

proof fn reviews_count(w: Scene, n: int, k: int)
    requires
        orderly(w),
        0 <= n <= w.portfolio.holdings.len(),
        0 <= k < w.portfolio.holdings.len(),
    ensures
        times_flagged(reviews(w, n), w.portfolio.holdings[k].ticker) == if k < n && needs_review(w.portfolio.holdings[k]) {
            1int
        } else {
            0
        },
    decreases n,
{
    if n > 0 {
        reviews_count(w, n - 1, k);
        let (before, all) = (reviews(w, n - 1), reviews(w, n));
        if all.len() > before.len() {
            assert(all.drop_last() =~= before);
        }
        if k < n - 1 {
            assert(w.portfolio.holdings[k].ticker != w.portfolio.holdings[n - 1].ticker);
        } else if k > n - 1 {
            assert(w.portfolio.holdings[n - 1].ticker != w.portfolio.holdings[k].ticker);
        }
    }
}

proof fn flagged_count(w: Scene, n: int, k: int)
    requires
        orderly(w),
        0 <= n <= w.portfolio.holdings.len(),
        0 <= k < w.portfolio.holdings.len(),
    ensures
        times_flagged(flagged(w, n), w.portfolio.holdings[k].ticker) == if needs_review(w.portfolio.holdings[k]) || (k < n
            && spoken_against(w, w.portfolio.holdings[k].ticker)) {
            1int
        } else {
            0
        },
    decreases n,
{
    if n > 0 {
        flagged_count(w, n - 1, k);
        let (before, all) = (flagged(w, n - 1), flagged(w, n));
        let label = w.portfolio.holdings[k].ticker;
        flagged_is_listed(before, label);
        if all.len() > before.len() {
            assert(all.drop_last() =~= before);
        }
        if k < n - 1 {
            assert(w.portfolio.holdings[k].ticker != w.portfolio.holdings[n - 1].ticker);
        } else if k > n - 1 {
            assert(w.portfolio.holdings[n - 1].ticker != w.portfolio.holdings[k].ticker);
        } else {
            assert(objections(w.bias, label).len() == 0 <==> !spoken_against(w, label));
        }
    } else {
        reviews_count(w, w.portfolio.holdings.len() as int, k);
    }
}

proof fn plan_flags(w: Scene, deploy: bool, label: Seq<char>)
    ensures
        times_flagged(plan(w, deploy), label) == times_flagged(flagged(w, w.portfolio.holdings.len() as int), label)
            + times_flagged(moon_lines(w, INVESTED as int), label),
{
    let n = w.portfolio.holdings.len() as int;
    let l = trimmed_ledger(w);
    let flags = flagged(w, n);
    let trims = emitted(w, l.trims, l.trims.len() as int);
    let buys = if deploy {
        deployments(w, l)
    } else {
        seq![]
    };
    let moons = moon_lines(w, INVESTED as int);
    emitted_are_trims(w, l.trims, l.trims.len() as int);
    never_flagged(trims, label);
    deployments_are_buys(w, ranked(eligible(w, l, EQUITY as int)), deployable(w, l), least_band(w, EQUITY as int));
    never_flagged(buys, label);
    times_flagged_sum(flags, trims, label);
    times_flagged_sum(flags + trims, buys, label);
    times_flagged_sum(flags + trims + buys, moons, label);
}

/// A held name is flagged exactly once where there is a reason, however large its loss,
/// and not at all where there is none. The reasons are two: it is a floor name that has
/// lost a quarter of its cost or more, or the signal is on and speaks against it.
pub proof fn a_name_is_flagged_for_a_reason(w: Scene, deploy: bool, k: int)
    requires
        orderly(w),
        labels_not_held(w),
        0 <= k < w.portfolio.holdings.len(),
    ensures
        times_flagged(plan(w, deploy), w.portfolio.holdings[k].ticker) == if lost_a_quarter(w, k) || spoken_against(
            w,
            w.portfolio.holdings[k].ticker,
        ) {
            1int
        } else {
            0
        },
{
    let label = w.portfolio.holdings[k].ticker;
    flagged_count(w, w.portfolio.holdings.len() as int, k);
    a_loss_is_reviewed(w, k);
    plan_flags(w, deploy, label);
    moon_lines_on_moonshots(w, INVESTED as int);
    assert(!moonshot_label(w.portfolio.holdings[k].ticker));
    never_flagged(moon_lines(w, INVESTED as int), label);
}

// ── the moonshot sleeve ────────────────────────────────────────────────────

proof fn moonshots_only(s: Seq<ActionView>, label: Seq<char>)
    requires
        moonshot_label(label),
    ensures
        sold_in(on_moonshots(s), label) == sold_in(s, label),
        times_flagged(on_moonshots(s), label) == times_flagged(s, label),
    decreases s.len(),
{
    if s.len() > 0 {
        moonshots_only(s.drop_last(), label);
        let front = on_moonshots(s.drop_last());
        assert(front.push(s.last()).drop_last() =~= front);
    }
}

proof fn one_line_of_many(w: Scene, n: int, i: int)
    requires
        EQUITY <= i < INVESTED,
        n <= INVESTED,
    ensures
        sold_in(moon_lines(w, n), table()[i].ticker@) == if i < n {
            sold_in(moon_line(w, table()[i]), table()[i].ticker@)
        } else {
            0
        },
        times_flagged(moon_lines(w, n), table()[i].ticker@) == if i < n {
            times_flagged(moon_line(w, table()[i]), table()[i].ticker@)
        } else {
            0
        },
    decreases n,
{
    let label = table()[i].ticker@;
    if n > EQUITY {
        one_line_of_many(w, n - 1, i);
        let own = moon_line(w, table()[n - 1]);
        sold_in_sum(moon_lines(w, n - 1), own, label);
        times_flagged_sum(moon_lines(w, n - 1), own, label);
        labels_are_distinct();
        if n - 1 != i {
            assert(table()[n - 1].ticker@ != table()[i].ticker@);
            nothing_sold(own, label);
            never_flagged(own, label);
        }
    }
}

proof fn half_is_sold(t: Target, h: HoldingView)
    ensures
        sold_in(moon_profit(t, h), t.ticker@) == if h.market_value / 2 > ONE && h.unrealized_plpc >= (
        if t.instrument is Leaps {
            5_000_000_000_000int
        } else {
            9_000_000_000_000
        }) {
            h.market_value / 2
        } else {
            0
        },
{
    let profit = moon_profit(t, h);
    let n = h.market_value;
    assert(n * 500_000_000_000 / 1_000_000_000_000 == n / 2);
    if profit.len() > 0 {
        assert(profit.drop_last() =~= seq![]);
        assert(sold_in(profit.drop_last(), t.ticker@) == 0);
    }
}

proof fn stop_is_flagged(t: Target, symbol: Seq<char>, asof: Ymd, expiry: Ymd)
    requires
        occ_fields(symbol) matches Some(f) && f.1 == expiry,
    ensures
        times_flagged(time_stop(t, symbol, asof), t.ticker@) == if day_number(expiry) - day_number(asof) <= 60 {
            1int
        } else {
            0
        },
{
    let stop = time_stop(t, symbol, asof);
    if stop.len() > 0 {
        assert(stop.drop_last() =~= seq![]);
        assert(times_flagged(stop.drop_last(), t.ticker@) == 0);
    }
}

proof fn a_held_moonshot(w: Scene, i: int, symbol: Seq<char>, k: int)
    requires
        symbol_of(table()[i], w.settings) == Some(symbol),
        first_held(w.portfolio, symbol, k),
    ensures
        sold_in(moon_line(w, table()[i]), table()[i].ticker@) == sold_in(
            moon_profit(table()[i], w.portfolio.holdings[k]),
            table()[i].ticker@,
        ),
        times_flagged(moon_line(w, table()[i]), table()[i].ticker@) == if table()[i].instrument is Leaps {
            times_flagged(time_stop(table()[i], symbol, w.asof), table()[i].ticker@)
        } else {
            0
        },
{
    let t = table()[i];
    let h = w.portfolio.holdings[k];
    held_from_first(w.portfolio.holdings, upper(symbol), 0, k);
    let stop = if t.instrument is Leaps {
        time_stop(t, symbol, w.asof)
    } else {
        seq![]
    };
    let profit = moon_profit(t, h);
    assert(moon_line(w, t) == stop + profit);
    sold_in_sum(stop, profit, t.ticker@);
    nothing_sold(stop, t.ticker@);
    times_flagged_sum(stop, profit, t.ticker@);
    never_flagged(profit, t.ticker@);
}

/// A call or a micro-cap is sold by half exactly where its gain calls for it, however
/// large the gain: a call from five times its cost in profit on, a micro-cap from nine
/// times on, each where the half is more than a dollar.
pub proof fn a_moonshot_is_sold_by_half(w: Scene, deploy: bool, i: int, symbol: Seq<char>, k: int)
    requires
        labels_not_held(w),
        EQUITY <= i < INVESTED,
        symbol_of(table()[i], w.settings) == Some(symbol),
        first_held(w.portfolio, symbol, k),
    ensures
        ({
            let h = w.portfolio.holdings[k];
            let due = if table()[i].instrument is Leaps {
                h.unrealized_plpc >= 5_000_000_000_000
            } else {
                h.unrealized_plpc >= 9_000_000_000_000
            };
            sold_in(plan(w, deploy), table()[i].ticker@) == if due && h.market_value / 2 > ONE {
                h.market_value / 2
            } else {
                0
            }
        }),
{
    assert(moonshot_label(table()[i].ticker@));
    moonshots_follow_their_lifecycle(w, deploy);
    moonshots_only(plan(w, deploy), table()[i].ticker@);
    one_line_of_many(w, INVESTED as int, i);
    a_held_moonshot(w, i, symbol, k);
    half_is_sold(table()[i], w.portfolio.holdings[k]);
}

/// Nothing is proposed for a line of the moonshot sleeve that is not held.
pub proof fn an_absent_moonshot_is_left_alone(w: Scene, deploy: bool, i: int)
    requires
        labels_not_held(w),
        EQUITY <= i < INVESTED,
        symbol_of(table()[i], w.settings) matches Some(symbol) ==> forall|k: int|
            0 <= k < w.portfolio.holdings.len() ==> (#[trigger] w.portfolio.holdings[k]).ticker != upper(symbol),
    ensures
        sold_in(plan(w, deploy), table()[i].ticker@) == 0,
        times_flagged(plan(w, deploy), table()[i].ticker@) == 0,
{
    assert(moonshot_label(table()[i].ticker@));
    moonshots_follow_their_lifecycle(w, deploy);
    moonshots_only(plan(w, deploy), table()[i].ticker@);
    one_line_of_many(w, INVESTED as int, i);
    if let Some(symbol) = symbol_of(table()[i], w.settings) {
        held_is_a_holding(w.portfolio, symbol);
        if let Some(h) = held(w.portfolio, symbol) {
            let k = choose|k: int| 0 <= k < w.portfolio.holdings.len() && #[trigger] w.portfolio.holdings[k] == h;
            assert(w.portfolio.holdings[k].ticker != upper(symbol));
        }
    }
    assert(moon_line(w, table()[i]) =~= seq![]);
}

/// A call that is held is flagged exactly where its expiry, the third Friday of
/// January of its year, is sixty days away or less, or past; a micro-cap never is.
pub proof fn a_call_is_flagged_near_its_expiry(w: Scene, deploy: bool, i: int, symbol: Seq<char>, k: int)
    requires
        labels_not_held(w),
        EQUITY <= i < INVESTED,
        symbol_of(table()[i], w.settings) == Some(symbol),
        first_held(w.portfolio, symbol, k),
    ensures
        times_flagged(plan(w, deploy), table()[i].ticker@) == match table()[i].instrument {
            Instrument::Leaps { underlying, expiry_year, strike } => if day_number(third_friday_of(expiry_year as int, 1))
                - day_number(w.asof) <= 60 {
                1int
            } else {
                0
            },
            _ => 0,
        },
{
    assert(moonshot_label(table()[i].ticker@));
    moonshots_follow_their_lifecycle(w, deploy);
    moonshots_only(plan(w, deploy), table()[i].ticker@);
    one_line_of_many(w, INVESTED as int, i);
    a_held_moonshot(w, i, symbol, k);
    if let Instrument::Leaps { underlying, expiry_year, strike } = table()[i].instrument {
        the_terms_of_a_call(i);
        third_friday_is_the_third_friday(expiry_year as int, 1);
        occ_round_trip(underlying@, third_friday_of(expiry_year as int, 1), true, strike as int / 1_000_000_000);
        stop_is_flagged(table()[i], symbol, w.asof, third_friday_of(expiry_year as int, 1));
    }
}

} // verus!
