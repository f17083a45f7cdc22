//! What a cycle owes: which plan it follows, what its marks are, and what its digest
//! points out.
use vstd::prelude::*;

use crate::calendar::Ymd;
use crate::config::Settings;
use crate::fixed::{magnitude, within, LIMIT};
use crate::lifecycle::daily::{
    book_complete, cluster_parts, cycle_plan, drift_candidates, raised, ratcheted, top_drifts, RunMode,
};
use crate::portfolio::metrics::{metric_bounded, MetricView};
use crate::portfolio::state::{HoldingView, Portfolio};
use crate::portfolio::targets::{EQUITY, INVESTED};
use crate::ranking::{ahead, ranked, ranked_member, ranking_is_an_ordered_permutation};
use crate::rebalance::laws::ranked_has;
use crate::rebalance::phased_build::{line_filled, tranche};
use crate::rebalance::promises::{bought_in, bought_in_sum, plan_buys};
use crate::rebalance::rules::{plan, Scene};
use crate::rebalance::sizes::band;
use crate::rebalance::tranche_laws::missing;
use crate::str_map::{lookup, lookup_inserted};

verus! {

/// The book is complete exactly where no line that can be bought misses more of its
/// goal than its band, or anything at all where the band is negative.
pub proof fn a_complete_book_misses_nothing_beyond_its_bands(p: Portfolio, s: Settings)
    ensures
        book_complete(p, s) <==> forall|i: int|
            0 <= i < INVESTED ==> (#[trigger] missing(p, s, i) <= 0 || missing(p, s, i) <= band(p, s, i)),
{
    if book_complete(p, s) {
        assert forall|i: int| 0 <= i < INVESTED implies (#[trigger] missing(p, s, i) <= 0 || missing(p, s, i) <= band(p, s, i)) by {
            assert(line_filled(p, s, i));
        }
    }
    if forall|i: int|
        0 <= i < INVESTED ==> (#[trigger] missing(p, s, i) <= 0 || missing(p, s, i) <= band(p, s, i)) {
        assert forall|i: int| 0 <= i < INVESTED implies #[trigger] line_filled(p, s, i) by {
            assert(missing(p, s, i) <= 0 || missing(p, s, i) <= band(p, s, i));
        }
    }
}

/// In maintenance, and once the book is complete, a line is bought only as the plan
/// deploys; while the book is being built it is bought only as the tranche says.
pub proof fn a_line_is_bought_by_one_rule(mode: RunMode, w: Scene, start: Ymd, label: Seq<char>)
    ensures
        mode == RunMode::Maintenance ==> bought_in(cycle_plan(mode, w, start), label) == bought_in(plan(w, true), label),
        mode == RunMode::Build && book_complete(w.portfolio, w.settings) ==> bought_in(cycle_plan(mode, w, start), label)
            == bought_in(plan(w, true), label),
        mode == RunMode::Build && !book_complete(w.portfolio, w.settings) ==> bought_in(cycle_plan(mode, w, start), label)
            == bought_in(tranche(w.portfolio, w.settings, w.asof, start), label),
{
    plan_buys(w, label);
    bought_in_sum(plan(w, false), tranche(w.portfolio, w.settings, w.asof, start), label);
}

// ── high-water marks ───────────────────────────────────────────────────────

/// A mark is the old one or a price at which the name is held: nothing else raises it,
/// and a name that is not held at a price keeps the mark that it had.
pub proof fn a_mark_is_a_price_that_was_seen(
    marks: Seq<(Seq<char>, i128)>,
    holdings: Seq<HoldingView>,
    n: int,
    ticker: Seq<char>,
)
    requires
        0 <= n <= holdings.len(),
        forall|i: int| 0 <= i < holdings.len() ==> within((#[trigger] holdings[i]).price, 100_000 * LIMIT),
    ensures
        lookup(ratcheted(marks, holdings, n), ticker) == lookup(marks, ticker) || exists|k: int|
            0 <= k < n && (#[trigger] holdings[k]).ticker == ticker && holdings[k].price > 0 && lookup(
                ratcheted(marks, holdings, n),
                ticker,
            ) == Some(holdings[k].price as i128),
        (forall|k: int| 0 <= k < n && (#[trigger] holdings[k]).ticker == ticker ==> holdings[k].price <= 0) ==> lookup(
            ratcheted(marks, holdings, n),
            ticker,
        ) == lookup(marks, ticker),
    decreases n,
{
    if n > 0 {
        a_mark_is_a_price_that_was_seen(marks, holdings, n - 1, ticker);
        let before = ratcheted(marks, holdings, n - 1);
        let h = holdings[n - 1];
        assert(within(holdings[n - 1].price, 100_000 * LIMIT));
        lookup_inserted(before, h.ticker, raised(lookup(before, h.ticker), h.price), ticker);
        if h.ticker == ticker && h.price > 0 {
            assert(holdings[n - 1].ticker == ticker);
        }
    }
}

// ── the digest ─────────────────────────────────────────────────────────────

/// A cluster is marked in the digest exactly where its share is over the cap.
pub proof fn a_cluster_over_the_cap_is_marked(shares: Seq<(Seq<char>, int, int)>, cap: int, i: int)
    requires
        0 <= i < shares.len(),
    ensures
        cluster_parts(shares, cap).len() == shares.len(),
        cluster_parts(shares, cap)[i].last() == '⚠' <==> shares[i].1 > cap,
        cluster_parts(shares, cap)[i].take(shares[i].0.len() as int) == shares[i].0,
{
    reveal_strlit("⚠");
    reveal_strlit("%");
    reveal_strlit("");
    reveal_strlit(" ");
    assert("⚠"@.len() == 1 && "%"@.len() == 1 && ""@.len() == 0);
    let part = cluster_parts(shares, cap)[i];
    if shares[i].1 > cap {
        assert(part.last() == "⚠"@[0]);
    } else {
        assert(part.last() == "%"@[0]);
    }
    assert(part.take(shares[i].0.len() as int) =~= shares[i].0);
}

/// The digest lists the rows with the largest drift, the largest first: every row that
/// is left out drifts no further than every row that is listed.
pub proof fn the_largest_drifts_are_listed(rows: Seq<MetricView>, n: nat, m: int)
    requires
        rows.len() <= EQUITY,
        0 <= m < rows.len(),
        forall|i: int| 0 <= i < rows.len() ==> metric_bounded(#[trigger] rows[i]),
    ensures
        top_drifts(rows, n).len() == if rows.len() < n {
            rows.len()
        } else {
            n
        },
        forall|j: int, k: int|
            0 <= j < k < top_drifts(rows, n).len() ==> magnitude((#[trigger] top_drifts(rows, n)[j]).drift) >= magnitude(
                (#[trigger] top_drifts(rows, n)[k]).drift,
            ),
        top_drifts(rows, n).contains(rows[m]) || forall|k: int|
            0 <= k < top_drifts(rows, n).len() ==> magnitude((#[trigger] top_drifts(rows, n)[k]).drift) >= magnitude(
                rows[m].drift,
            ),
{
    let c = drift_candidates(rows);
    let order = ranked(c);
    let top = top_drifts(rows, n);
    ranking_is_an_ordered_permutation(c);
    assert forall|k: int| 0 <= k < order.len() implies (#[trigger] order[k]).index < rows.len() && order[k].first == magnitude(
        rows[order[k].index as int].drift,
    ) && order[k].second == 0 by {
        let j = ranked_member(c, k);
        assert(c[j] == order[k]);
        assert(metric_bounded(rows[j]));
    }
    assert forall|j: int, k: int| 0 <= j < k < top.len() implies magnitude((#[trigger] top[j]).drift) >= magnitude(
        (#[trigger] top[k]).drift,
    ) by {
        assert(!ahead(order[k], order[j]));
    }
    ranked_has(c, m);
    let x = choose|x: int| 0 <= x < order.len() && #[trigger] order[x] == c[m];
    assert(order[x].index == m);
    if x < top.len() {
        assert(top[x] == rows[m]);
    } else {
        assert forall|k: int| 0 <= k < top.len() implies magnitude((#[trigger] top[k]).drift) >= magnitude(rows[m].drift) by {
            assert(!ahead(order[x], order[k]));
        }
    }
}

} // verus!
