//! What a proposal owes to the price that it is resolved at, and an order to the
//! dollars, the cash and the quote behind it.
use vstd::prelude::*;

use crate::config::Settings;
use crate::execute::{
    answers, limit_of, opening_tally, resolved, result_of, results_run, tally_after, tally_run, verdict, DraftView, QuoteReply, ResolvedView, SubmitReply, Tally, Verdict,
};
use crate::fixed::{half_even, magnitude, pow10, step, times, ONE};
use crate::numr::{rounded, rounded_is_near};
use crate::portfolio::state::{held_from, HoldingView, Portfolio};
use crate::portfolio::targets::{line_of, line_of_facts, symbol_of, table, COUNT};
use crate::rebalance::sizes::label_goal;
use crate::rebalance::{ActionKind, ActionView};
use crate::text::upper;

verus! {

// ── the price ──────────────────────────────────────────────────────────────

/// Holding `k` is the first that is held under a symbol.
pub open spec fn first_held(p: Portfolio, symbol: Seq<char>, k: int) -> bool {
    &&& 0 <= k < p.holdings.len()
    &&& p.holdings[k].ticker == upper(symbol)
    &&& forall|j: int| 0 <= j < k ==> (#[trigger] p.holdings[j]).ticker != upper(symbol)
}

/// Nothing with a price is held under a symbol.
pub open spec fn unpriced(p: Portfolio, symbol: Seq<char>) -> bool {
    forall|k: int| 0 <= k < p.holdings.len() && (#[trigger] p.holdings[k]).ticker == upper(symbol) ==> p.holdings[k].price <= 0
}

/// The first holding under a ticker is the one that is found.
pub proof fn held_from_first(holdings: Seq<HoldingView>, ticker: Seq<char>, from: int, k: int)
    requires
        0 <= from <= k < holdings.len(),
        holdings[k].ticker == ticker,
        forall|j: int| 0 <= j < k ==> (#[trigger] holdings[j]).ticker != ticker,
    ensures
        held_from(holdings, ticker, from) == Some(holdings[k]),
    decreases k - from,
{
    if from < k {
        assert(holdings[from].ticker != ticker);
        held_from_first(holdings, ticker, from + 1, k);
    }
}

proof fn held_from_unpriced(holdings: Seq<HoldingView>, ticker: Seq<char>, from: int)
    requires
        0 <= from,
        forall|k: int| 0 <= k < holdings.len() && (#[trigger] holdings[k]).ticker == ticker ==> holdings[k].price <= 0,
    ensures
        held_from(holdings, ticker, from) matches Some(h) ==> h.price <= 0,
    decreases holdings.len() - from,
{
    if from < holdings.len() && holdings[from].ticker != ticker {
        held_from_unpriced(holdings, ticker, from + 1);
    }
}

/// The price at which a name is held comes before any quote: a hundred times over for
/// a contract, once for a share.
pub proof fn a_held_price_comes_first(p: Portfolio, s: Settings, i: int, symbol: Seq<char>, k: int, q: QuoteReply)
    requires
        0 <= i < COUNT,
        symbol_of(table()[i], s) == Some(symbol),
        first_held(p, symbol, k),
        p.holdings[k].price > 0,
    ensures
        resolved(p, s, table()[i].ticker@, q) matches Some(r) && r.symbol == symbol && r.limit_quote == p.holdings[k].price
            && r.is_option == (table()[i].instrument is Leaps) && r.unit_price == if table()[i].instrument is Leaps {
            100 * p.holdings[k].price
        } else {
            p.holdings[k].price
        },
{
    line_of_facts(table()[i].ticker@);
    held_from_first(p.holdings, upper(symbol), 0, k);
}

/// A call that is not held at a price goes by its live quote: a contract costs a
/// hundred times the quote, and the limit is set from the quote itself. Without a
/// quote there is no price, whatever the guidance says; the guidance counts only where
/// there is no data service to ask.
pub proof fn a_call_goes_by_its_quote(p: Portfolio, s: Settings, i: int, symbol: Seq<char>, x: i128)
    requires
        0 <= i < COUNT,
        table()[i].instrument is Leaps,
        symbol_of(table()[i], s) == Some(symbol),
        unpriced(p, symbol),
    ensures
        x > 0 ==> (resolved(p, s, table()[i].ticker@, QuoteReply::Price(x)) matches Some(r) && r.symbol == symbol
            && r.limit_quote == x && r.unit_price == 100 * x && r.is_option),
        x <= 0 ==> resolved(p, s, table()[i].ticker@, QuoteReply::Price(x)) is None,
        resolved(p, s, table()[i].ticker@, QuoteReply::Missing) is None,
        table()[i].spot_anchor > 0 ==> (resolved(p, s, table()[i].ticker@, QuoteReply::Offline) matches Some(r) && r.symbol
            == symbol && r.limit_quote == table()[i].spot_anchor && r.unit_price == 100 * table()[i].spot_anchor
            && r.is_option),
        table()[i].spot_anchor <= 0 ==> resolved(p, s, table()[i].ticker@, QuoteReply::Offline) is None,
{
    line_of_facts(table()[i].ticker@);
    held_from_unpriced(p.holdings, upper(symbol), 0);
}

/// A share that is not held at a price goes by its live quote, where that is positive;
/// in every other case by the reference price.
pub proof fn a_share_goes_by_its_quote(p: Portfolio, s: Settings, i: int, symbol: Seq<char>, x: i128)
    requires
        0 <= i < COUNT,
        !(table()[i].instrument is Leaps),
        symbol_of(table()[i], s) == Some(symbol),
        unpriced(p, symbol),
    ensures
        x > 0 ==> (resolved(p, s, table()[i].ticker@, QuoteReply::Price(x)) matches Some(r) && r.symbol == symbol
            && r.limit_quote == x && r.unit_price == x && !r.is_option),
        forall|q: QuoteReply|
            !(q matches QuoteReply::Price(y) && y > 0) ==> match #[trigger] resolved(p, s, table()[i].ticker@, q) {
                Some(r) => r.symbol == symbol && r.limit_quote == r.unit_price == table()[i].spot_anchor && r.unit_price
                    > 0 && !r.is_option,
                None => table()[i].spot_anchor <= 0,
            },
{
    line_of_facts(table()[i].ticker@);
    held_from_unpriced(p.holdings, upper(symbol), 0);
}

/// A label that the book does not have trades as a share of that name, at the price at
/// which it is held or at a positive live quote; with neither it has no price.
pub proof fn a_strange_label_is_a_share(p: Portfolio, s: Settings, label: Seq<char>, k: int, q: QuoteReply)
    requires
        line_of(label) is None,
    ensures
        first_held(p, label, k) && p.holdings[k].price > 0 ==> (resolved(p, s, label, q) matches Some(r) && r.symbol == label
            && r.limit_quote == r.unit_price == p.holdings[k].price && !r.is_option),
        unpriced(p, label) ==> match q {
            QuoteReply::Price(x) if x > 0 => resolved(p, s, label, q) matches Some(r) && r.symbol == label && r.limit_quote
                == r.unit_price == x && !r.is_option,
            _ => resolved(p, s, label, q) is None,
        },
{
    if first_held(p, label, k) {
        held_from_first(p.holdings, upper(label), 0, k);
    }
    if unpriced(p, label) {
        held_from_unpriced(p.holdings, upper(label), 0);
    }
}

/// A line without a symbol, such as a micro-cap slot that is not set, has no price.
pub proof fn nothing_to_trade_has_no_price(p: Portfolio, s: Settings, i: int, q: QuoteReply)
    requires
        0 <= i < COUNT,
        symbol_of(table()[i], s) is None,
    ensures
        resolved(p, s, table()[i].ticker@, q) is None,
{
    line_of_facts(table()[i].ticker@);
}

// ── the size ───────────────────────────────────────────────────────────────

/// A draft trades `d.qty` whole units of what was resolved.
pub open spec fn trades(d: DraftView, r: ResolvedView, buy: bool) -> bool {
    &&& d.symbol == r.symbol
    &&& d.is_option == r.is_option
    &&& d.buy == buy
    &&& d.qty >= 1
    &&& d.notional == d.qty * r.unit_price
}

proof fn whole_units(dollars: int, unit: int)
    requires
        0 < unit,
    ensures
        dollars / unit >= 1 <==> dollars >= unit,
        (dollars / unit) * unit <= dollars < (dollars / unit + 1) * unit,
{
    vstd::arithmetic::div_mod::lemma_fundamental_div_mod(dollars, unit);
    let k = dollars / unit;
    assert(k * unit <= dollars < (k + 1) * unit) by (nonlinear_arith)
        requires
            dollars == unit * k + dollars % unit,
            0 <= dollars % unit < unit,
    ;
    if k >= 1 {
        assert(unit <= k * unit) by (nonlinear_arith)
            requires
                k >= 1,
                0 < unit,
        ;
    } else {
        assert((k + 1) * unit <= unit) by (nonlinear_arith)
            requires
                k <= 0,
                0 < unit,
        ;
    }
}

proof fn fewer_units(n: int, k: int, unit: int)
    requires
        n <= k,
        0 < unit,
    ensures
        n * unit <= k * unit,
{
    assert(n * unit <= k * unit) by (nonlinear_arith)
        requires
            n <= k,
            0 < unit,
    ;
}

/// A sale trades as many whole units as its dollars hold, and no more: one unit more
/// would exceed them. Where they do not reach one unit nothing is sold. The cash plays
/// no part.
pub proof fn a_sale_is_as_many_units_as_fit(
    p: Portfolio,
    s: Settings,
    a: ActionView,
    q: QuoteReply,
    budget: int,
    submitted: int,
)
    requires
        a.kind == ActionKind::Trim,
        submitted < s.max_orders_per_day,
        resolved(p, s, a.ticker, q) is Some,
    ensures
        resolved(p, s, a.ticker, q) matches Some(r) && if a.dollars >= r.unit_price {
            verdict(p, s, a, q, budget, submitted) matches Verdict::Order(d) && trades(d, r, false) && d.notional <= a.dollars
                && (d.qty < i64::MAX ==> a.dollars < (d.qty + 1) * r.unit_price)
        } else {
            verdict(p, s, a, q, budget, submitted) is Skip
        },
{
    if let Some(r) = resolved(p, s, a.ticker, q) {
        whole_units(a.dollars, r.unit_price);
        if a.dollars >= r.unit_price {
            let k = a.dollars / r.unit_price;
            fewer_units(vstd::math::min(k, i64::MAX as int), k, r.unit_price);
        }
    }
}

/// A buy trades as many whole units as both its dollars and the cash hold, and no
/// more. A buy below one unit becomes exactly one unit where it is for something at
/// all, the cash holds the unit, and the unit is no more than the name's goal and the
/// band beyond it; otherwise nothing is bought.
pub proof fn a_buy_is_as_many_units_as_fit(
    p: Portfolio,
    s: Settings,
    a: ActionView,
    q: QuoteReply,
    budget: int,
    submitted: int,
)
    requires
        a.kind == ActionKind::Buy,
        submitted < s.max_orders_per_day,
        resolved(p, s, a.ticker, q) is Some,
    ensures
        resolved(p, s, a.ticker, q) matches Some(r) && if a.dollars >= r.unit_price && budget >= r.unit_price {
            verdict(p, s, a, q, budget, submitted) matches Verdict::Order(d) && trades(d, r, true) && d.notional <= a.dollars
                && d.notional <= budget && (d.qty < i64::MAX ==> a.dollars < (d.qty + 1) * r.unit_price || budget < (d.qty
                + 1) * r.unit_price)
        } else if 0 < a.dollars < r.unit_price <= budget && r.unit_price * ONE <= label_goal(p, s, a.ticker) * (ONE
            + s.rebalance_band_pct) {
            verdict(p, s, a, q, budget, submitted) matches Verdict::Order(d) && trades(d, r, true) && d.qty == 1
        } else {
            verdict(p, s, a, q, budget, submitted) is Skip
        },
{
    if let Some(r) = resolved(p, s, a.ticker, q) {
        let dollars = vstd::math::min(a.dollars, budget);
        whole_units(dollars, r.unit_price);
        whole_units(r.unit_price, r.unit_price);
        if dollars >= r.unit_price {
            let k = dollars / r.unit_price;
            fewer_units(vstd::math::min(k, i64::MAX as int), k, r.unit_price);
        }
        let u = r.unit_price;
        let k = u / u;
        assert(k == 1) by (nonlinear_arith)
            requires
                k * u <= u < (k + 1) * u,
                0 < u,
        ;
        within_the_cap(label_goal(p, s, a.ticker) * (ONE + s.rebalance_band_pct), u);
    }
}

proof fn within_the_cap(n: int, u: int)
    ensures
        u <= n / (ONE as int) <==> u * ONE <= n,
{
}

/// Once the day's orders are used up nothing is ordered, and a proposal that has no
/// price is never an order.
pub proof fn no_order_beyond_the_days(p: Portfolio, s: Settings, a: ActionView, q: QuoteReply, budget: int, submitted: int)
    requires
        submitted >= s.max_orders_per_day || resolved(p, s, a.ticker, q) is None,
    ensures
        !(verdict(p, s, a, q, budget, submitted) is Order),
{
}

/// The limit crosses the quote: three tenths of a percent above it for a share that is
/// bought and below for one that is sold, two percent for a contract; in whole cents,
/// and within half a cent of that.
pub proof fn a_limit_crosses_the_quote(r: ResolvedView, buy: bool)
    ensures
        ({
            let bps: int = if r.is_option {
                200
            } else {
                30
            };
            let exact = r.limit_quote * if buy {
                10_000 + bps
            } else {
                10_000 - bps
            };
            &&& limit_of(r, buy) % 10_000_000_000 == 0
            &&& -50_000_000_010_000 <= limit_of(r, buy) * 10_000 - exact <= 50_000_000_000_000
        }),
{
    let f: int = if r.is_option {
        if buy {
            1_020_000_000_000
        } else {
            980_000_000_000
        }
    } else if buy {
        1_003_000_000_000
    } else {
        997_000_000_000
    };
    let t = times(r.limit_quote, f);
    rounded_is_near(t, 2);
    cent_steps(t);
    let n = r.limit_quote * f;
    let o = ONE as int;
    vstd::arithmetic::div_mod::lemma_fundamental_div_mod(n, o);
    let b: int = if r.is_option {
        if buy {
            10_200
        } else {
            9_800
        }
    } else if buy {
        10_030
    } else {
        9_970
    };
    assert(n == 100_000_000 * (r.limit_quote * b)) by (nonlinear_arith)
        requires
            n == r.limit_quote * f,
            f == 100_000_000 * b,
    ;
}

/// A number rounded to two decimals is in whole cents.
pub proof fn cent_steps(t: int)
    ensures
        step(2) == 10_000_000_000,
        rounded(t, 2) % 10_000_000_000 == 0,
{
    reveal_with_fuel(pow10, 12);
    let u = step(2) as int;
    let q = half_even(magnitude(t) as nat, step(2)) as int;
    assert(u == 10_000_000_000);
    vstd::arithmetic::div_mod::lemma_mod_multiples_basic(q, u);
    vstd::arithmetic::div_mod::lemma_mod_multiples_basic(-q, u);
    assert(-q * u == -(q * u)) by (nonlinear_arith);
}

/// An order that the broker took, or that a dry run would have sent, uses one of the
/// day's orders; a buy uses up what it costs and a sale frees nothing. An order that
/// the broker refused uses neither.
pub proof fn an_order_uses_what_it_costs(
    p: Portfolio,
    s: Settings,
    t: Tally,
    a: ActionView,
    q: QuoteReply,
    reply: SubmitReply,
)
    ensures
        match verdict(p, s, a, q, t.budget, t.submitted) {
            Verdict::Order(d) => {
                let u = tally_after(p, s, t, a, q, reply);
                &&& reply is Failed ==> u.budget == t.budget && u.submitted == t.submitted
                &&& !(reply is Failed) ==> u.submitted == t.submitted + 1
                &&& !(reply is Failed) && a.kind == ActionKind::Buy ==> u.budget + d.notional == t.budget
                &&& !(reply is Failed) && a.kind != ActionKind::Buy ==> u.budget == t.budget
            },
            _ => tally_after(p, s, t, a, q, reply) == t,
        },
{
}

// ── the result ─────────────────────────────────────────────────────────────

/// A result reports its order: the label with the symbol, the side, the units, the limit
/// and the cost, and what became of it. What led to no order reports none of these, and
/// why; advice is told apart from both.
pub proof fn a_result_reports_its_order(p: Portfolio, s: Settings, t: Tally, a: ActionView, q: QuoteReply, reply: SubmitReply)
    ensures
        ({
            let r = result_of(p, s, t, a, q, reply);
            match verdict(p, s, a, q, t.budget, t.submitted) {
                Verdict::Order(d) => {
                    &&& r.ticker == a.ticker + " ("@ + d.symbol + ")"@
                    &&& a.kind == ActionKind::Buy ==> r.side == "buy"@
                    &&& a.kind == ActionKind::Trim ==> r.side == "sell"@
                    &&& r.qty == d.qty && r.limit == d.limit && r.dollars == d.notional
                    &&& reply is DryRun ==> r.status == "dry-run"@
                    &&& reply matches SubmitReply::Accepted(x) ==> r.status == "submitted ("@ + x@ + ")"@
                    &&& reply matches SubmitReply::Failed(x) ==> r.status == "error: "@ + x@
                    &&& r.reason.take(a.reason.len() as int) == a.reason
                },
                Verdict::Skip(why) => r.ticker == a.ticker && r.qty == 0 && r.limit == 0 && r.dollars == 0 && r.status
                    == "skipped: "@ + why && r.reason == a.reason,
                Verdict::Advice => r.ticker == a.ticker && r.qty == 0 && r.dollars == 0 && r.status == "advisory"@ && r.side
                    == "none"@ && r.reason == a.reason,
            }
        }),
        verdict(p, s, a, q, t.budget, t.submitted) is Advice <==> a.kind == ActionKind::ThesisRevalidate,
{
    if let Verdict::Order(d) = verdict(p, s, a, q, t.budget, t.submitted) {
        assert((a.reason + d.note).take(a.reason.len() as int) =~= a.reason);
    }
}

/// Every proposal has its result, in its place: the one that it has under the cash and the
/// orders that those before it left.
pub proof fn every_proposal_has_its_result(
    p: Portfolio,
    s: Settings,
    actions: Seq<ActionView>,
    quotes: Seq<QuoteReply>,
    replies: Seq<SubmitReply>,
    n: int,
    k: int,
)
    requires
        0 <= k < n,
    ensures
        results_run(p, s, actions, quotes, replies, n).len() == n,
        results_run(p, s, actions, quotes, replies, n)[k] == result_of(
            p,
            s,
            tally_run(p, s, actions, quotes, replies, k),
            actions[k],
            quotes[k],
            replies[k],
        ),
    decreases n,
{
    if k < n - 1 {
        every_proposal_has_its_result(p, s, actions, quotes, replies, n - 1, k);
    } else if n > 1 {
        every_proposal_has_its_result(p, s, actions, quotes, replies, n - 1, 0);
    } else {
        assert(results_run(p, s, actions, quotes, replies, 0).len() == 0);
    }
}

/// A cycle begins with the cash beyond the protected share of the account and no order
/// made, and orders reach the broker only in an armed run that has one; any other run is
/// dry.
pub proof fn only_an_armed_run_reaches_the_broker(p: Portfolio, s: Settings, broker: Option<Seq<SubmitReply>>, n: int, k: int)
    requires
        0 <= k < n,
    ensures
        opening_tally(p, s).submitted == 0,
        opening_tally(p, s).budget == {
            let buffer = vstd::math::max(p.nav * s.cash_buffer_pct / 1_000_000_000_000, 0);
            vstd::math::max(p.cash - buffer, 0)
        },
        answers(false, broker, n)[k] is DryRun,
        answers(true, None, n)[k] is DryRun,
        broker matches Some(v) ==> (k < v.len() ==> answers(true, broker, n)[k] == v[k]),
{
}

} // verus!
