//! Execution: proposals become marketable limit orders, whole shares for stocks
//! and micro-caps, whole contracts of a hundred for calls. No market orders, and
//! buys together never pass the cash beyond the protected buffer.
use vstd::math::{max, min};
use vstd::prelude::*;
use vstd::string::*;

use crate::alpaca::{
    intent_of, is_paper, option_order_request, price_text, stock_order_request, verify_paper_account, AlpacaError,
    OrderRequest, ORDER_KIND,
};
use crate::config::{settings_within_limits, AppConfig, Settings};
use crate::fixed::{
    floor_div, integer_text, portion, render, rendered, signed_decimal, smaller, times, within, Fixed, LIMIT,
    ONE, WIDE,
};
use crate::numr::{pyround, rounded};
use crate::portfolio::state::{held, held_is_a_holding, holding_within_limits, portfolio_within_limits, Portfolio, PortfolioState};
use crate::portfolio::targets::{
    find, instrument_symbol, invested_target_weight, line_of, line_of_facts, sound_instrument, symbol_of,
    table, table_shape, Target, COUNT,
};
use crate::rebalance::phased_build::{current_value, line_filled};
use crate::rebalance::sizes::{label_band, label_goal, label_sizes, times_bound, SMALLEST_NAV};
use crate::rebalance::{action_views, side_of, Action, ActionKind, ActionView};
use crate::safety::{cash_available_for_buys, deployable_cash};
use crate::text::{align_left, align_right, left_aligned, right_aligned, same};

verus! {

/// How far a stock order crosses the quote: 0.3 %.
pub const STOCK_BUF: i128 = 3_000_000_000;

/// How far an option order crosses the quote: 2 %.
pub const OPTION_BUF: i128 = 20_000_000_000;

// ── results ────────────────────────────────────────────────────────────────

/// What became of one proposal.
#[derive(Debug, Clone)]
pub struct ExecResult {
    pub ticker: String,
    pub side: String,
    pub qty: i64,
    pub limit: Fixed,
    pub dollars: Fixed,
    pub status: String,
    pub reason: String,
}

/// A result as plain values.
#[verifier::ext_equal]
pub struct ResultView {
    pub ticker: Seq<char>,
    pub side: Seq<char>,
    pub qty: int,
    pub limit: int,
    pub dollars: int,
    pub status: Seq<char>,
    pub reason: Seq<char>,
}

impl View for ExecResult {
    type V = ResultView;

    open spec fn view(&self) -> ResultView {
        ResultView {
            ticker: self.ticker@,
            side: self.side@,
            qty: self.qty as int,
            limit: self.limit as int,
            dollars: self.dollars as int,
            status: self.status@,
            reason: self.reason@,
        }
    }
}

/// The views of a list of results.
pub open spec fn result_views(v: Seq<ExecResult>) -> Seq<ResultView> {
    v.map_values(|r: ExecResult| r@)
}

/// The line of a result in the digest.
pub open spec fn result_line(r: ResultView) -> Seq<char> {
    left_aligned(r.ticker, 11) + " "@ + left_aligned(r.side, 4) + " qty "@ + right_aligned(
        signed_decimal(r.qty),
        4,
    ) + " @ $"@ + left_aligned(rendered(r.limit, 2, false), 8) + " ($"@ + right_aligned(
        rendered(r.dollars, 2, false),
        8,
    ) + ") ["@ + r.status + "] — "@ + r.reason
}

impl ExecResult {
    /// The line of the result in the digest.
    pub fn line(&self) -> (r: String)
        requires
            i128::MIN < self.limit,
            i128::MIN < self.dollars,
        ensures
            r@ == result_line(self@),
    {
        let mut s = align_left(self.ticker.as_str(), 11);
        s.append(" ");
        s.append(align_left(self.side.as_str(), 4).as_str());
        s.append(" qty ");
        s.append(align_right(integer_text(self.qty as i128).as_str(), 4).as_str());
        s.append(" @ $");
        s.append(align_left(render(self.limit, 2, false).as_str(), 8).as_str());
        s.append(" ($");
        s.append(align_right(render(self.dollars, 2, false).as_str(), 8).as_str());
        s.append(") [");
        s.append(self.status.as_str());
        s.append("] — ");
        s.append(self.reason.as_str());
        s
    }

    /// Whether the result is advice only.
    pub fn is_advisory(&self) -> (r: bool)
        ensures
            r == (self@.status == "advisory"@),
    {
        same(self.status.as_str(), "advisory")
    }
}

/// How many of the results are advice only.
pub open spec fn advisories(v: Seq<ResultView>) -> nat
    decreases v.len(),
{
    if v.len() == 0 {
        0
    } else {
        advisories(v.drop_last()) + if v.last().status == "advisory"@ {
            1nat
        } else {
            0
        }
    }
}

/// How many of the results are advice only.
pub fn advisory_count(results: &Vec<ExecResult>) -> (r: usize)
    ensures
        r == advisories(result_views(results@)),
        r <= results@.len(),
{
    let ghost all = result_views(results@);
    let mut n: usize = 0;
    let mut i: usize = 0;
    while i < results.len()
        invariant
            i <= results@.len(),
            all == result_views(results@),
            n == advisories(all.take(i as int)),
            n <= i,
        decreases results@.len() - i,
    {
        assert(all.take(i + 1).drop_last() == all.take(i as int));
        assert(all.take(i + 1).last() == results@[i as int]@);
        if results[i].is_advisory() {
            n += 1;
        }
        i += 1;
    }
    assert(all.take(all.len() as int) == all);
    n
}

/// The result of a proposal that is only advice.
pub open spec fn advised(a: ActionView) -> ResultView {
    ResultView {
        ticker: a.ticker,
        side: "none"@,
        qty: 0,
        limit: 0,
        dollars: 0,
        status: "advisory"@,
        reason: a.reason,
    }
}

/// The result of a proposal that led to no order.
pub open spec fn skipped(a: ActionView, why: Seq<char>) -> ResultView {
    ResultView {
        ticker: a.ticker,
        side: side_of(a.kind),
        qty: 0,
        limit: 0,
        dollars: 0,
        status: "skipped: "@ + why,
        reason: a.reason,
    }
}

fn advise(a: &Action) -> (r: ExecResult)
    ensures
        r@ == advised(a@),
{
    ExecResult {
        ticker: a.ticker.clone(),
        side: "none".to_owned(),
        qty: 0,
        limit: 0,
        dollars: 0,
        status: "advisory".to_owned(),
        reason: a.reason.clone(),
    }
}

fn skip(a: &Action, why: &str) -> (r: ExecResult)
    ensures
        r@ == skipped(a@, why@),
{
    let mut status = "skipped: ".to_owned();
    status.append(why);
    ExecResult {
        ticker: a.ticker.clone(),
        side: a.side().to_owned(),
        qty: 0,
        limit: 0,
        dollars: 0,
        status,
        reason: a.reason.clone(),
    }
}

// ── pricing ────────────────────────────────────────────────────────────────

/// The answer to a request for a live quote.
#[derive(Debug, Clone, Copy, PartialEq, Eq, Structural)]
pub enum QuoteReply {
    /// There is no data service to ask.
    Offline,
    /// The data service has no quote.
    Missing,
    Price(Fixed),
}

/// A quote is of a size that the rules can reckon with.
pub open spec fn quote_within_limits(q: QuoteReply) -> bool {
    q matches QuoteReply::Price(x) ==> within(x as int, 100_000 * LIMIT)
}

/// What a proposal trades as, and at what price.
pub struct Resolved {
    pub symbol: String,
    /// Dollars for a share, or for a contract of a hundred.
    pub unit_price: Fixed,
    /// The quote that the limit is set from.
    pub limit_quote: Fixed,
    pub is_option: bool,
}

/// A resolved proposal as plain values.
#[verifier::ext_equal]
pub struct ResolvedView {
    pub symbol: Seq<char>,
    pub unit_price: int,
    pub limit_quote: int,
    pub is_option: bool,
}

impl View for Resolved {
    type V = ResolvedView;

    open spec fn view(&self) -> ResolvedView {
        ResolvedView {
            symbol: self.symbol@,
            unit_price: self.unit_price as int,
            limit_quote: self.limit_quote as int,
            is_option: self.is_option,
        }
    }
}

/// The price at which a symbol is held, where that is positive.
pub open spec fn held_price(p: Portfolio, symbol: Seq<char>) -> Option<int> {
    match held(p, symbol) {
        Some(h) => if h.price > 0 {
            Some(h.price)
        } else {
            None
        },
        None => None,
    }
}

/// The premium of a call: the price at which it is held, else the live quote,
/// else, with no data service, the guidance; none without a quote.
pub open spec fn premium(p: Portfolio, t: Target, symbol: Seq<char>, q: QuoteReply) -> Option<int> {
    match held_price(p, symbol) {
        Some(x) => Some(x),
        None => match q {
            QuoteReply::Offline => Some(t.spot_anchor as int),
            QuoteReply::Missing => None,
            QuoteReply::Price(x) => Some(x as int),
        },
    }
}

/// The price of a stock: the one at which it is held, else a positive live quote,
/// else the reference price.
pub open spec fn stock_price(p: Portfolio, symbol: Seq<char>, q: QuoteReply, anchor: int) -> int {
    match held_price(p, symbol) {
        Some(x) => x,
        None => match q {
            QuoteReply::Price(x) => if x > 0 {
                x as int
            } else {
                anchor
            },
            _ => anchor,
        },
    }
}

/// A stock at a price; none where the price is not positive.
pub open spec fn as_stock(symbol: Seq<char>, price: int) -> Option<ResolvedView> {
    if price > 0 {
        Some(ResolvedView { symbol, unit_price: price, limit_quote: price, is_option: false })
    } else {
        None
    }
}

/// What a proposal trades as. A label that the book does not have is taken as a
/// stock symbol.
pub open spec fn resolved(p: Portfolio, s: Settings, label: Seq<char>, q: QuoteReply) -> Option<
    ResolvedView,
> {
    match line_of(label) {
        Some(i) => {
            let t = table()[i];
            match symbol_of(t, s) {
                Some(symbol) => if t.instrument is Leaps {
                    match premium(p, t, symbol, q) {
                        Some(mid) => if mid > 0 {
                            Some(
                                ResolvedView {
                                    symbol,
                                    unit_price: 100 * mid,
                                    limit_quote: mid,
                                    is_option: true,
                                },
                            )
                        } else {
                            None
                        },
                        None => None,
                    }
                } else {
                    as_stock(symbol, stock_price(p, symbol, q, t.spot_anchor as int))
                },
                None => None,
            }
        },
        None => as_stock(label, stock_price(p, label, q, 0)),
    }
}

fn price_held(state: &PortfolioState, symbol: &str) -> (r: Option<Fixed>)
    requires
        portfolio_within_limits(state@),
    ensures
        match r {
            Some(x) => held_price(state@, symbol@) == Some(x as int) && 0 < x <= 100_000 * LIMIT,
            None => held_price(state@, symbol@) is None,
        },
{
    proof {
        held_is_a_holding(state@, symbol@);
    }
    match state.holding(symbol) {
        Some(h) => {
            assert(holding_within_limits(h@));
            if h.price > 0 {
                Some(h.price)
            } else {
                None
            }
        },
        None => None,
    }
}

fn price_of_stock(state: &PortfolioState, symbol: &str, q: QuoteReply, anchor: Fixed) -> (r: Fixed)
    requires
        portfolio_within_limits(state@),
        quote_within_limits(q),
        within(anchor as int, LIMIT as int),
    ensures
        r == stock_price(state@, symbol@, q, anchor as int),
        within(r as int, 100_000 * LIMIT),
{
    match price_held(state, symbol) {
        Some(x) => x,
        None => match q {
            QuoteReply::Price(x) => if x > 0 {
                x
            } else {
                anchor
            },
            _ => anchor,
        },
    }
}

fn stock_at(symbol: String, price: Fixed) -> (r: Option<Resolved>)
    ensures
        match r {
            Some(x) => as_stock(symbol@, price as int) == Some(x@),
            None => as_stock(symbol@, price as int) is None,
        },
{
    if price > 0 {
        Some(Resolved { symbol, unit_price: price, limit_quote: price, is_option: false })
    } else {
        None
    }
}

/// What a proposal trades as, and at what price.
pub fn resolve(a: &Action, cfg: &AppConfig, state: &PortfolioState, q: QuoteReply) -> (r: Option<Resolved>)
    requires
        portfolio_within_limits(state@),
        quote_within_limits(q),
    ensures
        match r {
            Some(x) => resolved(state@, cfg@, a@.ticker, q) == Some(x@) && 0 < x.limit_quote <= 100_000
                * LIMIT && 0 < x.unit_price <= 10_000_000 * LIMIT,
            None => resolved(state@, cfg@, a@.ticker, q) is None,
        },
{
    proof {
        table_shape();
        line_of_facts(a.ticker@);
    }
    match find(a.ticker.as_str()) {
        Some(t) => {
            assert(sound_instrument(t.instrument));
            let symbol = match instrument_symbol(&t, cfg) {
                Some(s) => s,
                None => {
                    return None;
                },
            };
            if crate::portfolio::targets::is_leaps(&t) {
                let mid: i128 = match price_held(state, symbol.as_str()) {
                    Some(x) => x,
                    None => match q {
                        QuoteReply::Offline => t.spot_anchor,
                        QuoteReply::Missing => {
                            return None;
                        },
                        QuoteReply::Price(x) => x,
                    },
                };
                if mid <= 0 {
                    return None;
                }
                Some(Resolved { symbol, unit_price: 100 * mid, limit_quote: mid, is_option: true })
            } else {
                let price: i128 = price_of_stock(state, symbol.as_str(), q, t.spot_anchor);
                stock_at(symbol, price)
            }
        },
        None => {
            let price: i128 = price_of_stock(state, a.ticker.as_str(), q, 0);
            stock_at(a.ticker.clone(), price)
        },
    }
}

/// A live quote that has to be asked for.
#[derive(Debug, Clone)]
pub enum QuoteNeed {
    /// The price is known, or nothing can be traded.
    Nothing,
    /// The mid of an option.
    OptionMid(String),
    /// The price of a stock.
    StockPrice(String),
}

/// Which live quote the price of a proposal rests on.
pub fn quote_need(a: &Action, cfg: &AppConfig, state: &PortfolioState) -> (r: QuoteNeed)
    requires
        portfolio_within_limits(state@),
    ensures
        match r {
            QuoteNeed::Nothing => forall|q: QuoteReply|
                #[trigger] resolved(state@, cfg@, a@.ticker, q) == resolved(
                    state@,
                    cfg@,
                    a@.ticker,
                    QuoteReply::Offline,
                ),
            QuoteNeed::OptionMid(symbol) => held_price(state@, symbol@) is None && (line_of(
                a@.ticker,
            ) matches Some(i) && table()[i].instrument is Leaps && symbol_of(table()[i], cfg@) == Some(
                symbol@,
            )),
            QuoteNeed::StockPrice(symbol) => held_price(state@, symbol@) is None && match line_of(
                a@.ticker,
            ) {
                Some(i) => !(table()[i].instrument is Leaps) && symbol_of(table()[i], cfg@) == Some(
                    symbol@,
                ),
                None => symbol@ == a@.ticker,
            },
        },
{
    proof {
        table_shape();
        line_of_facts(a.ticker@);
    }
    match find(a.ticker.as_str()) {
        Some(t) => {
            assert(sound_instrument(t.instrument));
            match instrument_symbol(&t, cfg) {
                Some(symbol) => {
                    if price_held(state, symbol.as_str()).is_some() {
                        QuoteNeed::Nothing
                    } else if crate::portfolio::targets::is_leaps(&t) {
                        QuoteNeed::OptionMid(symbol)
                    } else {
                        QuoteNeed::StockPrice(symbol)
                    }
                },
                None => QuoteNeed::Nothing,
            }
        },
        None => {
            if price_held(state, a.ticker.as_str()).is_some() {
                QuoteNeed::Nothing
            } else {
                QuoteNeed::StockPrice(a.ticker.clone())
            }
        },
    }
}

// ── sizing ─────────────────────────────────────────────────────────────────

/// A planned buy below one unit is rounded up to the unit: where it is a buy at
/// all, the unit fits the cash, and the unit fits the name's own slot.
pub open spec fn rounds_up(planned: int, unit_price: int, buy_budget: int, slot_cap: int) -> bool {
    planned > 0 && planned < unit_price && unit_price <= buy_budget && unit_price <= slot_cap
}

/// Whether a planned buy below one unit is rounded up to the unit.
pub fn round_up_to_unit(
    planned: Fixed,
    unit_price: Fixed,
    buy_budget: Fixed,
    slot_cap: Fixed,
) -> (r: bool)
    ensures
        r == rounds_up(planned as int, unit_price as int, buy_budget as int, slot_cap as int),
{
    planned > 0 && planned < unit_price && unit_price <= buy_budget && unit_price <= slot_cap
}

/// The most that a name's slot may hold: its goal and the band beyond it.
pub open spec fn slot_cap(p: Portfolio, s: Settings, label: Seq<char>) -> int {
    times(label_goal(p, s, label), ONE + s.rebalance_band_pct)
}

/// An order that is ready to be submitted.
pub struct Draft {
    pub symbol: String,
    pub is_option: bool,
    pub buy: bool,
    pub qty: i64,
    pub limit: Fixed,
    /// What the order costs or frees at the price that it was sized with.
    pub notional: Fixed,
    /// What is added to the reason.
    pub note: String,
}

/// A draft as plain values.
#[verifier::ext_equal]
pub struct DraftView {
    pub symbol: Seq<char>,
    pub is_option: bool,
    pub buy: bool,
    pub qty: int,
    pub limit: int,
    pub notional: int,
    pub note: Seq<char>,
}

impl View for Draft {
    type V = DraftView;

    open spec fn view(&self) -> DraftView {
        DraftView {
            symbol: self.symbol@,
            is_option: self.is_option,
            buy: self.buy,
            qty: self.qty as int,
            limit: self.limit as int,
            notional: self.notional as int,
            note: self.note@,
        }
    }
}

/// What a proposal comes to.
pub enum Outcome {
    /// It is advice only.
    Advice,
    /// It leads to no order, and why.
    Skip(String),
    Order(Draft),
}

/// What a proposal comes to, as plain values.
pub enum Verdict {
    Advice,
    Skip(Seq<char>),
    Order(DraftView),
}

impl View for Outcome {
    type V = Verdict;

    open spec fn view(&self) -> Verdict {
        match self {
            Outcome::Advice => Verdict::Advice,
            Outcome::Skip(why) => Verdict::Skip(why@),
            Outcome::Order(d) => Verdict::Order(d@),
        }
    }
}

/// What is said of a buy that pins the build: it is short by more than its band,
/// and yet by less than one unit.
pub open spec fn blocker(planned: int, band: int, unit: int) -> Seq<char> {
    if planned > band && planned < unit {
        " — BLOCKS build_complete: shortfall $"@ + rendered(planned, 0, false) + " > band $"@
            + rendered(band, 0, false) + " but < 1 unit"@
    } else {
        ""@
    }
}

/// Why a buy below one unit is put off.
pub open spec fn too_small(planned: int, unit: int, budget: int, band: int) -> Seq<char> {
    if planned < unit {
        if unit <= budget {
            "slice $"@ + rendered(planned, 0, false) + " < 1 unit ($"@ + rendered(unit, 2, false)
                + ") — deferred, though the unit fits deployable $"@ + rendered(budget, 0, false)
                + " (allocator gap, not cash)"@ + blocker(planned, band, unit)
        } else {
            "slice $"@ + rendered(planned, 0, false) + " < 1 unit ($"@ + rendered(unit, 2, false)
                + ") — deferred to a later tranche"@ + blocker(planned, band, unit)
        }
    } else {
        "no-leverage cap: cash budget $"@ + rendered(budget, 0, false) + " < 1 unit ($"@ + rendered(
            unit,
            2,
            false,
        ) + ")"@
    }
}

/// What is noted where a buy was rounded up.
pub open spec fn round_up_note(planned: int, unit: int, cap: int) -> Seq<char> {
    " [slice $"@ + rendered(planned, 0, false) + " rounded up to 1 unit $"@ + rendered(unit, 2, false)
        + "; unit fits the $"@ + rendered(cap, 0, false) + " slot]"@
}

/// The limit of an order: the quote crossed by the buffer, in whole cents.
pub open spec fn limit_of(r: ResolvedView, buy: bool) -> int {
    let buf = if r.is_option {
        OPTION_BUF as int
    } else {
        STOCK_BUF as int
    };
    rounded(
        times(
            r.limit_quote,
            if buy {
                ONE + buf
            } else {
                ONE - buf
            },
        ),
        2,
    )
}

/// Why nothing is ordered where the dollars do not reach one unit.
pub open spec fn under_one(r: ResolvedView, dollars: int) -> Seq<char> {
    if r.is_option {
        "LEAPS premium ~$"@ + rendered(r.unit_price, 0, false) + "/contract > slot cap $"@ + rendered(
            dollars,
            0,
            false,
        ) + " — skipped (raise the slot alloc or pick a cheaper strike/expiry)"@
    } else {
        "rounds to < 1 share"@
    }
}

/// The whole units that the dollars buy, as an order at the crossed quote.
pub open spec fn ordered(r: ResolvedView, buy: bool, dollars: int, note: Seq<char>) -> Verdict {
    let units = min(dollars / r.unit_price, i64::MAX as int);
    if units < 1 {
        Verdict::Skip(under_one(r, dollars))
    } else {
        Verdict::Order(
            DraftView {
                symbol: r.symbol,
                is_option: r.is_option,
                buy,
                qty: units,
                limit: limit_of(r, buy),
                notional: units * r.unit_price,
                note,
            },
        )
    }
}

/// What a buy comes to: it is capped at the cash, and where it is below one unit
/// it is rounded up or put off.
pub open spec fn buy_sized(
    p: Portfolio,
    s: Settings,
    a: ActionView,
    r: ResolvedView,
    budget: int,
) -> Verdict {
    let unit = r.unit_price;
    let cap = slot_cap(p, s, a.ticker);
    let dollars = min(a.dollars, budget);
    if dollars < unit {
        if rounds_up(a.dollars, unit, budget, cap) {
            ordered(r, true, unit, round_up_note(a.dollars, unit, cap))
        } else {
            Verdict::Skip(too_small(a.dollars, unit, budget, label_band(p, s, a.ticker)))
        }
    } else {
        ordered(r, true, dollars, ""@)
    }
}

/// What a proposal comes to, under the cash and the orders that are left.
pub open spec fn verdict(
    p: Portfolio,
    s: Settings,
    a: ActionView,
    q: QuoteReply,
    budget: int,
    submitted: int,
) -> Verdict {
    if a.kind == ActionKind::ThesisRevalidate {
        Verdict::Advice
    } else if submitted >= s.max_orders_per_day {
        Verdict::Skip("max orders/day reached"@)
    } else {
        match resolved(p, s, a.ticker, q) {
            Some(r) => if a.kind == ActionKind::Buy {
                buy_sized(p, s, a, r, budget)
            } else {
                ordered(r, false, a.dollars, ""@)
            },
            None => Verdict::Skip("unresolved instrument / no price"@),
        }
    }
}

/// A proposal is of a size that can be reckoned with.
pub open spec fn action_within_limits(a: ActionView) -> bool {
    within(a.dollars, WIDE as int)
}

/// Every proposal is of a size that can be reckoned with.
pub open spec fn actions_within_limits(v: Seq<ActionView>) -> bool {
    forall|k: int| 0 <= k < v.len() ==> action_within_limits(#[trigger] v[k])
}

fn blocker_text(planned: Fixed, band: Fixed, unit: Fixed) -> (r: String)
    requires
        i128::MIN < planned,
        i128::MIN < band,
    ensures
        r@ == blocker(planned as int, band as int, unit as int),
{
    if planned > band && planned < unit {
        let mut s = " — BLOCKS build_complete: shortfall $".to_owned();
        s.append(render(planned, 0, false).as_str());
        s.append(" > band $");
        s.append(render(band, 0, false).as_str());
        s.append(" but < 1 unit");
        s
    } else {
        "".to_owned()
    }
}

fn too_small_text(planned: Fixed, unit: Fixed, budget: Fixed, band: Fixed) -> (r: String)
    requires
        i128::MIN < planned,
        i128::MIN < unit,
        i128::MIN < budget,
        i128::MIN < band,
    ensures
        r@ == too_small(planned as int, unit as int, budget as int, band as int),
{
    if planned < unit {
        let mut s = "slice $".to_owned();
        s.append(render(planned, 0, false).as_str());
        s.append(" < 1 unit ($");
        s.append(render(unit, 2, false).as_str());
        if unit <= budget {
            s.append(") — deferred, though the unit fits deployable $");
            s.append(render(budget, 0, false).as_str());
            s.append(" (allocator gap, not cash)");
        } else {
            s.append(") — deferred to a later tranche");
        }
        s.append(blocker_text(planned, band, unit).as_str());
        s
    } else {
        let mut s = "no-leverage cap: cash budget $".to_owned();
        s.append(render(budget, 0, false).as_str());
        s.append(" < 1 unit ($");
        s.append(render(unit, 2, false).as_str());
        s.append(")");
        s
    }
}

fn round_up_text(planned: Fixed, unit: Fixed, cap: Fixed) -> (r: String)
    requires
        i128::MIN < planned,
        i128::MIN < unit,
        i128::MIN < cap,
    ensures
        r@ == round_up_note(planned as int, unit as int, cap as int),
{
    let mut s = " [slice $".to_owned();
    s.append(render(planned, 0, false).as_str());
    s.append(" rounded up to 1 unit $");
    s.append(render(unit, 2, false).as_str());
    s.append("; unit fits the $");
    s.append(render(cap, 0, false).as_str());
    s.append(" slot]");
    s
}

fn under_one_text(r: &Resolved, dollars: Fixed) -> (t: String)
    requires
        i128::MIN < r.unit_price,
        i128::MIN < dollars,
    ensures
        t@ == under_one(r@, dollars as int),
{
    if r.is_option {
        let mut s = "LEAPS premium ~$".to_owned();
        s.append(render(r.unit_price, 0, false).as_str());
        s.append("/contract > slot cap $");
        s.append(render(dollars, 0, false).as_str());
        s.append(" — skipped (raise the slot alloc or pick a cheaper strike/expiry)");
        s
    } else {
        "rounds to < 1 share".to_owned()
    }
}

fn crossed_limit(r: &Resolved, buy: bool) -> (l: Fixed)
    requires
        0 < r.limit_quote <= 100_000 * LIMIT,
    ensures
        l == limit_of(r@, buy),
        within(l as int, 1_000_000 * LIMIT),
{
    let buf: i128 = if r.is_option {
        OPTION_BUF
    } else {
        STOCK_BUF
    };
    let f: i128 = if buy {
        ONE + buf
    } else {
        ONE - buf
    };
    proof {
        times_bound(r.limit_quote as int, f as int, 100_000 * LIMIT, 2);
        crate::numr::rounded_is_near(times(r.limit_quote as int, f as int), 2);
        assert(crate::fixed::step(2) <= ONE) by {
            reveal_with_fuel(crate::fixed::pow10, 13);
        }
    }
    pyround(portion(r.limit_quote, f), 2)
}

fn order_units(r: Resolved, buy: bool, dollars: Fixed, note: String) -> (o: Outcome)
    requires
        0 < r.limit_quote <= 100_000 * LIMIT,
        0 < r.unit_price <= 10_000_000 * LIMIT,
        within(dollars as int, WIDE as int),
    ensures
        o@ == ordered(r@, buy, dollars as int, note@),
        o matches Outcome::Order(d) ==> within(d.limit as int, 1_000_000 * LIMIT) && d.notional <= dollars
            && 0 < d.notional && d.buy == buy,
{
    let q: i128 = floor_div(dollars, r.unit_price);
    let units: i128 = smaller(q, 9_223_372_036_854_775_807);
    if units < 1 {
        Outcome::Skip(under_one_text(&r, dollars))
    } else {
        proof {
            vstd::arithmetic::div_mod::lemma_fundamental_div_mod(dollars as int, r.unit_price as int);
            let (u, k, n) = (r.unit_price as int, q as int, units as int);
            assert(0 < n * u <= dollars) by (nonlinear_arith)
                requires
                    dollars as int == u * k + (dollars as int) % u,
                    0 <= (dollars as int) % u,
                    1 <= n <= k,
                    0 < u,
            ;
        }
        let limit: i128 = crossed_limit(&r, buy);
        Outcome::Order(
            Draft {
                symbol: r.symbol,
                is_option: r.is_option,
                buy,
                qty: units as i64,
                limit,
                notional: units * r.unit_price,
                note,
            },
        )
    }
}

fn size_buy(
    a: &Action,
    r: Resolved,
    cfg: &AppConfig,
    state: &PortfolioState,
    budget: Fixed,
) -> (o: Outcome)
    requires
        portfolio_within_limits(state@),
        settings_within_limits(cfg@),
        action_within_limits(a@),
        0 < r.limit_quote <= 100_000 * LIMIT,
        0 < r.unit_price <= 10_000_000 * LIMIT,
        0 <= budget <= LIMIT,
    ensures
        o@ == buy_sized(state@, cfg@, a@, r@, budget as int),
        o matches Outcome::Order(d) ==> within(d.limit as int, 1_000_000 * LIMIT) && 0 < d.notional
            <= budget && d.buy,
{
    let nav: i128 = crate::fixed::larger(state.nav, SMALLEST_NAV);
    let weight: i128 = invested_target_weight(a.ticker.as_str(), cfg.cash_buffer_pct);
    proof {
        times_bound(nav as int, weight as int, LIMIT as int, 2_000);
    }
    let goal: i128 = portion(nav, weight);
    let f: i128 = ONE + cfg.rebalance_band_pct;
    proof {
        times_bound(goal as int, f as int, 2_000 * LIMIT, 1_001);
        times_bound(goal as int, cfg@.rebalance_band_pct, 2_000 * LIMIT, 1_000);
    }
    let cap: i128 = portion(goal, f);
    let band: i128 = portion(goal, cfg.rebalance_band_pct);
    let unit: i128 = r.unit_price;
    let dollars: i128 = smaller(a.dollars, budget);
    if dollars < unit {
        if round_up_to_unit(a.dollars, unit, budget, cap) {
            let note = round_up_text(a.dollars, unit, cap);
            order_units(r, true, unit, note)
        } else {
            Outcome::Skip(too_small_text(a.dollars, unit, budget, band))
        }
    } else {
        order_units(r, true, dollars, "".to_owned())
    }
}

// ── running the proposals ──────────────────────────────────────────────────

/// What became of an order that was ready.
#[derive(Debug, Clone)]
pub enum SubmitReply {
    /// Nothing is submitted in a dry run.
    DryRun,
    /// The broker took the order, in this status.
    Accepted(String),
    /// The broker refused the order, with this message.
    Failed(String),
}

/// The order counts: it was taken, or this is a dry run.
pub open spec fn counts(r: SubmitReply) -> bool {
    r is DryRun || r is Accepted
}

/// The status of an order.
pub open spec fn status_of(r: SubmitReply) -> Seq<char> {
    match r {
        SubmitReply::DryRun => "dry-run"@,
        SubmitReply::Accepted(s) => "submitted ("@ + s@ + ")"@,
        SubmitReply::Failed(m) => "error: "@ + m@,
    }
}

/// The result of an order that was ready.
pub open spec fn settled(a: ActionView, d: DraftView, r: SubmitReply) -> ResultView {
    ResultView {
        ticker: a.ticker + " ("@ + d.symbol + ")"@,
        side: if d.buy {
            "buy"@
        } else {
            "sell"@
        },
        qty: d.qty,
        limit: d.limit,
        dollars: d.notional,
        status: status_of(r),
        reason: a.reason + d.note,
    }
}

/// The cash and the orders that are left in a cycle.
#[derive(Debug, Clone, Copy)]
pub struct Execution {
    /// The cash that buys may still use.
    pub budget: Fixed,
    /// The orders that were made.
    pub submitted: i64,
}

/// The cash and the orders as plain values.
#[verifier::ext_equal]
pub struct Tally {
    pub budget: int,
    pub submitted: int,
}

impl View for Execution {
    type V = Tally;

    open spec fn view(&self) -> Tally {
        Tally { budget: self.budget as int, submitted: self.submitted as int }
    }
}

/// The tally at the start of a cycle.
pub open spec fn opening_tally(p: Portfolio, s: Settings) -> Tally {
    Tally { budget: deployable_cash(p.cash, p.nav, s.cash_buffer_pct), submitted: 0 }
}

/// The tally after an order that was ready.
pub open spec fn tallied(t: Tally, d: DraftView, r: SubmitReply) -> Tally {
    if counts(r) {
        Tally {
            budget: if d.buy {
                t.budget - d.notional
            } else {
                t.budget
            },
            submitted: t.submitted + 1,
        }
    } else {
        t
    }
}

/// The tally stays in range: cash is never negative.
pub open spec fn tally_sound(t: Tally) -> bool {
    0 <= t.budget <= LIMIT
}

impl Execution {
    /// The start of a cycle.
    pub fn begin(state: &PortfolioState, cfg: &AppConfig) -> (r: Self)
        requires
            portfolio_within_limits(state@),
            settings_within_limits(cfg@),
        ensures
            r@ == opening_tally(state@, cfg@),
            tally_sound(r@),
    {
        Execution {
            budget: cash_available_for_buys(state.cash, state.nav, cfg.cash_buffer_pct),
            submitted: 0,
        }
    }

    /// What a proposal comes to now.
    pub fn consider(
        &self,
        a: &Action,
        q: QuoteReply,
        cfg: &AppConfig,
        state: &PortfolioState,
    ) -> (o: Outcome)
        requires
            portfolio_within_limits(state@),
            settings_within_limits(cfg@),
            action_within_limits(a@),
            quote_within_limits(q),
            tally_sound(self@),
        ensures
            o@ == verdict(state@, cfg@, a@, q, self@.budget, self@.submitted),
            o matches Outcome::Order(d) ==> within(d.limit as int, 1_000_000 * LIMIT) && within(
                d.notional as int,
                WIDE as int,
            ) && self@.submitted < cfg@.max_orders_per_day && (d.buy ==> 0 < d.notional
                <= self@.budget),
    {
        if a.kind == ActionKind::ThesisRevalidate {
            return Outcome::Advice;
        }
        if self.submitted >= cfg.max_orders_per_day {
            return Outcome::Skip("max orders/day reached".to_owned());
        }
        match resolve(a, cfg, state, q) {
            Some(r) => {
                if a.kind == ActionKind::Buy {
                    size_buy(a, r, cfg, state, self.budget)
                } else {
                    order_units(r, false, a.dollars, "".to_owned())
                }
            },
            None => Outcome::Skip("unresolved instrument / no price".to_owned()),
        }
    }

    /// Takes note of what became of an order that was ready.
    pub fn settle(&mut self, a: &Action, d: &Draft, r: &SubmitReply) -> (x: ExecResult)
        requires
            tally_sound(old(self)@),
            d.buy ==> 0 < d.notional <= old(self)@.budget,
            old(self)@.submitted < i64::MAX,
        ensures
            x@ == settled(a@, d@, *r),
            final(self)@ == tallied(old(self)@, d@, *r),
            tally_sound(final(self)@),
    {
        let status = match r {
            SubmitReply::DryRun => "dry-run".to_owned(),
            SubmitReply::Accepted(s) => {
                let mut t = "submitted (".to_owned();
                t.append(s.as_str());
                t.append(")");
                t
            },
            SubmitReply::Failed(m) => {
                let mut t = "error: ".to_owned();
                t.append(m.as_str());
                t
            },
        };
        let count = match r {
            SubmitReply::DryRun => true,
            SubmitReply::Accepted(_) => true,
            SubmitReply::Failed(_) => false,
        };
        if count {
            if d.buy {
                self.budget = self.budget - d.notional;
            }
            self.submitted = self.submitted + 1;
        }
        let mut ticker = a.ticker.clone();
        ticker.append(" (");
        ticker.append(d.symbol.as_str());
        ticker.append(")");
        let mut reason = a.reason.clone();
        reason.append(d.note.as_str());
        ExecResult {
            ticker,
            side: if d.buy {
                "buy".to_owned()
            } else {
                "sell".to_owned()
            },
            qty: d.qty,
            limit: d.limit,
            dollars: d.notional,
            status,
            reason,
        }
    }
}

/// The result of a proposal that is no order.
pub fn no_order(a: &Action, o: &Outcome) -> (r: Option<ExecResult>)
    ensures
        match o@ {
            Verdict::Advice => r matches Some(x) && x@ == advised(a@),
            Verdict::Skip(why) => r matches Some(x) && x@ == skipped(a@, why),
            Verdict::Order(_) => r is None,
        },
{
    match o {
        Outcome::Advice => Some(advise(a)),
        Outcome::Skip(why) => Some(skip(a, why.as_str())),
        Outcome::Order(_) => None,
    }
}

/// The result of one proposal, given the quote and what became of its order.
pub open spec fn result_of(
    p: Portfolio,
    s: Settings,
    t: Tally,
    a: ActionView,
    q: QuoteReply,
    r: SubmitReply,
) -> ResultView {
    match verdict(p, s, a, q, t.budget, t.submitted) {
        Verdict::Advice => advised(a),
        Verdict::Skip(why) => skipped(a, why),
        Verdict::Order(d) => settled(a, d, r),
    }
}

/// The tally after one proposal.
pub open spec fn tally_after(
    p: Portfolio,
    s: Settings,
    t: Tally,
    a: ActionView,
    q: QuoteReply,
    r: SubmitReply,
) -> Tally {
    match verdict(p, s, a, q, t.budget, t.submitted) {
        Verdict::Order(d) => tallied(t, d, r),
        _ => t,
    }
}

/// The tally after the first `n` proposals.
pub open spec fn tally_run(
    p: Portfolio,
    s: Settings,
    actions: Seq<ActionView>,
    quotes: Seq<QuoteReply>,
    replies: Seq<SubmitReply>,
    n: int,
) -> Tally
    decreases n,
{
    if n <= 0 {
        opening_tally(p, s)
    } else {
        tally_after(
            p,
            s,
            tally_run(p, s, actions, quotes, replies, n - 1),
            actions[n - 1],
            quotes[n - 1],
            replies[n - 1],
        )
    }
}

/// The results of the first `n` proposals.
pub open spec fn results_run(
    p: Portfolio,
    s: Settings,
    actions: Seq<ActionView>,
    quotes: Seq<QuoteReply>,
    replies: Seq<SubmitReply>,
    n: int,
) -> Seq<ResultView>
    decreases n,
{
    if n <= 0 {
        seq![]
    } else {
        results_run(p, s, actions, quotes, replies, n - 1).push(
            result_of(
                p,
                s,
                tally_run(p, s, actions, quotes, replies, n - 1),
                actions[n - 1],
                quotes[n - 1],
                replies[n - 1],
            ),
        )
    }
}

/// What becomes of the orders of `n` proposals: the broker's answers where the run is
/// armed and there is a broker. Any other run is a dry one.
pub open spec fn answers(armed: bool, broker: Option<Seq<SubmitReply>>, n: int) -> Seq<SubmitReply> {
    match broker {
        Some(replies) if armed => replies,
        _ => Seq::new(n as nat, |i: int| SubmitReply::DryRun),
    }
}

/// The answers of a broker.
pub open spec fn answers_of(broker: Option<&Vec<SubmitReply>>) -> Option<Seq<SubmitReply>> {
    match broker {
        Some(v) => Some(v@),
        None => None,
    }
}

/// Runs the proposals in order, each with its quote and, in an armed run with a
/// broker, with the broker's answer to its order. Not armed, or without a broker, the
/// run is a dry one.
pub fn execute_actions(
    actions: &Vec<Action>,
    cfg: &AppConfig,
    broker: Option<&Vec<SubmitReply>>,
    quotes: &Vec<QuoteReply>,
    armed: bool,
    state: &PortfolioState,
) -> (r: Vec<ExecResult>)
    requires
        portfolio_within_limits(state@),
        settings_within_limits(cfg@),
        quotes@.len() == actions@.len(),
        broker matches Some(replies) ==> replies@.len() == actions@.len(),
        forall|i: int| 0 <= i < actions@.len() ==> action_within_limits(#[trigger] actions@[i]@),
        forall|i: int| 0 <= i < quotes@.len() ==> quote_within_limits(#[trigger] quotes@[i]),
    ensures
        result_views(r@) == results_run(
            state@,
            cfg@,
            action_views(actions@),
            quotes@,
            answers(armed, answers_of(broker), actions@.len() as int),
            actions@.len() as int,
        ),
{
    let ghost views = action_views(actions@);
    let ghost replies = answers(armed, answers_of(broker), actions@.len() as int);
    let mut out: Vec<ExecResult> = Vec::new();
    let mut run = Execution::begin(state, cfg);
    let mut i: usize = 0;
    assert(result_views(out@) =~= results_run(state@, cfg@, views, quotes@, replies, 0));
    while i < actions.len()
        invariant
            i <= actions@.len(),
            views == action_views(actions@),
            portfolio_within_limits(state@),
            settings_within_limits(cfg@),
            quotes@.len() == actions@.len(),
            broker matches Some(v) ==> v@.len() == actions@.len(),
            replies == answers(armed, answers_of(broker), actions@.len() as int),
            forall|i: int| 0 <= i < actions@.len() ==> action_within_limits(#[trigger] actions@[i]@),
            forall|i: int| 0 <= i < quotes@.len() ==> quote_within_limits(#[trigger] quotes@[i]),
            tally_sound(run@),
            run@ == tally_run(state@, cfg@, views, quotes@, replies, i as int),
            result_views(out@) == results_run(state@, cfg@, views, quotes@, replies, i as int),
        decreases actions@.len() - i,
    {
        let a = &actions[i];
        assert(views[i as int] == a@);
        let q: QuoteReply = quotes[i];
        let outcome = run.consider(a, q, cfg, state);
        let ghost before = result_views(out@);
        let ghost t = run@;
        let x = match no_order(a, &outcome) {
            Some(x) => x,
            None => match &outcome {
                Outcome::Order(d) => match (submission(armed, broker.is_some()), broker) {
                    (Submission::Submit, Some(v)) => run.settle(a, d, &v[i]),
                    _ => run.settle(a, d, &SubmitReply::DryRun),
                },
                _ => advise(a),
            },
        };
        let ghost v = x@;
        assert(v == result_of(state@, cfg@, t, views[i as int], q, replies[i as int]));
        out.push(x);
        assert(result_views(out@) =~= before.push(v));
        i += 1;
    }
    out
}

// ── laws of execution ──────────────────────────────────────────────────────

proof fn resolved_unit_is_positive(p: Portfolio, s: Settings, label: Seq<char>, q: QuoteReply)
    ensures
        resolved(p, s, label, q) matches Some(r) ==> 0 < r.unit_price,
{
}

proof fn ordered_fits(r: ResolvedView, buy: bool, dollars: int, note: Seq<char>)
    requires
        0 < r.unit_price,
    ensures
        ordered(r, buy, dollars, note) matches Verdict::Order(d) ==> 0 < d.notional <= dollars && d.buy
            == buy,
{
    let k = dollars / r.unit_price;
    let n = min(k, i64::MAX as int);
    vstd::arithmetic::div_mod::lemma_fundamental_div_mod(dollars, r.unit_price);
    let u = r.unit_price;
    if n >= 1 {
        assert(0 < n * u <= dollars) by (nonlinear_arith)
            requires
                dollars == u * k + dollars % u,
                0 <= dollars % u,
                1 <= n <= k,
                0 < u,
        ;
    }
}

proof fn a_buy_fits_the_budget(
    p: Portfolio,
    s: Settings,
    a: ActionView,
    q: QuoteReply,
    budget: int,
    submitted: int,
)
    ensures
        verdict(p, s, a, q, budget, submitted) matches Verdict::Order(d) ==> (d.buy ==> 0 < d.notional
            <= budget) && submitted < s.max_orders_per_day && d.buy == (a.kind == ActionKind::Buy)
            && 0 < d.notional,
{
    resolved_unit_is_positive(p, s, a.ticker, q);
    if let Some(r) = resolved(p, s, a.ticker, q) {
        let cap = slot_cap(p, s, a.ticker);
        ordered_fits(r, true, r.unit_price, round_up_note(a.dollars, r.unit_price, cap));
        ordered_fits(r, true, min(a.dollars, budget), ""@);
        ordered_fits(r, false, a.dollars, ""@);
    }
}

/// What the buys that count cost together.
pub open spec fn bought_dollars(results: Seq<ResultView>, replies: Seq<SubmitReply>, n: int) -> int
    decreases n,
{
    if n <= 0 {
        0
    } else {
        bought_dollars(results, replies, n - 1) + if results[n - 1].side == "buy"@ && counts(
            replies[n - 1],
        ) {
            results[n - 1].dollars
        } else {
            0
        }
    }
}

proof fn bought_dollars_ignore_later(
    a: Seq<ResultView>,
    b: Seq<ResultView>,
    replies: Seq<SubmitReply>,
    n: int,
)
    requires
        n <= a.len(),
        n <= b.len(),
        forall|i: int| 0 <= i < n ==> #[trigger] a[i] == b[i],
    ensures
        bought_dollars(a, replies, n) == bought_dollars(b, replies, n),
    decreases n,
{
    if n > 0 {
        bought_dollars_ignore_later(a, b, replies, n - 1);
        assert(a[n - 1] == b[n - 1]);
    }
}

/// No leverage: whatever the quotes and whatever the broker replies, the buys that
/// count never cost more together than the cash beyond the protected buffer, and
/// no more orders are made than a day allows.
pub proof fn execution_never_borrows(
    p: Portfolio,
    s: Settings,
    actions: Seq<ActionView>,
    quotes: Seq<QuoteReply>,
    replies: Seq<SubmitReply>,
    n: int,
)
    requires
        0 <= n,
    ensures
        ({
            let t = tally_run(p, s, actions, quotes, replies, n);
            let r = results_run(p, s, actions, quotes, replies, n);
            &&& r.len() == n
            &&& 0 <= t.budget
            &&& bought_dollars(r, replies, n) == opening_tally(p, s).budget - t.budget
            &&& bought_dollars(r, replies, n) <= deployable_cash(p.cash, p.nav, s.cash_buffer_pct)
            &&& 0 <= t.submitted <= max(s.max_orders_per_day, 0)
        }),
    decreases n,
{
    if n > 0 {
        execution_never_borrows(p, s, actions, quotes, replies, n - 1);
        let t = tally_run(p, s, actions, quotes, replies, n - 1);
        let before = results_run(p, s, actions, quotes, replies, n - 1);
        let r = results_run(p, s, actions, quotes, replies, n);
        let (a, q, reply) = (actions[n - 1], quotes[n - 1], replies[n - 1]);
        a_buy_fits_the_budget(p, s, a, q, t.budget, t.submitted);
        bought_dollars_ignore_later(before, r, replies, n - 1);
        assert(r[n - 1] == result_of(p, s, t, a, q, reply));
        assert("buy"@ != "sell"@ && "buy"@ != "none"@) by {
            reveal_strlit("buy");
            reveal_strlit("sell");
            reveal_strlit("none");
            assert("buy"@.len() == 3 && "sell"@.len() == 4 && "none"@.len() == 4);
        }
    }
}

/// A proposal to look at a thesis again is never an order: it is answered with
/// advice, armed or not, and costs neither cash nor one of the day's orders.
pub proof fn a_review_is_never_an_order(
    p: Portfolio,
    s: Settings,
    t: Tally,
    a: ActionView,
    q: QuoteReply,
    r: SubmitReply,
)
    requires
        a.kind == ActionKind::ThesisRevalidate,
    ensures
        result_of(p, s, t, a, q, r) == advised(a),
        tally_after(p, s, t, a, q, r) == t,
{
}

/// A buy that is reported to block the build does: its line is short by more than
/// its band, so the build is not complete.
pub proof fn a_blocker_keeps_the_build_open(p: Portfolio, s: Settings, i: int, planned: int)
    requires
        0 <= i < COUNT,
        symbol_of(table()[i], s) is Some,
        planned <= label_goal(p, s, table()[i].ticker@) - current_value(p, s, table()[i]),
        planned > label_band(p, s, table()[i].ticker@),
        planned > 0,
    ensures
        !line_filled(p, s, i),
{
    label_sizes(p, s, table()[i].ticker@);
    assert(label_goal(p, s, table()[i].ticker@) == crate::rebalance::sizes::goal(p, s, i));
}

proof fn run_without(
    p: Portfolio,
    s: Settings,
    actions: Seq<ActionView>,
    quotes: Seq<QuoteReply>,
    replies: Seq<SubmitReply>,
    k: int,
    n: int,
)
    requires
        0 <= k < actions.len(),
        quotes.len() == actions.len(),
        replies.len() == actions.len(),
        0 <= n <= actions.len(),
        replies[k] is Failed,
    ensures
        n <= k ==> tally_run(p, s, actions.remove(k), quotes.remove(k), replies.remove(k), n) == tally_run(
            p,
            s,
            actions,
            quotes,
            replies,
            n,
        ),
        n <= k ==> results_run(p, s, actions.remove(k), quotes.remove(k), replies.remove(k), n) == results_run(
            p,
            s,
            actions,
            quotes,
            replies,
            n,
        ),
        n > k ==> tally_run(p, s, actions.remove(k), quotes.remove(k), replies.remove(k), n - 1) == tally_run(
            p,
            s,
            actions,
            quotes,
            replies,
            n,
        ),
        n > k ==> results_run(p, s, actions.remove(k), quotes.remove(k), replies.remove(k), n - 1) == results_run(
            p,
            s,
            actions,
            quotes,
            replies,
            n,
        ).remove(k),
        results_run(p, s, actions, quotes, replies, n).len() == n,
    decreases n,
{
    if n > 0 {
        run_without(p, s, actions, quotes, replies, k, n - 1);
        let (a, q, r) = (actions.remove(k), quotes.remove(k), replies.remove(k));
        let all = results_run(p, s, actions, quotes, replies, n);
        let before = results_run(p, s, actions, quotes, replies, n - 1);
        if n <= k {
            assert(a[n - 1] == actions[n - 1] && q[n - 1] == quotes[n - 1] && r[n - 1] == replies[n - 1]);
        } else if n - 1 == k {
            assert(all.remove(k) =~= before);
        } else {
            assert(a[n - 2] == actions[n - 1] && q[n - 2] == quotes[n - 1] && r[n - 2] == replies[n - 1]);
            assert(all.remove(k) =~= before.remove(k).push(all[n - 1]));
        }
    }
}

/// An order that the broker refused leaves the other rows as if it had not been
/// proposed: it uses up no cash and none of the day's orders.
pub proof fn a_refused_order_leaves_the_others_alone(
    p: Portfolio,
    s: Settings,
    actions: Seq<ActionView>,
    quotes: Seq<QuoteReply>,
    replies: Seq<SubmitReply>,
    k: int,
)
    requires
        0 <= k < actions.len(),
        quotes.len() == actions.len(),
        replies.len() == actions.len(),
        replies[k] is Failed,
    ensures
        results_run(p, s, actions, quotes, replies, actions.len() as int).remove(k) == results_run(
            p,
            s,
            actions.remove(k),
            quotes.remove(k),
            replies.remove(k),
            actions.len() - 1,
        ),
{
    run_without(p, s, actions, quotes, replies, k, actions.len() as int);
}

// ── submitting ─────────────────────────────────────────────────────────────

/// What is done with an order that is ready.
#[derive(Debug, Clone, Copy, PartialEq, Eq, Structural)]
pub enum Submission {
    /// It is only written down.
    DryRun,
    /// It goes to the broker.
    Submit,
}

/// What is done with an order that is ready: only an armed run with a broker submits,
/// any other run is a dry one.
pub fn submission(armed: bool, has_client: bool) -> (r: Submission)
    ensures
        r == Submission::Submit <==> armed && has_client,
        r == Submission::DryRun <==> !(armed && has_client),
{
    if armed && has_client {
        Submission::Submit
    } else {
        Submission::DryRun
    }
}

// ── the paper guard ────────────────────────────────────────────────────────

/// The side of an order.
pub open spec fn draft_side(d: DraftView) -> Seq<char> {
    if d.buy {
        "buy"@
    } else {
        "sell"@
    }
}

/// A request asks for just what an order that is ready says: a limit order for the day.
pub open spec fn requests(q: OrderRequest, d: DraftView) -> bool {
    &&& q.symbol@ == d.symbol
    &&& q.qty@ == signed_decimal(d.qty)
    &&& q.side@ == draft_side(d)
    &&& q.kind@ == ORDER_KIND@
    &&& q.limit_price@ == price_text(d.limit)
    &&& q.time_in_force@ == "day"@
    &&& match q.position_intent {
        Some(i) => d.is_option && i@ == intent_of(draft_side(d)),
        None => !d.is_option,
    }
}

/// The request for an order that is ready, on an account: only a paper account gets
/// one. Any other is refused, whatever the order.
pub fn submit_request(account_number: &str, d: &Draft) -> (r: Result<OrderRequest, AlpacaError>)
    requires
        within(d.limit as int, 1_000_000 * WIDE),
    ensures
        match r {
            Ok(q) => is_paper(account_number@) && requests(q, d@),
            Err(AlpacaError::PaperGuard(n)) => !is_paper(account_number@) && n@ == account_number@,
            Err(_) => false,
        },
{
    match verify_paper_account(account_number) {
        Ok(_) => {
            let side = if d.buy {
                "buy"
            } else {
                "sell"
            };
            if d.is_option {
                Ok(option_order_request(d.symbol.as_str(), d.qty, side, d.limit, "day"))
            } else {
                Ok(stock_order_request(d.symbol.as_str(), d.qty, side, d.limit, "day"))
            }
        },
        Err(e) => Err(e),
    }
}

} // verus!
