//! The rebalance rules, applied in a fixed order. The equity sleeve carries the
//! reviews, the profit-takes, the position, cluster and theme caps, and the cash
//! deployment; the moonshot sleeve has a lifecycle of its own. The signal only
//! orders what the rules allow.
use vstd::math::min;
use vstd::prelude::*;
use vstd::string::*;

use crate::alpaca_data::{occ_fields, parse_occ};
use crate::calendar::{day_number, Date, Ymd};
use crate::config::{settings_within_limits, AppConfig, Settings};
use crate::fixed::{
    integer_text, percent, percent_text, portion, ratio, render, rendered, share, signed_decimal, smaller,
    times, within, Fixed, FRACTION_LIMIT, LIMIT, ONE, WIDE,
};
use crate::portfolio::metrics::{fall_between, fall_from, marked_value, marks_within_limits, value_at};
use crate::portfolio::state::{
    held, held_is_a_holding, holding_within_limits, portfolio_within_limits, value_held, HoldingView, Portfolio, PortfolioState,
};
use crate::portfolio::targets::{
    cluster_lines, cluster_lines_in_order, cluster_names, cluster_positions, clusters, instrument_symbol, in_book_order,
    is_leaps, line_of, line_of_facts, names, position, symbol_of, table, table_shape, targets, theme_lines,
    theme_lines_in_order, theme_names, theme_positions, theme_target_weight, themes, weight_of_lines, Target, Tier, COUNT,
    EQUITY, INVESTED,
};
use crate::ranking::{rank, ranked, ranked_member, ranking_is_an_ordered_permutation, Candidate};
use crate::rebalance::ledger::{
    booked, booked_sized, relieved, sellable, sized, sized_weaker, value_of_lines, Book, Ledger, TrimView,
};
use crate::rebalance::signal_bias::{bias_within_limits, multiplier, priority, priority_bound, veto_of, Bias, SignalBias};
use crate::rebalance::sizes::{band, goal, goal_range, label_band, nav_of, times_bound, Sizes, SMALLEST_NAV};
use crate::rebalance::{action_views, buying, revalidating, trimming, Action, ActionKind, ActionView};
use crate::safety::{cash_available_for_buys, deployable_cash};
use crate::str_map::{inserted, inserted_entry, lookup, lookup_found, StrMap};
use crate::text::{join, joined, same, texts};

verus! {

/// A floor name is reviewed from a loss of a quarter on.
pub const FLOOR_REVIEW_DD: i128 = 250_000_000_000;

/// A floor name is trimmed from a gain of 200 % on, by a quarter.
pub const FLOOR_PT_MULT: i128 = 2_000_000_000_000;

pub const FLOOR_PT_TRIM: i128 = 250_000_000_000;

/// An asymmetric name is trimmed from a gain of 400 % on, by three tenths.
pub const ASYM_PT_MULT: i128 = 4_000_000_000_000;

pub const ASYM_PT_TRIM: i128 = 300_000_000_000;

/// A call is halved from a gain of 500 % on.
pub const LEAPS_PT_MULT: i128 = 5_000_000_000_000;

pub const LEAPS_PT_TRIM: i128 = 500_000_000_000;

/// A call is flagged within 60 days of its expiry.
pub const LEAPS_TIME_STOP_DTE: i64 = 60;

/// A micro-cap is halved from a gain of 900 % on.
pub const MICROCAP_PT_MULT: i128 = 9_000_000_000_000;

pub const MICROCAP_PT_TRIM: i128 = 500_000_000_000;

/// Everything that a plan is made from.
#[verifier::ext_equal]
pub struct Scene {
    pub portfolio: Portfolio,
    pub settings: Settings,
    /// The highest price seen of each ticker.
    pub marks: Seq<(Seq<char>, i128)>,
    pub bias: Bias,
    pub asof: Ymd,
}

/// Everything is of a size that the rules can reckon with.
pub open spec fn scene_within_limits(w: Scene) -> bool {
    &&& portfolio_within_limits(w.portfolio)
    &&& settings_within_limits(w.settings)
    &&& marks_within_limits(w.marks)
    &&& bias_within_limits(w.bias)
}

/// The goal of line `i`.
pub open spec fn aim(w: Scene, i: int) -> int {
    goal(w.portfolio, w.settings, i)
}

/// The band of line `i`.
pub open spec fn slack(w: Scene, i: int) -> int {
    band(w.portfolio, w.settings, i)
}

// ── rule 1: reviews and profit-takes ───────────────────────────────────────

/// The tier of a ticker, where the book has it.
pub open spec fn tier_of(ticker: Seq<char>) -> Option<Tier> {
    match line_of(ticker) {
        Some(i) => Some(table()[i].tier),
        None => None,
    }
}

/// Why a floor name is reviewed.
pub open spec fn review_reason(plpc: int, stop: int) -> Seq<char> {
    "Floor down "@ + percent(plpc, 0, false) + "% — re-validate thesis"@ + if plpc <= -stop {
        " (≤ -35% cut zone — exit if a pillar is broken)"@
    } else {
        ""@
    }
}

/// A floor name that has lost a quarter or more.
pub open spec fn needs_review(h: HoldingView) -> bool {
    tier_of(h.ticker) == Some(Tier::Floor) && h.unrealized_plpc <= -FLOOR_REVIEW_DD
}

/// The reviews of the first `n` holdings.
pub open spec fn reviews(w: Scene, n: int) -> Seq<ActionView>
    decreases n,
{
    if n <= 0 {
        seq![]
    } else {
        let before = reviews(w, n - 1);
        let h = w.portfolio.holdings[n - 1];
        if needs_review(h) {
            before.push(
                revalidating(h.ticker, review_reason(h.unrealized_plpc, w.settings.position_stop_pct)),
            )
        } else {
            before
        }
    }
}

/// The gain from which on a tier takes profit, the share that it sells, and the
/// two halves of the reason.
pub open spec fn profit_rule(tier: Tier) -> Option<(int, int, Seq<char>, Seq<char>)> {
    match tier {
        Tier::Floor => Some(
            (FLOOR_PT_MULT as int, FLOOR_PT_TRIM as int, "Floor at "@, "x → trim 25% and ride"@),
        ),
        Tier::Asymmetric => Some(
            (ASYM_PT_MULT as int, ASYM_PT_TRIM as int, "Asymmetric at "@, "x → trim 30% and ride"@),
        ),
        _ => None,
    }
}

/// The ledger after a holding took its profit, where its gain calls for it and
/// the sale is larger than the band.
pub open spec fn profit_taken(w: Scene, l: Ledger, h: HoldingView) -> Ledger {
    match line_of(h.ticker) {
        Some(i) => match profit_rule(table()[i].tier) {
            Some(r) => {
                let dollars = times(h.market_value, r.1);
                if h.unrealized_plpc >= r.0 && dollars > slack(w, i) {
                    booked(
                        l,
                        h.ticker,
                        i,
                        dollars,
                        r.2 + rendered(h.unrealized_plpc + ONE, 1, false) + r.3,
                    )
                } else {
                    l
                }
            },
            None => l,
        },
        None => l,
    }
}

/// The ledger before any rule: what each equity line is worth, and the cash.
pub open spec fn opening(w: Scene) -> Ledger {
    Ledger {
        mv: Seq::new(EQUITY as nat, |i: int| value_held(w.portfolio, table()[i].ticker@)),
        cash: w.portfolio.cash,
        trims: seq![],
    }
}

/// The ledger after the first `n` holdings took their profit.
pub open spec fn profits_taken(w: Scene, n: int) -> Ledger
    decreases n,
{
    if n <= 0 {
        opening(w)
    } else {
        profit_taken(w, profits_taken(w, n - 1), w.portfolio.holdings[n - 1])
    }
}

/// How large the ledger is after `n` holdings took their profit.
pub open spec fn early_bound(n: int) -> int {
    LIMIT * (1 + n)
}

/// A profit-take keeps the ledger within bounds, which grow by one amount.
pub proof fn profit_taken_sized(w: Scene, l: Ledger, h: HoldingView, n: int)
    requires
        0 <= n,
        sized(l, early_bound(n), early_bound(n)),
        within(h.market_value, LIMIT as int),
    ensures
        sized(profit_taken(w, l, h), early_bound(n + 1), early_bound(n + 1)),
        line_of(h.ticker) matches Some(i) ==> 0 <= i < COUNT,
        within(times(h.market_value, FLOOR_PT_TRIM as int), LIMIT as int),
        within(times(h.market_value, ASYM_PT_TRIM as int), LIMIT as int),
{
    table_shape();
    line_of_facts(h.ticker);
    times_bound(h.market_value, FLOOR_PT_TRIM as int, LIMIT as int, 1);
    times_bound(h.market_value, ASYM_PT_TRIM as int, LIMIT as int, 1);
    sized_weaker(l, early_bound(n), early_bound(n), early_bound(n + 1), early_bound(n));
    sized_weaker(l, early_bound(n), early_bound(n), early_bound(n + 1), early_bound(n + 1));
    if let Some(i) = line_of(h.ticker) {
        if let Some(r) = profit_rule(table()[i].tier) {
            assert(crate::portfolio::targets::in_equity(table()[i].tier));
            assert(0 <= i < EQUITY);
            let dollars = times(h.market_value, r.1);
            assert(within(l.mv[i], early_bound(n)));
            booked_sized(
                l,
                h.ticker,
                i,
                dollars,
                r.2 + rendered(h.unrealized_plpc + ONE, 1, false) + r.3,
                early_bound(n + 1),
                early_bound(n),
                LIMIT as int,
            );
        }
    }
}

fn review_text(plpc: Fixed, stop: Fixed) -> (r: String)
    requires
        within(plpc as int, LIMIT as int),
        within(stop as int, FRACTION_LIMIT as int),
    ensures
        r@ == review_reason(plpc as int, stop as int),
{
    let mut s = "Floor down ".to_owned();
    s.append(percent_text(plpc, 0, false).as_str());
    s.append("% — re-validate thesis");
    if plpc <= -stop {
        s.append(" (≤ -35% cut zone — exit if a pillar is broken)");
    } else {
        s.append("");
    }
    s
}

fn review_holdings(state: &PortfolioState, cfg: &AppConfig, Ghost(w): Ghost<Scene>) -> (r: Vec<Action>)
    requires
        scene_within_limits(w),
        w.portfolio == state@,
        w.settings == cfg@,
    ensures
        action_views(r@) == reviews(w, w.portfolio.holdings.len() as int),
{
    let all = targets();
    let mut out: Vec<Action> = Vec::new();
    let mut i: usize = 0;
    assert(action_views(out@) =~= reviews(w, 0));
    while i < state.holdings.len()
        invariant
            i <= state.holdings@.len(),
            all@ == table(),
            all@.len() == COUNT,
            scene_within_limits(w),
            w.portfolio == state@,
            w.settings == cfg@,
            w.portfolio.holdings.len() == state.holdings@.len(),
            action_views(out@) == reviews(w, i as int),
        decreases state.holdings@.len() - i,
    {
        let h = &state.holdings[i];
        assert(w.portfolio.holdings[i as int] == h@);
        assert(holding_within_limits(w.portfolio.holdings[i as int]));
        let floor = match position(h.ticker.as_str()) {
            Some(k) => all[k].tier == Tier::Floor,
            None => false,
        };
        if floor && h.unrealized_plpc <= -FLOOR_REVIEW_DD {
            let reason = review_text(h.unrealized_plpc, cfg.position_stop_pct);
            let ghost before = action_views(out@);
            let a = Action::revalidate(h.ticker.as_str(), reason.as_str());
            let ghost v = a@;
            out.push(a);
            assert(action_views(out@) =~= before.push(v));
        }
        i += 1;
    }
    out
}

fn open_book(state: &PortfolioState, Ghost(w): Ghost<Scene>) -> (r: Book)
    requires
        scene_within_limits(w),
        w.portfolio == state@,
    ensures
        r@ == opening(w),
        sized(r@, early_bound(0), early_bound(0)),
{
    let all = targets();
    let mut mv: Vec<Fixed> = Vec::new();
    let mut i: usize = 0;
    while i < EQUITY
        invariant
            i <= EQUITY,
            all@ == table(),
            all@.len() == COUNT,
            portfolio_within_limits(state@),
            mv@.len() == i,
            forall|k: int|
                0 <= k < i ==> #[trigger] mv@[k] == value_held(state@, table()[k].ticker@),
            forall|k: int| 0 <= k < i ==> within(#[trigger] mv@[k] as int, LIMIT as int),
        decreases EQUITY - i,
    {
        mv.push(state.market_value(all[i].ticker));
        i += 1;
    }
    let r = Book { mv, cash: state.cash, trims: StrMap::new() };
    assert(r@.mv =~= opening(w).mv);
    assert(r@.trims =~= opening(w).trims);
    assert forall|k: int| 0 <= k < EQUITY implies within(#[trigger] r@.mv[k], early_bound(0)) by {
        assert(within(r.mv@[k] as int, LIMIT as int));
    }
    r
}

fn take_profits(
    state: &PortfolioState,
    cfg: &AppConfig,
    sizes: &Sizes,
    book: &mut Book,
    Ghost(w): Ghost<Scene>,
)
    requires
        scene_within_limits(w),
        w.portfolio == state@,
        w.settings == cfg@,
        sizes.measure(state@, cfg@),
        old(book)@ == opening(w),
        sized(old(book)@, early_bound(0), early_bound(0)),
    ensures
        final(book)@ == profits_taken(w, w.portfolio.holdings.len() as int),
        sized(final(book)@, early_bound(10_000), early_bound(10_000)),
{
    let all = targets();
    let mut n: usize = 0;
    while n < state.holdings.len()
        invariant
            n <= state.holdings@.len() <= 10_000,
            all@ == table(),
            all@.len() == COUNT,
            scene_within_limits(w),
            w.portfolio == state@,
            w.settings == cfg@,
            sizes.measure(state@, cfg@),
            w.portfolio.holdings.len() == state.holdings@.len(),
            book@ == profits_taken(w, n as int),
            sized(book@, early_bound(n as int), early_bound(n as int)),
        decreases state.holdings@.len() - n,
    {
        let h = &state.holdings[n];
        assert(w.portfolio.holdings[n as int] == h@);
        assert(holding_within_limits(w.portfolio.holdings[n as int]));
        proof {
            profit_taken_sized(w, book@, h@, n as int);
            sized_weaker(
                book@,
                early_bound(n as int),
                early_bound(n as int),
                WIDE as int,
                WIDE as int,
            );
            table_shape();
        }
        if let Some(i) = position(h.ticker.as_str()) {
            let tier: Tier = all[i].tier;
            if tier == Tier::Floor {
                let dollars: i128 = portion(h.market_value, FLOOR_PT_TRIM);
                if h.unrealized_plpc >= FLOOR_PT_MULT && dollars > sizes.bands[i] {
                    let mut reason = "Floor at ".to_owned();
                    reason.append(render(h.unrealized_plpc + ONE, 1, false).as_str());
                    reason.append("x → trim 25% and ride");
                    book.book(h.ticker.as_str(), i, dollars, reason.as_str());
                }
            } else if tier == Tier::Asymmetric {
                let dollars: i128 = portion(h.market_value, ASYM_PT_TRIM);
                if h.unrealized_plpc >= ASYM_PT_MULT && dollars > sizes.bands[i] {
                    let mut reason = "Asymmetric at ".to_owned();
                    reason.append(render(h.unrealized_plpc + ONE, 1, false).as_str());
                    reason.append("x → trim 30% and ride");
                    book.book(h.ticker.as_str(), i, dollars, reason.as_str());
                }
            }
        }
        n += 1;
    }
    proof {
        sized_weaker(
            book@,
            early_bound(n as int),
            early_bound(n as int),
            early_bound(10_000),
            early_bound(10_000),
        );
    }
}

// ── rule 1b: what the nightly signal says of held names ────────────────────

/// A review of the ticker stands among the proposals.
pub open spec fn listed_for_review(actions: Seq<ActionView>, ticker: Seq<char>) -> bool {
    exists|k: int|
        0 <= k < actions.len() && (#[trigger] actions[k]).kind == ActionKind::ThesisRevalidate
            && actions[k].ticker == ticker
}

/// What the signal holds against a name.
pub open spec fn objections(b: Bias, ticker: Seq<char>) -> Seq<Seq<char>> {
    (match veto_of(b, ticker) {
        Some(v) => seq!["contract: "@ + v],
        None => seq![],
    }) + if b.enabled && b.strong_bearish.contains(ticker) {
        seq!["daily-analysis: strong-bearish consensus"@]
    } else {
        seq![]
    }
}

/// Why a held name is looked at again.
pub open spec fn objection_reason(b: Bias, h: HoldingView) -> Seq<char> {
    joined(objections(b, h.ticker), "; "@) + " — re-validate thesis (held, "@ + percent(
        h.unrealized_plpc,
        0,
        true,
    ) + "% from cost)"@
}

/// The reviews, and behind them the names among the first `n` holdings that the
/// signal objects to and that are not on the list yet.
pub open spec fn flagged(w: Scene, n: int) -> Seq<ActionView>
    decreases n,
{
    if n <= 0 {
        reviews(w, w.portfolio.holdings.len() as int)
    } else {
        let before = flagged(w, n - 1);
        let h = w.portfolio.holdings[n - 1];
        if listed_for_review(before, h.ticker) || objections(w.bias, h.ticker).len() == 0 {
            before
        } else {
            before.push(revalidating(h.ticker, objection_reason(w.bias, h)))
        }
    }
}

fn on_review_list(actions: &Vec<Action>, ticker: &str) -> (r: bool)
    ensures
        r == listed_for_review(action_views(actions@), ticker@),
{
    let mut k: usize = 0;
    let ghost views = action_views(actions@);
    while k < actions.len()
        invariant
            k <= actions@.len(),
            views == action_views(actions@),
            forall|j: int|
                0 <= j < k ==> !((#[trigger] views[j]).kind == ActionKind::ThesisRevalidate
                    && views[j].ticker == ticker@),
        decreases actions@.len() - k,
    {
        assert(views[k as int] == actions@[k as int]@);
        if actions[k].kind == ActionKind::ThesisRevalidate && same(actions[k].ticker.as_str(), ticker) {
            return true;
        }
        k += 1;
    }
    false
}

fn objections_to(bias: &SignalBias, ticker: &str) -> (r: Vec<String>)
    ensures
        texts(r@) == objections(bias@, ticker@),
{
    let mut why: Vec<String> = Vec::new();
    if let Some(v) = bias.buy_vetoed(ticker) {
        let mut s = "contract: ".to_owned();
        s.append(v.as_str());
        why.push(s);
    }
    if bias.enabled && bias.strong_bearish.contains(ticker) {
        why.push("daily-analysis: strong-bearish consensus".to_owned());
    }
    assert(texts(why@) =~= objections(bias@, ticker@));
    why
}

fn flag_holdings(
    state: &PortfolioState,
    bias: &SignalBias,
    actions: &mut Vec<Action>,
    Ghost(w): Ghost<Scene>,
)
    requires
        scene_within_limits(w),
        w.portfolio == state@,
        w.bias == bias@,
        action_views(old(actions)@) == reviews(w, w.portfolio.holdings.len() as int),
    ensures
        action_views(final(actions)@) == flagged(w, w.portfolio.holdings.len() as int),
{
    let mut i: usize = 0;
    while i < state.holdings.len()
        invariant
            i <= state.holdings@.len(),
            scene_within_limits(w),
            w.portfolio == state@,
            w.bias == bias@,
            w.portfolio.holdings.len() == state.holdings@.len(),
            action_views(actions@) == flagged(w, i as int),
        decreases state.holdings@.len() - i,
    {
        let h = &state.holdings[i];
        assert(w.portfolio.holdings[i as int] == h@);
        assert(holding_within_limits(w.portfolio.holdings[i as int]));
        if !on_review_list(actions, h.ticker.as_str()) {
            let why = objections_to(bias, h.ticker.as_str());
            assert(texts(why@).len() == why@.len());
            if why.len() > 0 {
                let mut reason = join(&why, "; ");
                reason.append(" — re-validate thesis (held, ");
                reason.append(percent_text(h.unrealized_plpc, 0, true).as_str());
                reason.append("% from cost)");
                let ghost before = action_views(actions@);
                let a = Action::revalidate(h.ticker.as_str(), reason.as_str());
                let ghost v = a@;
                actions.push(a);
                assert(action_views(actions@) =~= before.push(v));
            }
        }
        i += 1;
    }
}

// ── rule 3: the position cap ───────────────────────────────────────────────

/// Why an oversized position is trimmed.
pub open spec fn position_reason(w: Scene, value: int) -> Seq<char> {
    "position "@ + percent(ratio(value, nav_of(w.portfolio)), 1, false) + "% > "@ + percent(
        w.settings.position_trim_trigger_pct,
        0,
        false,
    ) + "% cap → trim to "@ + percent(w.settings.position_trim_target_pct, 0, false) + "%"@
}

/// The ledger after line `i` was capped: above the trigger it is sold down to the
/// target share, where that is more than the band.
pub open spec fn position_capped(w: Scene, l: Ledger, i: int) -> Ledger {
    let nav = nav_of(w.portfolio);
    let sell = l.mv[i] - times(nav, w.settings.position_trim_target_pct);
    if l.mv[i] > times(nav, w.settings.position_trim_trigger_pct) && sell > slack(w, i) {
        booked(l, table()[i].ticker@, i, sell, position_reason(w, l.mv[i]))
    } else {
        l
    }
}

/// The ledger after the first `n` lines were capped.
pub open spec fn positions_capped(w: Scene, l: Ledger, n: int) -> Ledger
    decreases n,
{
    if n <= 0 {
        l
    } else {
        position_capped(w, positions_capped(w, l, n - 1), n - 1)
    }
}

/// The bound on the value of a line.
pub open spec fn line_bound() -> int {
    20_000 * LIMIT
}

/// The bound on the cash after `n` positions were capped.
pub open spec fn capped_bound(n: int) -> int {
    LIMIT * (20_000 + 40_000 * n)
}

fn share_text(value: Fixed, nav: Fixed) -> (r: String)
    requires
        within(value as int, 1_000_000 * LIMIT),
        SMALLEST_NAV <= nav <= LIMIT,
    ensures
        r@ == percent(ratio(value as int, nav as int), 1, false),
{
    percent_text(share(value, nav), 1, false)
}

fn cap_positions(
    state: &PortfolioState,
    cfg: &AppConfig,
    sizes: &Sizes,
    book: &mut Book,
    Ghost(w): Ghost<Scene>,
)
    requires
        scene_within_limits(w),
        w.portfolio == state@,
        w.settings == cfg@,
        sizes.measure(state@, cfg@),
        sized(old(book)@, early_bound(10_000), early_bound(10_000)),
    ensures
        final(book)@ == positions_capped(w, old(book)@, EQUITY as int),
        sized(final(book)@, line_bound(), capped_bound(EQUITY as int)),
{
    let all = targets();
    let nav: i128 = sizes.nav;
    let ghost start = book@;
    let trigger: i128 = portion(nav, cfg.position_trim_trigger_pct);
    let dest: i128 = portion(nav, cfg.position_trim_target_pct);
    proof {
        times_bound(nav as int, cfg@.position_trim_target_pct, LIMIT as int, 1_000);
        sized_weaker(book@, early_bound(10_000), early_bound(10_000), line_bound(), capped_bound(0));
    }
    let mut i: usize = 0;
    while i < EQUITY
        invariant
            i <= EQUITY,
            all@ == table(),
            all@.len() == COUNT,
            scene_within_limits(w),
            w.portfolio == state@,
            w.settings == cfg@,
            sizes.measure(state@, cfg@),
            nav == nav_of(w.portfolio),
            SMALLEST_NAV <= nav <= LIMIT,
            trigger == times(nav as int, cfg@.position_trim_trigger_pct),
            dest == times(nav as int, cfg@.position_trim_target_pct),
            within(dest as int, 1_000 * LIMIT),
            book@ == positions_capped(w, start, i as int),
            sized(book@, line_bound(), capped_bound(i as int)),
        decreases EQUITY - i,
    {
        let ghost before = book@;
        let value: i128 = book.mv[i];
        assert(before.mv[i as int] == value);
        assert(within(before.mv[i as int], line_bound()));
        let sell: i128 = value - dest;
        if value > trigger && sell > sizes.bands[i] {
            let mut reason = "position ".to_owned();
            reason.append(share_text(value, nav).as_str());
            reason.append("% > ");
            reason.append(percent_text(cfg.position_trim_trigger_pct, 0, false).as_str());
            reason.append("% cap → trim to ");
            reason.append(percent_text(cfg.position_trim_target_pct, 0, false).as_str());
            reason.append("%");
            proof {
                sized_weaker(
                    before,
                    line_bound(),
                    capped_bound(i as int),
                    WIDE as int,
                    WIDE as int,
                );
                booked_sized(
                    before,
                    table()[i as int].ticker@,
                    i as int,
                    sell as int,
                    reason@,
                    line_bound(),
                    capped_bound(i as int),
                    40_000 * LIMIT,
                );
            }
            book.book(all[i].ticker, i, sell, reason.as_str());
        } else {
            proof {
                sized_weaker(
                    before,
                    line_bound(),
                    capped_bound(i as int),
                    line_bound(),
                    capped_bound(i + 1),
                );
            }
        }
        i += 1;
    }
}

// ── rules 2 and 2b: the cluster cap and the theme cap ──────────────────────

/// The members of a group that stand above their goals, each with what it stands
/// above and with its key among trims.
pub open spec fn overweight(w: Scene, l: Ledger, lines: Seq<int>) -> Seq<Candidate>
    decreases lines.len(),
{
    if lines.len() == 0 {
        seq![]
    } else {
        let before = overweight(w, l, lines.drop_last());
        let i = lines.last();
        let above = l.mv[i] - aim(w, i);
        if above > 0 {
            before.push(
                Candidate {
                    index: i as usize,
                    first: above as i128,
                    second: priority(w.bias, table()[i].ticker@) as i128,
                },
            )
        } else {
            before
        }
    }
}

/// The ledger after a group was brought down towards its limit: the members that
/// stand furthest above their goals are sold first, none below its goal.
pub open spec fn group_relieved(
    w: Scene,
    l: Ledger,
    lines: Seq<int>,
    limit: int,
    reason: Seq<char>,
) -> Ledger {
    let value = value_of_lines(l.mv, lines);
    if value <= limit {
        l
    } else {
        relieved(l, ranked(overweight(w, l, lines)), value - limit, reason)
    }
}

/// Why a cluster is trimmed.
pub open spec fn cluster_reason(w: Scene, cluster: Seq<char>, value: int) -> Seq<char> {
    "cluster '"@ + cluster + "' "@ + percent(ratio(value, nav_of(w.portfolio)), 1, false) + "% > "@
        + percent(w.settings.cluster_cap_pct, 0, false) + "% cap → trim"@
}

/// The ledger after a cluster was brought down to the cap.
pub open spec fn cluster_relieved(w: Scene, l: Ledger, cluster: Seq<char>) -> Ledger {
    let lines = cluster_lines(cluster, EQUITY as int);
    group_relieved(
        w,
        l,
        lines,
        times(nav_of(w.portfolio), w.settings.cluster_cap_pct),
        cluster_reason(w, cluster, value_of_lines(l.mv, lines)),
    )
}

/// The ledger after the first `n` clusters.
pub open spec fn clusters_relieved(w: Scene, l: Ledger, n: int) -> Ledger
    decreases n,
{
    if n <= 0 {
        l
    } else {
        cluster_relieved(w, clusters_relieved(w, l, n - 1), cluster_names(EQUITY as int)[n - 1])
    }
}

/// Why a theme is trimmed.
pub open spec fn theme_reason(w: Scene, theme: Seq<char>, value: int, target: int) -> Seq<char> {
    "theme '"@ + theme + "' "@ + percent(ratio(value, nav_of(w.portfolio)), 1, false)
        + "% > target "@ + percent(target, 1, false) + "% + "@ + percent(
        w.settings.theme_drift_band_pct,
        0,
        false,
    ) + "pp drift band → trim"@
}

/// The ledger after a theme was brought down to its own target and the drift band.
pub open spec fn theme_relieved(w: Scene, l: Ledger, theme: Seq<char>) -> Ledger {
    let lines = theme_lines(theme, EQUITY as int);
    let target = weight_of_lines(lines, w.settings.cash_buffer_pct);
    group_relieved(
        w,
        l,
        lines,
        times(nav_of(w.portfolio), target + w.settings.theme_drift_band_pct),
        theme_reason(w, theme, value_of_lines(l.mv, lines), target),
    )
}

/// The ledger after the first `n` themes.
pub open spec fn themes_relieved(w: Scene, l: Ledger, n: int) -> Ledger
    decreases n,
{
    if n <= 0 {
        l
    } else {
        theme_relieved(w, themes_relieved(w, l, n - 1), theme_names(EQUITY as int)[n - 1])
    }
}

/// The bound on the cash after `n` groups were relieved.
pub open spec fn relief_bound(n: int) -> int {
    LIMIT * (660_000 + 320_000 * n)
}

/// The candidates of a group are its overweight members, each once, and each
/// with what it stands above its goal.
pub proof fn overweight_facts(w: Scene, l: Ledger, lines: Seq<int>)
    requires
        scene_within_limits(w),
        sized(l, line_bound(), WIDE as int),
        in_book_order(lines, EQUITY as int),
    ensures
        overweight(w, l, lines).len() <= lines.len(),
        sellable(l, overweight(w, l, lines)),
        crate::ranking::distinct(overweight(w, l, lines)),
        forall|k: int|
            0 <= k < overweight(w, l, lines).len() ==> exists|j: int|
                0 <= j < lines.len() && lines[j] == (#[trigger] overweight(w, l, lines)[k]).index
                    && overweight(w, l, lines)[k].first == l.mv[lines[j]] - aim(w, lines[j]),
    decreases lines.len(),
{
    let all = overweight(w, l, lines);
    if lines.len() > 0 {
        let front = lines.drop_last();
        assert forall|k: int| 0 <= k < front.len() implies 0 <= #[trigger] front[k] < EQUITY by {
            assert(front[k] == lines[k]);
        }
        assert forall|j: int, k: int| 0 <= j < k < front.len() implies #[trigger] front[j]
            < #[trigger] front[k] by {
            assert(lines[j] < lines[k]);
        }
        overweight_facts(w, l, front);
        let before = overweight(w, l, front);
        let i = lines.last();
        assert(0 <= lines[lines.len() - 1] < EQUITY);
        assert(within(l.mv[i], line_bound()));
        goal_range(w.portfolio, w.settings, i);
        priority_bound(w.bias, table()[i].ticker@);
        assert forall|k: int| 0 <= k < all.len() implies exists|j: int|
            0 <= j < lines.len() && lines[j] == (#[trigger] all[k]).index && all[k].first == l.mv[lines[j]]
                - aim(w, lines[j]) by {
            if k < before.len() {
                assert(all[k] == before[k]);
                let j = choose|j: int|
                    0 <= j < front.len() && front[j] == before[k].index && before[k].first == l.mv[front[j]]
                        - aim(w, front[j]);
                assert(lines[j] == front[j]);
            } else {
                assert(lines[lines.len() - 1] == all[k].index);
            }
        }
        if l.mv[i] - aim(w, i) > 0 {
            assert forall|j: int, k: int| 0 <= j < k < all.len() implies (#[trigger] all[j]).index != (
            #[trigger] all[k]).index by {
                if k < before.len() {
                    assert(before[j].index != before[k].index);
                } else {
                    let m = choose|m: int|
                        0 <= m < front.len() && front[m] == before[j].index && before[j].first
                            == l.mv[front[m]] - aim(w, front[m]);
                    assert(lines[m] < lines[lines.len() - 1]);
                    assert(all[j] == before[j]);
                }
            }
            assert forall|k: int| 0 <= k < all.len() implies (#[trigger] all[k]).index < EQUITY && 0
                < all[k].first <= l.mv[all[k].index as int] by {
                if k < before.len() {
                    assert(all[k] == before[k]);
                }
            }
        }
    }
}

/// The candidates stay sellable when they are put in order.
pub proof fn ranked_sellable(l: Ledger, c: Seq<Candidate>)
    requires
        sellable(l, c),
    ensures
        sellable(l, ranked(c)),
        ranked(c).len() == c.len(),
{
    assert(crate::ranking::distinct(c));
    crate::ranking::ranked_distinct(c);
    ranking_is_an_ordered_permutation(c);
    let r = ranked(c);
    assert forall|k: int| 0 <= k < r.len() implies (#[trigger] r[k]).index < EQUITY && 0 < r[k].first
        <= l.mv[r[k].index as int] by {
        let m = ranked_member(c, k);
        assert(c[m] == r[k]);
    }
}

proof fn value_of_lines_bound(l: Ledger, lines: Seq<int>, m: int, c: int)
    requires
        sized(l, m, c),
        0 <= m,
        forall|k: int| 0 <= k < lines.len() ==> 0 <= #[trigger] lines[k] < EQUITY,
    ensures
        within(value_of_lines(l.mv, lines), lines.len() * m),
    decreases lines.len(),
{
    if lines.len() > 0 {
        let front = lines.drop_last();
        assert forall|k: int| 0 <= k < front.len() implies 0 <= #[trigger] front[k] < EQUITY by {
            assert(front[k] == lines[k]);
        }
        value_of_lines_bound(l, front, m, c);
        assert(0 <= lines[lines.len() - 1] < EQUITY);
        assert(within(l.mv[lines.last()], m));
        assert(front.len() * m + m == lines.len() * m) by (nonlinear_arith)
            requires
                front.len() + 1 == lines.len(),
        ;
    }
}

/// The numbers of some lines.
pub open spec fn numbers(v: Seq<usize>) -> Seq<int> {
    v.map_values(|i: usize| i as int)
}

fn group_value(book: &Book, lines: &Vec<usize>) -> (r: Fixed)
    requires
        sized(book@, line_bound(), WIDE as int),
        in_book_order(numbers(lines@), EQUITY as int),
    ensures
        r == value_of_lines(book@.mv, numbers(lines@)),
        within(r as int, 320_000 * LIMIT),
{
    let ghost all = numbers(lines@);
    let mut sum: i128 = 0;
    let mut k: usize = 0;
    while k < lines.len()
        invariant
            k <= lines@.len() <= EQUITY,
            all == numbers(lines@),
            in_book_order(all, EQUITY as int),
            sized(book@, line_bound(), WIDE as int),
            sum == value_of_lines(book@.mv, all.take(k as int)),
            within(sum as int, LIMIT * (20_000 * k)),
        decreases lines@.len() - k,
    {
        assert(all.take(k + 1).drop_last() == all.take(k as int));
        assert(all[k as int] == lines@[k as int]);
        assert(all.take(k + 1).last() == lines@[k as int]);
        let i: usize = lines[k];
        assert(within(book@.mv[i as int], line_bound()));
        sum = sum + book.mv[i];
        k += 1;
    }
    assert(all.take(all.len() as int) == all);
    sum
}

fn overweight_members(
    lines: &Vec<usize>,
    book: &Book,
    bias: &SignalBias,
    sizes: &Sizes,
    Ghost(w): Ghost<Scene>,
) -> (r: Vec<Candidate>)
    requires
        scene_within_limits(w),
        w.bias == bias@,
        sizes.measure(w.portfolio, w.settings),
        sized(book@, line_bound(), WIDE as int),
        in_book_order(numbers(lines@), EQUITY as int),
    ensures
        r@ == overweight(w, book@, numbers(lines@)),
{
    let table_lines = targets();
    let ghost all = numbers(lines@);
    let mut out: Vec<Candidate> = Vec::new();
    let mut k: usize = 0;
    while k < lines.len()
        invariant
            k <= lines@.len() <= EQUITY,
            table_lines@ == table(),
            table_lines@.len() == COUNT,
            all == numbers(lines@),
            in_book_order(all, EQUITY as int),
            scene_within_limits(w),
            w.bias == bias@,
            sizes.measure(w.portfolio, w.settings),
            sized(book@, line_bound(), WIDE as int),
            out@ == overweight(w, book@, all.take(k as int)),
        decreases lines@.len() - k,
    {
        assert(all.take(k + 1).drop_last() == all.take(k as int));
        assert(all[k as int] == lines@[k as int]);
        assert(all.take(k + 1).last() == lines@[k as int]);
        let i: usize = lines[k];
        assert(within(book@.mv[i as int], line_bound()));
        let above: i128 = book.mv[i] - sizes.goals[i];
        if above > 0 {
            out.push(
                Candidate {
                    index: i,
                    first: above,
                    second: bias.trim_priority(table_lines[i].ticker),
                },
            );
        }
        k += 1;
    }
    assert(all.take(all.len() as int) == all);
    out
}

fn relieve_group(
    lines: &Vec<usize>,
    value: Fixed,
    limit: Fixed,
    reason: &str,
    book: &mut Book,
    bias: &SignalBias,
    sizes: &Sizes,
    Ghost(w): Ghost<Scene>,
    Ghost(n): Ghost<int>,
)
    requires
        scene_within_limits(w),
        w.bias == bias@,
        sizes.measure(w.portfolio, w.settings),
        0 <= n < 64,
        sized(old(book)@, line_bound(), relief_bound(n)),
        in_book_order(numbers(lines@), EQUITY as int),
        value == value_of_lines(old(book)@.mv, numbers(lines@)),
        within(value as int, 320_000 * LIMIT),
        within(limit as int, 100_000_000 * LIMIT),
    ensures
        final(book)@ == group_relieved(w, old(book)@, numbers(lines@), limit as int, reason@),
        sized(final(book)@, line_bound(), relief_bound(n + 1)),
{
    let ghost start = book@;
    proof {
        sized_weaker(start, line_bound(), relief_bound(n), line_bound(), WIDE as int);
        sized_weaker(start, line_bound(), relief_bound(n), line_bound(), relief_bound(n + 1));
    }
    if value > limit {
        let found = overweight_members(lines, book, bias, sizes, Ghost(w));
        proof {
            overweight_facts(w, start, numbers(lines@));
            ranked_sellable(start, found@);
        }
        let ordered = rank(&found);
        book.relieve(&ordered, value - limit, reason, Ghost(line_bound()), Ghost(relief_bound(n)));
    }
}

/// There are no more clusters or themes than lines.
pub proof fn cluster_names_count(n: int)
    requires
        0 <= n,
    ensures
        cluster_names(n).len() <= n,
        theme_names(n).len() <= n,
    decreases n,
{
    if n > 0 {
        cluster_names_count(n - 1);
    }
}

fn relieve_clusters(
    cfg: &AppConfig,
    bias: &SignalBias,
    sizes: &Sizes,
    book: &mut Book,
    Ghost(w): Ghost<Scene>,
)
    requires
        scene_within_limits(w),
        w.settings == cfg@,
        w.bias == bias@,
        sizes.measure(w.portfolio, w.settings),
        sized(old(book)@, line_bound(), relief_bound(0)),
    ensures
        final(book)@ == clusters_relieved(
            w,
            old(book)@,
            cluster_names(EQUITY as int).len() as int,
        ),
        sized(final(book)@, line_bound(), relief_bound(16)),
{
    let all = clusters();
    let nav: i128 = sizes.nav;
    let ghost start = book@;
    let limit: i128 = portion(nav, cfg.cluster_cap_pct);
    proof {
        cluster_names_count(EQUITY as int);
        times_bound(nav as int, cfg@.cluster_cap_pct, LIMIT as int, 1_000);
        assert(names(all@).len() == all@.len());
    }
    let mut n: usize = 0;
    while n < all.len()
        invariant
            n <= all@.len() <= 16,
            names(all@) == cluster_names(EQUITY as int),
            scene_within_limits(w),
            w.settings == cfg@,
            w.bias == bias@,
            sizes.measure(w.portfolio, w.settings),
            nav == nav_of(w.portfolio),
            SMALLEST_NAV <= nav <= LIMIT,
            limit == times(nav as int, cfg@.cluster_cap_pct),
            within(limit as int, 1_000 * LIMIT),
            book@ == clusters_relieved(w, start, n as int),
            sized(book@, line_bound(), relief_bound(n as int)),
        decreases all@.len() - n,
    {
        let c: &'static str = all[n];
        assert(cluster_names(EQUITY as int)[n as int] == c@);
        let lines = cluster_positions(c);
        proof {
            cluster_lines_in_order(c@, EQUITY as int);
            sized_weaker(book@, line_bound(), relief_bound(n as int), line_bound(), WIDE as int);
        }
        let value: i128 = group_value(book, &lines);
        let mut reason = "cluster '".to_owned();
        reason.append(c);
        reason.append("' ");
        reason.append(share_text(value, nav).as_str());
        reason.append("% > ");
        reason.append(percent_text(cfg.cluster_cap_pct, 0, false).as_str());
        reason.append("% cap → trim");
        relieve_group(
            &lines,
            value,
            limit,
            reason.as_str(),
            book,
            bias,
            sizes,
            Ghost(w),
            Ghost(n as int),
        );
        n += 1;
    }
    proof {
        sized_weaker(book@, line_bound(), relief_bound(n as int), line_bound(), relief_bound(16));
    }
}

fn relieve_themes(
    cfg: &AppConfig,
    bias: &SignalBias,
    sizes: &Sizes,
    book: &mut Book,
    Ghost(w): Ghost<Scene>,
)
    requires
        scene_within_limits(w),
        w.settings == cfg@,
        w.bias == bias@,
        sizes.measure(w.portfolio, w.settings),
        sized(old(book)@, line_bound(), relief_bound(16)),
    ensures
        final(book)@ == themes_relieved(w, old(book)@, theme_names(EQUITY as int).len() as int),
        sized(final(book)@, line_bound(), relief_bound(32)),
{
    let all = themes();
    let nav: i128 = sizes.nav;
    let ghost start = book@;
    proof {
        cluster_names_count(EQUITY as int);
        assert(names(all@).len() == all@.len());
    }
    let mut n: usize = 0;
    while n < all.len()
        invariant
            n <= all@.len() <= 16,
            names(all@) == theme_names(EQUITY as int),
            scene_within_limits(w),
            w.settings == cfg@,
            w.bias == bias@,
            sizes.measure(w.portfolio, w.settings),
            nav == nav_of(w.portfolio),
            SMALLEST_NAV <= nav <= LIMIT,
            book@ == themes_relieved(w, start, n as int),
            sized(book@, line_bound(), relief_bound(16 + n)),
        decreases all@.len() - n,
    {
        let th: &'static str = all[n];
        assert(theme_names(EQUITY as int)[n as int] == th@);
        let lines = theme_positions(th);
        proof {
            theme_lines_in_order(th@, EQUITY as int);
            sized_weaker(book@, line_bound(), relief_bound(16 + n), line_bound(), WIDE as int);
        }
        let value: i128 = group_value(book, &lines);
        let target: i128 = theme_target_weight(th, cfg.cash_buffer_pct);
        let limit: i128 = portion(nav, target + cfg.theme_drift_band_pct);
        proof {
            times_bound(
                nav as int,
                target + cfg@.theme_drift_band_pct,
                LIMIT as int,
                33_000,
            );
        }
        let mut reason = "theme '".to_owned();
        reason.append(th);
        reason.append("' ");
        reason.append(share_text(value, nav).as_str());
        reason.append("% > target ");
        reason.append(percent_text(target, 1, false).as_str());
        reason.append("% + ");
        reason.append(percent_text(cfg.theme_drift_band_pct, 0, false).as_str());
        reason.append("pp drift band → trim");
        relieve_group(
            &lines,
            value,
            limit,
            reason.as_str(),
            book,
            bias,
            sizes,
            Ghost(w),
            Ghost(16 + n),
        );
        n += 1;
    }
    proof {
        sized_weaker(book@, line_bound(), relief_bound(16 + n), line_bound(), relief_bound(32));
    }
}

// ── the trims ──────────────────────────────────────────────────────────────

/// The proposals for the first `n` tickers with trims: a ticker's trims together
/// must be larger than its band.
pub open spec fn emitted(w: Scene, trims: Seq<(Seq<char>, TrimView)>, n: int) -> Seq<ActionView>
    decreases n,
{
    if n <= 0 {
        seq![]
    } else {
        let before = emitted(w, trims, n - 1);
        let (ticker, t) = trims[n - 1];
        if t.dollars > label_band(w.portfolio, w.settings, ticker) {
            before.push(trimming(ticker, t.dollars, t.reason))
        } else {
            before
        }
    }
}

fn emit_trims(
    state: &PortfolioState,
    cfg: &AppConfig,
    sizes: &Sizes,
    book: &Book,
    actions: &mut Vec<Action>,
    Ghost(w): Ghost<Scene>,
)
    requires
        scene_within_limits(w),
        w.portfolio == state@,
        w.settings == cfg@,
        sizes.measure(state@, cfg@),
    ensures
        action_views(final(actions)@) == action_views(old(actions)@) + emitted(
            w,
            book@.trims,
            book@.trims.len() as int,
        ),
{
    let ghost start = action_views(actions@);
    let mut n: usize = 0;
    assert(start =~= start + emitted(w, book@.trims, 0));
    while n < book.trims.len()
        invariant
            n <= book.trims@.len(),
            scene_within_limits(w),
            w.portfolio == state@,
            w.settings == cfg@,
            sizes.measure(state@, cfg@),
            action_views(actions@) == start + emitted(w, book@.trims, n as int),
        decreases book.trims@.len() - n,
    {
        let ticker = book.trims.key_at(n);
        let t = book.trims.value_at(n);
        if t.dollars > sizes.band_of(ticker.as_str(), state, cfg) {
            let ghost before = action_views(actions@);
            let a = Action::trim(ticker.as_str(), t.dollars, t.reason.as_str());
            let ghost v = a@;
            actions.push(a);
            assert(action_views(actions@) =~= before.push(v));
            assert(before.push(v) =~= start + emitted(w, book@.trims, n as int).push(v));
        }
        n += 1;
    }
}

// ── rule 4: deploying cash on a fall ───────────────────────────────────────

/// The mark of a holding: the highest price seen, or its price now.
pub open spec fn mark_of(w: Scene, h: HoldingView) -> int {
    match lookup(w.marks, h.ticker) {
        Some(m) => m as int,
        None => h.price,
    }
}

/// The falls of the equity names among the first `n` holdings.
pub open spec fn falls(w: Scene, n: int) -> Seq<(Seq<char>, i128)>
    decreases n,
{
    if n <= 0 {
        seq![]
    } else {
        let before = falls(w, n - 1);
        let h = w.portfolio.holdings[n - 1];
        let equity = tier_of(h.ticker) == Some(Tier::Floor) || tier_of(h.ticker) == Some(
            Tier::Asymmetric,
        );
        if equity && mark_of(w, h) > 0 && h.price > 0 {
            inserted(before, h.ticker, fall_from(mark_of(w, h), h.price) as i128)
        } else {
            before
        }
    }
}

/// The fall of a label; nothing where it is not held.
pub open spec fn fall_of(w: Scene, label: Seq<char>) -> int {
    match lookup(falls(w, w.portfolio.holdings.len() as int), label) {
        Some(x) => x as int,
        None => 0,
    }
}

/// The holding of line `i` that counts towards its cluster's fall: it is worth
/// something, and its price and its mark are known.
pub open spec fn counted(w: Scene, i: int) -> Option<HoldingView> {
    match held(w.portfolio, table()[i].ticker@) {
        Some(h) => if h.market_value > 0 && h.price > 0 && mark_of(w, h) > 0 {
            Some(h)
        } else {
            None
        },
        None => None,
    }
}

/// What line `i` is worth.
pub open spec fn line_now(w: Scene, i: int) -> int {
    match counted(w, i) {
        Some(h) => h.market_value,
        None => 0,
    }
}

/// What line `i` would be worth at its mark.
pub open spec fn line_at_mark(w: Scene, i: int) -> int {
    match counted(w, i) {
        Some(h) => value_at(mark_of(w, h), h.price, h.market_value),
        None => 0,
    }
}

/// What the lines are worth together.
pub open spec fn cohort_now(w: Scene, lines: Seq<int>) -> int
    decreases lines.len(),
{
    if lines.len() == 0 {
        0
    } else {
        cohort_now(w, lines.drop_last()) + line_now(w, lines.last())
    }
}

/// What the lines would be worth together at their marks.
pub open spec fn cohort_at_marks(w: Scene, lines: Seq<int>) -> int
    decreases lines.len(),
{
    if lines.len() == 0 {
        0
    } else {
        cohort_at_marks(w, lines.drop_last()) + line_at_mark(w, lines.last())
    }
}

/// The fall of the lines as a whole from what they would be worth at their marks;
/// nothing where none is held.
pub open spec fn cohort_fall(w: Scene, lines: Seq<int>) -> int {
    if cohort_at_marks(w, lines) > 0 {
        fall_from(cohort_at_marks(w, lines), cohort_now(w, lines))
    } else {
        0
    }
}

/// The cluster as a whole has fallen by more than it may.
pub open spec fn stressed(w: Scene, cluster: Seq<char>) -> bool {
    cohort_fall(w, cluster_lines(cluster, EQUITY as int)) > w.settings.drawdown_deploy_pct
}

/// The name has fallen by more than it may, or its cluster is stressed.
pub open spec fn triggered(w: Scene, i: int) -> bool {
    fall_of(w, table()[i].ticker@) > w.settings.drawdown_deploy_single_pct || stressed(
        w,
        table()[i].cluster@,
    )
}

/// The name may be bought: nothing vetoes it, it stands below its goal by more
/// than its band, and the fall calls for it.
pub open spec fn may_buy(w: Scene, l: Ledger, i: int) -> bool {
    &&& veto_of(w.bias, table()[i].ticker@) is None
    &&& aim(w, i) - l.mv[i] > slack(w, i)
    &&& triggered(w, i)
}

/// The lines among the first `n` that may be bought, each with its key among buys
/// and with what it stands above its goal.
pub open spec fn eligible(w: Scene, l: Ledger, n: int) -> Seq<Candidate>
    decreases n,
{
    if n <= 0 {
        seq![]
    } else {
        let before = eligible(w, l, n - 1);
        let i = n - 1;
        if may_buy(w, l, i) {
            before.push(
                Candidate {
                    index: i as usize,
                    first: priority(w.bias, table()[i].ticker@) as i128,
                    second: (l.mv[i] - aim(w, i)) as i128,
                },
            )
        } else {
            before
        }
    }
}

/// The cash that the rule may use: what the buffer leaves, slowed by the regime.
pub open spec fn deployable(w: Scene, l: Ledger) -> int {
    times(
        deployable_cash(l.cash, nav_of(w.portfolio), w.settings.cash_buffer_pct),
        multiplier(w.bias.macro_score),
    )
}

/// The smallest amount that is worth deploying: the smallest positive band among
/// the first `n` lines, or the band on the whole account where that is smaller.
pub open spec fn least_band(w: Scene, n: int) -> int
    decreases n,
{
    if n <= 0 {
        times(nav_of(w.portfolio), w.settings.rebalance_band_pct)
    } else {
        let before = least_band(w, n - 1);
        let b = slack(w, n - 1);
        if b > 0 {
            min(b, before)
        } else {
            before
        }
    }
}

/// Why cash is deployed into a name.
pub open spec fn deploy_reason(fall: int) -> Seq<char> {
    "drawdown deploy: down "@ + percent(fall, 0, false) + "% from high, below target → add"@
}

/// Buys the candidates in order up to their goals while cash is left that is
/// worth deploying.
pub open spec fn bought(w: Scene, candidates: Seq<Candidate>, cash: int, least: int) -> Seq<ActionView>
    decreases candidates.len(),
{
    if candidates.len() == 0 || cash <= least {
        seq![]
    } else {
        let c = candidates[0];
        let i = c.index as int;
        let take = min(-c.second as int, cash);
        if take > slack(w, i) {
            seq![buying(table()[i].ticker@, take, deploy_reason(fall_of(w, table()[i].ticker@)))]
                + bought(w, candidates.drop_first(), cash - take, least)
        } else {
            bought(w, candidates.drop_first(), cash, least)
        }
    }
}

/// The buys of the rule.
pub open spec fn deployments(w: Scene, l: Ledger) -> Seq<ActionView> {
    bought(
        w,
        ranked(eligible(w, l, EQUITY as int)),
        deployable(w, l),
        least_band(w, EQUITY as int),
    )
}

/// Every fall lies between 0 and 1.
pub open spec fn falls_in_range(m: Seq<(Seq<char>, i128)>) -> bool {
    forall|i: int| 0 <= i < m.len() ==> 0 <= (#[trigger] m[i]).1 <= ONE
}

proof fn inserted_falls(m: Seq<(Seq<char>, i128)>, k: Seq<char>, v: i128)
    requires
        falls_in_range(m),
        0 <= v <= ONE,
    ensures
        falls_in_range(inserted(m, k, v)),
{
    let t = inserted(m, k, v);
    assert forall|i: int| 0 <= i < t.len() implies 0 <= (#[trigger] t[i]).1 <= ONE by {
        inserted_entry(m, k, v, i);
    }
}

fn measure_falls(
    state: &PortfolioState,
    high_water: &StrMap<Fixed>,
    Ghost(w): Ghost<Scene>,
) -> (r: StrMap<Fixed>)
    requires
        scene_within_limits(w),
        w.portfolio == state@,
        w.marks == high_water@,
    ensures
        r@ == falls(w, w.portfolio.holdings.len() as int),
        falls_in_range(r@),
{
    let all = targets();
    let mut m: StrMap<Fixed> = StrMap::new();
    let mut n: usize = 0;
    while n < state.holdings.len()
        invariant
            n <= state.holdings@.len(),
            all@ == table(),
            all@.len() == COUNT,
            scene_within_limits(w),
            w.portfolio == state@,
            w.marks == high_water@,
            w.portfolio.holdings.len() == state.holdings@.len(),
            m@ == falls(w, n as int),
            falls_in_range(m@),
        decreases state.holdings@.len() - n,
    {
        let h = &state.holdings[n];
        assert(w.portfolio.holdings[n as int] == h@);
        assert(holding_within_limits(w.portfolio.holdings[n as int]));
        let equity = match position(h.ticker.as_str()) {
            Some(i) => all[i].tier == Tier::Floor || all[i].tier == Tier::Asymmetric,
            None => false,
        };
        if equity {
            proof {
                lookup_found(w.marks, h.ticker@);
                if let Some(x) = lookup(w.marks, h.ticker@) {
                    let i = choose|i: int|
                        0 <= i < w.marks.len() && #[trigger] w.marks[i] == (h.ticker@, x);
                    assert(within(w.marks[i].1 as int, 100_000 * LIMIT));
                }
            }
            let mark: i128 = match high_water.get(h.ticker.as_str()) {
                Some(x) => *x,
                None => h.price,
            };
            if mark > 0 && h.price > 0 {
                let f: i128 = fall_between(mark, h.price);
                proof {
                    inserted_falls(m@, h.ticker@, f);
                }
                m.insert(h.ticker.clone(), f);
            }
        }
        n += 1;
    }
    m
}

fn fall_in(m: &StrMap<Fixed>, label: &str, Ghost(w): Ghost<Scene>) -> (r: Fixed)
    requires
        m@ == falls(w, w.portfolio.holdings.len() as int),
        falls_in_range(m@),
    ensures
        r == fall_of(w, label@),
        0 <= r <= ONE,
{
    proof {
        lookup_found(m@, label@);
        if let Some(x) = lookup(m@, label@) {
            let i = choose|i: int| 0 <= i < m@.len() && #[trigger] m@[i] == (label@, x);
            assert(0 <= m@[i].1 <= ONE);
        }
    }
    match m.get(label) {
        Some(x) => *x,
        None => 0,
    }
}

/// What line `i` is worth, and what it would be worth at its mark.
fn measure_line(
    i: usize,
    state: &PortfolioState,
    high_water: &StrMap<Fixed>,
    Ghost(w): Ghost<Scene>,
) -> (r: (Fixed, Fixed))
    requires
        i < EQUITY,
        scene_within_limits(w),
        w.portfolio == state@,
        w.marks == high_water@,
    ensures
        r.0 == line_now(w, i as int),
        r.1 == line_at_mark(w, i as int),
        0 <= r.0 <= LIMIT,
        0 <= r.1 <= WIDE,
{
    proof {
        table_shape();
    }
    let ticker = targets()[i].ticker;
    proof {
        held_is_a_holding(state@, ticker@);
    }
    match state.holding(ticker) {
        Some(h) => {
            assert(holding_within_limits(h@));
            proof {
                lookup_found(w.marks, h.ticker@);
                if let Some(x) = lookup(w.marks, h.ticker@) {
                    let i = choose|i: int|
                        0 <= i < w.marks.len() && #[trigger] w.marks[i] == (h.ticker@, x);
                    assert(within(w.marks[i].1 as int, 100_000 * LIMIT));
                }
            }
            let mark: i128 = match high_water.get(h.ticker.as_str()) {
                Some(x) => *x,
                None => h.price,
            };
            if h.market_value > 0 && h.price > 0 && mark > 0 {
                (h.market_value, marked_value(mark, h.price, h.market_value))
            } else {
                (0, 0)
            }
        },
        None => (0, 0),
    }
}

fn is_stressed(
    cluster: &str,
    state: &PortfolioState,
    cfg: &AppConfig,
    high_water: &StrMap<Fixed>,
    Ghost(w): Ghost<Scene>,
) -> (r: bool)
    requires
        scene_within_limits(w),
        w.portfolio == state@,
        w.settings == cfg@,
        w.marks == high_water@,
    ensures
        r == stressed(w, cluster@),
{
    let lines = cluster_positions(cluster);
    let ghost nums = numbers(lines@);
    proof {
        cluster_lines_in_order(cluster@, EQUITY as int);
    }
    let mut now: i128 = 0;
    let mut peak: i128 = 0;
    let mut k: usize = 0;
    assert(nums.take(0) =~= seq![]);
    while k < lines.len()
        invariant
            k <= lines@.len(),
            lines@.len() <= EQUITY,
            nums == numbers(lines@),
            forall|k: int| 0 <= k < lines@.len() ==> #[trigger] lines@[k] < EQUITY,
            scene_within_limits(w),
            w.portfolio == state@,
            w.marks == high_water@,
            now == cohort_now(w, nums.take(k as int)),
            peak == cohort_at_marks(w, nums.take(k as int)),
            0 <= now <= k * LIMIT,
            0 <= peak <= k * WIDE,
        decreases lines@.len() - k,
    {
        let (a, b) = measure_line(lines[k], state, high_water, Ghost(w));
        proof {
            assert(nums.take(k + 1).drop_last() =~= nums.take(k as int));
            assert(nums.take(k + 1).last() == lines@[k as int]);
        }
        now = now + a;
        peak = peak + b;
        k += 1;
    }
    assert(nums.take(k as int) =~= nums);
    let fall: i128 = if peak > 0 {
        fall_between(peak, now)
    } else {
        0
    };
    fall > cfg.drawdown_deploy_pct
}

fn find_eligible(
    book: &Book,
    state: &PortfolioState,
    cfg: &AppConfig,
    high_water: &StrMap<Fixed>,
    bias: &SignalBias,
    sizes: &Sizes,
    m: &StrMap<Fixed>,
    Ghost(w): Ghost<Scene>,
) -> (r: Vec<Candidate>)
    requires
        scene_within_limits(w),
        w.portfolio == state@,
        w.settings == cfg@,
        w.marks == high_water@,
        w.bias == bias@,
        sizes.measure(w.portfolio, w.settings),
        sized(book@, line_bound(), WIDE as int),
        m@ == falls(w, w.portfolio.holdings.len() as int),
        falls_in_range(m@),
    ensures
        r@ == eligible(w, book@, EQUITY as int),
        r@.len() <= EQUITY,
        buyable(r@),
{
    let all = targets();
    let mut out: Vec<Candidate> = Vec::new();
    let mut i: usize = 0;
    while i < EQUITY
        invariant
            i <= EQUITY,
            all@ == table(),
            all@.len() == COUNT,
            scene_within_limits(w),
            w.portfolio == state@,
            w.settings == cfg@,
            w.marks == high_water@,
            w.bias == bias@,
            sizes.measure(w.portfolio, w.settings),
            sized(book@, line_bound(), WIDE as int),
            m@ == falls(w, w.portfolio.holdings.len() as int),
            falls_in_range(m@),
            out@ == eligible(w, book@, i as int),
            out@.len() <= i,
            buyable(out@),
        decreases EQUITY - i,
    {
        let t: Target = all[i];
        let ghost l = book@;
        assert(within(l.mv[i as int], line_bound()));
        let above: i128 = book.mv[i] - sizes.goals[i];
        let fall: i128 = fall_in(m, t.ticker, Ghost(w));
        let vetoed = bias.buy_vetoed(t.ticker).is_some();
        if !vetoed && -above > sizes.bands[i] && (fall > cfg.drawdown_deploy_single_pct || is_stressed(
            t.cluster,
            state,
            cfg,
            high_water,
            Ghost(w),
        )) {
            assert(may_buy(w, l, i as int));
            out.push(Candidate { index: i, first: bias.buy_priority(t.ticker), second: above });
        }
        i += 1;
    }
    out
}

/// The candidates are equity lines of bounded size.
pub open spec fn buyable(c: Seq<Candidate>) -> bool {
    forall|k: int|
        0 <= k < c.len() ==> (#[trigger] c[k]).index < EQUITY && within(
            c[k].second as int,
            100_000 * LIMIT,
        )
}

fn least_worth(cfg: &AppConfig, sizes: &Sizes, Ghost(w): Ghost<Scene>) -> (r: Fixed)
    requires
        scene_within_limits(w),
        w.settings == cfg@,
        sizes.measure(w.portfolio, w.settings),
    ensures
        r == least_band(w, EQUITY as int),
{
    let mut least: i128 = portion(sizes.nav, cfg.rebalance_band_pct);
    let mut i: usize = 0;
    while i < EQUITY
        invariant
            i <= EQUITY,
            w.settings == cfg@,
            sizes.measure(w.portfolio, w.settings),
            least == least_band(w, i as int),
        decreases EQUITY - i,
    {
        let b: i128 = sizes.bands[i];
        if b > 0 {
            least = smaller(b, least);
        }
        i += 1;
    }
    least
}

fn deploy_cash(
    state: &PortfolioState,
    cfg: &AppConfig,
    high_water: &StrMap<Fixed>,
    bias: &SignalBias,
    sizes: &Sizes,
    book: &Book,
    m: &StrMap<Fixed>,
    actions: &mut Vec<Action>,
    Ghost(w): Ghost<Scene>,
)
    requires
        scene_within_limits(w),
        w.portfolio == state@,
        w.settings == cfg@,
        w.marks == high_water@,
        w.bias == bias@,
        sizes.measure(w.portfolio, w.settings),
        sized(book@, line_bound(), WIDE as int),
        m@ == falls(w, w.portfolio.holdings.len() as int),
        falls_in_range(m@),
    ensures
        action_views(final(actions)@) == action_views(old(actions)@) + deployments(w, book@),
{
    let all = targets();
    let least: i128 = least_worth(cfg, sizes, Ghost(w));
    let free: i128 = cash_available_for_buys(book.cash, sizes.nav, cfg.cash_buffer_pct);
    let mut cash: i128 = portion(free, bias.deploy_multiplier());
    let found = find_eligible(book, state, cfg, high_water, bias, sizes, m, Ghost(w));
    let ordered = rank(&found);
    proof {
        times_bound(free as int, multiplier(w.bias.macro_score), WIDE as int, 1);
        ranking_is_an_ordered_permutation(found@);
        assert forall|k: int| 0 <= k < ordered@.len() implies (#[trigger] ordered@[k]).index < EQUITY
            && within(ordered@[k].second as int, 100_000 * LIMIT) by {
            let j = ranked_member(found@, k);
            assert(found@[j] == ordered@[k]);
        }
    }
    let ghost start = action_views(actions@);
    let ghost whole = deployments(w, book@);
    let ghost mut done: Seq<ActionView> = seq![];
    let mut k: usize = 0;
    assert(ordered@.skip(0) == ordered@);
    assert(whole =~= done + bought(w, ordered@, cash as int, least as int));
    assert(start =~= start + done);
    while k < ordered.len() && cash > least
        invariant
            k <= ordered@.len(),
            all@ == table(),
            all@.len() == COUNT,
            buyable(ordered@),
            scene_within_limits(w),
            w.settings == cfg@,
            sizes.measure(w.portfolio, w.settings),
            m@ == falls(w, w.portfolio.holdings.len() as int),
            falls_in_range(m@),
            within(cash as int, LIMIT * (1_000_000_000 + 2_100_000 * k)),
            ordered@.len() <= EQUITY,
            whole == done + bought(w, ordered@.skip(k as int), cash as int, least as int),
            action_views(actions@) == start + done,
        decreases ordered@.len() - k,
    {
        let ghost rest = ordered@.skip(k as int);
        let c: Candidate = ordered[k];
        assert(rest[0] == c);
        assert(rest.drop_first() == ordered@.skip(k + 1));
        let take: i128 = smaller(-c.second, cash);
        let i: usize = c.index;
        if take > sizes.bands[i] {
            let fall: i128 = fall_in(m, all[i].ticker, Ghost(w));
            let mut reason = "drawdown deploy: down ".to_owned();
            reason.append(percent_text(fall, 0, false).as_str());
            reason.append("% from high, below target → add");
            let ghost before = action_views(actions@);
            let a = Action::buy(all[i].ticker, take, reason.as_str());
            let ghost v = a@;
            actions.push(a);
            assert(action_views(actions@) =~= before.push(v));
            proof {
                let tail = bought(w, ordered@.skip(k + 1), cash - take, least as int);
                assert(done + (seq![v] + tail) =~= done.push(v) + tail);
                assert(before.push(v) =~= start + done.push(v));
                done = done.push(v);
            }
            cash = cash - take;
        }
        k += 1;
    }
    assert(bought(w, ordered@.skip(k as int), cash as int, least as int) =~= seq![]);
    assert(whole =~= done);
}

// ── rule 5: the moonshot lifecycle ─────────────────────────────────────────

/// Why a call is flagged near its expiry.
pub open spec fn time_stop_reason(days: int) -> Seq<char> {
    "LEAPS "@ + signed_decimal(days)
        + " DTE ≤ 60 — time-stop window; if deeply OTM accept zero, else roll to a NEW thesis"@
}

/// The flag of a call that is within 60 days of its expiry.
pub open spec fn time_stop(t: Target, symbol: Seq<char>, asof: Ymd) -> Seq<ActionView> {
    match occ_fields(symbol) {
        Some(f) => {
            let days = day_number(f.1) - day_number(asof);
            if days <= LEAPS_TIME_STOP_DTE {
                seq![revalidating(t.ticker@, time_stop_reason(days))]
            } else {
                seq![]
            }
        },
        None => seq![],
    }
}

/// The profit-take of a holding of the moonshot sleeve: half of it, where that is
/// more than a dollar.
pub open spec fn moon_profit(t: Target, h: HoldingView) -> Seq<ActionView> {
    if t.instrument is Leaps {
        let half = times(h.market_value, LEAPS_PT_TRIM as int);
        if h.unrealized_plpc >= LEAPS_PT_MULT && half > ONE {
            seq![
                trimming(
                    t.ticker@,
                    half,
                    "LEAPS at +"@ + percent(h.unrealized_plpc, 0, false)
                        + "% → sell half, ride the rest to expiry"@,
                ),
            ]
        } else {
            seq![]
        }
    } else {
        let half = times(h.market_value, MICROCAP_PT_TRIM as int);
        if h.unrealized_plpc >= MICROCAP_PT_MULT && half > ONE {
            seq![
                trimming(
                    t.ticker@,
                    half,
                    "micro-cap at "@ + rendered(h.unrealized_plpc + ONE, 0, false) + "x → trim 50%"@,
                ),
            ]
        } else {
            seq![]
        }
    }
}

/// What is proposed for one line of the moonshot sleeve; nothing where it is not held.
pub open spec fn moon_line(w: Scene, t: Target) -> Seq<ActionView> {
    match symbol_of(t, w.settings) {
        Some(symbol) => match held(w.portfolio, symbol) {
            Some(h) => (if t.instrument is Leaps {
                time_stop(t, symbol, w.asof)
            } else {
                seq![]
            }) + moon_profit(t, h),
            None => seq![],
        },
        None => seq![],
    }
}

/// What is proposed for the moonshot lines below `n`.
pub open spec fn moon_lines(w: Scene, n: int) -> Seq<ActionView>
    decreases n,
{
    if n <= EQUITY {
        seq![]
    } else {
        moon_lines(w, n - 1) + moon_line(w, table()[n - 1])
    }
}

fn moon_actions(
    t: &Target,
    state: &PortfolioState,
    cfg: &AppConfig,
    asof: Date,
    actions: &mut Vec<Action>,
    Ghost(w): Ghost<Scene>,
)
    requires
        scene_within_limits(w),
        w.portfolio == state@,
        w.settings == cfg@,
        w.asof == asof@,
        crate::portfolio::targets::sound_instrument(t.instrument),
    ensures
        action_views(final(actions)@) == action_views(old(actions)@) + moon_line(w, *t),
{
    let ghost start = action_views(actions@);
    let symbol = match instrument_symbol(t, cfg) {
        Some(s) => s,
        None => {
            assert(start =~= start + moon_line(w, *t));
            return;
        },
    };
    proof {
        held_is_a_holding(state@, symbol@);
    }
    let h = match state.holding(symbol.as_str()) {
        Some(h) => h,
        None => {
            assert(start =~= start + moon_line(w, *t));
            return;
        },
    };
    assert(holding_within_limits(h@));
    let leaps = is_leaps(t);
    let ghost flag: Seq<ActionView> = if t.instrument is Leaps {
        time_stop(*t, symbol@, w.asof)
    } else {
        seq![]
    };
    if leaps {
        if let Some((_root, expiry, _call, _strike)) = parse_occ(symbol.as_str()) {
            let days: i64 = expiry.days_since(&asof);
            if days <= LEAPS_TIME_STOP_DTE {
                let mut reason = "LEAPS ".to_owned();
                reason.append(integer_text(days as i128).as_str());
                reason.append(
                    " DTE ≤ 60 — time-stop window; if deeply OTM accept zero, else roll to a NEW thesis",
                );
                let a = Action::revalidate(t.ticker, reason.as_str());
                let ghost v = a@;
                actions.push(a);
                assert(action_views(actions@) =~= start + seq![v]);
            }
        }
    }
    assert(action_views(actions@) =~= start + flag);
    let ghost middle = action_views(actions@);
    if leaps {
        let half: i128 = portion(h.market_value, LEAPS_PT_TRIM);
        if h.unrealized_plpc >= LEAPS_PT_MULT && half > ONE {
            let mut reason = "LEAPS at +".to_owned();
            reason.append(percent_text(h.unrealized_plpc, 0, false).as_str());
            reason.append("% → sell half, ride the rest to expiry");
            let a = Action::trim(t.ticker, half, reason.as_str());
            let ghost v = a@;
            actions.push(a);
            assert(action_views(actions@) =~= middle + seq![v]);
        }
    } else {
        let half: i128 = portion(h.market_value, MICROCAP_PT_TRIM);
        if h.unrealized_plpc >= MICROCAP_PT_MULT && half > ONE {
            let mut reason = "micro-cap at ".to_owned();
            reason.append(render(h.unrealized_plpc + ONE, 0, false).as_str());
            reason.append("x → trim 50%");
            let a = Action::trim(t.ticker, half, reason.as_str());
            let ghost v = a@;
            actions.push(a);
            assert(action_views(actions@) =~= middle + seq![v]);
        }
    }
    assert(action_views(actions@) =~= middle + moon_profit(*t, h@));
    assert(start + flag + moon_profit(*t, h@) =~= start + moon_line(w, *t));
}

fn moon_rules(
    state: &PortfolioState,
    cfg: &AppConfig,
    asof: Date,
    actions: &mut Vec<Action>,
    Ghost(w): Ghost<Scene>,
)
    requires
        scene_within_limits(w),
        w.portfolio == state@,
        w.settings == cfg@,
        w.asof == asof@,
    ensures
        action_views(final(actions)@) == action_views(old(actions)@) + moon_lines(
            w,
            INVESTED as int,
        ),
{
    let all = targets();
    let ghost start = action_views(actions@);
    let mut n: usize = EQUITY;
    assert(start =~= start + moon_lines(w, EQUITY as int));
    while n < INVESTED
        invariant
            EQUITY <= n <= INVESTED,
            all@ == table(),
            all@.len() == COUNT,
            scene_within_limits(w),
            w.portfolio == state@,
            w.settings == cfg@,
            w.asof == asof@,
            action_views(actions@) == start + moon_lines(w, n as int),
        decreases INVESTED - n,
    {
        proof {
            table_shape();
            assert(crate::portfolio::targets::sound_instrument(table()[n as int].instrument));
        }
        moon_actions(&all[n], state, cfg, asof, actions, Ghost(w));
        assert(start + moon_lines(w, n as int) + moon_line(w, table()[n as int]) =~= start
            + moon_lines(w, n + 1));
        n += 1;
    }
}

// ── the plan ───────────────────────────────────────────────────────────────

/// The ledger after every rule that trims the equity sleeve.
pub open spec fn trimmed_ledger(w: Scene) -> Ledger {
    let profits = profits_taken(w, w.portfolio.holdings.len() as int);
    let capped = positions_capped(w, profits, EQUITY as int);
    let spread = clusters_relieved(w, capped, cluster_names(EQUITY as int).len() as int);
    themes_relieved(w, spread, theme_names(EQUITY as int).len() as int)
}

/// The plan: the reviews and flags, the trims, the buys where cash is deployed,
/// and the moonshot lifecycle, in this order.
pub open spec fn plan(w: Scene, deploy: bool) -> Seq<ActionView> {
    let l = trimmed_ledger(w);
    flagged(w, w.portfolio.holdings.len() as int) + emitted(w, l.trims, l.trims.len() as int) + (
    if deploy {
        deployments(w, l)
    } else {
        seq![]
    }) + moon_lines(w, INVESTED as int)
}

/// Everything that a plan is made from.
pub open spec fn scene(
    state: PortfolioState,
    cfg: AppConfig,
    high_water: StrMap<Fixed>,
    bias: SignalBias,
    asof: Date,
) -> Scene {
    Scene {
        portfolio: state@,
        settings: cfg@,
        marks: high_water@,
        bias: bias@,
        asof: asof@,
    }
}

fn trim_book(
    state: &PortfolioState,
    cfg: &AppConfig,
    bias: &SignalBias,
    sizes: &Sizes,
    Ghost(w): Ghost<Scene>,
) -> (book: Book)
    requires
        scene_within_limits(w),
        w.portfolio == state@,
        w.settings == cfg@,
        w.bias == bias@,
        sizes.measure(state@, cfg@),
    ensures
        book@ == trimmed_ledger(w),
        sized(book@, line_bound(), WIDE as int),
{
    let mut book = open_book(state, Ghost(w));
    take_profits(state, cfg, sizes, &mut book, Ghost(w));
    cap_positions(state, cfg, sizes, &mut book, Ghost(w));
    relieve_clusters(cfg, bias, sizes, &mut book, Ghost(w));
    relieve_themes(cfg, bias, sizes, &mut book, Ghost(w));
    proof {
        sized_weaker(book@, line_bound(), relief_bound(32), line_bound(), WIDE as int);
    }
    book
}

/// The plan of a book: every rule, or every rule but the cash deployment.
pub fn plan_inner(
    state: &PortfolioState,
    cfg: &AppConfig,
    high_water: &StrMap<Fixed>,
    bias: &SignalBias,
    asof: Date,
    deploy: bool,
) -> (r: Vec<Action>)
    requires
        scene_within_limits(scene(*state, *cfg, *high_water, *bias, asof)),
    ensures
        action_views(r@) == plan(scene(*state, *cfg, *high_water, *bias, asof), deploy),
{
    let ghost w = scene(*state, *cfg, *high_water, *bias, asof);
    let sizes = Sizes::new(state, cfg);
    let mut actions = review_holdings(state, cfg, Ghost(w));
    flag_holdings(state, bias, &mut actions, Ghost(w));
    let book = trim_book(state, cfg, bias, &sizes, Ghost(w));
    emit_trims(state, cfg, &sizes, &book, &mut actions, Ghost(w));
    if deploy {
        let m = measure_falls(state, high_water, Ghost(w));
        deploy_cash(state, cfg, high_water, bias, &sizes, &book, &m, &mut actions, Ghost(w));
    } else {
        assert(action_views(actions@) =~= action_views(actions@) + Seq::<ActionView>::empty());
    }
    moon_rules(state, cfg, asof, &mut actions, Ghost(w));
    actions
}

/// The plan of a book in maintenance: every rule, the cash deployment included.
pub fn plan_rebalance(
    state: &PortfolioState,
    cfg: &AppConfig,
    high_water: &StrMap<Fixed>,
    bias: &SignalBias,
    asof: Date,
) -> (r: Vec<Action>)
    requires
        scene_within_limits(scene(*state, *cfg, *high_water, *bias, asof)),
    ensures
        action_views(r@) == plan(scene(*state, *cfg, *high_water, *bias, asof), true),
{
    plan_inner(state, cfg, high_water, bias, asof, true)
}

/// The protective rules only: reviews, profit-takes, caps and the moonshot
/// lifecycle, without the cash deployment. They run while the book is still
/// being built, when the build stages own all buying.
pub fn plan_protective(
    state: &PortfolioState,
    cfg: &AppConfig,
    high_water: &StrMap<Fixed>,
    bias: &SignalBias,
    asof: Date,
) -> (r: Vec<Action>)
    requires
        scene_within_limits(scene(*state, *cfg, *high_water, *bias, asof)),
    ensures
        action_views(r@) == plan(scene(*state, *cfg, *high_water, *bias, asof), false),
{
    plan_inner(state, cfg, high_water, bias, asof, false)
}

// ── the trace of rule 4 ────────────────────────────────────────────────────

/// What became of a name that calls for cash: it is skipped while the book is built,
/// blocked by the cash or by its own band, or it is eligible.
pub open spec fn verdict(w: Scene, l: Ledger, deploy: bool, i: int) -> Seq<char> {
    if !deploy {
        "skipped: protective mode — the build stages own buying"@
    } else if deployable(w, l) <= least_band(w, EQUITY as int) {
        "blocked: deployable ≤ band"@
    } else if aim(w, i) - l.mv[i] > slack(w, i) {
        "eligible"@
    } else {
        "blocked: room ≤ band"@
    }
}

/// The line of the trace for a name that calls for cash.
pub open spec fn trace_line(w: Scene, l: Ledger, deploy: bool, i: int) -> Seq<char> {
    let fall = fall_of(w, table()[i].ticker@);
    "rule4: "@ + table()[i].ticker@ + " dd "@ + percent(fall, 1, false) + "% from high-water (trigger: "@ + (if stressed(
        w,
        table()[i].cluster@,
    ) && fall <= w.settings.drawdown_deploy_single_pct {
        "cluster stressed"@
    } else {
        "single-name"@
    }) + ") room $"@ + rendered(aim(w, i) - l.mv[i], 0, false) + " vs band $"@ + rendered(slack(w, i), 0, false)
        + ", deployable $"@ + rendered(deployable(w, l), 0, false) + " — "@ + verdict(w, l, deploy, i)
}

/// The lines for the first `n` equity lines.
pub open spec fn trace_lines(w: Scene, l: Ledger, deploy: bool, n: int) -> Seq<Seq<char>>
    decreases n,
{
    if n <= 0 {
        seq![]
    } else if triggered(w, n - 1) {
        trace_lines(w, l, deploy, n - 1).push(trace_line(w, l, deploy, n - 1))
    } else {
        trace_lines(w, l, deploy, n - 1)
    }
}

fn trace_text(
    i: usize,
    state: &PortfolioState,
    cfg: &AppConfig,
    high_water: &StrMap<Fixed>,
    sizes: &Sizes,
    book: &Book,
    m: &StrMap<Fixed>,
    cash: Fixed,
    least: Fixed,
    deploy: bool,
    Ghost(w): Ghost<Scene>,
) -> (r: Option<String>)
    requires
        i < EQUITY,
        scene_within_limits(w),
        w.portfolio == state@,
        w.settings == cfg@,
        w.marks == high_water@,
        sizes.measure(w.portfolio, w.settings),
        sized(book@, line_bound(), WIDE as int),
        m@ == falls(w, w.portfolio.holdings.len() as int),
        falls_in_range(m@),
        cash == deployable(w, book@),
        0 <= cash,
        least == least_band(w, EQUITY as int),
    ensures
        match r {
            Some(s) => triggered(w, i as int) && s@ == trace_line(w, book@, deploy, i as int),
            None => !triggered(w, i as int),
        },
{
    proof {
        table_shape();
    }
    let t: Target = targets()[i];
    let fall: i128 = fall_in(m, t.ticker, Ghost(w));
    let cluster_hit = is_stressed(t.cluster, state, cfg, high_water, Ghost(w));
    if fall <= cfg.drawdown_deploy_single_pct && !cluster_hit {
        return None;
    }
    assert(within(book@.mv[i as int], line_bound()));
    let room: i128 = sizes.goals[i] - book.mv[i];
    let band: i128 = sizes.bands[i];
    let mut s = "rule4: ".to_owned();
    s.append(t.ticker);
    s.append(" dd ");
    s.append(percent_text(fall, 1, false).as_str());
    s.append("% from high-water (trigger: ");
    if cluster_hit && fall <= cfg.drawdown_deploy_single_pct {
        s.append("cluster stressed");
    } else {
        s.append("single-name");
    }
    s.append(") room $");
    s.append(render(room, 0, false).as_str());
    s.append(" vs band $");
    s.append(render(band, 0, false).as_str());
    s.append(", deployable $");
    s.append(render(cash, 0, false).as_str());
    s.append(" — ");
    if !deploy {
        s.append("skipped: protective mode — the build stages own buying");
    } else if cash <= least {
        s.append("blocked: deployable ≤ band");
    } else if room > band {
        s.append("eligible");
    } else {
        s.append("blocked: room ≤ band");
    }
    Some(s)
}

/// The trace of rule 4, for the journal: one line for each name whose fall, or whose
/// cluster's fall, calls for cash, with what became of it. It tells a name that got
/// no buy from a day on which nothing called for one.
pub fn deploy_trace(
    state: &PortfolioState,
    cfg: &AppConfig,
    high_water: &StrMap<Fixed>,
    bias: &SignalBias,
    asof: Date,
    deploy: bool,
) -> (r: Vec<String>)
    requires
        scene_within_limits(scene(*state, *cfg, *high_water, *bias, asof)),
    ensures
        ({
            let w = scene(*state, *cfg, *high_water, *bias, asof);
            texts(r@) == trace_lines(w, trimmed_ledger(w), deploy, EQUITY as int)
        }),
{
    let ghost w = scene(*state, *cfg, *high_water, *bias, asof);
    let sizes = Sizes::new(state, cfg);
    let book = trim_book(state, cfg, bias, &sizes, Ghost(w));
    let m = measure_falls(state, high_water, Ghost(w));
    let least: i128 = least_worth(cfg, &sizes, Ghost(w));
    let free: i128 = cash_available_for_buys(book.cash, sizes.nav, cfg.cash_buffer_pct);
    let cash: i128 = portion(free, bias.deploy_multiplier());
    proof {
        times_bound(free as int, multiplier(w.bias.macro_score), WIDE as int, 1);
    }
    let mut out: Vec<String> = Vec::new();
    assert(texts(out@) =~= seq![]);
    let mut n: usize = 0;
    while n < EQUITY
        invariant
            n <= EQUITY,
            scene_within_limits(w),
            w.portfolio == state@,
            w.settings == cfg@,
            w.marks == high_water@,
            sizes.measure(w.portfolio, w.settings),
            sized(book@, line_bound(), WIDE as int),
            m@ == falls(w, w.portfolio.holdings.len() as int),
            falls_in_range(m@),
            cash == deployable(w, book@),
            0 <= cash,
            least == least_band(w, EQUITY as int),
            texts(out@) == trace_lines(w, book@, deploy, n as int),
        decreases EQUITY - n,
    {
        if let Some(s) = trace_text(n, state, cfg, high_water, &sizes, &book, &m, cash, least, deploy, Ghost(w)) {
            let ghost before = texts(out@);
            let ghost v = s@;
            out.push(s);
            assert(texts(out@) =~= before.push(v));
        }
        n += 1;
    }
    out
}

/// The line for a name that the signal vetoes.
pub open spec fn veto_line(ticker: Seq<char>, why: Seq<char>) -> Seq<char> {
    "rule4: "@ + ticker + " buy VETOED this session by the contract — "@ + why
}

/// The lines for the names that the signal vetoes, where there is cash worth deploying.
/// A signal that is off vetoes nothing.
pub open spec fn veto_lines(w: Scene, l: Ledger, deploy: bool) -> Seq<Seq<char>> {
    if deploy && w.bias.enabled && deployable(w, l) > least_band(w, EQUITY as int) {
        w.bias.buy_veto.map_values(|v: (Seq<char>, Seq<char>)| veto_line(v.0, v.1))
    } else {
        seq![]
    }
}

/// The vetoes of rule 4, for the journal: one line for each name that the signal
/// vetoes, where there is cash worth deploying.
pub fn veto_trace(
    state: &PortfolioState,
    cfg: &AppConfig,
    high_water: &StrMap<Fixed>,
    bias: &SignalBias,
    asof: Date,
    deploy: bool,
) -> (r: Vec<String>)
    requires
        scene_within_limits(scene(*state, *cfg, *high_water, *bias, asof)),
    ensures
        ({
            let w = scene(*state, *cfg, *high_water, *bias, asof);
            texts(r@) == veto_lines(w, trimmed_ledger(w), deploy)
        }),
{
    let ghost w = scene(*state, *cfg, *high_water, *bias, asof);
    let mut out: Vec<String> = Vec::new();
    assert(texts(out@) =~= seq![]);
    if !deploy || !bias.enabled {
        return out;
    }
    let sizes = Sizes::new(state, cfg);
    let book = trim_book(state, cfg, bias, &sizes, Ghost(w));
    let least: i128 = least_worth(cfg, &sizes, Ghost(w));
    let free: i128 = cash_available_for_buys(book.cash, sizes.nav, cfg.cash_buffer_pct);
    if portion(free, bias.deploy_multiplier()) <= least {
        return out;
    }
    let ghost want = veto_lines(w, book@, deploy);
    let mut i: usize = 0;
    assert(texts(out@) =~= want.take(0));
    while i < bias.buy_veto.len()
        invariant
            i <= bias.buy_veto@.len(),
            want == bias.buy_veto@.map_values(|v: (Seq<char>, Seq<char>)| veto_line(v.0, v.1)),
            texts(out@) == want.take(i as int),
        decreases bias.buy_veto@.len() - i,
    {
        let mut s = "rule4: ".to_owned();
        s.append(bias.buy_veto.key_at(i).as_str());
        s.append(" buy VETOED this session by the contract — ");
        s.append(bias.buy_veto.value_at(i).as_str());
        let ghost before = texts(out@);
        let ghost v = s@;
        out.push(s);
        assert(texts(out@) =~= before.push(v));
        i += 1;
        assert(before.push(v) =~= want.take(i as int));
    }
    assert(want.take(i as int) =~= want);
    out
}

} // verus!
