//! What a snapshot holds of the broker's positions, and what the figures on it mean.
use vstd::prelude::*;

use crate::alpaca::{AccountView, PositionView};
use crate::fixed::ONE;
use crate::order_laws::{first_held, held_from_first};
use crate::portfolio::metrics::{cluster_shares, fall_from, glide_delta, held_of_lines, metric};
use crate::portfolio::state::{held_from, holding_of, long_holdings, snapshot, value_held, HoldingView, Portfolio};
use crate::portfolio::targets::{
    cluster_lines, cluster_names, label_is_upper, line_weight, table, weight_of_lines, EQUITY,
};
use crate::rebalance::sizes::nav_of;
use crate::str_map::lookup;
use crate::text::upper;

verus! {

proof fn a_floor(n: int, d: int)
    requires
        0 < d,
    ensures
        (n / d) * d <= n < (n / d + 1) * d,
{
    vstd::arithmetic::div_mod::lemma_fundamental_div_mod(n, d);
    let q = n / d;
    assert(q * d <= n < (q + 1) * d) by (nonlinear_arith)
        requires
            n == d * q + n % d,
            0 <= n % d < d,
    ;
}

// ── holdings ───────────────────────────────────────────────────────────────

/// A holding is the position that it stands for, under its symbol in upper case.
pub open spec fn stands_for(h: HoldingView, p: PositionView) -> bool {
    &&& h.ticker == upper(p.symbol)
    &&& h.qty == p.qty
    &&& h.market_value == p.market_value
    &&& h.cost_basis == p.cost_basis
    &&& h.avg_entry_price == p.avg_entry_price
    &&& h.unrealized_plpc == p.unrealized_plpc
    &&& p.current_price > 0 ==> h.price == p.current_price
    &&& p.current_price <= 0 && p.qty > 0 ==> h.price * p.qty <= p.market_value * ONE < (h.price + 1) * p.qty
    &&& p.current_price <= 0 && p.qty < 0 ==> h.price * -p.qty <= -p.market_value * ONE < (h.price + 1) * -p.qty
    &&& p.current_price <= 0 && p.qty == 0 ==> h.price == 0
}

proof fn a_holding_stands_for_its_position(p: PositionView)
    ensures
        stands_for(holding_of(p), p),
{
    if p.current_price <= 0 && p.qty > 0 {
        a_floor(p.market_value * ONE, p.qty);
    } else if p.current_price <= 0 && p.qty < 0 {
        a_floor(-p.market_value * ONE, -p.qty);
    }
}

/// A position is among the holdings.
pub open spec fn kept(holdings: Seq<HoldingView>, p: PositionView) -> bool {
    exists|j: int| 0 <= j < holdings.len() && stands_for(#[trigger] holdings[j], p)
}

/// A holding stands for a position that is not short.
pub open spec fn backed(positions: Seq<PositionView>, h: HoldingView) -> bool {
    exists|k: int| 0 <= k < positions.len() && (#[trigger] positions[k]).side != "short"@ && stands_for(h, positions[k])
}

/// Every position that is not short is held, with its own figures, whatever its size; a
/// holding stands for such a position, so a short one is never held.
pub proof fn every_long_position_is_held(positions: Seq<PositionView>)
    ensures
        forall|k: int|
            0 <= k < positions.len() && (#[trigger] positions[k]).side != "short"@ ==> kept(
                long_holdings(positions),
                positions[k],
            ),
        forall|j: int| 0 <= j < long_holdings(positions).len() ==> backed(positions, #[trigger] long_holdings(positions)[j]),
        long_holdings(positions).len() <= positions.len(),
    decreases positions.len(),
{
    let all = long_holdings(positions);
    if positions.len() > 0 {
        let front = positions.drop_last();
        let before = long_holdings(front);
        let p = positions.last();
        every_long_position_is_held(front);
        a_holding_stands_for_its_position(p);
        assert forall|k: int| 0 <= k < positions.len() && (#[trigger] positions[k]).side != "short"@ implies kept(
            all,
            positions[k],
        ) by {
            if k < front.len() {
                assert(front[k] == positions[k]);
                let j = choose|j: int| 0 <= j < before.len() && stands_for(#[trigger] before[j], front[k]);
                assert(all[j] == before[j]);
            } else {
                assert(stands_for(all[all.len() - 1], p));
            }
        }
        assert forall|j: int| 0 <= j < all.len() implies backed(positions, #[trigger] all[j]) by {
            if j < before.len() {
                assert(all[j] == before[j]);
                assert(backed(front, before[j]));
                let k = choose|k: int| 0 <= k < front.len() && (#[trigger] front[k]).side != "short"@ && stands_for(before[j], front[k]);
                assert(positions[k] == front[k]);
            } else {
                assert(positions[positions.len() - 1].side != "short"@);
            }
        }
    }
}

/// The account value is the portfolio value where that is positive, and the equity
/// otherwise; the cash is the account's.
pub proof fn the_account_value_is_the_portfolio_value(a: AccountView, positions: Seq<PositionView>)
    ensures
        a.portfolio_value > 0 ==> snapshot(a, positions).nav == a.portfolio_value,
        a.portfolio_value <= 0 ==> snapshot(a, positions).nav == a.equity,
        snapshot(a, positions).cash == a.cash,
{
}

proof fn nothing_held(holdings: Seq<HoldingView>, ticker: Seq<char>, from: int)
    requires
        0 <= from,
        forall|k: int| 0 <= k < holdings.len() ==> (#[trigger] holdings[k]).ticker != ticker,
    ensures
        held_from(holdings, ticker, from) is None,
    decreases holdings.len() - from,
{
    if from < holdings.len() {
        nothing_held(holdings, ticker, from + 1);
    }
}

/// What is held under a symbol is worth what the first holding under it is, and nothing
/// where there is none.
pub proof fn a_holding_is_worth_its_value(p: Portfolio, symbol: Seq<char>, k: int)
    ensures
        first_held(p, symbol, k) ==> value_held(p, symbol) == p.holdings[k].market_value,
        (forall|j: int| 0 <= j < p.holdings.len() ==> (#[trigger] p.holdings[j]).ticker != upper(symbol)) ==> value_held(
            p,
            symbol,
        ) == 0,
{
    if first_held(p, symbol, k) {
        held_from_first(p.holdings, upper(symbol), 0, k);
    }
    if forall|j: int| 0 <= j < p.holdings.len() ==> (#[trigger] p.holdings[j]).ticker != upper(symbol) {
        nothing_held(p.holdings, upper(symbol), 0);
    }
}

// ── figures ────────────────────────────────────────────────────────────────

/// The row of a line that is held: its weight is its value in parts of the account value,
/// its drift what the weight exceeds the target by, and its drawdown the fall of its price
/// from its mark, in parts of the mark, none where it stands above the mark.
pub proof fn a_row_describes_its_holding(p: Portfolio, buffer: int, marks: Seq<(Seq<char>, i128)>, i: int, k: int)
    requires
        0 <= i < EQUITY,
        first_held(p, table()[i].ticker@, k),
    ensures
        ({
            let m = metric(p, buffer, marks, i);
            let h = p.holdings[k];
            let mark = match lookup(marks, table()[i].ticker@) {
                Some(x) => x as int,
                None => h.price,
            };
            &&& m.ticker == table()[i].ticker@
            &&& m.cluster == table()[i].cluster@
            &&& m.market_value == h.market_value
            &&& m.unrealized_plpc == h.unrealized_plpc
            &&& m.weight * nav_of(p) <= h.market_value * ONE < (m.weight + 1) * nav_of(p)
            &&& m.target_weight == line_weight(i, buffer)
            &&& m.drift + m.target_weight == m.weight
            &&& h.price > 0 && mark > h.price ==> m.drawdown * mark <= (mark - h.price) * ONE < (m.drawdown + 1) * mark
            &&& h.price <= 0 || mark <= h.price ==> m.drawdown == 0
        }),
{
    let h = p.holdings[k];
    let mark = match lookup(marks, table()[i].ticker@) {
        Some(x) => x as int,
        None => h.price,
    };
    held_from_first(p.holdings, upper(table()[i].ticker@), 0, k);
    a_floor(h.market_value * ONE, nav_of(p));
    if h.price > 0 && mark > 0 {
        a_fall_is_a_part(mark, h.price);
    }
}

/// A fall is what a price has lost of a mark, in parts of the mark; none where it has
/// lost nothing.
pub proof fn a_fall_is_a_part(mark: int, price: int)
    requires
        0 < mark,
    ensures
        price < mark ==> fall_from(mark, price) * mark <= (mark - price) * ONE < (fall_from(mark, price) + 1) * mark,
        price >= mark ==> fall_from(mark, price) == 0,
{
    let n = (mark - price) * ONE;
    a_floor(n, mark);
    let q = n / mark;
    if price < mark {
        assert(0 <= q) by (nonlinear_arith)
            requires
                n < (q + 1) * mark,
                0 <= n,
                0 < mark,
        ;
    } else {
        assert(q <= 0) by (nonlinear_arith)
            requires
                q * mark <= n,
                n <= 0,
                0 < mark,
        ;
    }
}

/// The row of a line that is not held shows nothing held, no gain and no drawdown, and
/// drifts by all of its target.
pub proof fn an_empty_row_shows_nothing(p: Portfolio, buffer: int, marks: Seq<(Seq<char>, i128)>, i: int)
    requires
        0 <= i < EQUITY,
        forall|j: int| 0 <= j < p.holdings.len() ==> (#[trigger] p.holdings[j]).ticker != table()[i].ticker@,
    ensures
        ({
            let m = metric(p, buffer, marks, i);
            m.market_value == 0 && m.weight == 0 && m.drift == -line_weight(i, buffer) && m.unrealized_plpc == 0 && m.drawdown == 0
        }),
{
    label_is_upper(i);
    nothing_held(p.holdings, upper(table()[i].ticker@), 0);
    a_floor(0, nav_of(p));
    let (q, d) = (0int / nav_of(p), nav_of(p));
    assert(q == 0) by (nonlinear_arith)
        requires
            q * d <= 0 < (q + 1) * d,
            0 < d,
    ;
    assert(0 * ONE == 0);
}

/// A cluster's share is what its members are worth together in parts of the account
/// value; one more member adds its value.
pub proof fn a_cluster_weighs_its_members(p: Portfolio, buffer: int, c: int, lines: Seq<int>, i: int)
    requires
        0 <= c < cluster_names(EQUITY as int).len(),
    ensures
        ({
            let x = cluster_shares(p, buffer)[c];
            let members = cluster_lines(cluster_names(EQUITY as int)[c], EQUITY as int);
            &&& x.0 == cluster_names(EQUITY as int)[c]
            &&& x.1 * nav_of(p) <= held_of_lines(p, members) * ONE < (x.1 + 1) * nav_of(p)
            &&& x.2 == weight_of_lines(members, buffer)
        }),
        held_of_lines(p, lines.push(i)) == held_of_lines(p, lines) + value_held(p, table()[i].ticker@),
        held_of_lines(p, seq![]) == 0,
{
    let members = cluster_lines(cluster_names(EQUITY as int)[c], EQUITY as int);
    a_floor(held_of_lines(p, members) * ONE, nav_of(p));
    assert(lines.push(i).drop_last() =~= lines);
}

/// The account stands ahead of its glide path by what it exceeds the target, in parts of
/// the target; behind where it falls short; and there is no pace without a target.
pub proof fn the_pace_is_relative_to_the_target(nav: int, target: int)
    ensures
        target > 0 ==> glide_delta(nav, target) * target <= (nav - target) * ONE < (glide_delta(nav, target) + 1) * target,
        target <= 0 ==> glide_delta(nav, target) == 0,
{
    if target > 0 {
        a_floor((nav - target) * ONE, target);
    }
}

/// Shares are taken of the account value as it stands; only one below a billionth of a
/// dollar counts as that much.
pub proof fn shares_are_taken_of_the_account_value(p: Portfolio)
    ensures
        p.nav >= 1_000 ==> nav_of(p) == p.nav,
        p.nav < 1_000 ==> nav_of(p) == 1_000,
{
}

/// The weight of some lines is that of each of them together.
pub proof fn one_more_line_adds_its_weight(lines: Seq<int>, i: int, buffer: int)
    ensures
        weight_of_lines(seq![], buffer) == 0,
        weight_of_lines(lines.push(i), buffer) == weight_of_lines(lines, buffer) + line_weight(i, buffer),
{
    assert(lines.push(i).drop_last() =~= lines);
}

} // verus!
