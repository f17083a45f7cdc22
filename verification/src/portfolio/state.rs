//! A snapshot of the portfolio: holdings, cash and account value, taken from the
//! broker's account and positions.
use vstd::prelude::*;

use crate::alpaca::{position_views, AccountView, AlpacaAccount, Position, PositionView};
use crate::fixed::{is_within, quotient, ratio, within, Fixed, LIMIT, ONE};
use crate::str_map::{inserted, StrMap};
use crate::text::{same, to_upper, upper};

verus! {

/// A name that is held.
#[derive(Debug, Clone)]
pub struct Holding {
    pub ticker: String,
    pub qty: Fixed,
    pub price: Fixed,
    pub market_value: Fixed,
    pub cost_basis: Fixed,
    pub avg_entry_price: Fixed,
    /// The gain as a fraction of the cost: -0.35 is down 35 %.
    pub unrealized_plpc: Fixed,
}

/// A holding as plain values.
#[verifier::ext_equal]
pub struct HoldingView {
    pub ticker: Seq<char>,
    pub qty: int,
    pub price: int,
    pub market_value: int,
    pub cost_basis: int,
    pub avg_entry_price: int,
    pub unrealized_plpc: int,
}

impl View for Holding {
    type V = HoldingView;

    open spec fn view(&self) -> HoldingView {
        HoldingView {
            ticker: self.ticker@,
            qty: self.qty as int,
            price: self.price as int,
            market_value: self.market_value as int,
            cost_basis: self.cost_basis as int,
            avg_entry_price: self.avg_entry_price as int,
            unrealized_plpc: self.unrealized_plpc as int,
        }
    }
}

/// A snapshot of the portfolio.
#[derive(Debug, Clone)]
pub struct PortfolioState {
    pub holdings: Vec<Holding>,
    pub cash: Fixed,
    /// The account value that the targets are weighed against.
    pub nav: Fixed,
}

/// A snapshot as plain values.
#[verifier::ext_equal]
pub struct Portfolio {
    pub holdings: Seq<HoldingView>,
    pub cash: int,
    pub nav: int,
}

impl View for PortfolioState {
    type V = Portfolio;

    open spec fn view(&self) -> Portfolio {
        Portfolio {
            holdings: self.holdings@.map_values(|h: Holding| h@),
            cash: self.cash as int,
            nav: self.nav as int,
        }
    }
}

/// The most holdings that a snapshot may have.
pub const MOST_HOLDINGS: usize = 10_000;

/// The amounts are of a size that the rules can reckon with.
pub open spec fn portfolio_within_limits(p: Portfolio) -> bool {
    &&& p.holdings.len() <= MOST_HOLDINGS
    &&& within(p.cash, LIMIT as int)
    &&& within(p.nav, LIMIT as int)
    &&& forall|i: int| 0 <= i < p.holdings.len() ==> holding_within_limits(#[trigger] p.holdings[i])
}

/// The amounts of one holding are of a size that the rules can reckon with.
pub open spec fn holding_within_limits(h: HoldingView) -> bool {
    &&& within(h.market_value, LIMIT as int)
    &&& within(h.unrealized_plpc, LIMIT as int)
    &&& within(h.price, 100_000 * LIMIT)
}

/// The amounts of one position are of a size that a snapshot can be taken from.
pub open spec fn position_within_limits(p: PositionView) -> bool {
    &&& within(p.market_value, LIMIT as int)
    &&& within(p.current_price, LIMIT as int)
    &&& within(p.qty, LIMIT as int)
    &&& within(p.unrealized_plpc, LIMIT as int)
}

/// Whether the amounts of a position are of a size that a snapshot can be taken from.
pub fn position_fits(p: &Position) -> (r: bool)
    ensures
        r == position_within_limits(p@),
{
    is_within(p.market_value, LIMIT) && is_within(p.current_price, LIMIT) && is_within(p.qty, LIMIT)
        && is_within(p.unrealized_plpc, LIMIT)
}

/// The price of a position: the broker's where it gives one, else the market
/// value of one share.
pub open spec fn price_of(p: PositionView) -> int {
    if p.current_price > 0 {
        p.current_price
    } else if p.qty > 0 {
        ratio(p.market_value, p.qty)
    } else if p.qty < 0 {
        ratio(-p.market_value, -p.qty)
    } else {
        0
    }
}

/// The holding that a position stands for.
pub open spec fn holding_of(p: PositionView) -> HoldingView {
    HoldingView {
        ticker: upper(p.symbol),
        qty: p.qty,
        price: price_of(p),
        market_value: p.market_value,
        cost_basis: p.cost_basis,
        avg_entry_price: p.avg_entry_price,
        unrealized_plpc: p.unrealized_plpc,
    }
}

/// The holdings of a long-only book: short positions are left out.
pub open spec fn long_holdings(positions: Seq<PositionView>) -> Seq<HoldingView>
    decreases positions.len(),
{
    if positions.len() == 0 {
        seq![]
    } else {
        let before = long_holdings(positions.drop_last());
        if positions.last().side == "short"@ {
            before
        } else {
            before.push(holding_of(positions.last()))
        }
    }
}

/// The snapshot that an account and its positions give. The account value is the
/// portfolio value, or the equity where that is not positive.
pub open spec fn snapshot(a: AccountView, positions: Seq<PositionView>) -> Portfolio {
    Portfolio {
        holdings: long_holdings(positions),
        cash: a.cash,
        nav: if a.portfolio_value > 0 {
            a.portfolio_value
        } else {
            a.equity
        },
    }
}

/// The first holding from `from` on with a ticker.
pub open spec fn held_from(holdings: Seq<HoldingView>, ticker: Seq<char>, from: int) -> Option<
    HoldingView,
>
    decreases holdings.len() - from,
{
    if from < 0 || from >= holdings.len() {
        None
    } else if holdings[from].ticker == ticker {
        Some(holdings[from])
    } else {
        held_from(holdings, ticker, from + 1)
    }
}

/// The first holding with a ticker, which is taken in upper case.
pub open spec fn held(p: Portfolio, ticker: Seq<char>) -> Option<HoldingView> {
    held_from(p.holdings, upper(ticker), 0)
}

/// The market value that is held under a ticker.
pub open spec fn value_held(p: Portfolio, ticker: Seq<char>) -> int {
    match held(p, ticker) {
        Some(h) => h.market_value,
        None => 0,
    }
}

proof fn held_from_member(holdings: Seq<HoldingView>, ticker: Seq<char>, from: int)
    requires
        0 <= from,
    ensures
        held_from(holdings, ticker, from) matches Some(h) ==> exists|i: int|
            0 <= i < holdings.len() && #[trigger] holdings[i] == h && h.ticker == ticker,
    decreases holdings.len() - from,
{
    if from < holdings.len() && holdings[from].ticker != ticker {
        held_from_member(holdings, ticker, from + 1);
    }
}

/// What is held is one of the holdings.
pub proof fn held_is_a_holding(p: Portfolio, ticker: Seq<char>)
    ensures
        held(p, ticker) matches Some(h) ==> exists|i: int|
            0 <= i < p.holdings.len() && #[trigger] p.holdings[i] == h && h.ticker == upper(ticker),
        portfolio_within_limits(p) ==> within(value_held(p, ticker), LIMIT as int),
{
    held_from_member(p.holdings, upper(ticker), 0);
}

/// The last price of every ticker among the first `n` holdings.
pub open spec fn prices(holdings: Seq<HoldingView>, n: int) -> Seq<(Seq<char>, i128)>
    decreases n,
{
    if n <= 0 {
        seq![]
    } else {
        inserted(
            prices(holdings, n - 1),
            holdings[n - 1].ticker,
            holdings[n - 1].price as i128,
        )
    }
}

fn price_per_share(p: &Position) -> (r: Fixed)
    requires
        position_within_limits(p@),
    ensures
        r == price_of(p@),
        within(r as int, LIMIT * ONE),
{
    if p.current_price > 0 {
        p.current_price
    } else if p.qty > 0 {
        proof {
            ratio_bound(p.market_value as int, p.qty as int);
        }
        quotient(p.market_value, p.qty)
    } else if p.qty < 0 {
        proof {
            ratio_bound(-(p.market_value as int), -(p.qty as int));
        }
        quotient(-p.market_value, -p.qty)
    } else {
        0
    }
}

proof fn ratio_bound(x: int, d: int)
    requires
        within(x, LIMIT as int),
        1 <= d,
    ensures
        within(ratio(x, d), LIMIT * ONE),
{
    let n = x * ONE;
    vstd::arithmetic::div_mod::lemma_fundamental_div_mod(n, d);
    let q = n / d;
    assert(within(q, 1_000_000_000_000_000_000_000_000_000_000_000)) by (nonlinear_arith)
        requires
            n == d * q + n % d,
            0 <= n % d < d,
            1 <= d,
            within(n, 1_000_000_000_000_000_000_000_000_000_000_000),
    ;
}

impl PortfolioState {
    /// Takes a snapshot of the account and its positions.
    pub fn from_alpaca(account: &AlpacaAccount, positions: &Vec<Position>) -> (r: Self)
        requires
            forall|i: int| 0 <= i < positions@.len() ==> position_within_limits(#[trigger] positions@[i]@),
        ensures
            r@ == snapshot(account@, position_views(positions@)),
            r@.holdings.len() <= positions@.len(),
    {
        let ghost all = position_views(positions@);
        let mut holdings: Vec<Holding> = Vec::new();
        let mut i: usize = 0;
        assert(holdings@.map_values(|h: Holding| h@) =~= long_holdings(all.take(0)));
        while i < positions.len()
            invariant
                i <= positions@.len(),
                all == position_views(positions@),
                forall|i: int|
                    0 <= i < positions@.len() ==> position_within_limits(#[trigger] positions@[i]@),
                holdings@.map_values(|h: Holding| h@) == long_holdings(all.take(i as int)),
                holdings@.len() <= i,
            decreases positions@.len() - i,
        {
            let p = &positions[i];
            assert(all.take(i + 1).drop_last() == all.take(i as int));
            assert(all.take(i + 1).last() == p@);
            if !same(p.side.as_str(), "short") {
                let ghost before = holdings@.map_values(|h: Holding| h@);
                holdings.push(
                    Holding {
                        ticker: to_upper(p.symbol.as_str()),
                        qty: p.qty,
                        price: price_per_share(p),
                        market_value: p.market_value,
                        cost_basis: p.cost_basis,
                        avg_entry_price: p.avg_entry_price,
                        unrealized_plpc: p.unrealized_plpc,
                    },
                );
                assert(holdings@.map_values(|h: Holding| h@) =~= before.push(holding_of(p@)));
            }
            i += 1;
        }
        assert(all.take(all.len() as int) == all);
        let nav: i128 = if account.portfolio_value > 0 {
            account.portfolio_value
        } else {
            account.equity
        };
        PortfolioState { holdings, cash: account.cash, nav }
    }

    /// Whether the amounts are of a size that the rules can reckon with.
    pub fn within_limits(&self) -> (r: bool)
        ensures
            r == portfolio_within_limits(self@),
    {
        if self.holdings.len() > MOST_HOLDINGS || !is_within(self.cash, LIMIT) || !is_within(
            self.nav,
            LIMIT,
        ) {
            return false;
        }
        let mut i: usize = 0;
        while i < self.holdings.len()
            invariant
                i <= self.holdings@.len(),
                self@.holdings.len() == self.holdings@.len(),
                forall|k: int| 0 <= k < i ==> holding_within_limits(#[trigger] self@.holdings[k]),
            decreases self.holdings@.len() - i,
        {
            let h = &self.holdings[i];
            assert(self@.holdings[i as int] == h@);
            if !(is_within(h.market_value, LIMIT) && is_within(h.unrealized_plpc, LIMIT) && is_within(
                h.price,
                100_000 * LIMIT,
            )) {
                assert(!holding_within_limits(self@.holdings[i as int]));
                return false;
            }
            i += 1;
        }
        true
    }

    /// The first holding with a ticker, which is taken in upper case.
    pub fn holding(&self, ticker: &str) -> (r: Option<&Holding>)
        ensures
            match r {
                Some(h) => held(self@, ticker@) == Some(h@),
                None => held(self@, ticker@) is None,
            },
    {
        let label = to_upper(ticker);
        let mut i: usize = 0;
        while i < self.holdings.len()
            invariant
                i <= self.holdings@.len(),
                label@ == upper(ticker@),
                self@.holdings.len() == self.holdings@.len(),
                held(self@, ticker@) == held_from(self@.holdings, label@, i as int),
            decreases self.holdings@.len() - i,
        {
            assert(self@.holdings[i as int] == self.holdings@[i as int]@);
            if same(self.holdings[i].ticker.as_str(), label.as_str()) {
                return Some(&self.holdings[i]);
            }
            i += 1;
        }
        None
    }

    /// The market value that is held under a ticker.
    pub fn market_value(&self, ticker: &str) -> (r: Fixed)
        ensures
            r == value_held(self@, ticker@),
            portfolio_within_limits(self@) ==> within(r as int, LIMIT as int),
    {
        proof {
            held_is_a_holding(self@, ticker@);
        }
        match self.holding(ticker) {
            Some(h) => h.market_value,
            None => 0,
        }
    }

    /// The price of every held ticker; the last one counts where a ticker occurs twice.
    pub fn price_map(&self) -> (r: StrMap<Fixed>)
        ensures
            r@ == prices(self@.holdings, self@.holdings.len() as int),
    {
        let mut m: StrMap<Fixed> = StrMap::new();
        let mut i: usize = 0;
        while i < self.holdings.len()
            invariant
                i <= self.holdings@.len(),
                self@.holdings.len() == self.holdings@.len(),
                m@ == prices(self@.holdings, i as int),
            decreases self.holdings@.len() - i,
        {
            assert(self@.holdings[i as int] == self.holdings@[i as int]@);
            m.insert(self.holdings[i].ticker.clone(), self.holdings[i].price);
            i += 1;
        }
        m
    }
}

} // verus!
