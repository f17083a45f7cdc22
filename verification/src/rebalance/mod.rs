//! The rebalance engine: the rules decide what may be done, the nightly signal
//! only orders the choices, and the phased build layers the book in.
use vstd::prelude::*;

use crate::fixed::Fixed;

pub mod deploy_laws;
pub mod flag_laws;
pub mod laws;
pub mod ledger;
pub mod outcome;
pub mod phased_build;
pub mod promises;
pub mod relief_laws;
pub mod rules;
pub mod signal_bias;
pub mod signal_laws;
pub mod sizes;
pub mod tranche_laws;

verus! {

/// What is proposed for a name.
#[derive(Debug, Clone, Copy, PartialEq, Eq, Structural)]
pub enum ActionKind {
    /// Buy for that many dollars.
    Buy,
    /// Sell for that many dollars.
    Trim,
    /// No order: the thesis is to be looked at again.
    ThesisRevalidate,
}

/// One proposal.
#[derive(Debug, Clone, PartialEq)]
pub struct Action {
    pub ticker: String,
    pub kind: ActionKind,
    /// The size in dollars; zero where there is no order.
    pub dollars: Fixed,
    pub reason: String,
}

/// A proposal as plain values.
#[verifier::ext_equal]
pub struct ActionView {
    pub ticker: Seq<char>,
    pub kind: ActionKind,
    pub dollars: int,
    pub reason: Seq<char>,
}

impl View for Action {
    type V = ActionView;

    open spec fn view(&self) -> ActionView {
        ActionView {
            ticker: self.ticker@,
            kind: self.kind,
            dollars: self.dollars as int,
            reason: self.reason@,
        }
    }
}

/// The views of a list of proposals.
pub open spec fn action_views(v: Seq<Action>) -> Seq<ActionView> {
    v.map_values(|a: Action| a@)
}

/// A proposal to buy.
pub open spec fn buying(ticker: Seq<char>, dollars: int, reason: Seq<char>) -> ActionView {
    ActionView { ticker, kind: ActionKind::Buy, dollars, reason }
}

/// A proposal to sell.
pub open spec fn trimming(ticker: Seq<char>, dollars: int, reason: Seq<char>) -> ActionView {
    ActionView { ticker, kind: ActionKind::Trim, dollars, reason }
}

/// A proposal to look at the thesis again.
pub open spec fn revalidating(ticker: Seq<char>, reason: Seq<char>) -> ActionView {
    ActionView { ticker, kind: ActionKind::ThesisRevalidate, dollars: 0, reason }
}

/// The side of the order that a proposal leads to.
pub open spec fn side_of(kind: ActionKind) -> Seq<char> {
    match kind {
        ActionKind::Buy => "buy"@,
        ActionKind::Trim => "sell"@,
        ActionKind::ThesisRevalidate => "none"@,
    }
}

impl Action {
    /// A proposal to buy.
    pub fn buy(ticker: &str, dollars: Fixed, reason: &str) -> (r: Self)
        ensures
            r@ == buying(ticker@, dollars as int, reason@),
    {
        Action {
            ticker: ticker.to_owned(),
            kind: ActionKind::Buy,
            dollars,
            reason: reason.to_owned(),
        }
    }

    /// A proposal to sell.
    pub fn trim(ticker: &str, dollars: Fixed, reason: &str) -> (r: Self)
        ensures
            r@ == trimming(ticker@, dollars as int, reason@),
    {
        Action {
            ticker: ticker.to_owned(),
            kind: ActionKind::Trim,
            dollars,
            reason: reason.to_owned(),
        }
    }

    /// A proposal to look at the thesis again: no order, no dollars.
    pub fn revalidate(ticker: &str, reason: &str) -> (r: Self)
        ensures
            r@ == revalidating(ticker@, reason@),
    {
        Action {
            ticker: ticker.to_owned(),
            kind: ActionKind::ThesisRevalidate,
            dollars: 0,
            reason: reason.to_owned(),
        }
    }

    /// The side of the order that the proposal leads to.
    pub fn side(&self) -> (r: &'static str)
        ensures
            r@ == side_of(self@.kind),
    {
        match self.kind {
            ActionKind::Buy => "buy",
            ActionKind::Trim => "sell",
            ActionKind::ThesisRevalidate => "none",
        }
    }
}

} // verus!
