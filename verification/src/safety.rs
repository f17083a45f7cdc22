//! Safety: what is asked before every cycle, and the cap that keeps buys
//! within settled cash.
use vstd::math::max;
use vstd::prelude::*;
use vstd::string::*;

use crate::alpaca::{error_text, AlpacaError};
use crate::fixed::{larger, portion, times, within, Fixed, FRACTION_LIMIT, LIMIT, WIDE};

verus! {

/// Whether a cycle may run.
#[derive(Debug, PartialEq, Eq)]
pub enum SafetyVerdict {
    /// Nothing stands in the way.
    Clear,
    /// No orders this cycle, and why.
    Halted(String),
}

/// What is asked before a cycle, from whether the kill file is there, its
/// path, and what the paper guard said where there is a broker to ask. The kill
/// file comes first.
pub fn safety_check(
    kill_file_present: bool,
    kill_file: &str,
    paper_guard: Option<Result<bool, AlpacaError>>,
) -> (r: SafetyVerdict)
    ensures
        kill_file_present ==> (r matches SafetyVerdict::Halted(why) && why@
            == "kill file present at "@ + kill_file@),
        !kill_file_present ==> match paper_guard {
            Some(Err(e)) => r matches SafetyVerdict::Halted(why) && why@ == error_text(e),
            _ => r is Clear,
        },
{
    if kill_file_present {
        let mut why = "kill file present at ".to_owned();
        why.append(kill_file);
        return SafetyVerdict::Halted(why);
    }
    match paper_guard {
        Some(Err(e)) => SafetyVerdict::Halted(e.message()),
        _ => SafetyVerdict::Clear,
    }
}

/// The cash that new buys may use: what is left of the cash beyond the protected
/// share of the account, never less than nothing.
pub open spec fn deployable_cash(cash: int, nav: int, cash_buffer_pct: int) -> int {
    max(cash - max(times(nav, cash_buffer_pct), 0), 0)
}

/// The cash that new buys may use.
pub fn cash_available_for_buys(cash: Fixed, nav: Fixed, cash_buffer_pct: Fixed) -> (r: Fixed)
    requires
        within(cash as int, WIDE as int),
        within(nav as int, LIMIT as int),
        within(cash_buffer_pct as int, FRACTION_LIMIT as int),
    ensures
        r == deployable_cash(cash as int, nav as int, cash_buffer_pct as int),
        0 <= r <= max(cash as int, 0),
{
    let protected: i128 = larger(portion(nav, cash_buffer_pct), 0);
    larger(cash - protected, 0)
}

/// Buys never touch the protected buffer: what they may use, together with it,
/// is no more than the cash.
pub proof fn buffer_is_protected(cash: int, nav: int, cash_buffer_pct: int)
    ensures
        0 <= deployable_cash(cash, nav, cash_buffer_pct),
        deployable_cash(cash, nav, cash_buffer_pct) > 0 ==> deployable_cash(
            cash,
            nav,
            cash_buffer_pct,
        ) + max(times(nav, cash_buffer_pct), 0) == cash,
{
}

} // verus!
