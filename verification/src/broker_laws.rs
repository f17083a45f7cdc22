//! What is read from the broker's replies: which price counts, what the middle of a
//! quote is, which bars are kept, and under which name each field stands.
use vstd::math::{max, min};
use vstd::prelude::*;

use crate::alpaca::{account_of, amount_in, intent_of, is_paper, order_of, position_of, positions_of, session_in};
use crate::alpaca_data::{
    bar_of, bars_of, highest, newest_bars, option_mid, reach, snapshot_price, stamp_day, BarView,
};
use crate::fixed::magnitude;
use crate::json::{flag_in, member, number_in, text_in, Document};
use crate::numerals::decimal_value;
use crate::numr::rounded_is_near;
use crate::order_laws::cent_steps;

verus! {

// ── prices ─────────────────────────────────────────────────────────────────

/// A part of a reply holds a positive number under a field.
pub open spec fn quotes(data: Document, part: Seq<char>, field: Seq<char>, x: int) -> bool {
    x > 0 && (member(data, part) matches Some(n) && number_in(n, field) == Some(x))
}

/// A part of a reply holds no positive number under a field.
pub open spec fn silent(data: Document, part: Seq<char>, field: Seq<char>) -> bool {
    member(data, part) matches Some(n) ==> (number_in(n, field) matches Some(x) ==> x <= 0)
}

/// The latest trade is the price of a stock, whatever the bars say; without a positive
/// one it is the close of the day's bar, then of the minute's, then of the day before;
/// and without any of them there is no price.
pub proof fn the_latest_trade_is_the_price(data: Document, x: int)
    ensures
        quotes(data, "latestTrade"@, "p"@, x) ==> snapshot_price(data) == Some(x),
        silent(data, "latestTrade"@, "p"@) && quotes(data, "dailyBar"@, "c"@, x) ==> snapshot_price(data) == Some(x),
        silent(data, "latestTrade"@, "p"@) && silent(data, "dailyBar"@, "c"@) && quotes(data, "minuteBar"@, "c"@, x)
            ==> snapshot_price(data) == Some(x),
        silent(data, "latestTrade"@, "p"@) && silent(data, "dailyBar"@, "c"@) && silent(data, "minuteBar"@, "c"@) && quotes(
            data,
            "prevDailyBar"@,
            "c"@,
            x,
        ) ==> snapshot_price(data) == Some(x),
        silent(data, "latestTrade"@, "p"@) && silent(data, "dailyBar"@, "c"@) && silent(data, "minuteBar"@, "c"@) && silent(
            data,
            "prevDailyBar"@,
            "c"@,
        ) ==> snapshot_price(data) is None,
        snapshot_price(data) matches Some(y) ==> y > 0,
{
}

/// The price of an option is half way between bid and ask, in whole cents and no more
/// than half a cent off, where both are quoted and the ask is positive; otherwise it is
/// that of the last trade.
pub proof fn an_option_is_priced_half_way(data: Document, occ: Seq<char>, snap: Document)
    requires
        member(data, "snapshots"@) matches Some(all) && member(all, occ) == Some(snap),
    ensures
        match member(snap, "latestQuote"@) {
            Some(q) => match (number_in(q, "bp"@), number_in(q, "ap"@)) {
                (Some(b), Some(a)) if a > 0 => option_mid(data, occ) matches Some(m) && m % 10_000_000_000 == 0 && magnitude(
                    2 * m - (a + b),
                ) <= 10_000_000_001,
                _ => option_mid(data, occ) == match member(snap, "latestTrade"@) {
                    Some(t) => number_in(t, "p"@),
                    None => None,
                },
            },
            None => option_mid(data, occ) == match member(snap, "latestTrade"@) {
                Some(t) => number_in(t, "p"@),
                None => None,
            },
        },
{
    if let Some(q) = member(snap, "latestQuote"@) {
        if let (Some(b), Some(a)) = (number_in(q, "bp"@), number_in(q, "ap"@)) {
            let half = (b + a) / 2;
            rounded_is_near(half, 2);
            cent_steps(half);
        }
    }
}

/// An option that the chain does not list has no price.
pub proof fn an_unlisted_option_has_no_price(data: Document, occ: Seq<char>)
    requires
        member(data, "snapshots"@) matches Some(all) ==> member(all, occ) is None,
    ensures
        option_mid(data, occ) is None,
{
}

// ── bars ───────────────────────────────────────────────────────────────────

/// A bar needs a day and a close; what else it lacks is taken from the close, and the
/// volume as none.
pub proof fn a_bar_needs_a_day_and_a_close(b: Document)
    ensures
        bar_of(b) is Some <==> number_in(b, "c"@) is Some && stamp_day(match text_in(b, "t"@) {
            Some(t) => t,
            None => ""@,
        }) is Some,
        bar_of(b) matches Some(x) ==> {
            &&& number_in(b, "c"@) == Some(x.close)
            &&& x.open == x.close || number_in(b, "o"@) == Some(x.open)
            &&& x.high == x.close || number_in(b, "h"@) == Some(x.high)
            &&& x.low == x.close || number_in(b, "l"@) == Some(x.low)
            &&& number_in(b, "o"@) matches Some(y) ==> x.open == y
            &&& number_in(b, "h"@) matches Some(y) ==> x.high == y
            &&& number_in(b, "l"@) matches Some(y) ==> x.low == y
            &&& number_in(b, "v"@) matches Some(y) ==> x.volume == y
            &&& number_in(b, "v"@) is None ==> x.volume == 0
        },
{
}

proof fn bars_as_they_come(items: Seq<Document>, n: int, k: int)
    requires
        0 <= k < n <= items.len(),
        forall|i: int| 0 <= i < n ==> bar_of(#[trigger] items[i]) is Some,
    ensures
        bars_of(items, n).len() == n,
        Some(bars_of(items, n)[k]) == bar_of(items[k]),
    decreases n,
{
    assert(bar_of(items[n - 1]) is Some);
    if n > 1 {
        bars_as_they_come(items, n - 1, if k < n - 1 {
            k
        } else {
            0
        });
    } else {
        assert(bars_of(items, 0).len() == 0);
    }
}

/// Of a reply that has the newest bar first, the newest are kept, as many as asked for
/// and at least one, and the oldest of them comes first.
pub proof fn the_newest_bars_are_kept(items: Seq<Document>, limit: int, k: int)
    requires
        0 <= k < min(items.len() as int, max(limit, 1)),
        forall|i: int| 0 <= i < items.len() ==> bar_of(#[trigger] items[i]) is Some,
    ensures
        newest_bars(items, limit).len() == min(items.len() as int, max(limit, 1)),
        Some(newest_bars(items, limit)[newest_bars(items, limit).len() - 1 - k]) == bar_of(items[k]),
{
    bars_as_they_come(items, items.len() as int, k);
}

/// The highest high is a positive high of one of the bars, and no bar has a higher one;
/// there is none exactly where no bar has a positive high.
pub proof fn the_highest_high_is_the_highest(bars: Seq<BarView>, n: int)
    requires
        0 <= n <= bars.len(),
    ensures
        highest(bars, n) is None <==> forall|k: int| 0 <= k < n ==> (#[trigger] bars[k]).high <= 0,
        highest(bars, n) matches Some(x) ==> x > 0 && (forall|k: int| 0 <= k < n ==> (#[trigger] bars[k]).high <= x) && exists|
            k: int,
        |
            0 <= k < n && (#[trigger] bars[k]).high == x,
    decreases n,
{
    if n > 0 {
        the_highest_high_is_the_highest(bars, n - 1);
        assert(bars[n - 1].high <= bars[n - 1].high);
        if let Some(x) = highest(bars, n - 1) {
            let k = choose|k: int| 0 <= k < n - 1 && (#[trigger] bars[k]).high == x;
            assert(bars[k].high == x);
        }
    }
}

/// A request for bars reaches back eight days for five bars, and fifteen days more; so
/// far enough for as many weekdays as there are bars.
pub proof fn a_request_reaches_back_far_enough(limit: int)
    requires
        0 <= limit,
    ensures
        5 * (reach(limit) - 15) <= 8 * limit < 5 * (reach(limit) - 15) + 5,
        5 * reach(limit) >= 7 * limit,
{
}

// ── fields ─────────────────────────────────────────────────────────────────

/// An account is a paper account exactly where its number begins with PA.
pub proof fn a_paper_account_begins_with_pa(number: Seq<char>)
    ensures
        is_paper(number) <==> number.len() >= 2 && number[0] == 'P' && number[1] == 'A',
{
    reveal_strlit("PA");
    assert("PA"@.len() == 2);
    if number.len() >= 2 {
        if number[0] == 'P' && number[1] == 'A' {
            assert(number.subrange(0, 2) =~= "PA"@);
        }
        if number.subrange(0, 2) == "PA"@ {
            assert(number.subrange(0, 2)[0] == number[0] && number.subrange(0, 2)[1] == number[1]);
        }
    }
}

/// Every field of the account is the one under its own name.
pub proof fn account_fields_have_their_names(d: Document)
    ensures
        ({
            let a = account_of(d);
            &&& text_in(d, "account_number"@) matches Some(t) ==> a.account_number == t
            &&& text_in(d, "status"@) matches Some(t) ==> a.status == t
            &&& text_in(d, "currency"@) matches Some(t) ==> (t.len() > 0 ==> a.currency == t)
            &&& text_in(d, "currency"@) is None ==> a.currency == "USD"@
            &&& a.cash == amount_in(d, "cash"@)
            &&& a.portfolio_value == amount_in(d, "portfolio_value"@)
            &&& a.buying_power == amount_in(d, "buying_power"@)
            &&& a.equity == amount_in(d, "equity"@)
            &&& a.last_equity == amount_in(d, "last_equity"@)
            &&& a.trading_blocked <==> flag_in(d, "trading_blocked"@) == Some(true)
            &&& a.account_blocked <==> flag_in(d, "account_blocked"@) == Some(true)
            &&& a.paper <==> is_paper(a.account_number)
        }),
{
    reveal_strlit("");
    assert(""@.len() == 0);
}

/// Every item of a positions reply is a position, in its place, and every field of it
/// the one under its own name.
pub proof fn positions_have_their_fields(items: Seq<Document>, k: int)
    requires
        0 <= k < items.len(),
    ensures
        positions_of(Document::Array(items)).len() == items.len(),
        ({
            let p = positions_of(Document::Array(items))[k];
            let d = items[k];
            &&& text_in(d, "symbol"@) matches Some(t) ==> p.symbol == t
            &&& text_in(d, "side"@) matches Some(t) ==> p.side == t
            &&& p.qty == amount_in(d, "qty"@)
            &&& p.market_value == amount_in(d, "market_value"@)
            &&& p.cost_basis == amount_in(d, "cost_basis"@)
            &&& p.unrealized_pl == amount_in(d, "unrealized_pl"@)
            &&& p.unrealized_plpc == amount_in(d, "unrealized_plpc"@)
            &&& p.current_price == amount_in(d, "current_price"@)
            &&& p.avg_entry_price == amount_in(d, "avg_entry_price"@)
        }),
{
    assert(positions_of(Document::Array(items))[k] == position_of(items[k]));
}

/// A number counts as it stands, and a text as the number that it denotes; a text that
/// denotes none counts as nothing, and so does a reply with neither.
pub proof fn a_number_counts_as_it_stands(j: Document, key: Seq<char>)
    ensures
        number_in(j, key) matches Some(x) ==> amount_in(j, key) == x,
        number_in(j, key) is None && text_in(j, key) is None ==> amount_in(j, key) == 0,
        number_in(j, key) is None ==> (text_in(j, key) matches Some(t) ==> match decimal_value(t) {
            Some(x) => amount_in(j, key) == x,
            None => amount_in(j, key) == 0,
        }),
{
}

/// Every field of an order is the one under its own name; a quantity that is no text is
/// taken as it was written.
pub proof fn order_fields_have_their_names(d: Document, qty: Option<Seq<char>>, filled: Option<Seq<char>>)
    ensures
        ({
            let o = order_of(d, qty, filled);
            &&& text_in(d, "id"@) matches Some(t) ==> o.id == t
            &&& text_in(d, "symbol"@) matches Some(t) ==> o.symbol == t
            &&& text_in(d, "side"@) matches Some(t) ==> o.side == t
            &&& text_in(d, "type"@) matches Some(t) ==> o.kind == t
            &&& text_in(d, "status"@) matches Some(t) ==> o.status == t
            &&& text_in(d, "qty"@) matches Some(t) ==> o.qty == t
            &&& text_in(d, "qty"@) is None ==> (qty matches Some(t) ==> o.qty == t)
            &&& text_in(d, "filled_qty"@) matches Some(t) ==> o.filled_qty == t
            &&& text_in(d, "filled_qty"@) is None ==> (filled matches Some(t) ==> o.filled_qty == t)
            &&& o.filled_avg_price == text_in(d, "filled_avg_price"@)
            &&& o.limit_price == text_in(d, "limit_price"@)
        }),
{
}

/// A buy of an option opens a position and a sale closes one: the sleeve never sells to
/// open.
pub proof fn a_sale_of_an_option_closes()
    ensures
        intent_of("buy"@) == "buy_to_open"@,
        intent_of("sell"@) == "sell_to_close"@,
{
    reveal_strlit("buy");
    reveal_strlit("sell");
    assert("buy"@.len() == 3 && "sell"@.len() == 4);
}

/// A day that the calendar lists anywhere is a session, one that it does not list a
/// holiday, and a reply that is no list says nothing.
pub proof fn a_listed_day_is_a_session(items: Seq<Document>, day: Seq<char>, k: int)
    ensures
        0 <= k < items.len() && text_in(items[k], "date"@) == Some(day) ==> session_in(Document::Array(items), day) == Some(
            true,
        ),
        (forall|i: int| 0 <= i < items.len() ==> text_in(#[trigger] items[i], "date"@) != Some(day)) ==> session_in(
            Document::Array(items),
            day,
        ) == Some(false),
        forall|d: Document| !(d is Array) ==> #[trigger] session_in(d, day) is None,
{
}

} // verus!
