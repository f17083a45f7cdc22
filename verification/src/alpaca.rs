//! The broker: its account, positions and orders as plain values, read from its
//! replies, and the paper guard that stands in front of every order.
use vstd::prelude::*;
use vstd::string::*;

use crate::config::decimal_or;
use crate::fixed::{decimal, decimal_text, integer_text, magnitude, signed_decimal, within, Fixed, CENT, WIDE};
use crate::json::{
    documents, flag_in, held_tree, member_text, number_in, text_in, text_or, text_view, tree_document, written_member, Document,
    Json, Tree,
};
use crate::numerals::parse_decimal;
use crate::numr::{pyround, rounded};
use crate::text::{begins_with, chars_of, pad_zeros, same, slice_text, stands_at, trim_trailing, without_trailing, zero_padded};

verus! {

/// What goes wrong between this program and the broker.
#[derive(Debug)]
pub enum AlpacaError {
    ColdStart(String),
    PaperGuard(String),
    Order(String),
    Request(String),
}

/// The message of an error.
pub open spec fn error_text(e: AlpacaError) -> Seq<char> {
    match e {
        AlpacaError::ColdStart(s) => "Alpaca cold-start failure: "@ + s@,
        AlpacaError::PaperGuard(s) => "ALPACA PAPER-GUARD VIOLATION: detected non-paper account "@ + s@
            + ". All order submission halted. Regenerate paper keys immediately."@,
        AlpacaError::Order(s) => "Alpaca order error: "@ + s@,
        AlpacaError::Request(s) => "Alpaca request failed: "@ + s@,
    }
}

impl AlpacaError {
    /// The message of the error.
    pub fn message(&self) -> (r: String)
        ensures
            r@ == error_text(*self),
    {
        match self {
            AlpacaError::ColdStart(s) => {
                let mut t = "Alpaca cold-start failure: ".to_owned();
                t.append(s.as_str());
                t
            },
            AlpacaError::PaperGuard(s) => {
                let mut t = "ALPACA PAPER-GUARD VIOLATION: detected non-paper account ".to_owned();
                t.append(s.as_str());
                t.append(". All order submission halted. Regenerate paper keys immediately.");
                t
            },
            AlpacaError::Order(s) => {
                let mut t = "Alpaca order error: ".to_owned();
                t.append(s.as_str());
                t
            },
            AlpacaError::Request(s) => {
                let mut t = "Alpaca request failed: ".to_owned();
                t.append(s.as_str());
                t
            },
        }
    }
}

/// A submitted order, as the broker reports it.
#[derive(Debug, Clone)]
pub struct Order {
    pub id: String,
    pub symbol: String,
    pub qty: String,
    pub side: String,
    pub kind: String,
    pub status: String,
    pub filled_qty: String,
    pub filled_avg_price: Option<String>,
    pub limit_price: Option<String>,
}

/// An order as plain values.
#[verifier::ext_equal]
pub struct OrderView {
    pub id: Seq<char>,
    pub symbol: Seq<char>,
    pub qty: Seq<char>,
    pub side: Seq<char>,
    pub kind: Seq<char>,
    pub status: Seq<char>,
    pub filled_qty: Seq<char>,
    pub filled_avg_price: Option<Seq<char>>,
    pub limit_price: Option<Seq<char>>,
}

impl View for Order {
    type V = OrderView;

    open spec fn view(&self) -> OrderView {
        OrderView {
            id: self.id@,
            symbol: self.symbol@,
            qty: self.qty@,
            side: self.side@,
            kind: self.kind@,
            status: self.status@,
            filled_qty: self.filled_qty@,
            filled_avg_price: text_view(self.filled_avg_price),
            limit_price: text_view(self.limit_price),
        }
    }
}

/// The broker's account.
#[derive(Debug, Clone)]
pub struct AlpacaAccount {
    pub account_number: String,
    pub status: String,
    pub currency: String,
    pub cash: Fixed,
    pub portfolio_value: Fixed,
    pub buying_power: Fixed,
    pub equity: Fixed,
    pub last_equity: Fixed,
    pub trading_blocked: bool,
    pub account_blocked: bool,
    pub paper: bool,
}

/// An account as plain values.
#[verifier::ext_equal]
pub struct AccountView {
    pub account_number: Seq<char>,
    pub status: Seq<char>,
    pub currency: Seq<char>,
    pub cash: int,
    pub portfolio_value: int,
    pub buying_power: int,
    pub equity: int,
    pub last_equity: int,
    pub trading_blocked: bool,
    pub account_blocked: bool,
    pub paper: bool,
}

impl View for AlpacaAccount {
    type V = AccountView;

    open spec fn view(&self) -> AccountView {
        AccountView {
            account_number: self.account_number@,
            status: self.status@,
            currency: self.currency@,
            cash: self.cash as int,
            portfolio_value: self.portfolio_value as int,
            buying_power: self.buying_power as int,
            equity: self.equity as int,
            last_equity: self.last_equity as int,
            trading_blocked: self.trading_blocked,
            account_blocked: self.account_blocked,
            paper: self.paper,
        }
    }
}

impl Default for AlpacaAccount {
    fn default() -> (a: Self)
        ensures
            a@ == (AccountView {
                account_number: ""@,
                status: ""@,
                currency: ""@,
                cash: 0,
                portfolio_value: 0,
                buying_power: 0,
                equity: 0,
                last_equity: 0,
                trading_blocked: false,
                account_blocked: false,
                paper: false,
            }),
    {
        AlpacaAccount {
            account_number: "".to_owned(),
            status: "".to_owned(),
            currency: "".to_owned(),
            cash: 0,
            portfolio_value: 0,
            buying_power: 0,
            equity: 0,
            last_equity: 0,
            trading_blocked: false,
            account_blocked: false,
            paper: false,
        }
    }
}

/// A position at the broker.
#[derive(Debug, Clone)]
pub struct Position {
    pub symbol: String,
    pub qty: Fixed,
    pub side: String,
    pub market_value: Fixed,
    pub cost_basis: Fixed,
    pub unrealized_pl: Fixed,
    pub unrealized_plpc: Fixed,
    pub current_price: Fixed,
    pub avg_entry_price: Fixed,
}

/// A position as plain values.
#[verifier::ext_equal]
pub struct PositionView {
    pub symbol: Seq<char>,
    pub qty: int,
    pub side: Seq<char>,
    pub market_value: int,
    pub cost_basis: int,
    pub unrealized_pl: int,
    pub unrealized_plpc: int,
    pub current_price: int,
    pub avg_entry_price: int,
}

impl View for Position {
    type V = PositionView;

    open spec fn view(&self) -> PositionView {
        PositionView {
            symbol: self.symbol@,
            qty: self.qty as int,
            side: self.side@,
            market_value: self.market_value as int,
            cost_basis: self.cost_basis as int,
            unrealized_pl: self.unrealized_pl as int,
            unrealized_plpc: self.unrealized_plpc as int,
            current_price: self.current_price as int,
            avg_entry_price: self.avg_entry_price as int,
        }
    }
}

impl Default for Position {
    fn default() -> (p: Self)
        ensures
            p@ == (PositionView {
                symbol: ""@,
                qty: 0,
                side: ""@,
                market_value: 0,
                cost_basis: 0,
                unrealized_pl: 0,
                unrealized_plpc: 0,
                current_price: 0,
                avg_entry_price: 0,
            }),
    {
        Position {
            symbol: "".to_owned(),
            qty: 0,
            side: "".to_owned(),
            market_value: 0,
            cost_basis: 0,
            unrealized_pl: 0,
            unrealized_plpc: 0,
            current_price: 0,
            avg_entry_price: 0,
        }
    }
}

impl Default for Order {
    fn default() -> (o: Self)
        ensures
            o@ == (OrderView {
                id: ""@,
                symbol: ""@,
                qty: ""@,
                side: ""@,
                kind: ""@,
                status: ""@,
                filled_qty: ""@,
                filled_avg_price: None,
                limit_price: None,
            }),
    {
        Order {
            id: "".to_owned(),
            symbol: "".to_owned(),
            qty: "".to_owned(),
            side: "".to_owned(),
            kind: "".to_owned(),
            status: "".to_owned(),
            filled_qty: "".to_owned(),
            filled_avg_price: None,
            limit_price: None,
        }
    }
}

// ── replies ────────────────────────────────────────────────────────────────

/// An amount of a reply: a number, or a text that denotes one, or zero.
pub open spec fn amount_in(j: Document, key: Seq<char>) -> int {
    match number_in(j, key) {
        Some(x) => x,
        None => match text_in(j, key) {
            Some(s) => decimal_or(s, 0),
            None => 0,
        },
    }
}

fn amount(j: &Json, key: &str) -> (r: Fixed)
    ensures
        r == amount_in(j@, key@),
{
    match j.number_at(key) {
        Some(x) => x,
        None => match j.text_at(key) {
            Some(s) => match parse_decimal(s.as_str()) {
                Some(x) => x,
                None => 0,
            },
            None => 0,
        },
    }
}

fn flag(j: &Json, key: &str) -> (r: bool)
    ensures
        r == (flag_in(j@, key@) == Some(true)),
{
    match j.flag_at(key) {
        Some(b) => b,
        None => false,
    }
}

/// The number of a paper account starts with `PA`.
pub open spec fn is_paper(account_number: Seq<char>) -> bool {
    stands_at(account_number, "PA"@, 0)
}

/// The account that a reply describes.
pub open spec fn account_of(d: Document) -> AccountView {
    let number = text_or(text_in(d, "account_number"@), ""@);
    let currency = text_or(text_in(d, "currency"@), ""@);
    AccountView {
        account_number: number,
        status: text_or(text_in(d, "status"@), ""@),
        currency: if currency.len() == 0 {
            "USD"@
        } else {
            currency
        },
        cash: amount_in(d, "cash"@),
        portfolio_value: amount_in(d, "portfolio_value"@),
        buying_power: amount_in(d, "buying_power"@),
        equity: amount_in(d, "equity"@),
        last_equity: amount_in(d, "last_equity"@),
        trading_blocked: flag_in(d, "trading_blocked"@) == Some(true),
        account_blocked: flag_in(d, "account_blocked"@) == Some(true),
        paper: is_paper(number),
    }
}

/// Reads the account reply.
pub fn account_from_json(d: &Json) -> (r: AlpacaAccount)
    ensures
        r@ == account_of(d@),
{
    let number = d.text_or_empty("account_number");
    let currency = d.text_or_empty("currency");
    let paper = begins_with(number.as_str(), "PA");
    AlpacaAccount {
        account_number: number,
        status: d.text_or_empty("status"),
        currency: if currency.as_str().unicode_len() == 0 {
            "USD".to_owned()
        } else {
            currency
        },
        cash: amount(d, "cash"),
        portfolio_value: amount(d, "portfolio_value"),
        buying_power: amount(d, "buying_power"),
        equity: amount(d, "equity"),
        last_equity: amount(d, "last_equity"),
        trading_blocked: flag(d, "trading_blocked"),
        account_blocked: flag(d, "account_blocked"),
        paper,
    }
}

/// The position that one item of a reply describes.
pub open spec fn position_of(p: Document) -> PositionView {
    PositionView {
        symbol: text_or(text_in(p, "symbol"@), ""@),
        qty: amount_in(p, "qty"@),
        side: text_or(text_in(p, "side"@), ""@),
        market_value: amount_in(p, "market_value"@),
        cost_basis: amount_in(p, "cost_basis"@),
        unrealized_pl: amount_in(p, "unrealized_pl"@),
        unrealized_plpc: amount_in(p, "unrealized_plpc"@),
        current_price: amount_in(p, "current_price"@),
        avg_entry_price: amount_in(p, "avg_entry_price"@),
    }
}

/// The positions of a reply: one for each item of its array; a reply that is no
/// array holds none.
pub open spec fn positions_of(d: Document) -> Seq<PositionView> {
    match d {
        Document::Array(items) => items.map_values(|p: Document| position_of(p)),
        _ => seq![],
    }
}

/// The views of a list of positions.
pub open spec fn position_views(v: Seq<Position>) -> Seq<PositionView> {
    v.map_values(|p: Position| p@)
}

fn position_from_json(p: &Json) -> (r: Position)
    ensures
        r@ == position_of(p@),
{
    Position {
        symbol: p.text_or_empty("symbol"),
        qty: amount(p, "qty"),
        side: p.text_or_empty("side"),
        market_value: amount(p, "market_value"),
        cost_basis: amount(p, "cost_basis"),
        unrealized_pl: amount(p, "unrealized_pl"),
        unrealized_plpc: amount(p, "unrealized_plpc"),
        current_price: amount(p, "current_price"),
        avg_entry_price: amount(p, "avg_entry_price"),
    }
}

/// Reads the positions reply.
pub fn positions_from_json(d: &Json) -> (r: Vec<Position>)
    ensures
        position_views(r@) == positions_of(d@),
{
    let mut out: Vec<Position> = Vec::new();
    if let Some(items) = d.items() {
        let mut i: usize = 0;
        while i < items.len()
            invariant
                i <= items@.len(),
                out@.len() == i,
                forall|k: int| 0 <= k < i ==> #[trigger] out@[k]@ == position_of(items@[k]@),
            decreases items@.len() - i,
        {
            out.push(position_from_json(&items[i]));
            i += 1;
        }
    }
    assert(position_views(out@) =~= positions_of(d@));
    out
}

/// The paper guard: passes exactly the accounts whose number starts with `PA`.
pub fn verify_paper_account(account_number: &str) -> (r: Result<bool, AlpacaError>)
    ensures
        is_paper(account_number@) ==> r == Ok::<bool, AlpacaError>(true),
        !is_paper(account_number@) ==> (r matches Err(AlpacaError::PaperGuard(n)) && n@
            == account_number@),
{
    if begins_with(account_number, "PA") {
        Ok(true)
    } else {
        Err(AlpacaError::PaperGuard(account_number.to_owned()))
    }
}

/// The order that a reply describes. A quantity that the reply does not give as a
/// text is taken in its JSON form, which `qty` and `filled_qty` hold.
pub open spec fn order_of(
    d: Document,
    qty: Option<Seq<char>>,
    filled_qty: Option<Seq<char>>,
) -> OrderView {
    OrderView {
        id: text_or(text_in(d, "id"@), ""@),
        symbol: text_or(text_in(d, "symbol"@), ""@),
        qty: text_or(text_in(d, "qty"@), text_or(qty, "0"@)),
        side: text_or(text_in(d, "side"@), ""@),
        kind: text_or(text_in(d, "type"@), ""@),
        status: text_or(text_in(d, "status"@), ""@),
        filled_qty: text_or(text_in(d, "filled_qty"@), text_or(filled_qty, "0"@)),
        filled_avg_price: text_in(d, "filled_avg_price"@),
        limit_price: text_in(d, "limit_price"@),
    }
}

fn first_text(a: Option<String>, b: Option<String>) -> (r: String)
    ensures
        r@ == text_or(text_view(a), text_or(text_view(b), "0"@)),
{
    match a {
        Some(s) => s,
        None => match b {
            Some(s) => s,
            None => "0".to_owned(),
        },
    }
}

/// Reads an order reply. `qty` and `filled_qty` are the JSON forms of those
/// members, where the reply has them.
pub fn order_from_json(d: &Json, qty: Option<String>, filled_qty: Option<String>) -> (r: Order)
    ensures
        r@ == order_of(d@, text_view(qty), text_view(filled_qty)),
{
    Order {
        id: d.text_or_empty("id"),
        symbol: d.text_or_empty("symbol"),
        qty: first_text(d.text_at("qty"), qty),
        side: d.text_or_empty("side"),
        kind: d.text_or_empty("type"),
        status: d.text_or_empty("status"),
        filled_qty: first_text(d.text_at("filled_qty"), filled_qty),
        filled_avg_price: d.text_at("filled_avg_price"),
        limit_price: d.text_at("limit_price"),
    }
}

/// The order that a reply of the broker describes: a quantity that it does not give as
/// a text is taken as it is written.
pub open spec fn replied_order(t: Tree) -> OrderView {
    order_of(tree_document(t), written_member(t, "qty"@), written_member(t, "filled_qty"@))
}

/// What a reply to an order means: a status from 200 to 299 carries the order,
/// any other one its own number and the reply's message.
pub fn order_reply(status: u16, body: serde_json::Value) -> (r: Result<Order, AlpacaError>)
    ensures
        200 <= status <= 299 ==> (r matches Ok(o) && o@ == replied_order(held_tree(body))),
        !(200 <= status <= 299) ==> (r matches Err(AlpacaError::Order(m)) && m@ == refusal(
            status,
            tree_document(held_tree(body)),
        )),
{
    let qty = member_text(&body, "qty");
    let filled_qty = member_text(&body, "filled_qty");
    let d = Json::from_value(body);
    if 200 <= status && status <= 299 {
        Ok(order_from_json(&d, qty, filled_qty))
    } else {
        Err(AlpacaError::Order(refusal_text(status, &d)))
    }
}

/// Why an order was refused.
pub open spec fn refusal(status: u16, body: Document) -> Seq<char> {
    decimal(status as nat) + ": "@ + text_or(text_in(body, "message"@), "unknown"@)
}

/// Why an order was refused: the status and the reply's message.
pub fn refusal_text(status: u16, body: &Json) -> (r: String)
    ensures
        r@ == refusal(status, body@),
{
    let mut m = decimal_text(status as u128);
    m.append(": ");
    match body.text_at("message") {
        Some(t) => {
            m.append(t.as_str());
        },
        None => {
            m.append("unknown");
        },
    }
    m
}

/// How many orders a cancel reply lists; a reply that is no array lists none.
pub fn cancelled_count(body: &Json) -> (r: usize)
    ensures
        r == match body@ {
            Document::Array(items) => items.len(),
            _ => 0,
        },
{
    match body.items() {
        Some(items) => items.len(),
        None => 0,
    }
}

// ── requests ───────────────────────────────────────────────────────────────

/// `s` without the characters `c` at its front.
pub open spec fn without_leading(s: Seq<char>, c: char) -> Seq<char>
    decreases s.len(),
{
    if s.len() > 0 && s[0] == c {
        without_leading(s.drop_first(), c)
    } else {
        s
    }
}

fn trim_leading(s: &str, c: char) -> (r: String)
    ensures
        r@ == without_leading(s@, c),
{
    let v = chars_of(s);
    let mut i: usize = 0;
    assert(v@.skip(0) == v@);
    while i < v.len() && v[i] == c
        invariant
            v@ == s@,
            i <= v@.len(),
            without_leading(s@, c) == without_leading(v@.skip(i as int), c),
        decreases v@.len() - i,
    {
        assert(v@.skip(i as int)[0] == v@[i as int]);
        assert(v@.skip(i as int).drop_first() == v@.skip(i + 1));
        i += 1;
    }
    assert(v@.subrange(i as int, v@.len() as int) == v@.skip(i as int));
    if i < v.len() {
        assert(v@.skip(i as int)[0] == v@[i as int]);
    }
    slice_text(&v, i, v.len())
}

/// The address of a path under a base: one slash between them.
pub fn endpoint(base: &str, path: &str) -> (r: String)
    ensures
        r@ == without_trailing(base@, '/') + "/"@ + without_leading(path@, '/'),
{
    let mut url = trim_trailing(base, '/');
    url.append("/");
    url.append(trim_leading(path, '/').as_str());
    url
}

/// What follows an attempt to fetch something from the broker.
#[derive(Debug, Clone, Copy, PartialEq, Eq, Structural)]
pub enum FetchStep {
    /// Read the reply.
    Read,
    /// Wait and ask once more.
    Retry { wait_secs: u64, timeout_secs: u64 },
    /// Give up.
    GiveUp,
}

/// The first attempt of a fetch may fail: the paper service can be slow to wake,
/// so it is asked once more after half a minute.
pub fn after_attempt(attempt: u32, replied: bool) -> (r: FetchStep)
    ensures
        r == if replied {
            FetchStep::Read
        } else if attempt == 0 {
            FetchStep::Retry { wait_secs: 30, timeout_secs: 60 }
        } else {
            FetchStep::GiveUp
        },
{
    if replied {
        FetchStep::Read
    } else if attempt == 0 {
        FetchStep::Retry { wait_secs: 30, timeout_secs: 60 }
    } else {
        FetchStep::GiveUp
    }
}

/// The error of a fetch that was given up.
pub fn unreachable_error(path: &str) -> (r: AlpacaError)
    ensures
        r matches AlpacaError::ColdStart(m) && m@ == "Alpaca unreachable for "@ + path@,
{
    let mut m = "Alpaca unreachable for ".to_owned();
    m.append(path);
    AlpacaError::ColdStart(m)
}

/// A price of two decimals in its shortest form: no trailing zeros, and no point
/// without digits behind it.
pub open spec fn price_text(x: int) -> Seq<char> {
    let cents = magnitude(rounded(x, 2)) / (CENT as int);
    let sign = if x < 0 {
        "-"@
    } else {
        ""@
    };
    let dollars = sign + decimal((cents / 100) as nat);
    if cents % 100 == 0 {
        dollars
    } else if cents % 10 == 0 {
        dollars + "."@ + decimal((cents % 100 / 10) as nat)
    } else {
        dollars + "."@ + zero_padded(decimal((cents % 100) as nat), 2)
    }
}

fn shortest_price(x: Fixed) -> (r: String)
    requires
        within(x as int, 1_000_000 * WIDE),
    ensures
        r@ == price_text(x as int),
{
    let y: i128 = pyround(x, 2);
    let size: i128 = if y < 0 {
        -y
    } else {
        y
    };
    let cents: i128 = size / CENT;
    let mut s = if x < 0 {
        "-".to_owned()
    } else {
        "".to_owned()
    };
    s.append(decimal_text((cents / 100) as u128).as_str());
    let rest: i128 = cents % 100;
    if rest == 0 {
        s
    } else if rest % 10 == 0 {
        s.append(".");
        s.append(decimal_text((rest / 10) as u128).as_str());
        s
    } else {
        s.append(".");
        s.append(pad_zeros(decimal_text(rest as u128).as_str(), 2).as_str());
        s
    }
}

/// An order to submit. Every order is a limit order.
#[derive(Debug, Clone)]
pub struct OrderRequest {
    pub symbol: String,
    pub qty: String,
    pub side: String,
    pub kind: String,
    pub limit_price: String,
    pub time_in_force: String,
    /// Set for options only: what the order does to the position.
    pub position_intent: Option<String>,
}

/// The kind of every order.
pub const ORDER_KIND: &'static str = "limit";

/// The request for a whole-share stock order.
pub fn stock_order_request(
    symbol: &str,
    qty: i64,
    side: &str,
    limit_price: Fixed,
    time_in_force: &str,
) -> (r: OrderRequest)
    requires
        within(limit_price as int, 1_000_000 * WIDE),
    ensures
        r.symbol@ == symbol@,
        r.qty@ == signed_decimal(qty as int),
        r.side@ == side@,
        r.kind@ == ORDER_KIND@,
        r.limit_price@ == price_text(limit_price as int),
        r.time_in_force@ == time_in_force@,
        r.position_intent is None,
{
    OrderRequest {
        symbol: symbol.to_owned(),
        qty: integer_text(qty as i128),
        side: side.to_owned(),
        kind: ORDER_KIND.to_owned(),
        limit_price: shortest_price(limit_price),
        time_in_force: time_in_force.to_owned(),
        position_intent: None,
    }
}

/// What an option order does to the position: a buy opens it, anything else
/// closes it.
pub open spec fn intent_of(side: Seq<char>) -> Seq<char> {
    if side == "buy"@ {
        "buy_to_open"@
    } else {
        "sell_to_close"@
    }
}

/// The request for a single-leg option order of whole contracts.
pub fn option_order_request(
    occ: &str,
    contracts: i64,
    side: &str,
    limit_price: Fixed,
    time_in_force: &str,
) -> (r: OrderRequest)
    requires
        within(limit_price as int, 1_000_000 * WIDE),
    ensures
        r.symbol@ == occ@,
        r.qty@ == signed_decimal(contracts as int),
        r.side@ == side@,
        r.kind@ == ORDER_KIND@,
        r.limit_price@ == price_text(limit_price as int),
        r.time_in_force@ == time_in_force@,
        r.position_intent matches Some(i) && i@ == intent_of(side@),
{
    OrderRequest {
        symbol: occ.to_owned(),
        qty: integer_text(contracts as i128),
        side: side.to_owned(),
        kind: ORDER_KIND.to_owned(),
        limit_price: shortest_price(limit_price),
        time_in_force: time_in_force.to_owned(),
        position_intent: if same(side, "buy") {
            Some("buy_to_open".to_owned())
        } else {
            Some("sell_to_close".to_owned())
        },
    }
}

// ── the calendar ───────────────────────────────────────────────────────────

/// What a reply of the calendar says of a day: a session where the day is listed, a
/// holiday where it is not; nothing where the reply is no list.
pub open spec fn session_in(body: Document, day: Seq<char>) -> Option<bool> {
    match body {
        Document::Array(items) => Some(lists_day(items, day)),
        _ => None,
    }
}

/// One of the items is about the day.
pub open spec fn lists_day(items: Seq<Document>, day: Seq<char>) -> bool {
    exists|i: int| 0 <= i < items.len() && text_in(#[trigger] items[i], "date"@) == Some(day)
}

/// Whether a day is a session, by a reply of the calendar.
pub fn session_from_json(body: &Json, day: &str) -> (r: Option<bool>)
    ensures
        r == session_in(body@, day@),
{
    match body.items() {
        Some(items) => {
            let ghost all = documents(items@);
            let mut i: usize = 0;
            while i < items.len()
                invariant
                    i <= items@.len(),
                    all == documents(items@),
                    body@ == Document::Array(all),
                    forall|k: int| 0 <= k < i ==> text_in(#[trigger] all[k], "date"@) != Some(day@),
                decreases items@.len() - i,
            {
                assert(all[i as int] == items@[i as int]@);
                if let Some(d) = items[i].text_at("date") {
                    if same(d.as_str(), day) {
                        return Some(true);
                    }
                }
                i += 1;
            }
            Some(false)
        },
        None => None,
    }
}

} // verus!
