use aschenbrenner_unlimited::alpaca::{
    account_from_json, after_attempt, cancelled_count, endpoint, option_order_request, order_from_json, order_reply,
    positions_from_json, session_from_json, stock_order_request, unreachable_error, verify_paper_account, AlpacaError,
    FetchStep,
};
use aschenbrenner_unlimited::alpaca_data::{
    bars_from_json, bars_start, build_occ, highest_high, option_mid_from_json, parse_occ, stock_price_from_json,
    third_friday, DATA_URL,
};
use aschenbrenner_unlimited::calendar::Date;
use aschenbrenner_unlimited::config::AppConfig;
use aschenbrenner_unlimited::fixed::Fixed;
use aschenbrenner_unlimited::json::Json;
use aschenbrenner_unlimited::numerals::parse_decimal;
use aschenbrenner_unlimited::safety::{cash_available_for_buys, safety_check, SafetyVerdict};

fn fx(x: f64) -> Fixed {
    parse_decimal(&format!("{}", x)).unwrap()
}

fn day(y: i32, m: u32, d: u32) -> Date {
    Date::from_ymd_opt(y, m, d).unwrap()
}

fn read(text: &str) -> Json {
    Json::parse(text).unwrap()
}

#[test]
fn occ_roundtrip() {
    let exp = day(2028, 1, 21);
    let occ = build_occ("NVDA", exp, true, fx(300.0));
    assert_eq!(occ, "NVDA280121C00300000");
    let (root, e, call, strike) = parse_occ(&occ).unwrap();
    assert_eq!(root, "NVDA");
    assert_eq!(e, exp);
    assert!(call);
    assert_eq!(strike, fx(300.0));
}

#[test]
fn third_friday_matches_known_expiries() {
    assert_eq!(third_friday(2027, 1).unwrap(), day(2027, 1, 15));
    assert_eq!(third_friday(2028, 1).unwrap(), day(2028, 1, 21));
}

#[test]
fn no_leverage_caps_buys_at_cash_minus_buffer() {
    assert_eq!(cash_available_for_buys(fx(5_000.0), fx(40_000.0), fx(0.05)), fx(3_000.0));
    assert_eq!(cash_available_for_buys(fx(1_000.0), fx(40_000.0), fx(0.05)), fx(0.0));
}

#[test]
fn safety_halts_on_kill_file_without_touching_network() {
    let cfg = AppConfig::default();
    assert!(matches!(safety_check(true, &cfg.kill_file, None), SafetyVerdict::Halted(_)));
}

#[test]
fn the_kill_file_comes_before_the_paper_guard() {
    let guard = || Some(verify_paper_account("123"));
    assert_eq!(
        safety_check(true, "/tmp/x.HALT", guard()),
        SafetyVerdict::Halted("kill file present at /tmp/x.HALT".to_string())
    );
    assert_eq!(
        safety_check(false, "/tmp/x.HALT", guard()),
        SafetyVerdict::Halted(
            "ALPACA PAPER-GUARD VIOLATION: detected non-paper account 123. All order submission halted. Regenerate paper keys immediately."
                .to_string()
        )
    );
    assert_eq!(safety_check(false, "/tmp/x.HALT", Some(verify_paper_account("PA3X"))), SafetyVerdict::Clear);
    assert_eq!(safety_check(false, "/tmp/x.HALT", None), SafetyVerdict::Clear);
}

#[test]
fn the_paper_guard_goes_by_the_account_number() {
    assert!(matches!(verify_paper_account("PA123"), Ok(true)));
    assert!(matches!(verify_paper_account("pa123"), Err(AlpacaError::PaperGuard(n)) if n == "pa123"));
    assert!(matches!(verify_paper_account(""), Err(AlpacaError::PaperGuard(_))));
}

#[test]
fn texts_of_the_errors() {
    assert_eq!(unreachable_error("v2/account").message(), "Alpaca cold-start failure: Alpaca unreachable for v2/account");
    assert_eq!(AlpacaError::Order("422: no".to_string()).message(), "Alpaca order error: 422: no");
    assert_eq!(AlpacaError::Request("eof".to_string()).message(), "Alpaca request failed: eof");
}

#[test]
fn occ_symbols_that_do_not_parse() {
    assert!(parse_occ("NVDA").is_none());
    assert!(parse_occ("NVDA280230C00300000").is_none());
    assert!(parse_occ("NVDA28012XC00300000").is_none());
    assert!(parse_occ("NVDA280121C0030000x").is_none());
    // Anything but C is a put, and the root may be missing.
    let (root, expiry, call, strike) = parse_occ("280121P00012500").unwrap();
    assert_eq!((root.as_str(), expiry, call, strike), ("", day(2028, 1, 21), false, fx(12.5)));
    assert!(parse_occ("NVDA280121c00300000").unwrap().2);
}

#[test]
fn occ_symbols_that_are_built() {
    assert_eq!(build_occ("brk", day(2026, 6, 19), false, fx(12.5)), "BRK260619P00012500");
    assert_eq!(build_occ("é", day(2026, 6, 19), true, fx(1.0)), "É260619C00001000");
    // Half a thousandth goes to the even neighbour.
    assert_eq!(build_occ("X", day(2026, 6, 19), true, fx(0.0005)), "X260619C00000000");
    assert_eq!(build_occ("X", day(2026, 6, 19), true, fx(0.0015)), "X260619C00000002");
}

#[test]
fn third_fridays() {
    assert_eq!(third_friday(2026, 5).unwrap(), day(2026, 5, 15));
    assert_eq!(third_friday(2026, 8).unwrap(), day(2026, 8, 21));
    assert!(third_friday(2026, 13).is_none());
    for m in 1..=12 {
        let d = third_friday(2026, m).unwrap();
        assert_eq!(d.weekday_from_monday(), 4);
        assert!((15..=21).contains(&d.day()));
    }
}

#[test]
fn accounts_are_read() {
    let a = account_from_json(&read(
        r#"{"account_number":"PA9","status":"ACTIVE","cash":"1234.56","portfolio_value":40000,"equity":"oops","trading_blocked":true}"#,
    ));
    assert_eq!(a.account_number, "PA9");
    assert!(a.paper);
    assert_eq!(a.currency, "USD");
    assert_eq!(a.cash, fx(1234.56));
    assert_eq!(a.portfolio_value, fx(40_000.0));
    assert_eq!(a.equity, 0);
    assert!(a.trading_blocked);
    assert!(!a.account_blocked);
    let b = account_from_json(&Json::Null);
    assert!(!b.paper);
    assert_eq!(b.currency, "USD");
    assert_eq!(account_from_json(&read(r#"{"currency":"EUR"}"#)).currency, "EUR");
}

#[test]
fn positions_are_read() {
    let ps = positions_from_json(&read(
        r#"[{"symbol":"GEV","qty":"4","side":"long","market_value":"4200.5","unrealized_plpc":"-0.28"},{}]"#,
    ));
    assert_eq!(ps.len(), 2);
    assert_eq!(ps[0].symbol, "GEV");
    assert_eq!(ps[0].qty, fx(4.0));
    assert_eq!(ps[0].market_value, fx(4200.5));
    assert_eq!(ps[0].unrealized_plpc, fx(-0.28));
    assert_eq!(ps[1].symbol, "");
    assert!(positions_from_json(&read("{}")).is_empty());
}

#[test]
fn orders_are_read() {
    let body = read(r#"{"id":"x1","symbol":"GEV","type":"limit","status":"accepted","limit_price":"10.5"}"#);
    let o = order_from_json(&body, Some("4".to_string()), None);
    assert_eq!((o.id.as_str(), o.kind.as_str(), o.status.as_str()), ("x1", "limit", "accepted"));
    assert_eq!((o.qty.as_str(), o.filled_qty.as_str()), ("4", "0"));
    assert_eq!(o.limit_price, Some("10.5".to_string()));
    assert_eq!(o.filled_avg_price, None);
    let reply = |status: u16, text: &str| order_reply(status, serde_json::from_str(text).unwrap());
    let o = reply(201, r#"{"id":"x2","qty":4,"filled_qty":"1.5"}"#).unwrap();
    assert_eq!((o.id.as_str(), o.qty.as_str(), o.filled_qty.as_str()), ("x2", "4", "1.5"));
    let o = reply(200, r#"{"qty":null,"filled_qty":{"a":[1]}}"#).unwrap();
    assert_eq!((o.qty.as_str(), o.filled_qty.as_str()), ("null", r#"{"a":[1]}"#));
    assert_eq!(reply(200, "[]").unwrap().qty, "0");
    assert!(matches!(reply(403, r#"{"message":"forbidden"}"#), Err(AlpacaError::Order(m)) if m == "403: forbidden"));
    assert!(matches!(reply(500, "null"), Err(AlpacaError::Order(m)) if m == "500: unknown"));
}

#[test]
fn order_requests() {
    let r = stock_order_request("GEV", 3, "buy", fx(1052.147), "day");
    assert_eq!((r.symbol.as_str(), r.qty.as_str(), r.side.as_str()), ("GEV", "3", "buy"));
    assert_eq!(r.limit_price, "1052.15");
    assert_eq!((r.kind.as_str(), r.time_in_force.as_str()), ("limit", "day"));
    assert_eq!(r.position_intent, None);
    assert_eq!(stock_order_request("X", 1, "buy", fx(10.5), "day").limit_price, "10.5");
    assert_eq!(stock_order_request("X", 1, "buy", fx(10.0), "day").limit_price, "10");
    let b = option_order_request("NVDA280121C00300000", 1, "buy", fx(30.6), "day");
    assert_eq!(b.position_intent, Some("buy_to_open".to_string()));
    let s = option_order_request("NVDA280121C00300000", 1, "sell", fx(29.4), "day");
    assert_eq!(s.position_intent, Some("sell_to_close".to_string()));
}

#[test]
fn a_cold_start_is_retried_once() {
    assert_eq!(after_attempt(0, true), FetchStep::Read);
    assert_eq!(after_attempt(0, false), FetchStep::Retry { wait_secs: 30, timeout_secs: 60 });
    assert_eq!(after_attempt(1, false), FetchStep::GiveUp);
    assert_eq!(after_attempt(1, true), FetchStep::Read);
}

#[test]
fn addresses() {
    assert_eq!(endpoint("https://x", "/v2/orders"), "https://x/v2/orders");
    assert_eq!(endpoint("https://x", "v2/account"), "https://x/v2/account");
    assert_eq!(DATA_URL, "https://data.alpaca.markets");
    assert_eq!(cancelled_count(&read("[{},{}]")), 2);
    assert_eq!(cancelled_count(&Json::Null), 0);
}

#[test]
fn sessions_of_the_calendar() {
    let body = read(r#"[{"date":"2026-09-08","open":"09:30"}]"#);
    assert_eq!(session_from_json(&body, "2026-09-08"), Some(true));
    assert_eq!(session_from_json(&body, "2026-09-07"), Some(false));
    assert_eq!(session_from_json(&read("[]"), "2026-09-07"), Some(false));
    assert_eq!(session_from_json(&read("{}"), "2026-09-07"), None);
}

#[test]
fn prices_of_a_snapshot() {
    let all = r#"{"latestTrade":{"p":0},"dailyBar":{"c":null},"minuteBar":{"c":12.5},"prevDailyBar":{"c":11}}"#;
    assert_eq!(stock_price_from_json(&read(all)), Some(fx(12.5)));
    assert_eq!(stock_price_from_json(&read(r#"{"latestTrade":{"p":13},"minuteBar":{"c":12.5}}"#)), Some(fx(13.0)));
    assert_eq!(stock_price_from_json(&read(r#"{"prevDailyBar":{"c":11}}"#)), Some(fx(11.0)));
    assert_eq!(stock_price_from_json(&read(r#"{"latestTrade":{"c":13}}"#)), None);
}

#[test]
fn mids_of_an_option() {
    let quote = r#"{"snapshots":{"O":{"latestQuote":{"bp":1.0,"ap":1.25},"latestTrade":{"p":9}}}}"#;
    // 1.125 is rounded to the even cent.
    assert_eq!(option_mid_from_json(&read(quote), "O"), Some(fx(1.12)));
    let no_ask = r#"{"snapshots":{"O":{"latestQuote":{"bp":1.0,"ap":0},"latestTrade":{"p":9}}}}"#;
    assert_eq!(option_mid_from_json(&read(no_ask), "O"), Some(fx(9.0)));
    assert_eq!(option_mid_from_json(&read(no_ask), "P"), None);
    assert_eq!(option_mid_from_json(&read(r#"{"snapshots":{"O":{}}}"#), "O"), None);
}

#[test]
fn bars_come_oldest_first() {
    let data = read(
        r#"{"bars":[
            {"t":"2026-06-23T04:00:00Z","c":12,"h":13.5,"v":7},
            {"t":"2026-06-22T04:00:00Z","c":11},
            {"t":"2026-06-19T04:00:00Z"},
            {"t":"bad","c":1},
            {"t":"2026-06-1é","c":1}]}"#,
    );
    let bars = bars_from_json(&data, 10);
    assert_eq!(bars.len(), 2);
    assert_eq!((bars[0].date, bars[0].high, bars[0].volume), (day(2026, 6, 22), fx(11.0), 0));
    assert_eq!((bars[1].date, bars[1].high, bars[1].volume), (day(2026, 6, 23), fx(13.5), fx(7.0)));
    assert_eq!((bars[1].open, bars[1].low, bars[1].close), (fx(12.0), fx(12.0), fx(12.0)));
    assert_eq!(highest_high(&bars), Some(fx(13.5)));
    assert_eq!(highest_high(&vec![]), None);
    assert!(bars_from_json(&Json::Null, 10).is_empty());
    // The limit keeps the newest, and at least one.
    for limit in [1, 0, -3] {
        let newest = bars_from_json(&data, limit);
        assert_eq!(newest.len(), 1);
        assert_eq!(newest[0].date, day(2026, 6, 23));
    }
}

#[test]
fn bars_reach_back_by_their_number() {
    // 252 bars: 403 days and fifteen more.
    assert_eq!(bars_start(day(2026, 6, 22), 252), Some(day(2025, 4, 30)));
    assert_eq!(bars_start(day(2026, 6, 22), 0), Some(day(2026, 6, 7)));
    // Fewer than none reaches forward: 16 days and fifteen back.
    assert_eq!(bars_start(day(2026, 6, 22), -10), Some(day(2026, 6, 23)));
    assert_eq!(bars_start(day(2026, 6, 22), i64::MAX), None);
    assert_eq!(bars_start(day(2026, 6, 22), i64::MIN), None);
}
