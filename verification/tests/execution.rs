use aschenbrenner_unlimited::alpaca::{AlpacaAccount, AlpacaError, Position};
use aschenbrenner_unlimited::config::AppConfig;
use aschenbrenner_unlimited::execute::{
    advisory_count, execute_actions, quote_need, round_up_to_unit, submission, submit_request, Draft, ExecResult, Execution,
    Outcome, QuoteNeed, QuoteReply, SubmitReply, Submission,
};
use aschenbrenner_unlimited::fixed::{Fixed, ONE};
use aschenbrenner_unlimited::numerals::parse_decimal;
use aschenbrenner_unlimited::portfolio::state::PortfolioState;
use aschenbrenner_unlimited::rebalance::Action;

fn fx(x: f64) -> Fixed {
    parse_decimal(&format!("{}", x)).unwrap()
}

fn fl(x: Fixed) -> f64 {
    x as f64 / ONE as f64
}

fn state(cash: f64, nav: f64) -> PortfolioState {
    let a = AlpacaAccount { cash: fx(cash), portfolio_value: fx(nav), equity: fx(nav), ..Default::default() };
    PortfolioState::from_alpaca(&a, &vec![])
}

fn offline(acts: &Vec<Action>, st: &PortfolioState) -> Vec<ExecResult> {
    let quotes = vec![QuoteReply::Offline; acts.len()];
    execute_actions(acts, &AppConfig::default(), None, &quotes, false, st)
}

// slot_cap = the name's target position x (1 + rebalance band).
fn slot(target: f64) -> Fixed {
    fx(target * 1.03)
}

#[test]
fn rounds_up_only_inside_the_slot_and_budget() {
    let (gev, klac) = (slot(3_601.0), slot(2_700.0));
    assert!(round_up_to_unit(fx(705.0), fx(942.91), fx(2_639.0), gev));
    assert!(round_up_to_unit(fx(74.0), fx(171.74), fx(2_639.0), klac));
    assert!(!round_up_to_unit(fx(705.0), fx(942.91), fx(900.0), gev));
    assert!(!round_up_to_unit(fx(1_000.0), fx(942.91), fx(2_639.0), gev));
    assert!(!round_up_to_unit(fx(0.0), fx(942.91), fx(2_639.0), gev));
}

#[test]
fn a_unit_larger_than_the_whole_slot_never_rounds_up() {
    let nvda = slot(1_350.0);
    assert!(!round_up_to_unit(fx(1_350.0), fx(2_023.0), fx(4_335.0), nvda));
    assert!(!round_up_to_unit(fx(1_160.0), fx(2_352.0), fx(2_639.0), nvda));
    assert!(!round_up_to_unit(fx(1_350.0), fx(2_023.0), fx(99_000.0), nvda));
}

#[test]
fn dry_run_respects_no_leverage() {
    let st = state(5_000.0, 40_000.0);
    let acts = vec![Action::buy("KLAC", fx(2_000.0), "build"), Action::buy("ETN", fx(2_000.0), "build")];
    let res = offline(&acts, &st);
    let total: f64 = res.iter().filter(|r| r.side == "buy").map(|r| fl(r.dollars)).sum();
    assert!(total <= 3_000.0 + 1.0, "no-leverage breached: {total}");
}

#[test]
fn leaps_buy_sizes_in_contracts_offline() {
    let st = state(5_000.0, 40_000.0);
    let acts = vec![Action::buy("NVDA_LEAPS", fx(4_000.0), "build LEAPS")];
    let res = offline(&acts, &st);
    assert_eq!(res.len(), 1);
    assert_eq!(res[0].qty, 1, "expected 1 contract, got {}", res[0].qty);
    assert!(res[0].ticker.contains("NVDA280121C00300000"));
}

#[test]
fn sub_unit_slice_wider_than_band_is_named_as_build_blocker() {
    let st = state(5_000.0, 36_000.0);
    let acts = vec![Action::buy("NVDA_LEAPS", fx(1_200.0), "build")];
    let res = offline(&acts, &st);
    assert!(res[0].status.contains("BLOCKS build_complete"), "{}", res[0].status);
    let acts = vec![Action::buy("NVDA_LEAPS", fx(30.0), "build")];
    let res = offline(&acts, &st);
    assert!(res[0].status.contains("deferred"), "{}", res[0].status);
    assert!(!res[0].status.contains("BLOCKS"), "{}", res[0].status);
}

#[test]
fn revalidate_is_advisory() {
    let st = state(40_000.0, 40_000.0);
    let acts = vec![Action::revalidate("NVDA_LEAPS", "time-stop")];
    let res = execute_actions(&acts, &AppConfig::default(), None, &vec![QuoteReply::Offline], true, &st);
    assert_eq!(res[0].status, "advisory");
    assert_eq!(advisory_count(&res), 1);
}

#[test]
fn a_dry_run_in_numbers() {
    let st = state(5_000.0, 40_000.0);
    // ETN at $410: four shares for $2,000, limit 0.3 % above.
    let res = offline(&vec![Action::buy("ETN", fx(2_000.0), "build")], &st);
    assert_eq!(res[0].ticker, "ETN (ETN)");
    assert_eq!((res[0].qty, res[0].dollars, res[0].limit), (4, fx(1_640.0), fx(411.23)));
    assert_eq!(res[0].status, "dry-run");
    assert_eq!(res[0].line(), "ETN (ETN)   buy  qty    4 @ $411.23   ($ 1640.00) [dry-run] — build");
    // A sale crosses downwards.
    let res = offline(&vec![Action::trim("ETN", fx(2_000.0), "cap")], &st);
    assert_eq!((res[0].side.as_str(), res[0].limit), ("sell", fx(408.77)));
}

#[test]
fn replies_of_the_broker() {
    let st = state(5_000.0, 40_000.0);
    let acts = vec![Action::buy("ETN", fx(2_900.0), "a"), Action::buy("ETN", fx(2_900.0), "b")];
    let quotes = vec![QuoteReply::Price(fx(400.0)), QuoteReply::Price(fx(400.0))];
    let cfg = AppConfig::default();
    let run = |r: SubmitReply| {
        execute_actions(&acts, &cfg, Some(&vec![r, SubmitReply::Accepted("new".to_string())]), &quotes, true, &st)
    };
    // An order that was taken uses up the budget; one that failed does not.
    let res = run(SubmitReply::Accepted("accepted".to_string()));
    assert_eq!((res[0].status.as_str(), res[0].qty), ("submitted (accepted)", 7));
    assert_eq!(res[1].status, "skipped: no-leverage cap: cash budget $200 < 1 unit ($400.00)");
    let res = run(SubmitReply::Failed("Alpaca order error: 403: no".to_string()));
    assert_eq!(res[0].status, "error: Alpaca order error: 403: no");
    assert_eq!(res[1].qty, 7);
}

#[test]
fn a_run_without_a_broker_is_a_dry_one() {
    let st = state(5_000.0, 40_000.0);
    let acts = vec![Action::buy("KLAC", fx(2_000.0), "build")];
    let quotes = vec![QuoteReply::Offline];
    let cfg = AppConfig::default();
    let taken = vec![SubmitReply::Accepted("new".to_string())];
    for (armed, broker, status) in [
        (true, None, "dry-run"),
        (false, None, "dry-run"),
        (false, Some(&taken), "dry-run"),
        (true, Some(&taken), "submitted (new)"),
    ] {
        let res = execute_actions(&acts, &cfg, broker, &quotes, armed, &st);
        assert_eq!((res[0].status.as_str(), res[0].qty), (status, 7));
    }
}

#[test]
fn orders_stop_at_the_daily_limit() {
    let mut cfg = AppConfig::default();
    cfg.max_orders_per_day = 1;
    let acts = vec![
        Action::trim("ETN", fx(900.0), "a"),
        Action::revalidate("GEV", "b"),
        Action::trim("ETN", fx(900.0), "c"),
    ];
    let res = execute_actions(&acts, &cfg, None, &vec![QuoteReply::Offline; 3], false, &state(5_000.0, 40_000.0));
    assert_eq!(res[0].status, "dry-run");
    assert_eq!(res[1].status, "advisory");
    assert_eq!(res[2].status, "skipped: max orders/day reached");
}

#[test]
fn reasons_of_a_skip() {
    let st = state(5_000.0, 40_000.0);
    let mut cfg = AppConfig::default();
    cfg.microcap_1 = "".to_string();
    let one = |a: Action, q: QuoteReply, cfg: &AppConfig| {
        execute_actions(&vec![a], cfg, None, &vec![q], false, &st)[0].status.clone()
    };
    let gone = "skipped: unresolved instrument / no price";
    assert_eq!(one(Action::buy("MICROCAP1", fx(500.0), ""), QuoteReply::Offline, &cfg), gone);
    assert_eq!(one(Action::buy("NVDA_LEAPS", fx(500.0), ""), QuoteReply::Missing, &cfg), gone);
    assert_eq!(one(Action::buy("MICROCAP2", fx(500.0), ""), QuoteReply::Missing, &cfg), gone);
    assert_eq!(one(Action::trim("ETN", fx(100.0), ""), QuoteReply::Offline, &cfg), "skipped: rounds to < 1 share");
    assert_eq!(
        one(Action::trim("NVDA_LEAPS", fx(100.0), ""), QuoteReply::Offline, &cfg),
        "skipped: LEAPS premium ~$3000/contract > slot cap $100 — skipped (raise the slot alloc or pick a cheaper strike/expiry)"
    );
    // One share of GEV fits the slot, so a smaller slice is rounded up.
    let res = execute_actions(
        &vec![Action::buy("GEV", fx(705.0), "build")],
        &cfg,
        None,
        &vec![QuoteReply::Price(fx(942.91))],
        false,
        &st,
    );
    assert_eq!(res[0].qty, 1);
    assert_eq!(res[0].reason, "build [slice $705 rounded up to 1 unit $942.91; unit fits the $4111 slot]");
}

#[test]
fn quotes_are_asked_for_what_is_not_held() {
    let cfg = AppConfig::default();
    let a = AlpacaAccount { cash: fx(5_000.0), portfolio_value: fx(40_000.0), ..Default::default() };
    let held = vec![Position {
        symbol: "ETN".into(),
        qty: fx(2.0),
        side: "long".into(),
        market_value: fx(800.0),
        current_price: fx(400.0),
        ..Default::default()
    }];
    let st = PortfolioState::from_alpaca(&a, &held);
    assert!(matches!(quote_need(&Action::buy("ETN", fx(1.0), ""), &cfg, &st), QuoteNeed::Nothing));
    assert!(matches!(quote_need(&Action::revalidate("GEV", ""), &cfg, &st), QuoteNeed::Nothing | QuoteNeed::StockPrice(_)));
    assert!(matches!(quote_need(&Action::buy("GEV", fx(1.0), ""), &cfg, &st), QuoteNeed::StockPrice(s) if s == "GEV"));
    assert!(matches!(
        quote_need(&Action::buy("NVDA_LEAPS", fx(1.0), ""), &cfg, &st),
        QuoteNeed::OptionMid(s) if s == "NVDA280121C00300000"
    ));
    // The held price comes before any quote.
    let run = Execution::begin(&st, &cfg);
    match run.consider(&Action::buy("ETN", fx(900.0), ""), QuoteReply::Price(fx(1.0)), &cfg, &st) {
        Outcome::Order(d) => assert_eq!((d.qty, d.limit), (2, fx(401.2))),
        _ => panic!("an order was due"),
    }
}

#[test]
fn only_a_paper_account_gets_a_request() {
    let d = Draft {
        symbol: "NVDA280121C00300000".to_string(),
        is_option: true,
        buy: true,
        qty: 1,
        limit: fx(30.6),
        notional: fx(3_000.0),
        note: String::new(),
    };
    let q = submit_request("PA3ABC", &d).unwrap();
    assert_eq!((q.symbol.as_str(), q.qty.as_str(), q.side.as_str()), ("NVDA280121C00300000", "1", "buy"));
    assert_eq!((q.limit_price.as_str(), q.time_in_force.as_str()), ("30.6", "day"));
    assert_eq!(q.position_intent.as_deref(), Some("buy_to_open"));
    assert!(matches!(submit_request("123456", &d), Err(AlpacaError::PaperGuard(n)) if n == "123456"));
    let d = Draft { is_option: false, buy: false, symbol: "ETN".to_string(), ..d };
    let q = submit_request("PA3ABC", &d).unwrap();
    assert_eq!((q.side.as_str(), q.position_intent), ("sell", None));
}

#[test]
fn only_an_armed_run_with_a_broker_submits() {
    assert_eq!(submission(true, true), Submission::Submit);
    assert_eq!(submission(true, false), Submission::DryRun);
    assert_eq!(submission(false, true), Submission::DryRun);
    assert_eq!(submission(false, false), Submission::DryRun);
}

#[test]
fn a_refused_order_does_not_touch_the_other_rows() {
    let st = state(5_000.0, 40_000.0);
    let cfg = AppConfig::default();
    let acts = vec![
        Action::buy("KLAC", fx(2_000.0), "a"),
        Action::buy("ETN", fx(2_000.0), "b"),
        Action::buy("GEV", fx(2_000.0), "c"),
    ];
    let taken = || SubmitReply::Accepted("new".to_string());
    let with = execute_actions(
        &acts,
        &cfg,
        Some(&vec![taken(), SubmitReply::Failed("no".to_string()), taken()]),
        &vec![QuoteReply::Offline; 3],
        true,
        &st,
    );
    let without = execute_actions(
        &vec![Action::buy("KLAC", fx(2_000.0), "a"), Action::buy("GEV", fx(2_000.0), "c")],
        &cfg,
        Some(&vec![taken(), taken()]),
        &vec![QuoteReply::Offline; 2],
        true,
        &st,
    );
    assert_eq!(with[1].status, "error: no");
    assert_eq!((with[0].line(), with[2].line()), (without[0].line(), without[1].line()));
}
