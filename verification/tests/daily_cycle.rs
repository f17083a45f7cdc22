use aschenbrenner_unlimited::alpaca::{AlpacaAccount, Position};
use aschenbrenner_unlimited::calendar::Date;
use aschenbrenner_unlimited::config::AppConfig;
use aschenbrenner_unlimited::execute::{execute_actions, QuoteReply};
use aschenbrenner_unlimited::fixed::{Fixed, FAR, ONE, WIDE};
use aschenbrenner_unlimited::json::Json;
use aschenbrenner_unlimited::lifecycle::daily::{
    build_digest, build_start, cards_document, cards_name, largest_drifts, pace, start_document,
    update_high_water,
};
use aschenbrenner_unlimited::lifecycle::review::{compose_review, quarter, review_name};
use aschenbrenner_unlimited::numerals::{parse_decimal, parse_whole};
use aschenbrenner_unlimited::numr::pyround;
use aschenbrenner_unlimited::portfolio::metrics::{
    cluster_weights, days_since_inception, fall_between, glide_path_status, marks_fit, position_metrics,
};
use aschenbrenner_unlimited::portfolio::state::PortfolioState;
use aschenbrenner_unlimited::rebalance::signal_bias::SignalBias;
use aschenbrenner_unlimited::rebalance::Action;
use aschenbrenner_unlimited::run::position_row;
use aschenbrenner_unlimited::str_map::StrMap;

fn fx(x: f64) -> Fixed {
    parse_decimal(&format!("{}", x)).unwrap()
}

fn fl(x: Fixed) -> f64 {
    x as f64 / ONE as f64
}

fn day(y: i32, m: u32, d: u32) -> Date {
    Date::from_ymd_opt(y, m, d).unwrap()
}

fn state_with(positions: Vec<Position>, cash: f64, nav: f64) -> PortfolioState {
    let acct = AlpacaAccount { cash: fx(cash), portfolio_value: fx(nav), equity: fx(nav), ..Default::default() };
    PortfolioState::from_alpaca(&acct, &positions)
}

fn pos(sym: &str, mv: f64, price: f64, plpc: f64) -> Position {
    Position {
        symbol: sym.into(),
        qty: fx(if price > 0.0 { mv / price } else { 0.0 }),
        side: "long".into(),
        market_value: fx(mv),
        cost_basis: fx(mv / (1.0 + plpc)),
        current_price: fx(price),
        avg_entry_price: fx(price / (1.0 + plpc)),
        unrealized_plpc: fx(plpc),
        ..Default::default()
    }
}

#[test]
fn weights_and_drift_compute() {
    let st = state_with(vec![pos("GEV", 6_000.0, 1000.0, 0.1)], 34_000.0, 40_000.0);
    let m = position_metrics(&st, fx(0.05), &StrMap::new());
    let gev = m.iter().find(|r| r.ticker == "GEV").unwrap();
    assert!((fl(gev.weight) - 0.15).abs() < 1e-9);
    assert!(gev.drift > 0);
}

#[test]
fn drawdown_from_high_water() {
    let st = state_with(vec![pos("IREN", 1_000.0, 18.0, -0.2)], 39_000.0, 40_000.0);
    let mut hw = StrMap::new();
    hw.insert("IREN".to_string(), fx(24.0));
    let m = position_metrics(&st, fx(0.05), &hw);
    let iren = m.iter().find(|r| r.ticker == "IREN").unwrap();
    assert!((fl(iren.drawdown) - 0.25).abs() < 1e-9);
}

#[test]
fn a_snapshot_of_the_account() {
    let mut short = pos("TSLA", -500.0, 100.0, 0.0);
    short.side = "short".into();
    let mut priceless = pos("gev", 900.0, 0.0, 0.0);
    priceless.qty = fx(2.0);
    let st = state_with(vec![short, priceless, pos("etn", 0.0, 0.0, 0.0)], 10.0, 0.0);
    assert_eq!(st.holdings.len(), 2);
    assert_eq!(st.holding("Gev").unwrap().price, fx(450.0));
    assert_eq!(st.holding("ETN").unwrap().price, 0);
    assert!(st.holding("TSLA").is_none());
    assert_eq!(st.market_value("GEV"), fx(900.0));
    assert_eq!(st.market_value("TSLA"), 0);
    assert_eq!(st.price_map().get("GEV"), Some(&fx(450.0)));
    // Without a portfolio value the equity stands for it.
    let a = AlpacaAccount { equity: fx(7.0), ..Default::default() };
    assert_eq!(PortfolioState::from_alpaca(&a, &vec![]).nav, fx(7.0));
}

#[test]
fn rows_and_clusters() {
    let st = state_with(vec![pos("GEV", 6_000.0, 1000.0, 0.1), pos("KLAC", 1_000.0, 250.0, 0.0)], 33_000.0, 40_000.0);
    let mut hw = StrMap::new();
    hw.insert("GEV".to_string(), fx(1_250.0));
    assert!(marks_fit(&hw));
    let m = position_metrics(&st, fx(0.05), &hw);
    assert_eq!(m.len(), 16);
    assert_eq!(position_row(&m[0]), "GEV    Floor         6000    15.0%    10.0%    +5.0%     20%");
    let top = largest_drifts(&m, 2);
    assert_eq!((m[top[0]].ticker.as_str(), m[top[1]].ticker.as_str()), ("CEG", "ETN"));
    let c = cluster_weights(&st, fx(0.05));
    assert_eq!((c[0].0.as_str(), c[0].1), ("Grid hardware", fx(0.15)));
    assert_eq!((c[2].0.as_str(), c[2].1), ("Fab", fx(0.025)));
}

#[test]
fn the_glide_path() {
    assert_eq!(glide_path_status(fx(44_000.0), fx(40_000.0)), (fx(40_000.0), fx(0.1)));
    assert_eq!(glide_path_status(fx(36_000.0), fx(40_000.0)), (fx(40_000.0), fx(-0.1)));
    assert_eq!(glide_path_status(fx(36_000.0), 0), (0, 0));
    assert_eq!(days_since_inception(day(2026, 6, 22)), 0);
    assert_eq!(days_since_inception(day(2027, 6, 22)), 365);
    assert_eq!(days_since_inception(day(2026, 1, 1)), 0);
    assert_eq!(pace(fx(0.1)), "+10.0");
    assert_eq!(pace(fx(-0.1)), "-10.0");
    assert_eq!(fall_between(fx(24.0), fx(18.0)), fx(0.25));
    assert_eq!(fall_between(fx(18.0), fx(24.0)), 0);
}

#[test]
fn marks_only_rise() {
    let mut hw = StrMap::new();
    hw.insert("GEV".to_string(), fx(1_250.0));
    hw.insert("ETN".to_string(), fx(300.0));
    let st = state_with(
        vec![pos("GEV", 1.0, 1000.0, 0.0), pos("ETN", 1.0, 400.0, 0.0), pos("VST", 1.0, 150.0, 0.0), pos("CEG", 0.0, 0.0, 0.0)],
        0.0,
        100.0,
    );
    update_high_water(&mut hw, &st);
    assert_eq!(hw.get("GEV"), Some(&fx(1_250.0)));
    assert_eq!(hw.get("ETN"), Some(&fx(400.0)));
    assert_eq!(hw.get("VST"), Some(&fx(150.0)));
    assert_eq!(hw.get("CEG"), None);
}

#[test]
fn the_start_of_the_build_is_kept() {
    let today = day(2026, 7, 1);
    let doc = |s: &str| Json::Object(vec![("start_date".to_string(), Json::Text(s.to_string()))]);
    let s = build_start(&doc("2026-06-22"), today);
    assert!(s.date == day(2026, 6, 22) && !s.is_new);
    let s = build_start(&doc("June"), today);
    assert!(s.date == today && s.is_new);
    let s = build_start(&Json::Null, today);
    assert!(s.date == today && s.is_new);
    let later = build_start(&start_document(s.date), day(2026, 8, 1));
    assert!(later.date == today && !later.is_new);
    // Years of any length are read back.
    for d in [day(-12, 3, 4), day(12_345, 6, 7), day(0, 1, 1)] {
        assert_eq!(Date::parse_iso(&d.iso()), Some(d));
    }
}

#[test]
fn the_digest() {
    let cfg = AppConfig::default();
    let st = state_with(vec![pos("GEV", 14_000.0, 1000.0, 0.1), pos("IONQ", 600.0, 60.0, 0.25)], 25_400.0, 40_000.0);
    let bias = SignalBias { enabled: true, macro_score: Some(50), ..Default::default() };
    let acts = vec![Action::trim("GEV", fx(10_000.0), "cap"), Action::revalidate("ETN", "watch")];
    let res = execute_actions(&acts, &cfg, None, &vec![QuoteReply::Offline; 2], false, &st);
    let text = build_digest(&cfg, day(2026, 6, 22), "maintenance", false, &st, &StrMap::new(), &bias, &res, fx(40_000.0));
    assert_eq!(
        text,
        "🚀 aschenbrenner-unlimited · 2026-06-22 · maintenance (dry-run)\n\
         NAV $40000 · cash $25400 · glide-path $40000 (+0.0% vs 26% CAGR pace)\n\
         macro regime 50/100 · deploy mult 0.75\n\
         clusters: Grid hardware 35%⚠ · Nuclear baseload 0% · Fab 0% · Defense AGI 0% · AI compute/hosting 0% · DC build-out 0%\n\
         top drift: GEV +25.0% · CEG -10.0% · ETN -7.5% · VST -7.5%\n\
         moonshot: IONQ [MICROCAP1] $600 (+25%)\n\
         actions: 1 order(s), 1 advisory\n\
         \x20 GEV (GEV)   sell qty   10 @ $997.00   ($10000.00) [dry-run] — cap\n\
         \x20 ETN         none qty    0 @ $0.00     ($    0.00) [advisory] — watch\n"
    );
    let text = build_digest(
        &cfg,
        day(2026, 6, 22),
        "build",
        true,
        &st,
        &StrMap::new(),
        &SignalBias::default(),
        &vec![],
        fx(50_000.0),
    );
    assert!(text.contains("(ARMED)") && text.contains("(-20.0% vs 26% CAGR pace)"));
    assert!(text.ends_with("actions: none — portfolio within rebalance band\n"));
}

#[test]
fn the_quarterly_review() {
    let cfg = AppConfig::default();
    let st = state_with(vec![pos("GEV", 14_000.0, 1000.0, -0.4)], 26_000.0, 40_000.0);
    let text = compose_review(&cfg, day(2026, 7, 1), &st, &StrMap::new(), fx(40_000.0));
    assert!(text.starts_with(
        "# Quarterly review — 2026 Q3\n\n- NAV: **$40000** vs glide-path **$40000** → **+0.0%** vs the 26% CAGR pace\n- Cash buffer: $26000 (65.0% of NAV)\n\n## Cluster health (cap 30%)\n\n- Grid hardware: 35.0% (target 20.0%) ⚠ OVER CAP\n"
    ), "{text}");
    assert!(text.contains("- GEV: down -40% — re-validate the thesis pillar before adding\n"));
    assert!(text.contains("- GEV (Floor): 35.0% vs target 10.0% → drift +25.0%\n"));
    let calm = state_with(vec![], 40_000.0, 40_000.0);
    assert!(compose_review(&cfg, day(2026, 7, 1), &calm, &StrMap::new(), fx(40_000.0)).contains("(-35% from cost)\n\n- none\n"));
    assert_eq!(quarter(day(2026, 7, 1)), 3);
    assert_eq!(review_name(day(2026, 7, 1)), "quarterly-2026-Q3.md");
}

#[test]
fn rounding_goes_to_the_even_neighbour() {
    assert_eq!(pyround(fx(1.125), 2), fx(1.12));
    assert_eq!(pyround(fx(1.135), 2), fx(1.14));
    assert_eq!(pyround(fx(-2.5), 0), fx(-2.0));
    assert_eq!(pyround(pyround(fx(1.2345), 3), 3), pyround(fx(1.2345), 3));
}

#[test]
fn numbers_in_text() {
    assert_eq!(parse_decimal("1.5e3"), Some(1_500 * ONE));
    assert_eq!(parse_decimal("-.5"), Some(-ONE / 2));
    assert_eq!(parse_decimal("+7."), Some(7 * ONE));
    // Large numbers are taken; past the largest they count as that.
    assert_eq!(parse_decimal("1e18"), Some(WIDE));
    assert_eq!(parse_decimal("2500000000000000000.25"), Some(WIDE * 5 / 2 + ONE / 4));
    assert_eq!(parse_decimal("-1e25"), Some(-FAR));
    assert_eq!(parse_decimal("1e300"), Some(FAR));
    assert_eq!(parse_decimal("-7e99999999999999999999999999999999999999999"), Some(-FAR));
    assert_eq!(parse_decimal("7e-99999999999999999999999999999999999999999"), Some(0));
    assert_eq!(parse_decimal("0e99999999999999999999999999999999999999999"), Some(0));
    assert_eq!(parse_decimal("inf"), Some(FAR));
    assert_eq!(parse_decimal("-Infinity"), Some(-FAR));
    assert_eq!(parse_decimal("infinit"), None);
    assert_eq!(parse_decimal("1e"), None);
    assert_eq!(parse_decimal(""), None);
    assert_eq!(parse_decimal("."), None);
    assert_eq!(parse_decimal("1,5"), None);
    assert_eq!(parse_decimal(" 1"), None);
    assert_eq!(parse_whole("-12"), Some(-12));
    assert_eq!(parse_whole("1.0"), None);
    assert_eq!(parse_whole("9223372036854775808"), None);
}

#[test]
fn days_of_the_calendar() {
    assert!(Date::from_ymd_opt(2026, 2, 29).is_none());
    assert!(Date::from_ymd_opt(2028, 2, 29).is_some());
    assert!(Date::from_ymd_opt(2026, 0, 1).is_none());
    let d = day(2026, 6, 22);
    assert_eq!((d.year(), d.month(), d.day(), d.weekday_from_monday()), (2026, 6, 22, 0));
    assert_eq!(d.plus_days(10), day(2026, 7, 2));
    assert_eq!(d.plus_days(-22), day(2026, 5, 31));
    assert_eq!(day(2027, 6, 22).days_since(&d), 365);
    assert_eq!((d.iso().as_str(), d.short().as_str()), ("2026-06-22", "260622"));
    assert_eq!(Date::parse_iso("2026-06-22"), Some(d));
    assert_eq!(Date::parse_iso("2026-06-31"), None);
    assert_eq!(Date::parse_iso("22.06.2026"), None);
}

#[test]
fn cards_of_a_cycle() {
    let cfg = AppConfig::default();
    let st = state_with(vec![], 5_000.0, 40_000.0);
    let acts = vec![Action::buy("ETN", fx(2_000.0), "build"), Action::revalidate("GEV", "watch")];
    let res = execute_actions(&acts, &cfg, None, &vec![QuoteReply::Offline; 2], false, &st);
    let doc = cards_document(day(2026, 6, 22), "build", true, &acts, &res);
    assert_eq!(cards_name(day(2026, 6, 22)), "cards-2026-06-22.json");
    assert_eq!(doc.text_at("date").as_deref(), Some("2026-06-22"));
    assert_eq!(doc.text_at("mode").as_deref(), Some("build"));
    assert_eq!(doc.flag_at("armed"), Some(true));
    let cards = doc.list_at("actions").unwrap();
    assert_eq!(cards.len(), 2);
    assert_eq!(cards[0].text_at("kind").as_deref(), Some("Buy"));
    assert_eq!(cards[0].number_at("dollars"), Some(fx(2_000.0)));
    assert_eq!(cards[1].text_at("kind").as_deref(), Some("ThesisRevalidate"));
    assert_eq!(cards[1].text_at("reason").as_deref(), Some("watch"));
    let records = doc.list_at("results").unwrap();
    assert_eq!(records[0].whole_at("qty"), Some(4));
    assert_eq!(records[0].number_at("limit"), Some(fx(411.23)));
    assert_eq!(records[0].text_at("status").as_deref(), Some("dry-run"));
    assert_eq!(records[1].text_at("side").as_deref(), Some("none"));
}
