use aschenbrenner_unlimited::alpaca::{AlpacaAccount, Position};
use aschenbrenner_unlimited::calendar::Date;
use aschenbrenner_unlimited::config::AppConfig;
use aschenbrenner_unlimited::fixed::{Fixed, ONE};
use aschenbrenner_unlimited::lifecycle::daily::{plan_cycle, RunMode};
use aschenbrenner_unlimited::numerals::parse_decimal;
use aschenbrenner_unlimited::portfolio::state::PortfolioState;
use aschenbrenner_unlimited::portfolio::targets::{
    find, instrument_symbol, invested, invested_target_weight, is_leaps, Tier,
};
use aschenbrenner_unlimited::rebalance::phased_build::{active, build_complete, plan_build, stage_of, weekdays_between, Stage};
use aschenbrenner_unlimited::rebalance::signal_bias::SignalBias;
use aschenbrenner_unlimited::rebalance::ActionKind;
use aschenbrenner_unlimited::str_map::StrMap;

fn fx(x: f64) -> Fixed {
    parse_decimal(&format!("{}", x)).unwrap()
}

fn fl(x: Fixed) -> f64 {
    x as f64 / ONE as f64
}

fn day(y: i32, m: u32, d: u32) -> Date {
    Date::from_ymd_opt(y, m, d).unwrap()
}

fn empty_state(cash: f64) -> PortfolioState {
    let a = AlpacaAccount { cash: fx(cash), portfolio_value: fx(cash), equity: fx(cash), ..Default::default() };
    PortfolioState::from_alpaca(&a, &vec![])
}

fn full_state(scale: f64) -> PortfolioState {
    let cfg = AppConfig::default();
    let mut ps = vec![];
    for t in invested() {
        let w = fl(invested_target_weight(t.ticker, cfg.cash_buffer_pct));
        ps.push(Position {
            symbol: instrument_symbol(&t, &cfg).unwrap(),
            qty: fx(1.0),
            side: "long".into(),
            market_value: fx(w * 40_000.0 * scale),
            current_price: fx(100.0),
            ..Default::default()
        });
    }
    let a = AlpacaAccount { cash: fx(2_000.0), portfolio_value: fx(40_000.0), equity: fx(40_000.0), ..Default::default() };
    PortfolioState::from_alpaca(&a, &ps)
}

#[test]
fn day_one_builds_only_floor() {
    let st = empty_state(40_000.0);
    let start = day(2026, 6, 22);
    let acts = plan_build(&st, &AppConfig::default(), start, start);
    assert!(!acts.is_empty());
    for a in &acts {
        assert_eq!(find(&a.ticker).unwrap().tier, Tier::Floor, "{} not Floor", a.ticker);
    }
}

#[test]
fn leaps_stage_active_only_after_two_weeks() {
    let st = empty_state(40_000.0);
    let start = day(2026, 6, 1);
    let asof = day(2026, 6, 10);
    let acts = plan_build(&st, &AppConfig::default(), asof, start);
    assert!(!acts.iter().any(|a| is_leaps(&find(&a.ticker).unwrap())));
    let asof2 = day(2026, 6, 22);
    let acts2 = plan_build(&st, &AppConfig::default(), asof2, start);
    assert!(acts2.iter().any(|a| is_leaps(&find(&a.ticker).unwrap())));
}

#[test]
fn asymmetric_fill_is_sequential_not_pro_rata() {
    let st = empty_state(40_000.0);
    let start = day(2026, 6, 1);
    let asof = day(2026, 6, 10);
    let cfg = AppConfig::default();
    let acts = plan_build(&st, &cfg, asof, start);
    let asym: Vec<_> = acts
        .iter()
        .filter(|a| find(&a.ticker).map(|t| t.tier == Tier::Asymmetric).unwrap_or(false))
        .collect();
    assert!(!asym.is_empty());
    assert!(
        fl(asym[0].dollars) >= fl(cfg.build_daily_budget) * 0.9,
        "first asym slice {} should be ~the full budget {}",
        asym[0].dollars,
        cfg.build_daily_budget
    );
}

#[test]
fn never_deploys_the_cash_buffer() {
    let st = empty_state(40_000.0);
    let start = day(2026, 6, 1);
    let asof = day(2026, 8, 1);
    let cfg = AppConfig::default();
    let acts = plan_build(&st, &cfg, asof, start);
    let total: f64 = acts.iter().map(|a| fl(a.dollars)).sum();
    assert!(total <= 40_000.0 * (1.0 - fl(cfg.cash_buffer_pct)) + 1.0, "deployed {total}");
}

#[test]
fn weekdays_are_counted_inclusively() {
    assert_eq!(weekdays_between(day(2026, 6, 1), day(2026, 6, 10)), 8);
    assert_eq!(weekdays_between(day(2026, 6, 1), day(2026, 6, 22)), 16);
    assert_eq!(weekdays_between(day(2026, 6, 6), day(2026, 6, 7)), 0);
    assert_eq!(weekdays_between(day(2026, 6, 8), day(2026, 6, 8)), 1);
    assert_eq!(weekdays_between(day(2026, 6, 9), day(2026, 6, 8)), 0);
}

#[test]
fn stages_open_week_by_week() {
    for (stage, opens) in [(Stage::Floor, 0), (Stage::Asymmetric, 7), (Stage::MoonLeaps, 14), (Stage::MoonMicro, 21)] {
        assert!(active(stage, opens));
        assert!(opens == 0 || !active(stage, opens - 1));
    }
    assert_eq!(stage_of(&find("GEV").unwrap()), Stage::Floor);
    assert_eq!(stage_of(&find("PLTR").unwrap()), Stage::Asymmetric);
    assert_eq!(stage_of(&find("NVDA_LEAPS").unwrap()), Stage::MoonLeaps);
    assert_eq!(stage_of(&find("MICROCAP2").unwrap()), Stage::MoonMicro);
}

#[test]
fn the_largest_shortfall_is_filled_first() {
    let start = day(2026, 6, 22);
    let acts = plan_build(&empty_state(40_000.0), &AppConfig::default(), start, start);
    assert_eq!(acts[0].ticker, "GEV");
    assert_eq!(acts[0].dollars, 3_991_596_638_640_000);
    assert_eq!(acts[0].reason, "build Floor — day 1 of phased accumulation");
    assert!(plan_build(&empty_state(0.0), &AppConfig::default(), start, start).is_empty());
}

#[test]
fn a_full_book_is_complete_and_a_short_one_is_not() {
    let cfg = AppConfig::default();
    assert!(build_complete(&full_state(1.0), &cfg));
    assert!(build_complete(&full_state(1.4), &cfg));
    // Three percent of each goal are tolerated, not three percent of the account.
    assert!(build_complete(&full_state(0.98), &cfg));
    assert!(!build_complete(&full_state(0.95), &cfg));
    assert!(!build_complete(&empty_state(40_000.0), &cfg));
}

#[test]
fn a_building_book_takes_no_rule_4_buys() {
    let cfg = AppConfig::default();
    let mut marks = StrMap::new();
    marks.insert("GEV".to_string(), fx(2_000.0));
    let start = day(2026, 6, 22);
    let st = empty_state(40_000.0);
    let (acts, label) = plan_cycle(RunMode::Build, &st, &cfg, &marks, &SignalBias::default(), start, start);
    assert_eq!(label, "build");
    assert!(acts.iter().all(|a| a.kind != ActionKind::Buy || a.reason.starts_with("build ")));
    let (_, label) = plan_cycle(RunMode::Build, &full_state(1.0), &cfg, &marks, &SignalBias::default(), start, start);
    assert_eq!(label, "build→maintenance (book complete)");
    let (_, label) = plan_cycle(RunMode::Maintenance, &st, &cfg, &marks, &SignalBias::default(), start, start);
    assert_eq!(label, "maintenance");
}
