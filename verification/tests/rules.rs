use aschenbrenner_unlimited::alpaca::{AlpacaAccount, Position};
use aschenbrenner_unlimited::calendar::Date;
use aschenbrenner_unlimited::config::AppConfig;
use aschenbrenner_unlimited::fixed::{Fixed, ONE};
use aschenbrenner_unlimited::numerals::parse_decimal;
use aschenbrenner_unlimited::portfolio::state::{position_fits, PortfolioState};
use aschenbrenner_unlimited::portfolio::targets::{
    equity_invested, find, instrument_symbol, invested_target_weight, theme_of,
};
use aschenbrenner_unlimited::rebalance::rules::{deploy_trace, plan_inner, plan_protective, plan_rebalance, veto_trace};
use aschenbrenner_unlimited::rebalance::signal_bias::SignalBias;
use aschenbrenner_unlimited::rebalance::{Action, ActionKind};
use aschenbrenner_unlimited::str_map::StrMap;

fn fx(x: f64) -> Fixed {
    parse_decimal(&format!("{}", x)).unwrap()
}

fn fl(x: Fixed) -> f64 {
    x as f64 / ONE as f64
}

fn cfg() -> AppConfig {
    AppConfig::default()
}

fn day() -> Date {
    Date::from_ymd_opt(2026, 6, 22).unwrap()
}

fn pos(sym: &str, mv: f64, price: f64, plpc: f64) -> Position {
    Position {
        symbol: sym.into(),
        qty: fx(if price > 0.0 { mv / price } else { 0.0 }),
        side: "long".into(),
        market_value: fx(mv),
        cost_basis: fx(mv / (1.0 + plpc)),
        current_price: fx(price),
        avg_entry_price: fx(price / (1.0 + plpc)),
        unrealized_plpc: fx(plpc),
        ..Default::default()
    }
}

fn state(positions: Vec<Position>, cash: f64, nav: f64) -> PortfolioState {
    let a = AlpacaAccount { cash: fx(cash), portfolio_value: fx(nav), equity: fx(nav), ..Default::default() };
    assert!(positions.iter().all(position_fits));
    let st = PortfolioState::from_alpaca(&a, &positions);
    assert!(st.within_limits());
    st
}

fn marks(list: &[(&str, f64)]) -> StrMap<Fixed> {
    let mut m = StrMap::new();
    for (t, x) in list {
        m.insert(t.to_string(), fx(*x));
    }
    m
}

fn none() -> StrMap<Fixed> {
    marks(&[])
}

#[test]
fn band_scales_with_the_name_not_nav() {
    let nav = 35_000.0;
    let tgt = fl(invested_target_weight("MTZ", fx(0.05))) * nav;
    assert!(tgt < 1_200.0, "test assumes a small target, got {tgt}");
    let held = (tgt - 600.0).max(50.0);
    let st = state(vec![pos("MTZ", held, 200.0, -0.30)], 2_000.0 + nav * 0.05, nav);
    let hw = marks(&[("MTZ", 300.0)]);
    let acts = plan_rebalance(&st, &cfg(), &hw, &SignalBias::default(), day());
    let buy = acts.iter().find(|a| a.ticker == "MTZ" && a.kind == ActionKind::Buy).expect("rule-4 buy");
    assert!((fl(buy.dollars) - (tgt - held)).abs() < 1.0, "buys the room, got {}", buy.dollars);
}

#[test]
fn protective_mode_suppresses_the_rule_4_deploy() {
    let nav = 35_000.0;
    let tgt = fl(invested_target_weight("MTZ", fx(0.05))) * nav;
    let held = (tgt - 600.0).max(50.0);
    let st = state(vec![pos("MTZ", held, 200.0, -0.30)], 2_000.0 + nav * 0.05, nav);
    let hw = marks(&[("MTZ", 300.0)]);
    assert!(
        plan_rebalance(&st, &cfg(), &hw, &SignalBias::default(), day()).iter().any(|a| a.kind == ActionKind::Buy),
        "maintenance mode should still deploy"
    );
    assert!(
        !plan_protective(&st, &cfg(), &hw, &SignalBias::default(), day()).iter().any(|a| a.kind == ActionKind::Buy),
        "protective mode must never emit a Buy"
    );
}

#[test]
fn protective_mode_still_runs_the_floor_review() {
    let st = state(vec![pos("GEV", 500.0, 1000.0, -0.28)], 39_000.0, 40_000.0);
    let acts = plan_protective(&st, &cfg(), &none(), &SignalBias::default(), day());
    assert!(
        acts.iter().any(|a| a.ticker == "GEV" && a.kind == ActionKind::ThesisRevalidate),
        "a -28% Floor name must be flagged while building, got {acts:?}"
    );
}

#[test]
fn protective_mode_still_caps_an_oversized_position() {
    let st = state(vec![pos("GEV", 8_000.0, 1000.0, 0.1)], 32_000.0, 40_000.0);
    let acts = plan_protective(&st, &cfg(), &none(), &SignalBias::default(), day());
    let trim = acts
        .iter()
        .find(|a| a.ticker == "GEV" && a.kind == ActionKind::Trim)
        .expect("position cap must apply while building");
    assert!((fl(trim.dollars) - 4_000.0).abs() < 1.0, "got {}", trim.dollars);
}

#[test]
fn protective_and_maintenance_agree_once_the_deploy_is_excluded() {
    let st = state(
        vec![pos("GEV", 8_000.0, 1000.0, -0.40), pos("PLTR", 5_000.0, 665.0, 4.0)],
        30_000.0,
        40_000.0,
    );
    let hw = none();
    let maint: Vec<_> = plan_rebalance(&st, &cfg(), &hw, &SignalBias::default(), day())
        .into_iter()
        .filter(|a| a.kind != ActionKind::Buy)
        .collect();
    let prot: Vec<_> = plan_protective(&st, &cfg(), &hw, &SignalBias::default(), day())
        .into_iter()
        .filter(|a| a.kind != ActionKind::Buy)
        .collect();
    assert_eq!(maint, prot, "the split must not alter any protective rule");
    assert!(!maint.is_empty(), "test needs at least one protective action");
}

#[test]
fn theme_cap_does_not_fire_at_the_strategys_own_concentration() {
    let nav = 40_000.0;
    let cfg = cfg();
    let mut ps = vec![];
    for t in equity_invested() {
        let w = fl(invested_target_weight(t.ticker, cfg.cash_buffer_pct));
        ps.push(pos(t.ticker, w * nav, 100.0, 0.0));
    }
    let st = state(ps, nav * fl(cfg.cash_buffer_pct), nav);
    let acts = plan_rebalance(&st, &cfg, &none(), &SignalBias::default(), day());
    assert!(
        !acts.iter().any(|a| a.kind == ActionKind::Trim && a.reason.contains("theme")),
        "Rule 2b must not trim a book at its own targets, got {acts:?}"
    );
}

#[test]
fn theme_cap_fires_once_drift_exceeds_the_band() {
    let nav = 40_000.0;
    let cfg = cfg();
    let mut ps = vec![];
    let mut total = 0.0;
    for t in equity_invested() {
        let w = fl(invested_target_weight(t.ticker, cfg.cash_buffer_pct));
        let mult = if theme_of(t.cluster) == "ai-infrastructure" { 1.25 } else { 1.0 };
        let v = w * nav * mult;
        total += v;
        ps.push(pos(t.ticker, v, 100.0, 0.0));
    }
    let st = state(ps, 0.0, total);
    let acts = plan_rebalance(&st, &cfg, &none(), &SignalBias::default(), day());
    let themed: Vec<_> =
        acts.iter().filter(|a| a.kind == ActionKind::Trim && a.reason.contains("theme")).collect();
    assert!(!themed.is_empty(), "Rule 2b should have trimmed, got {acts:?}");
    for a in &themed {
        assert_eq!(
            theme_of(find(&a.ticker).unwrap().cluster),
            "ai-infrastructure",
            "Rule 2b trimmed a name outside the breaching theme: {}",
            a.ticker
        );
    }
}

#[test]
fn floor_stop_only_no_asym_stop() {
    let st = state(vec![pos("GEV", 500.0, 1000.0, -0.40), pos("OKLO", 500.0, 40.0, -0.50)], 39_000.0, 40_000.0);
    let acts = plan_rebalance(&st, &cfg(), &none(), &SignalBias::default(), day());
    assert!(acts.iter().any(|a| a.ticker == "GEV" && a.kind == ActionKind::ThesisRevalidate));
    assert!(!acts.iter().any(|a| a.ticker == "OKLO" && a.kind == ActionKind::ThesisRevalidate));
}

#[test]
fn position_over_15pct_trims_to_10() {
    let st = state(vec![pos("GEV", 8_000.0, 1000.0, 0.1)], 32_000.0, 40_000.0);
    let acts = plan_rebalance(&st, &cfg(), &none(), &SignalBias::default(), day());
    let trim = acts.iter().find(|a| a.ticker == "GEV" && a.kind == ActionKind::Trim).unwrap();
    assert!((fl(trim.dollars) - 4_000.0).abs() < 1.0, "got {}", trim.dollars);
}

#[test]
fn asymmetric_profit_take_at_5x() {
    let st = state(vec![pos("PLTR", 5_000.0, 665.0, 4.0)], 35_000.0, 40_000.0);
    let acts = plan_rebalance(&st, &cfg(), &none(), &SignalBias::default(), day());
    assert!(acts
        .iter()
        .any(|a| a.ticker == "PLTR" && a.kind == ActionKind::Trim && (fl(a.dollars) - 1_500.0).abs() < 1.0));
}

#[test]
fn leaps_profit_take_sells_half_at_500pct() {
    let occ = instrument_symbol(&find("NVDA_LEAPS").unwrap(), &cfg()).unwrap();
    let st = state(vec![pos(&occ, 4_000.0, 200.0, 6.0)], 36_000.0, 40_000.0);
    let acts = plan_rebalance(&st, &cfg(), &none(), &SignalBias::default(), day());
    assert!(acts
        .iter()
        .any(|a| a.ticker == "NVDA_LEAPS" && a.kind == ActionKind::Trim && (fl(a.dollars) - 2_000.0).abs() < 1.0));
}

#[test]
fn contract_flags_on_a_held_name_surface_a_revalidate_without_a_drawdown() {
    let nav = 36_000.0;
    let st = state(vec![pos("MTZ", 1_000.0, 200.0, 0.10), pos("GEV", 1_000.0, 500.0, 0.05)], nav * 0.30, nav);
    let mut bias = SignalBias { enabled: true, ..Default::default() };
    bias.buy_veto.insert("MTZ".into(), "dilution severe: active 424B takedown".into());
    bias.strong_bearish.insert("GEV".into());
    let asof = Date::from_ymd_opt(2026, 9, 26).unwrap();
    let acts = plan_protective(&st, &cfg(), &none(), &bias, asof);
    let rv: Vec<&Action> = acts.iter().filter(|a| a.kind == ActionKind::ThesisRevalidate).collect();
    assert!(rv.iter().any(|a| a.ticker == "MTZ" && a.reason.contains("contract:")), "{acts:?}");
    assert!(rv.iter().any(|a| a.ticker == "GEV" && a.reason.contains("strong-bearish")), "{acts:?}");
    assert!(!acts.iter().any(|a| a.kind != ActionKind::ThesisRevalidate && (a.ticker == "MTZ" || a.ticker == "GEV")));
    let off = SignalBias { enabled: false, buy_veto: bias.buy_veto.clone(), ..Default::default() };
    assert!(!plan_protective(&st, &cfg(), &none(), &off, asof)
        .iter()
        .any(|a| a.kind == ActionKind::ThesisRevalidate));
}

#[test]
fn texts_of_reviews_and_flags() {
    let st = state(vec![pos("GEV", 500.0, 1000.0, -0.40), pos("ETN", 500.0, 400.0, -0.28)], 39_000.0, 40_000.0);
    let mut bias = SignalBias { enabled: true, ..Default::default() };
    bias.strong_bearish.insert("GEV".into());
    let acts = plan_protective(&st, &cfg(), &none(), &bias, day());
    // GEV is on the list already, so the flag does not list it again.
    assert_eq!(
        acts,
        vec![
            Action::revalidate(
                "GEV",
                "Floor down -40% — re-validate thesis (≤ -35% cut zone — exit if a pillar is broken)"
            ),
            Action::revalidate("ETN", "Floor down -28% — re-validate thesis"),
        ]
    );
    let st = state(vec![pos("MTZ", 500.0, 200.0, 0.10)], 39_000.0, 40_000.0);
    let mut bias = SignalBias { enabled: true, ..Default::default() };
    bias.buy_veto.insert("MTZ".into(), "dilution severe: x".into());
    bias.strong_bearish.insert("MTZ".into());
    assert_eq!(
        plan_protective(&st, &cfg(), &none(), &bias, day())[0].reason,
        "contract: dilution severe: x; daily-analysis: strong-bearish consensus — re-validate thesis (held, +10% from cost)"
    );
}

#[test]
fn reviews_carry_no_dollars() {
    let st = state(vec![pos("GEV", 500.0, 1000.0, -0.40)], 39_000.0, 40_000.0);
    for a in plan_rebalance(&st, &cfg(), &none(), &SignalBias::default(), day()) {
        assert!(a.kind != ActionKind::ThesisRevalidate || a.dollars == 0);
    }
}

#[test]
fn a_trim_collects_its_reasons() {
    // GEV at 3x, 20 % of the account: a quarter is taken, then the rest is capped.
    let st = state(vec![pos("GEV", 8_000.0, 1000.0, 2.0)], 32_000.0, 40_000.0);
    let acts = plan_rebalance(&st, &cfg(), &none(), &SignalBias::default(), day());
    assert_eq!(acts.len(), 1);
    assert_eq!(acts[0].dollars, fx(2_000.0));
    assert_eq!(acts[0].reason, "Floor at 3.0x → trim 25% and ride");
    let st = state(vec![pos("GEV", 12_000.0, 1000.0, 2.0)], 28_000.0, 40_000.0);
    let acts = plan_rebalance(&st, &cfg(), &none(), &SignalBias::default(), day());
    assert_eq!(acts[0].dollars, fx(8_000.0));
    assert_eq!(acts[0].reason, "Floor at 3.0x → trim 25% and ride; position 22.5% > 15% cap → trim to 10%");
}

#[test]
fn a_cluster_above_its_cap_is_relieved() {
    // Three nuclear names at 14 %, 14 % and 8 %: 36 % of the account.
    let st = state(
        vec![pos("CEG", 5_600.0, 100.0, 0.0), pos("VST", 5_600.0, 100.0, 0.0), pos("OKLO", 3_200.0, 100.0, 0.0)],
        25_600.0,
        40_000.0,
    );
    let acts = plan_rebalance(&st, &cfg(), &none(), &SignalBias::default(), day());
    let sold: f64 = acts.iter().filter(|a| a.kind == ActionKind::Trim).map(|a| fl(a.dollars)).sum();
    assert!((sold - 2_400.0).abs() < 0.01, "{acts:?}");
    // VST stands furthest above its goal.
    assert_eq!(acts[0].ticker, "VST");
    assert_eq!(acts[0].reason, "cluster 'Nuclear baseload' 36.0% > 30% cap → trim");
}

#[test]
fn the_signal_breaks_ties_among_trims() {
    // Each nuclear name stands $1,800 above its goal, and the cluster $1,383 above its cap.
    let mut ps = vec![];
    for t in ["CEG", "VST", "OKLO"] {
        let mut p = pos(t, 0.0, 100.0, 0.0);
        p.market_value = 40_000 * invested_target_weight(t, fx(0.05)) + fx(1_800.0);
        ps.push(p);
    }
    let st = state(ps, 26_000.0, 40_000.0);
    let trims = |b: &SignalBias| plan_rebalance(&st, &cfg(), &none(), b, day());
    let plain = trims(&SignalBias::default());
    assert_eq!((plain.len(), plain[0].ticker.as_str()), (1, "CEG"));
    let mut bias = SignalBias { enabled: true, ..Default::default() };
    bias.conviction.insert("VST".into(), fx(-0.9));
    let led = trims(&bias);
    assert_eq!((led.len(), led[0].ticker.as_str()), (1, "VST"));
    assert_eq!(led[0].dollars, plain[0].dollars);
}

#[test]
fn cash_is_deployed_by_priority() {
    let nav = 40_000.0;
    let st = state(vec![pos("MTZ", 100.0, 200.0, -0.3), pos("STRL", 100.0, 600.0, -0.3)], 3_000.0, nav);
    let hw = marks(&[("MTZ", 300.0), ("STRL", 900.0)]);
    let mut bias = SignalBias { enabled: true, ..Default::default() };
    bias.conviction.insert("MTZ".into(), fx(0.9));
    let acts = plan_rebalance(&st, &cfg(), &hw, &bias, day());
    let buys: Vec<&Action> = acts.iter().filter(|a| a.kind == ActionKind::Buy).collect();
    assert_eq!(buys[0].ticker, "MTZ");
    assert_eq!(buys[0].reason, "drawdown deploy: down 33% from high, below target → add");
    let total: f64 = buys.iter().map(|a| fl(a.dollars)).sum();
    assert!(total <= 1_000.0, "{total}");
    // Without the signal the larger room comes first, and a veto keeps a name out.
    let acts = plan_rebalance(&st, &cfg(), &hw, &SignalBias::default(), day());
    assert_eq!(acts.iter().find(|a| a.kind == ActionKind::Buy).unwrap().ticker, "STRL");
    let mut veto = SignalBias { enabled: true, ..Default::default() };
    veto.buy_veto.insert("STRL".into(), "dilution severe: x".into());
    let acts = plan_rebalance(&st, &cfg(), &hw, &veto, day());
    assert!(!acts.iter().any(|a| a.kind == ActionKind::Buy && a.ticker == "STRL"));
}

#[test]
fn a_stressed_market_halves_the_deployment() {
    let st = state(vec![pos("STRL", 100.0, 600.0, -0.3)], 3_000.0, 40_000.0);
    let hw = marks(&[("STRL", 900.0)]);
    let calm = plan_rebalance(&st, &cfg(), &hw, &SignalBias::default(), day());
    let stress = SignalBias { enabled: true, macro_score: Some(10), ..Default::default() };
    let slow = plan_rebalance(&st, &cfg(), &hw, &stress, day());
    assert_eq!(calm[0].dollars, fx(1_000.0));
    assert_eq!(slow[0].dollars, fx(500.0));
}

#[test]
fn the_lifecycle_of_the_moonshot_sleeve() {
    let occ = instrument_symbol(&find("CRWV_LEAPS").unwrap(), &cfg()).unwrap();
    let st = state(vec![pos(&occ, 1_000.0, 10.0, 0.5), pos("IONQ", 3_000.0, 50.0, 9.0)], 36_000.0, 40_000.0);
    let late = Date::from_ymd_opt(2026, 11, 20).unwrap();
    assert_eq!(
        plan_rebalance(&st, &cfg(), &none(), &SignalBias::default(), late),
        vec![
            Action::revalidate(
                "CRWV_LEAPS",
                "LEAPS 56 DTE ≤ 60 — time-stop window; if deeply OTM accept zero, else roll to a NEW thesis"
            ),
            Action::trim("MICROCAP1", fx(1_500.0), "micro-cap at 10x → trim 50%"),
        ]
    );
    let early = Date::from_ymd_opt(2026, 11, 15).unwrap();
    assert_eq!(plan_rebalance(&st, &cfg(), &none(), &SignalBias::default(), early).len(), 1);
}

#[test]
fn the_trace_tells_what_became_of_a_name() {
    let st = state(vec![pos("STRL", 100.0, 600.0, -0.3)], 3_000.0, 40_000.0);
    let hw = marks(&[("STRL", 900.0)]);
    let lines = deploy_trace(&st, &cfg(), &hw, &SignalBias::default(), day(), true);
    // STRL by its own fall, MTZ by that of its cluster.
    assert_eq!(
        lines,
        vec![
            "rule4: STRL dd 33.3% from high-water (trigger: single-name) room $1417 vs band $46, deployable $1000 — eligible",
            "rule4: MTZ dd 0.0% from high-water (trigger: cluster stressed) room $998 vs band $30, deployable $1000 — eligible",
        ]
    );
    let lines = deploy_trace(&st, &cfg(), &hw, &SignalBias::default(), day(), false);
    assert!(lines[0].ends_with("skipped: protective mode — the build stages own buying"));
    let poor = state(vec![pos("STRL", 100.0, 600.0, -0.3)], 2_000.0, 40_000.0);
    let lines = deploy_trace(&poor, &cfg(), &hw, &SignalBias::default(), day(), true);
    assert!(lines[0].ends_with("blocked: deployable ≤ band"), "{lines:?}");
    let full = state(vec![pos("STRL", 1_500.0, 600.0, -0.3)], 3_000.0, 40_000.0);
    let lines = deploy_trace(&full, &cfg(), &hw, &SignalBias::default(), day(), true);
    assert!(lines[0].ends_with("blocked: room ≤ band"), "{lines:?}");
    assert!(deploy_trace(&st, &cfg(), &none(), &SignalBias::default(), day(), true).is_empty());
}

#[test]
fn a_cohort_falls_as_a_whole() {
    let book = |price: f64| {
        state(
            vec![pos("GEV", price, price, 0.0), pos("ETN", 800.0, 400.0, 0.0), pos("VRT", 600.0, 300.0, 0.0)],
            37_800.0,
            40_000.0,
        )
    };
    let hw = marks(&[("GEV", 1_000.0), ("ETN", 400.0), ("VRT", 300.0)]);
    let run = |st: &PortfolioState, hw: &StrMap<Fixed>| plan_rebalance(st, &cfg(), hw, &SignalBias::default(), day());
    // GEV is down 20 %, the cohort 8.3 %: 2200 against 2400.
    assert!(run(&book(800.0), &hw).is_empty());
    // A name that is down just a quarter is not down more than a quarter.
    assert!(run(&book(750.0), &hw).is_empty());
    let bought = |acts: Vec<Action>| acts.into_iter().map(|a| a.ticker).collect::<Vec<_>>();
    assert_eq!(bought(run(&book(749.0), &hw)), ["GEV"]);
    // All three are down 15 %, and then a little more.
    let at_15 = marks(&[("GEV", 1_000.0), ("ETN", 470.588235294), ("VRT", 352.941176470)]);
    assert!(run(&book(850.0), &at_15).is_empty());
    let mut members = bought(run(&book(848.0), &at_15));
    members.sort();
    assert_eq!(members, ["ETN", "GEV", "VRT"]);
}

#[test]
fn a_disabled_signal_flags_nothing() {
    let nav = 36_000.0;
    let st = state(vec![pos("GEV", 1_000.0, 500.0, 0.05)], nav * 0.30, nav);
    let mut bias = SignalBias::default();
    bias.strong_bearish.insert("GEV".to_string());
    let late = Date::from_ymd_opt(2026, 9, 26).unwrap();
    let flags = |b: &SignalBias| {
        plan_protective(&st, &cfg(), &none(), b, late).iter().filter(|a| a.kind == ActionKind::ThesisRevalidate).count()
    };
    assert_eq!(flags(&bias), 0);
    bias.enabled = true;
    assert_eq!(flags(&bias), 1);
}

#[test]
fn the_signal_does_not_reach_the_moonshots() {
    let mut st = state(vec![pos("IONQ", 600.0, 40.0, 9.5), pos("GEV", 9_000.0, 900.0, 0.1)], 30_000.0, 40_000.0);
    st.holdings[1].unrealized_plpc = fx(2.5);
    let on = |b: &SignalBias| {
        plan_rebalance(&st, &cfg(), &none(), b, day())
            .into_iter()
            .filter(|a| a.ticker.starts_with("MICROCAP") || a.ticker.ends_with("_LEAPS"))
            .map(|a| (a.ticker, a.dollars, a.reason))
            .collect::<Vec<_>>()
    };
    let mut loud = SignalBias::default();
    loud.enabled = true;
    for t in ["IONQ", "MICROCAP1", "GEV"] {
        loud.conviction.insert(t.to_string(), fx(-1.0));
        loud.strong_bearish.insert(t.to_string());
        loud.buy_veto.insert(t.to_string(), "no".to_string());
    }
    assert_eq!(on(&SignalBias::default()).len(), 1);
    assert_eq!(on(&SignalBias::default()), on(&loud));
    assert_eq!(on(&loud)[0], ("MICROCAP1".to_string(), fx(300.0), "micro-cap at 10x → trim 50%".to_string()));
}

#[test]
fn a_plan_sells_no_more_than_is_held_and_ends_within_the_caps() {
    // GEV takes its profit, is capped, and its cluster is over the cap with ETN and VRT.
    let nav = 40_000.0;
    let st = state(
        vec![pos("GEV", 9_000.0, 900.0, 2.5), pos("ETN", 6_500.0, 400.0, 0.1), pos("VRT", 5_000.0, 300.0, 0.1)],
        2_000.0,
        nav,
    );
    for deploy in [false, true] {
        let acts = plan_inner(&st, &cfg(), &none(), &SignalBias::default(), day(), deploy);
        let mut left = 0.0;
        for h in &st.holdings {
            let sold: Fixed =
                acts.iter().filter(|a| a.kind == ActionKind::Trim && a.ticker == h.ticker).map(|a| a.dollars).sum();
            assert!(0 <= sold && sold <= h.market_value, "{}", h.ticker);
            let value = fl(h.market_value - sold);
            let band = 0.03 * fl(invested_target_weight(&h.ticker, fx(0.05))) * nav;
            assert!(value <= 0.15 * nav || value <= 0.10 * nav + 2.0 * band, "{} {value}", h.ticker);
            left += value - band;
        }
        assert!(left <= 0.30 * nav, "{left}");
    }
}

#[test]
fn vetoes_are_traced_where_cash_is_deployed() {
    let st = state(vec![pos("STRL", 400.0, 600.0, -0.2)], 3_000.0, 40_000.0);
    let mut bias = SignalBias::default();
    bias.enabled = true;
    bias.buy_veto.insert("STRL".to_string(), "dilution severe: x".to_string());
    bias.buy_veto.insert("MTZ".to_string(), "y".to_string());
    let trace = |st: &PortfolioState, b: &SignalBias, deploy: bool| veto_trace(st, &cfg(), &none(), b, day(), deploy);
    assert_eq!(
        trace(&st, &bias, true),
        [
            "rule4: MTZ buy VETOED this session by the contract — y",
            "rule4: STRL buy VETOED this session by the contract — dilution severe: x",
        ]
    );
    assert!(trace(&st, &bias, false).is_empty());
    // No cash is worth deploying.
    assert!(trace(&state(vec![], 2_000.0, 40_000.0), &bias, true).is_empty());
    bias.enabled = false;
    assert!(trace(&st, &bias, true).is_empty());
}
