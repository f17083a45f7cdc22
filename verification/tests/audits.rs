use aschenbrenner_unlimited::alpaca::Position;
use aschenbrenner_unlimited::config::AppConfig;
use aschenbrenner_unlimited::fixed::Fixed;
use aschenbrenner_unlimited::lifecycle::audit::{
    alarm_to_send, build_report, compose_alarm, diff_positions, expected_book, kind_tag, BrokerPos, Finding, FindingKind,
};
use aschenbrenner_unlimited::numerals::parse_decimal;
use aschenbrenner_unlimited::run::{audit_closing, audit_line, finding_line};

fn fx(x: f64) -> Fixed {
    parse_decimal(&format!("{}", x)).unwrap()
}

fn cfg() -> AppConfig {
    AppConfig::default()
}

fn pos(symbol: &str, qty: f64, mv: f64) -> BrokerPos {
    BrokerPos { symbol: symbol.into(), qty: fx(qty), market_value: fx(mv) }
}

fn alarms(fs: &[Finding]) -> Vec<&Finding> {
    fs.iter().filter(|f| f.kind.is_alarm()).collect()
}

#[test]
fn expected_book_resolves_all_22_targets() {
    let e = expected_book(&cfg());
    assert_eq!(e.symbols.len(), 22);
    assert!(e.unresolved.is_empty());
    assert_eq!(e.symbols.get("CRWV270115C00200000").map(String::as_str), Some("CRWV_LEAPS"));
    assert_eq!(e.symbols.get("OKLO270115C00150000").map(String::as_str), Some("OKLO_LEAPS"));
    assert_eq!(e.symbols.get("IONQ").map(String::as_str), Some("MICROCAP1"));
}

#[test]
fn short_stock_position_alarms() {
    let e = expected_book(&cfg());
    let fs = diff_positions(&e, &vec![pos("GEV", -50.0, -52_000.0)]);
    let a = alarms(&fs);
    assert_eq!(a.len(), 1);
    assert_eq!(a[0].kind, FindingKind::ShortPosition);
    assert_eq!(a[0].symbol, "GEV");
    assert_eq!(a[0].qty, fx(-50.0));
}

#[test]
fn long_put_alarms_as_non_long_call() {
    let e = expected_book(&cfg());
    let fs = diff_positions(&e, &vec![pos("CRWV270115P00200000", 1.0, 1_500.0)]);
    let a = alarms(&fs);
    assert_eq!(a.len(), 1);
    assert_eq!(a[0].kind, FindingKind::NonLongCallOption);
    assert!(a[0].detail.contains("PUT"));
}

#[test]
fn short_call_on_tracked_symbol_alarms_as_non_long_call() {
    let e = expected_book(&cfg());
    assert!(e.symbols.contains_key("CRWV270115C00200000"));
    let fs = diff_positions(&e, &vec![pos("CRWV270115C00200000", -1.0, -1_500.0)]);
    let a = alarms(&fs);
    assert_eq!(a.len(), 1);
    assert_eq!(a[0].kind, FindingKind::NonLongCallOption);
    assert!(a[0].detail.contains("SHORT call"));
}

#[test]
fn untracked_stock_alarms() {
    let e = expected_book(&cfg());
    let fs = diff_positions(&e, &vec![pos("TSLA", 10.0, 4_000.0)]);
    let a = alarms(&fs);
    assert_eq!(a.len(), 1);
    assert_eq!(a[0].kind, FindingKind::Untracked);
    assert_eq!(a[0].symbol, "TSLA");
}

#[test]
fn long_call_with_wrong_strike_is_untracked() {
    let e = expected_book(&cfg());
    let fs = diff_positions(&e, &vec![pos("NVDA280121C00250000", 1.0, 3_000.0)]);
    let a = alarms(&fs);
    assert_eq!(a.len(), 1);
    assert_eq!(a[0].kind, FindingKind::Untracked);
    assert!(a[0].detail.contains("no resolved LEAPS target"));
}

#[test]
fn missing_targets_are_notes_not_alarms() {
    let e = expected_book(&cfg());
    let held = vec![pos("GEV", 4.0, 4_200.0), pos("CRWV270115C00200000", 1.0, 1_600.0)];
    let fs = diff_positions(&e, &held);
    assert!(alarms(&fs).is_empty());
    assert_eq!(fs.len(), 20);
    assert!(fs.iter().all(|f| f.kind == FindingKind::MissingTarget));
    assert!(fs.iter().any(|f| f.symbol == "NVDA280121C00300000"));
}

#[test]
fn unset_microcap_slot_is_note() {
    let mut c = cfg();
    c.microcap_1 = "".into();
    let e = expected_book(&c);
    assert_eq!(e.symbols.len(), 21);
    assert_eq!(e.unresolved, vec!["MICROCAP1".to_string()]);
    let fs = diff_positions(&e, &vec![]);
    let unres: Vec<_> = fs.iter().filter(|f| f.kind == FindingKind::UnresolvedTarget).collect();
    assert_eq!(unres.len(), 1);
    assert_eq!(unres[0].symbol, "MICROCAP1");
    assert!(!unres[0].kind.is_alarm());
}

#[test]
fn fully_built_book_is_clean() {
    let e = expected_book(&cfg());
    let held: Vec<BrokerPos> = e.symbols.keys().iter().map(|s| pos(s, 1.0, 1_000.0)).collect();
    let fs = diff_positions(&e, &held);
    assert!(fs.is_empty());
    let r = build_report("2026-08-07", &e, &held, fs);
    assert_eq!(r.alarms, 0);
    assert_eq!(r.notes, 0);
    assert_eq!(r.explained.len(), 22);
}

#[test]
fn report_separates_alarms_from_notes() {
    let e = expected_book(&cfg());
    let held = vec![pos("GEV", 4.0, 4_200.0), pos("TSLA", 10.0, 4_000.0)];
    let fs = diff_positions(&e, &held);
    let r = build_report("2026-08-07", &e, &held, fs);
    assert_eq!(r.alarms, 1);
    assert_eq!(r.notes, 21);
    assert_eq!(r.explained, vec!["GEV (GEV)".to_string()]);
    let msg = compose_alarm(&r);
    assert!(msg.contains("TSLA"));
    assert!(!msg.contains("MissingTarget"));
}

#[test]
fn a_position_of_the_broker_is_signed() {
    let p = Position { symbol: "gev".into(), qty: fx(5.0), side: "SHORT".into(), market_value: fx(-10.0), ..Default::default() };
    let b = BrokerPos::from_position(&p);
    assert_eq!((b.symbol.as_str(), b.qty, b.market_value), ("GEV", fx(-5.0), fx(-10.0)));
    let p = Position { symbol: "gev".into(), qty: fx(5.0), side: "long".into(), ..Default::default() };
    assert_eq!(BrokerPos::from_position(&p).qty, fx(5.0));
}

#[test]
fn texts_of_an_audit() {
    let e = expected_book(&cfg());
    let held = vec![pos("CRWV270115P00200000", 1.0, 1_500.0)];
    let r = build_report("2026-08-07", &e, &held, diff_positions(&e, &held));
    assert_eq!(
        r.findings[0].detail,
        "PUT (CRWV 2027-01-15 $200) — sleeve invariant is single-leg LONG calls only"
    );
    assert_eq!(audit_line(&r), "date 2026-08-07 · broker positions 1 · designed targets 22 · alarms 1 · notes 22");
    assert_eq!(
        finding_line(&r.findings[0]),
        "  ALARM     : NonLongCallOption CRWV270115P00200000 qty +1 mv $+1500 — PUT (CRWV 2027-01-15 $200) — sleeve invariant is single-leg LONG calls only"
    );
    assert!(finding_line(&r.findings[1]).starts_with("  note      : MissingTarget APLD qty +0 mv $+0 — target APLD not held"));
    assert_eq!(audit_closing(&r, true), "Audit note written to meta/reconcile-2026-08-07.json; Telegram alarm sent.");
    assert_eq!(audit_closing(&r, false), "Audit note written to meta/reconcile-2026-08-07.json (no-send).");
    let clean = build_report("2026-08-07", &e, &vec![], vec![]);
    assert_eq!(
        audit_closing(&clean, true),
        "Audit note written to meta/reconcile-2026-08-07.json (clean — no Telegram)."
    );
    assert_eq!(
        compose_alarm(&r),
        "🚨 aschenbrenner-unlimited reconcile 2026-08-07: 1 alarm(s) between broker and the target book\n\
         (broker positions: 1, designed targets: 22, notes: 22)\n\
         • NON-LONG-CALL option — CRWV270115P00200000: qty +1, mv $+1500 — PUT (CRWV 2027-01-15 $200) — sleeve invariant is single-leg LONG calls only\n\
         Short / non-long-call findings violate the sleeve's core invariant; Untracked = foreign risk the book can't see. Check meta/reconcile-<date>.json."
    );
    assert_eq!(alarm_to_send(&r, true), Some(compose_alarm(&r)));
    assert_eq!(alarm_to_send(&r, false), None);
    assert_eq!(alarm_to_send(&clean, true), None);
    assert_eq!(kind_tag(FindingKind::Untracked), "UNTRACKED at broker");
    assert_eq!(kind_tag(FindingKind::ShortPosition), "SHORT position");
}

#[test]
fn without_an_alarm_every_position_is_explained() {
    let e = expected_book(&cfg());
    let held = vec![pos("GEV", 3.0, 3_000.0), pos("IONQ", 10.0, 400.0), pos("CRWV270115C00200000", 1.0, 900.0)];
    let fs = diff_positions(&e, &held);
    assert!(alarms(&fs).is_empty());
    let r = build_report("2026-06-22", &e, &held, fs);
    assert_eq!(r.explained, ["GEV (GEV)", "IONQ (MICROCAP1)", "CRWV270115C00200000 (CRWV_LEAPS)"]);
}
