use aschenbrenner_unlimited::calendar::Date;
use aschenbrenner_unlimited::config::AppConfig;
use aschenbrenner_unlimited::fixed::{Fixed, ONE};
use aschenbrenner_unlimited::json::Json;
use aschenbrenner_unlimited::numerals::parse_decimal;
use aschenbrenner_unlimited::rebalance::signal_bias::{analysis_fits, fundamentals_tilt, SignalBias};
use aschenbrenner_unlimited::run::{signal_row, tickers_from};
use aschenbrenner_unlimited::signals::daily_analysis::{
    analysis_from_json, lookback_dates, macro_score, parse_dir, parse_quant, read, score_from_json, DailyAnalysis, Direction,
    Fundamentals, ReportFile,
};

fn fx(x: f64) -> Fixed {
    parse_decimal(&format!("{}", x)).unwrap()
}

fn fl(x: Fixed) -> f64 {
    x as f64 / ONE as f64
}

fn doc(text: &str) -> Json {
    Json::parse(text).unwrap()
}

fn file(path: &str, text: &str) -> ReportFile {
    ReportFile { path: path.to_string(), text: Some(text.to_string()) }
}

fn gone(path: &str) -> ReportFile {
    ReportFile { path: path.to_string(), text: None }
}

fn bias(conv: &[(&str, f64)], macro_score: Option<i64>) -> SignalBias {
    let mut b = SignalBias { enabled: true, macro_score, ..Default::default() };
    for (t, c) in conv {
        b.conviction.insert(t.to_string(), fx(*c));
    }
    b
}

#[test]
fn deploy_multiplier_scales_with_regime() {
    assert_eq!(bias(&[], Some(20)).deploy_multiplier(), fx(0.5));
    assert_eq!(bias(&[], Some(70)).deploy_multiplier(), fx(1.0));
    assert_eq!(bias(&[], None).deploy_multiplier(), fx(1.0));
    let mid = fl(bias(&[], Some(50)).deploy_multiplier());
    assert!((mid - 0.75).abs() < 1e-9);
}

#[test]
fn disabled_bias_is_neutral() {
    let b = SignalBias { enabled: false, ..Default::default() };
    assert_eq!(b.conviction_of("GEV"), fx(0.0));
    assert_eq!(b.fund_tilt_of("GEV"), fx(0.0));
}

#[test]
fn fundamentals_tilt_reads_the_playbook_signals() {
    let healthy = Fundamentals {
        p_ocf_vs_median_pct: Some(fx(-30.0)),
        op_margin_trend_pp: Some(fx(3.0)),
        capex_cycle: Some(true),
        ocf_margin_trend_pp: Some(fx(4.0)),
        ..Default::default()
    };
    assert!(fl(fundamentals_tilt(&healthy)) > 0.5);
    let sick = Fundamentals {
        p_ocf_vs_median_pct: Some(fx(60.0)),
        op_margin_trend_pp: Some(fx(-6.0)),
        capex_cycle: Some(true),
        ocf_margin_trend_pp: Some(fx(-2.0)),
        ..Default::default()
    };
    assert!(fl(fundamentals_tilt(&sick)) < -0.5);
    assert_eq!(fundamentals_tilt(&Fundamentals::default()), fx(0.0));
}

#[test]
fn tilt_is_secondary_to_conviction_in_ordering() {
    let mut b = bias(&[("CHEAP", 0.3), ("RICH", 0.3)], None);
    b.fund_tilt.insert("CHEAP".into(), fx(1.0));
    b.fund_tilt.insert("RICH".into(), fx(-1.0));
    assert!(b.buy_priority("CHEAP") > b.buy_priority("RICH"));
    assert!(b.trim_priority("RICH") < b.trim_priority("CHEAP"));
    let mut b2 = bias(&[("LOVED", 0.9), ("HATED", -0.9)], None);
    b2.fund_tilt.insert("LOVED".into(), fx(-1.0));
    b2.fund_tilt.insert("HATED".into(), fx(1.0));
    assert!(b2.buy_priority("LOVED") > b2.buy_priority("HATED"));
}

#[test]
fn reads_ok_record_and_parses_direction() {
    let a = read(
        "CEG",
        &vec![file(
            "2026-05-25/CEG.json",
            r#"{"status":"ok","direction":"bearish","confidence":0.85,"decision":"Sell","trade_date":"2026-05-25"}"#,
        )],
    );
    assert!(a.found);
    assert_eq!(a.direction, Direction::Bearish);
    assert!(a.is_strong_bearish());
    assert_eq!(a.confidence, fx(0.85));
}

#[test]
fn missing_is_neutral_fallback() {
    let a = read("GEV", &vec![gone("2026-05-25/GEV.json"), gone("2026-05-24/GEV.json")]);
    assert!(!a.found);
    assert_eq!(a.direction, Direction::Neutral);
    assert_eq!(a.signed_conviction(), fx(0.0));
}

const BUY: &str = r#"{"status":"ok","direction":"bullish","confidence":0.85,"decision":"Buy","trade_date":"2026-06-08"}"#;

#[test]
fn reads_canonical_ok_contract_fixture() {
    let a = read("AAPL", &vec![file("2026-06-08/AAPL.json", BUY)]);
    assert!(a.found, "ok record must be found");
    assert_eq!(a.direction, Direction::Bullish);
    assert_eq!(a.confidence, fx(0.85));
    assert_eq!(a.decision, "Buy");
    assert_eq!(a.trade_date, "2026-06-08");
}

#[test]
fn canonical_fail_contract_fixture_is_neutral_fallback() {
    let a = read("AAPL", &vec![file("2026-06-08/AAPL.json", r#"{"status":"fail","direction":"bullish","confidence":0.9}"#)]);
    assert!(!a.found, "fail record must degrade to neutral fallback");
    assert_eq!(a.direction, Direction::Neutral);
    assert_eq!(a.confidence, fx(0.0));
}

#[test]
fn reads_canonical_quant_contract_fixture() {
    let text = r#"{"status":"ok","direction":"bullish","confidence":0.85,"quant":{"source":"alpaca+fmp","price":196.5,
        "macro_score":61,"analyst_target":235.0,
        "fundamentals":{"p_ocf_vs_median_pct":6.64,"op_margin_trend_pp":0.45,"capex_cycle":false}}}"#;
    let a = read("AAPL", &vec![file("2026-06-08/AAPL.json", text)]);
    assert!(a.found);
    let q = a.quant.expect("quant block must parse from the enriched fixture");
    assert_eq!(q.source.as_deref(), Some("alpaca+fmp"));
    assert_eq!(q.price, Some(fx(196.5)));
    assert_eq!(q.macro_score, Some(61));
    assert_eq!(q.analyst_target, Some(fx(235.0)));
    let f = q.fundamentals.expect("fundamentals sub-block must parse");
    assert_eq!(f.p_ocf_vs_median_pct, Some(fx(6.64)));
    assert_eq!(f.op_margin_trend_pp, Some(fx(0.45)));
    assert_eq!(f.capex_cycle, Some(false));
}

#[test]
fn ok_record_without_quant_has_none() {
    let a = read("AAPL", &vec![file("2026-06-08/AAPL.json", BUY)]);
    assert!(a.found);
    assert!(a.quant.is_none(), "record without a quant block must yield None");
}

#[test]
fn parses_dilution_and_short_sub_blocks() {
    let j = doc(
        r#"{"quant":{"price":1.0,
            "dilution":{"severity":"severe","active_takedown":{"form":"424B5","filed":"2026-09-25","age_days":1},
                        "recent_takedown":null,"shelf":{"form":"S-3","filed":"2026-07-02","age_days":86},
                        "share_growth_pct_yr":66.0,"quality":"verified","source":"sec_edgar"},
            "short":{"daily_short_volume":{"date":"2026-09-25","today_pct":65.7,"z":1.9,"read":"watch"},
                     "short_interest":{"settlement_date":"2026-09-15","short_pct_float":24.0,"days_to_cover":5.5,"read":"crowded"},
                     "quality":"verified","source":"finra"}}}"#,
    );
    let q = parse_quant(&j).unwrap();
    let d = q.dilution.as_ref().unwrap();
    assert_eq!(d.severity, "severe");
    assert!(d.active_takedown && !d.recent_takedown && d.shelf);
    assert_eq!(d.share_growth_pct_yr, Some(fx(66.0)));
    assert!(d.detail().contains("active 424B") && d.detail().contains("+66.0%/yr"));
    let s = q.short.as_ref().unwrap();
    assert_eq!(s.si_read.as_deref(), Some("crowded"));
    assert_eq!(s.daily_read.as_deref(), Some("watch"));
    assert_eq!(s.daily_z, Some(fx(1.9)));
    assert!(s.detail().contains("settled 2026-09-15"));
    let q2 = parse_quant(&doc(r#"{"quant":{"price":1.0}}"#)).unwrap();
    assert!(q2.dilution.is_none() && q2.short.is_none());
}

#[test]
fn details_of_the_sub_blocks() {
    let q = parse_quant(&doc(
        r#"{"quant":{"dilution":{"severity":"watch"},"short":{"short_interest":{"short_pct_float":24,"days_to_cover":5.55}}}}"#,
    ))
    .unwrap();
    assert_eq!(q.dilution.unwrap().detail(), "watch");
    assert_eq!(q.short.unwrap().detail(), "24.0% of float, DTC 5.6");
    assert!(parse_quant(&doc(r#"{"quant":[1]}"#)).is_none());
}

#[test]
fn directions() {
    assert_eq!(parse_dir(" Overweight "), Direction::Bullish);
    assert_eq!(parse_dir("BUY"), Direction::Bullish);
    assert_eq!(parse_dir("sell"), Direction::Bearish);
    assert_eq!(parse_dir("Ünderweight"), Direction::Neutral);
    assert_eq!(parse_dir(""), Direction::Neutral);
}

#[test]
fn the_newest_readable_record_wins() {
    let files = vec![
        gone("a"),
        file("b", "{not json"),
        file("c", r#"{"status":"fail"}"#),
        file("d", r#"{"status":"ok","direction":"sell","confidence":0.5}"#),
        file("e", BUY),
    ];
    let a = read("X", &files);
    assert_eq!(a.source_path.as_deref(), Some("d"));
    assert_eq!(a.signed_conviction(), fx(-0.5));
    assert!(!a.is_strong_bearish() && !a.is_strong_bullish());
    let text = |t: &str| Some(t.to_string());
    assert_eq!(macro_score(&vec![None, text("{"), text(r#"{"score":"x"}"#), text(r#"{"score":41}"#)]), Some(41));
    assert_eq!(macro_score(&vec![None, text(r#"{"score":41.5}"#)]), None);
    assert_eq!(score_from_json(&doc(r#"{"score":7}"#)), Some(7));
    assert_eq!(analysis_from_json("X", "p", &doc(BUY)).unwrap().confidence, fx(0.85));
    assert!(analysis_from_json("X", "p", &doc("[]")).is_none());
}

#[test]
fn days_looked_back() {
    let d = Date::from_ymd_opt(2026, 3, 1).unwrap();
    let texts: Vec<String> = lookback_dates(d, 2).iter().map(|d| d.iso()).collect();
    assert_eq!(texts, vec!["2026-03-01", "2026-02-28", "2026-02-27"]);
    assert_eq!(lookback_dates(d, -4).len(), 1);
}

#[test]
fn the_bias_is_loaded() {
    let text = r#"{"status":"ok","direction":"bearish","confidence":0.8,
        "quant":{"dilution":{"severity":"severe","shelf":{}},"fundamentals":{"p_ocf_vs_median_pct":-25}}}"#;
    let analyses: Vec<DailyAnalysis> =
        vec![read("MTZ", &vec![file("m", text)]), read("GEV", &vec![file("g", BUY)]), read("ETN", &vec![gone("e")])];
    assert!(analyses.iter().all(analysis_fits));
    let mut cfg = AppConfig::default();
    let b = SignalBias::load(&cfg, &analyses, Some(55));
    assert_eq!(b.conviction_of("MTZ"), fx(-0.8));
    assert_eq!(b.conviction_of("GEV"), fx(0.85));
    assert_eq!(b.conviction_of("ETN"), 0);
    assert_eq!(b.fund_tilt_of("MTZ"), fx(0.5));
    assert_eq!(b.trim_priority("MTZ"), fx(-0.675));
    assert!(b.strong_bearish.contains("MTZ") && !b.strong_bearish.contains("GEV"));
    assert!(b.strong_bullish.contains("GEV"));
    assert_eq!(b.buy_vetoed("MTZ").map(String::as_str), Some("dilution severe: shelf on file"));
    assert!(b.buy_vetoed("GEV").is_none());
    assert_eq!(b.macro_score, Some(55));
    cfg.signal_bias_enabled = false;
    let off = SignalBias::load(&cfg, &analyses, Some(55));
    assert_eq!(off.conviction_of("MTZ"), 0);
    assert_eq!(off.macro_score, None);
    assert!(off.buy_vetoed("MTZ").is_none());
}

#[test]
fn rows_of_signals() {
    let a = read("CEG", &vec![file("p", r#"{"status":"ok","direction":"bearish","confidence":0.85,"decision":"Sell"}"#)]);
    assert_eq!(signal_row("CEG", &a), "CEG    Bearish    0.85 true      Sell");
    assert_eq!(signal_row("GEV", &DailyAnalysis::neutral("GEV")), "GEV    Neutral    0.00 false     ");
    let args = |l: &[&str]| l.iter().map(|s| s.to_string()).collect::<Vec<String>>();
    assert_eq!(tickers_from(&args(&["nvda", "DRY-RUN", "straße"])), vec!["NVDA", "STRASSE"]);
    let all = tickers_from(&args(&["armed"]));
    assert_eq!(all.len(), 22);
    assert_eq!(all[21], "MICROCAP2");
}

#[test]
fn conviction_stays_between_minus_one_and_one() {
    let of = |direction: &str, confidence: &str| {
        let text = format!(r#"{{"status":"ok","direction":"{direction}","confidence":{confidence}}}"#);
        read("X", &vec![file("a", &text)]).signed_conviction()
    };
    assert_eq!(of("bullish", "1.5"), ONE);
    assert_eq!(of("bearish", "1.5"), -ONE);
    assert_eq!(of("bullish", "0.4"), fx(0.4));
    assert_eq!(of("bearish", "1"), -ONE);
    assert_eq!(of("bullish", "-0.5"), 0);
    assert_eq!(of("neutral", "0.9"), 0);
}

#[test]
fn better_fundamentals_tilt_up() {
    let of = |price: f64, margin: f64, cash: f64| {
        fundamentals_tilt(&Fundamentals {
            p_ocf_vs_median_pct: Some(fx(price)),
            op_margin_trend_pp: Some(fx(margin)),
            ocf_margin_trend_pp: Some(fx(cash)),
            capex_cycle: Some(true),
            ..Default::default()
        })
    };
    let base = of(10.0, 1.0, -1.0);
    // (0.55 * -0.2 + 0.30 * 0.2 - 0.15) / 1
    assert_eq!(base, fx(-0.2));
    assert!(of(0.0, 1.0, -1.0) > base && of(10.0, 2.0, -1.0) > base && of(10.0, 1.0, 1.0) > base);
    // Past the ends of the scale nothing more is gained.
    assert_eq!(of(-50.0, 5.0, 1.0), of(-80.0, 9.0, 3.0));
}
