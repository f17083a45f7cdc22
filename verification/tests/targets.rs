use aschenbrenner_unlimited::config::AppConfig;
use aschenbrenner_unlimited::fixed::{Fixed, ONE};
use aschenbrenner_unlimited::numerals::parse_decimal;
use aschenbrenner_unlimited::portfolio::targets::{
    cluster_members, cluster_target_weight, clusters, display_name, equity_invested, find, instrument_symbol, invested,
    invested_target_weight, is_leaps, moonshot, targets, theme_members, theme_of, theme_target_weight, themes, Tier,
    CASH_TICKER,
};

fn fx(x: f64) -> Fixed {
    parse_decimal(&format!("{}", x)).unwrap()
}

fn fl(x: Fixed) -> f64 {
    x as f64 / ONE as f64
}

fn cfg() -> AppConfig {
    AppConfig::default()
}

#[test]
fn twenty_two_invested_plus_cash() {
    assert_eq!(invested().len(), 22);
    assert_eq!(equity_invested().len(), 16);
    assert_eq!(moonshot().len(), 6);
    assert_eq!(targets().len(), 23);
}

#[test]
fn invested_weights_sum_to_one_minus_cash() {
    let buf = 0.05;
    let total: f64 = invested().iter().map(|t| fl(invested_target_weight(t.ticker, fx(buf)))).sum();
    assert!((total - (1.0 - buf)).abs() < 1e-9, "got {total}");
}

#[test]
fn no_equity_cluster_exceeds_cap_at_target() {
    for c in clusters() {
        let w = fl(cluster_target_weight(c, fx(0.05)));
        assert!(w <= 0.30 + 1e-9, "cluster {c} weight {w} breaches cap");
    }
}

#[test]
fn leaps_resolve_to_expected_occ() {
    let t = find("NVDA_LEAPS").unwrap();
    assert_eq!(instrument_symbol(&t, &cfg()).unwrap(), "NVDA280121C00300000");
    let t = find("CRWV_LEAPS").unwrap();
    assert_eq!(instrument_symbol(&t, &cfg()).unwrap(), "CRWV270115C00200000");
}

#[test]
fn microcap_resolves_from_config() {
    let mut c = cfg();
    c.microcap_1 = "IONQ".into();
    c.microcap_2 = "ASTS".into();
    assert_eq!(instrument_symbol(&find("MICROCAP1").unwrap(), &c).unwrap(), "IONQ");
    assert_eq!(instrument_symbol(&find("MICROCAP2").unwrap(), &c).unwrap(), "ASTS");
    c.microcap_1 = "".into();
    assert!(instrument_symbol(&find("MICROCAP1").unwrap(), &c).is_none());
}

#[test]
fn theme_layer_maps_every_equity_cluster() {
    for t in equity_invested() {
        assert_ne!(
            theme_of(t.cluster),
            "other",
            "cluster '{}' ({}) is not mapped to a theme",
            t.cluster,
            t.ticker
        );
    }
}

#[test]
fn ai_infrastructure_theme_target_matches_the_strategy() {
    let w = fl(theme_target_weight("ai-infrastructure", fx(0.05)));
    assert!((0.60..0.72).contains(&w), "ai-infrastructure target weight {w}");
    let d = fl(theme_target_weight("defense", fx(0.05)));
    assert!((0.12..0.21).contains(&d), "defense target weight {d}");
}

#[test]
fn the_six_clusters_stand_in_the_order_of_the_book() {
    assert_eq!(
        clusters(),
        vec!["Grid hardware", "Nuclear baseload", "Fab", "Defense AGI", "AI compute/hosting", "DC build-out"]
    );
    assert_eq!(cluster_members("DC build-out"), vec!["STRL", "MTZ"]);
    assert!(cluster_members("no such cluster").is_empty());
}

#[test]
fn the_two_themes_split_the_equity_sleeve() {
    assert_eq!(themes(), vec!["ai-infrastructure", "defense"]);
    assert_eq!(theme_members("defense"), vec!["NOC", "PLTR", "BWXT", "AVAV"]);
    assert_eq!(theme_members("ai-infrastructure").len(), 12);
    assert_eq!(theme_of("no such cluster"), "other");
}

#[test]
fn weights_of_chosen_lines() {
    // 10 of 95.2 points, of the 95 % that the buffer leaves, rounded down.
    assert_eq!(invested_target_weight("GEV", fx(0.05)), 99_789_915_966);
    assert_eq!(invested_target_weight(CASH_TICKER, fx(0.05)), 0);
    assert_eq!(invested_target_weight("NOPE", fx(0.05)), 0);
    // A buffer beyond the whole account leaves nothing.
    assert_eq!(invested_target_weight("GEV", fx(1.5)), 0);
}

#[test]
fn labels_of_the_tiers() {
    assert_eq!(find("GEV").unwrap().tier.label(), "Floor");
    assert_eq!(find("PLTR").unwrap().tier.label(), "Asym");
    assert_eq!(find("NVDA_LEAPS").unwrap().tier.label(), "Moon");
    assert_eq!(Tier::Cash.label(), "Cash");
}

#[test]
fn display_names() {
    let mut c = cfg();
    assert_eq!(display_name(&find("GEV").unwrap(), &c), "GEV");
    assert_eq!(display_name(&find("NVDA_LEAPS").unwrap(), &c), "NVDA $300C Jan-28");
    assert_eq!(display_name(&find("MICROCAP1").unwrap(), &c), "IONQ [MICROCAP1]");
    c.microcap_1 = "  ".into();
    assert_eq!(display_name(&find("MICROCAP1").unwrap(), &c), "MICROCAP1 (unset)");
    c.microcap_1 = " straße ".into();
    assert_eq!(display_name(&find("MICROCAP1").unwrap(), &c), "STRASSE [MICROCAP1]");
}

#[test]
fn only_calls_are_leaps() {
    assert!(is_leaps(&find("OKLO_LEAPS").unwrap()));
    assert!(!is_leaps(&find("OKLO").unwrap()));
    assert_eq!(find("oklo").unwrap().ticker, "OKLO");
    assert!(find("OKL").is_none());
}

#[test]
fn each_equity_line_stands_in_one_cluster() {
    for t in equity_invested() {
        let homes: Vec<_> = clusters().into_iter().filter(|c| cluster_members(c).contains(&t.ticker)).collect();
        assert_eq!(homes, [t.cluster]);
    }
}
