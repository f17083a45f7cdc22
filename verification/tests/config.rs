use aschenbrenner_unlimited::config::{apply, apply_env_text, apply_overrides, parse_env_line, truthy, AppConfig};
use aschenbrenner_unlimited::fixed::Fixed;
use aschenbrenner_unlimited::numerals::parse_decimal;
use std::path::Path;

fn fx(x: f64) -> Fixed {
    parse_decimal(&format!("{}", x)).unwrap()
}

fn parse(lines: &[(&str, &str)]) -> AppConfig {
    let mut c = AppConfig::default();
    for (k, v) in lines {
        apply(k, v, &mut c);
    }
    c
}

fn sibling(c: &AppConfig) -> String {
    let beside = Path::new(&c.vault_path)
        .parent()
        .map(|p| p.join("daily_analysis").to_string_lossy().to_string());
    c.daily_analysis_dir(beside, "./gdrive/vault/daily_analysis".to_string())
}

#[test]
fn defaults_are_paper_and_thesis() {
    let c = AppConfig::default();
    assert!(c.paper_mode);
    assert_eq!(c.alpaca_base_url, "https://paper-api.alpaca.markets");
    assert_eq!(c.target_nav_start, fx(40_000.0));
    assert_eq!(c.target_cagr, fx(0.26));
    assert_eq!(c.cluster_cap_pct, fx(0.30));
}

#[test]
fn base_url_trailing_slash_stripped() {
    let c = parse(&[("ALPACA_BASE_URL", "https://paper-api.alpaca.markets/")]);
    assert_eq!(c.alpaca_base_url, "https://paper-api.alpaca.markets");
}

#[test]
fn daily_analysis_dir_defaults_to_sibling() {
    let mut c = AppConfig::default();
    c.vault_path = "/x/vault/aschenbrenner-unlimited".to_string();
    assert_eq!(sibling(&c), "/x/vault/daily_analysis");
}

#[test]
fn rule_overrides_parse() {
    let c = parse(&[("CLUSTER_CAP_PCT", "0.25"), ("REBALANCE_BAND_PCT", "0.05")]);
    assert_eq!(c.cluster_cap_pct, fx(0.25));
    assert_eq!(c.rebalance_band_pct, fx(0.05));
}

#[test]
fn a_set_analysis_path_wins() {
    let c = parse(&[("DAILY_ANALYSIS_PATH", "/reports")]);
    assert_eq!(sibling(&c), "/reports");
    let mut c = AppConfig::default();
    c.vault_path = "/".to_string();
    assert_eq!(sibling(&c), "./gdrive/vault/daily_analysis");
}

#[test]
fn truth_values() {
    assert!(truthy(" TRUE "));
    assert!(truthy("1"));
    assert!(truthy("Yes"));
    assert!(!truthy("on"));
    assert!(!truthy(""));
}

#[test]
fn a_value_that_does_not_parse_leaves_the_setting() {
    let c = parse(&[("CLUSTER_CAP_PCT", "a third"), ("MAX_ORDERS_PER_DAY", "1.5"), ("NO_SUCH_KEY", "1")]);
    assert_eq!(c.cluster_cap_pct, fx(0.30));
    assert_eq!(c.max_orders_per_day, 10);
    let c = parse(&[("MAX_ORDERS_PER_DAY", "3"), ("BUILD_DAILY_BUDGET", "2.5e3")]);
    assert_eq!(c.max_orders_per_day, 3);
    assert_eq!(c.build_daily_budget, fx(2_500.0));
}

#[test]
fn tickers_are_trimmed_and_upper_cased() {
    let c = parse(&[("MICROCAP_1", " rklb "), ("TELEGRAM_CHAT_ID", " 42 "), ("SIGNAL_BIAS_ENABLED", "no")]);
    assert_eq!(c.microcap_1, "RKLB");
    assert_eq!(c.telegram_chat_id, "42");
    assert!(!c.signal_bias_enabled);
}

#[test]
fn env_lines() {
    assert_eq!(parse_env_line("# a comment"), None);
    assert_eq!(parse_env_line("   "), None);
    assert_eq!(parse_env_line("no equals sign"), None);
    assert_eq!(parse_env_line(" KEY = value "), Some(("KEY".to_string(), "value".to_string())));
    // A comment needs white space before it.
    assert_eq!(parse_env_line("KEY=value # why"), Some(("KEY".to_string(), "value".to_string())));
    assert_eq!(parse_env_line("KEY=value#why"), Some(("KEY".to_string(), "value#why".to_string())));
    assert_eq!(parse_env_line("KEY=a=b \t # c # d"), Some(("KEY".to_string(), "a=b".to_string())));
}

#[test]
fn a_later_line_wins_and_the_environment_wins_over_the_file() {
    let mut c = AppConfig::default();
    apply_env_text("CASH_BUFFER_PCT=0.1\n\n# note\r\nCASH_BUFFER_PCT=0.2 # more\nLOG_LEVEL= debug\n", &mut c);
    assert_eq!(c.cash_buffer_pct, fx(0.2));
    assert_eq!(c.log_level, "debug");
    apply_overrides(&vec![("cash_buffer_pct".to_string(), "0.3".to_string())], &mut c);
    assert_eq!(c.cash_buffer_pct, fx(0.3));
}

#[test]
fn sizes_of_settings_are_checked() {
    let mut c = AppConfig::default();
    assert!(c.within_limits());
    assert!(!c.has_keys());
    apply("ALPACA_API_KEY_ID", "key", &mut c);
    apply("ALPACA_API_SECRET_KEY", "word", &mut c);
    assert!(c.has_keys());
    apply("CLUSTER_CAP_PCT", "1001", &mut c);
    assert!(!c.within_limits());
}
