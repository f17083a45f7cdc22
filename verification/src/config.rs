//! Settings: defaults, then the lines of an environment file, then the variables
//! of the process environment.
use regex::Regex;
use vstd::prelude::*;
use vstd::string::*;

use crate::fixed::{is_within, within, Fixed, FRACTION_LIMIT, LIMIT};
use crate::numerals::{decimal_value, parse_decimal, parse_whole, whole_value};
use crate::text::{
    chars_of, find_char, first_at, is_white, lower, same, slice_text, texts, to_lower, to_upper, trim,
    trim_trailing, trimmed, upper, without_trailing,
};

verus! {

/// The settings of the program.
#[derive(Debug, Clone)]
pub struct AppConfig {
    /// The broker's key id.
    pub alpaca_api_key: String,
    /// The broker's secret.
    pub alpaca_secret_key: String,
    /// Where the broker answers.
    pub alpaca_base_url: String,
    /// Paper trading.
    pub paper_mode: bool,
    /// The account value that the glide path starts from.
    pub target_nav_start: Fixed,
    /// The yearly growth of the glide path.
    pub target_cagr: Fixed,
    /// The length of the glide path in years.
    pub target_horizon_years: Fixed,
    /// The share of the account that stays in cash.
    pub cash_buffer_pct: Fixed,
    /// A position above this share of the account is trimmed.
    pub position_trim_trigger_pct: Fixed,
    /// The share that an oversized position is trimmed to.
    pub position_trim_target_pct: Fixed,
    /// A cluster above this share of the account is trimmed.
    pub cluster_cap_pct: Fixed,
    /// How far a theme may rise above its own target share before it is trimmed.
    pub theme_drift_band_pct: Fixed,
    /// The loss from cost that puts a name into the cut zone, as a positive fraction.
    pub position_stop_pct: Fixed,
    /// Cash is deployed into a cluster that as a whole has fallen by more than this
    /// fraction from its high-water marks.
    pub drawdown_deploy_pct: Fixed,
    /// Cash is deployed into a name that has fallen by more than this fraction from its
    /// high-water mark.
    pub drawdown_deploy_single_pct: Fixed,
    /// Drift below this fraction of a name's own target is left alone.
    pub rebalance_band_pct: Fixed,
    /// The most orders in one cycle.
    pub max_orders_per_day: i64,
    /// The most that one day's asymmetric tranche spends.
    pub build_daily_budget: Fixed,
    /// Whether the nightly analysis orders the choices.
    pub signal_bias_enabled: bool,
    /// The ticker of the first micro-cap slot.
    pub microcap_1: String,
    /// The ticker of the second micro-cap slot.
    pub microcap_2: String,
    /// The time zone of the schedule.
    pub timezone_str: String,
    /// Whether a cycle that was missed today runs at start.
    pub catchup_on_start: bool,
    /// The project's directory.
    pub project_root: String,
    /// The vault's directory.
    pub vault_path: String,
    /// The human mirror of the targets.
    pub portfolio_md_path: String,
    /// The nightly reports; unset means the directory beside the vault.
    pub daily_analysis_path: Option<String>,
    /// The file whose presence halts the cycle.
    pub kill_file: String,
    /// Real money; the paper guard holds even so.
    pub live_trading_enabled: bool,
    /// The log filter.
    pub log_level: String,
    /// The bot that reports; empty means no reports.
    pub telegram_bot_token: String,
    /// The chat that it reports to.
    pub telegram_chat_id: String,
}

/// The settings as plain values.
#[verifier::ext_equal]
pub struct Settings {
    pub alpaca_api_key: Seq<char>,
    pub alpaca_secret_key: Seq<char>,
    pub alpaca_base_url: Seq<char>,
    pub paper_mode: bool,
    pub target_nav_start: int,
    pub target_cagr: int,
    pub target_horizon_years: int,
    pub cash_buffer_pct: int,
    pub position_trim_trigger_pct: int,
    pub position_trim_target_pct: int,
    pub cluster_cap_pct: int,
    pub theme_drift_band_pct: int,
    pub position_stop_pct: int,
    pub drawdown_deploy_pct: int,
    pub drawdown_deploy_single_pct: int,
    pub rebalance_band_pct: int,
    pub max_orders_per_day: int,
    pub build_daily_budget: int,
    pub signal_bias_enabled: bool,
    pub microcap_1: Seq<char>,
    pub microcap_2: Seq<char>,
    pub timezone_str: Seq<char>,
    pub catchup_on_start: bool,
    pub project_root: Seq<char>,
    pub vault_path: Seq<char>,
    pub portfolio_md_path: Seq<char>,
    pub daily_analysis_path: Option<Seq<char>>,
    pub kill_file: Seq<char>,
    pub live_trading_enabled: bool,
    pub log_level: Seq<char>,
    pub telegram_bot_token: Seq<char>,
    pub telegram_chat_id: Seq<char>,
}

impl View for AppConfig {
    type V = Settings;

    open spec fn view(&self) -> Settings {
        Settings {
            alpaca_api_key: self.alpaca_api_key@,
            alpaca_secret_key: self.alpaca_secret_key@,
            alpaca_base_url: self.alpaca_base_url@,
            paper_mode: self.paper_mode,
            target_nav_start: self.target_nav_start as int,
            target_cagr: self.target_cagr as int,
            target_horizon_years: self.target_horizon_years as int,
            cash_buffer_pct: self.cash_buffer_pct as int,
            position_trim_trigger_pct: self.position_trim_trigger_pct as int,
            position_trim_target_pct: self.position_trim_target_pct as int,
            cluster_cap_pct: self.cluster_cap_pct as int,
            theme_drift_band_pct: self.theme_drift_band_pct as int,
            position_stop_pct: self.position_stop_pct as int,
            drawdown_deploy_pct: self.drawdown_deploy_pct as int,
            drawdown_deploy_single_pct: self.drawdown_deploy_single_pct as int,
            rebalance_band_pct: self.rebalance_band_pct as int,
            max_orders_per_day: self.max_orders_per_day as int,
            build_daily_budget: self.build_daily_budget as int,
            signal_bias_enabled: self.signal_bias_enabled,
            microcap_1: self.microcap_1@,
            microcap_2: self.microcap_2@,
            timezone_str: self.timezone_str@,
            catchup_on_start: self.catchup_on_start,
            project_root: self.project_root@,
            vault_path: self.vault_path@,
            portfolio_md_path: self.portfolio_md_path@,
            daily_analysis_path: match self.daily_analysis_path {
                Some(p) => Some(p@),
                None => None,
            },
            kill_file: self.kill_file@,
            live_trading_enabled: self.live_trading_enabled,
            log_level: self.log_level@,
            telegram_bot_token: self.telegram_bot_token@,
            telegram_chat_id: self.telegram_chat_id@,
        }
    }
}

/// The rule parameters are of a size that the rules can reckon with.
pub open spec fn settings_within_limits(s: Settings) -> bool {
    &&& within(s.target_nav_start, LIMIT as int)
    &&& within(s.build_daily_budget, LIMIT as int)
    &&& within(s.target_cagr, FRACTION_LIMIT as int)
    &&& within(s.target_horizon_years, FRACTION_LIMIT as int)
    &&& within(s.cash_buffer_pct, FRACTION_LIMIT as int)
    &&& within(s.position_trim_trigger_pct, FRACTION_LIMIT as int)
    &&& within(s.position_trim_target_pct, FRACTION_LIMIT as int)
    &&& within(s.cluster_cap_pct, FRACTION_LIMIT as int)
    &&& within(s.theme_drift_band_pct, FRACTION_LIMIT as int)
    &&& within(s.position_stop_pct, FRACTION_LIMIT as int)
    &&& within(s.drawdown_deploy_pct, FRACTION_LIMIT as int)
    &&& within(s.drawdown_deploy_single_pct, FRACTION_LIMIT as int)
    &&& within(s.rebalance_band_pct, FRACTION_LIMIT as int)
}

/// The settings that hold where nothing else is said, under the home directory `.`.
pub open spec fn default_settings() -> Settings {
    Settings {
        alpaca_api_key: ""@,
        alpaca_secret_key: ""@,
        alpaca_base_url: "https://paper-api.alpaca.markets"@,
        paper_mode: true,
        target_nav_start: 40_000_000_000_000_000,
        target_cagr: 260_000_000_000,
        target_horizon_years: 3_000_000_000_000,
        cash_buffer_pct: 50_000_000_000,
        position_trim_trigger_pct: 150_000_000_000,
        position_trim_target_pct: 100_000_000_000,
        cluster_cap_pct: 300_000_000_000,
        theme_drift_band_pct: 120_000_000_000,
        position_stop_pct: 350_000_000_000,
        drawdown_deploy_pct: 150_000_000_000,
        drawdown_deploy_single_pct: 250_000_000_000,
        rebalance_band_pct: 30_000_000_000,
        max_orders_per_day: 10,
        build_daily_budget: 2_000_000_000_000_000,
        signal_bias_enabled: true,
        microcap_1: "IONQ"@,
        microcap_2: "ASTS"@,
        timezone_str: "America/Los_Angeles"@,
        catchup_on_start: true,
        project_root: "./projects/aschenbrenner_unlimited"@,
        vault_path: "./gdrive/vault/aschenbrenner-unlimited"@,
        portfolio_md_path: "./projects/aschenbrenner_unlimited/portfolio.md"@,
        daily_analysis_path: None,
        kill_file: "./projects/aschenbrenner_unlimited/aschenbrenner-unlimited.HALT"@,
        live_trading_enabled: false,
        log_level: "info"@,
        telegram_bot_token: ""@,
        telegram_chat_id: ""@,
    }
}

impl Default for AppConfig {
    fn default() -> (c: Self)
        ensures
            c@ == default_settings(),
    {
        AppConfig {
            alpaca_api_key: "".to_owned(),
            alpaca_secret_key: "".to_owned(),
            alpaca_base_url: "https://paper-api.alpaca.markets".to_owned(),
            paper_mode: true,
            target_nav_start: 40_000_000_000_000_000,
            target_cagr: 260_000_000_000,
            target_horizon_years: 3_000_000_000_000,
            cash_buffer_pct: 50_000_000_000,
            position_trim_trigger_pct: 150_000_000_000,
            position_trim_target_pct: 100_000_000_000,
            cluster_cap_pct: 300_000_000_000,
            theme_drift_band_pct: 120_000_000_000,
            position_stop_pct: 350_000_000_000,
            drawdown_deploy_pct: 150_000_000_000,
            drawdown_deploy_single_pct: 250_000_000_000,
            rebalance_band_pct: 30_000_000_000,
            max_orders_per_day: 10,
            build_daily_budget: 2_000_000_000_000_000,
            signal_bias_enabled: true,
            microcap_1: "IONQ".to_owned(),
            microcap_2: "ASTS".to_owned(),
            timezone_str: "America/Los_Angeles".to_owned(),
            catchup_on_start: true,
            project_root: "./projects/aschenbrenner_unlimited".to_owned(),
            vault_path: "./gdrive/vault/aschenbrenner-unlimited".to_owned(),
            portfolio_md_path: "./projects/aschenbrenner_unlimited/portfolio.md".to_owned(),
            daily_analysis_path: None,
            kill_file: "./projects/aschenbrenner_unlimited/aschenbrenner-unlimited.HALT".to_owned(),
            live_trading_enabled: false,
            log_level: "info".to_owned(),
            telegram_bot_token: "".to_owned(),
            telegram_chat_id: "".to_owned(),
        }
    }
}

/// A yes: `true`, `1` or `yes` in any case, between any white space.
pub open spec fn is_truthy(v: Seq<char>) -> bool {
    let w = lower(trimmed(v));
    w == "true"@ || w == "1"@ || w == "yes"@
}

/// Whether the text is a yes.
pub fn truthy(v: &str) -> (r: bool)
    ensures
        r == is_truthy(v@),
{
    let w = to_lower(trim(v).as_str());
    same(w.as_str(), "true") || same(w.as_str(), "1") || same(w.as_str(), "yes")
}

/// The decimal that a text denotes, or `before` when it denotes none.
pub open spec fn decimal_or(v: Seq<char>, before: int) -> int {
    match decimal_value(v) {
        Some(x) => x,
        None => before,
    }
}

/// The whole number of 64 bits that a text denotes, or `before` when it denotes none.
pub open spec fn whole_or(v: Seq<char>, before: int) -> int {
    match whole_value(v, true) {
        Some(n) => if i64::MIN <= n <= i64::MAX {
            n
        } else {
            before
        },
        None => before,
    }
}

fn number_or(v: &str, before: Fixed) -> (r: Fixed)
    ensures
        r == decimal_or(v@, before as int),
{
    match parse_decimal(v) {
        Some(x) => x,
        None => before,
    }
}

fn count_or(v: &str, before: i64) -> (r: i64)
    ensures
        r == whole_or(v@, before as int),
{
    match parse_whole(v) {
        Some(n) => n,
        None => before,
    }
}

/// The settings after one key was given a value. An unknown key changes nothing,
/// and neither does a number that cannot be read.
pub open spec fn applied(s: Settings, key: Seq<char>, v: Seq<char>) -> Settings {
    if key == "ALPACA_API_KEY_ID"@ {
        Settings { alpaca_api_key: v, ..s }
    } else if key == "ALPACA_API_SECRET_KEY"@ {
        Settings { alpaca_secret_key: v, ..s }
    } else if key == "ALPACA_BASE_URL"@ {
        Settings { alpaca_base_url: without_trailing(v, '/'), ..s }
    } else if key == "PAPER_MODE"@ {
        Settings { paper_mode: is_truthy(v), ..s }
    } else if key == "TARGET_NAV_START"@ {
        Settings { target_nav_start: decimal_or(v, s.target_nav_start), ..s }
    } else if key == "TARGET_CAGR"@ {
        Settings { target_cagr: decimal_or(v, s.target_cagr), ..s }
    } else if key == "TARGET_HORIZON_YEARS"@ {
        Settings { target_horizon_years: decimal_or(v, s.target_horizon_years), ..s }
    } else if key == "CASH_BUFFER_PCT"@ {
        Settings { cash_buffer_pct: decimal_or(v, s.cash_buffer_pct), ..s }
    } else if key == "POSITION_TRIM_TRIGGER_PCT"@ {
        Settings { position_trim_trigger_pct: decimal_or(v, s.position_trim_trigger_pct), ..s }
    } else if key == "POSITION_TRIM_TARGET_PCT"@ {
        Settings { position_trim_target_pct: decimal_or(v, s.position_trim_target_pct), ..s }
    } else if key == "CLUSTER_CAP_PCT"@ {
        Settings { cluster_cap_pct: decimal_or(v, s.cluster_cap_pct), ..s }
    } else if key == "POSITION_STOP_PCT"@ {
        Settings { position_stop_pct: decimal_or(v, s.position_stop_pct), ..s }
    } else if key == "DRAWDOWN_DEPLOY_PCT"@ {
        Settings { drawdown_deploy_pct: decimal_or(v, s.drawdown_deploy_pct), ..s }
    } else if key == "DRAWDOWN_DEPLOY_SINGLE_PCT"@ {
        Settings { drawdown_deploy_single_pct: decimal_or(v, s.drawdown_deploy_single_pct), ..s }
    } else if key == "REBALANCE_BAND_PCT"@ {
        Settings { rebalance_band_pct: decimal_or(v, s.rebalance_band_pct), ..s }
    } else if key == "MAX_ORDERS_PER_DAY"@ {
        Settings { max_orders_per_day: whole_or(v, s.max_orders_per_day), ..s }
    } else if key == "BUILD_DAILY_BUDGET"@ {
        Settings { build_daily_budget: decimal_or(v, s.build_daily_budget), ..s }
    } else if key == "SIGNAL_BIAS_ENABLED"@ {
        Settings { signal_bias_enabled: is_truthy(v), ..s }
    } else if key == "MICROCAP_1"@ {
        Settings { microcap_1: upper(trimmed(v)), ..s }
    } else if key == "MICROCAP_2"@ {
        Settings { microcap_2: upper(trimmed(v)), ..s }
    } else if key == "TIMEZONE"@ {
        Settings { timezone_str: v, ..s }
    } else if key == "CATCHUP_ON_START"@ {
        Settings { catchup_on_start: is_truthy(v), ..s }
    } else if key == "VAULT_PATH"@ {
        Settings { vault_path: v, ..s }
    } else if key == "DAILY_ANALYSIS_PATH"@ {
        Settings { daily_analysis_path: Some(v), ..s }
    } else if key == "KILL_FILE"@ {
        Settings { kill_file: v, ..s }
    } else if key == "LIVE_TRADING_ENABLED"@ {
        Settings { live_trading_enabled: is_truthy(v), ..s }
    } else if key == "LOG_LEVEL"@ {
        Settings { log_level: trimmed(v), ..s }
    } else if key == "TELEGRAM_BOT_TOKEN"@ {
        Settings { telegram_bot_token: trimmed(v), ..s }
    } else if key == "TELEGRAM_CHAT_ID"@ {
        Settings { telegram_chat_id: trimmed(v), ..s }
    } else {
        s
    }
}

/// Gives one key a value.
pub fn apply(key: &str, value: &str, c: &mut AppConfig)
    ensures
        final(c)@ == applied(old(c)@, key@, value@),
{
    if same(key, "ALPACA_API_KEY_ID") {
        c.alpaca_api_key = value.to_owned();
    } else if same(key, "ALPACA_API_SECRET_KEY") {
        c.alpaca_secret_key = value.to_owned();
    } else if same(key, "ALPACA_BASE_URL") {
        c.alpaca_base_url = trim_trailing(value, '/');
    } else if same(key, "PAPER_MODE") {
        c.paper_mode = truthy(value);
    } else if same(key, "TARGET_NAV_START") {
        c.target_nav_start = number_or(value, c.target_nav_start);
    } else if same(key, "TARGET_CAGR") {
        c.target_cagr = number_or(value, c.target_cagr);
    } else if same(key, "TARGET_HORIZON_YEARS") {
        c.target_horizon_years = number_or(value, c.target_horizon_years);
    } else if same(key, "CASH_BUFFER_PCT") {
        c.cash_buffer_pct = number_or(value, c.cash_buffer_pct);
    } else if same(key, "POSITION_TRIM_TRIGGER_PCT") {
        c.position_trim_trigger_pct = number_or(value, c.position_trim_trigger_pct);
    } else if same(key, "POSITION_TRIM_TARGET_PCT") {
        c.position_trim_target_pct = number_or(value, c.position_trim_target_pct);
    } else if same(key, "CLUSTER_CAP_PCT") {
        c.cluster_cap_pct = number_or(value, c.cluster_cap_pct);
    } else if same(key, "POSITION_STOP_PCT") {
        c.position_stop_pct = number_or(value, c.position_stop_pct);
    } else if same(key, "DRAWDOWN_DEPLOY_PCT") {
        c.drawdown_deploy_pct = number_or(value, c.drawdown_deploy_pct);
    } else if same(key, "DRAWDOWN_DEPLOY_SINGLE_PCT") {
        c.drawdown_deploy_single_pct = number_or(value, c.drawdown_deploy_single_pct);
    } else if same(key, "REBALANCE_BAND_PCT") {
        c.rebalance_band_pct = number_or(value, c.rebalance_band_pct);
    } else if same(key, "MAX_ORDERS_PER_DAY") {
        c.max_orders_per_day = count_or(value, c.max_orders_per_day);
    } else if same(key, "BUILD_DAILY_BUDGET") {
        c.build_daily_budget = number_or(value, c.build_daily_budget);
    } else if same(key, "SIGNAL_BIAS_ENABLED") {
        c.signal_bias_enabled = truthy(value);
    } else if same(key, "MICROCAP_1") {
        c.microcap_1 = to_upper(trim(value).as_str());
    } else if same(key, "MICROCAP_2") {
        c.microcap_2 = to_upper(trim(value).as_str());
    } else if same(key, "TIMEZONE") {
        c.timezone_str = value.to_owned();
    } else if same(key, "CATCHUP_ON_START") {
        c.catchup_on_start = truthy(value);
    } else if same(key, "VAULT_PATH") {
        c.vault_path = value.to_owned();
    } else if same(key, "DAILY_ANALYSIS_PATH") {
        c.daily_analysis_path = Some(value.to_owned());
    } else if same(key, "KILL_FILE") {
        c.kill_file = value.to_owned();
    } else if same(key, "LIVE_TRADING_ENABLED") {
        c.live_trading_enabled = truthy(value);
    } else if same(key, "LOG_LEVEL") {
        c.log_level = trim(value);
    } else if same(key, "TELEGRAM_BOT_TOKEN") {
        c.telegram_bot_token = trim(value);
    } else if same(key, "TELEGRAM_CHAT_ID") {
        c.telegram_chat_id = trim(value);
    }
}

// ── environment files ──────────────────────────────────────────────────────

/// White space and then a `#` stand at the front of `s`.
pub open spec fn comment_starts(s: Seq<char>) -> bool
    decreases s.len(),
{
    s.len() > 1 && is_white(s[0]) && (s[1] == '#' || comment_starts(s.drop_first()))
}

/// `s` up to the first white space that leads to a `#`.
pub open spec fn without_comment(s: Seq<char>) -> Seq<char>
    decreases s.len(),
{
    if s.len() == 0 || comment_starts(s) {
        seq![]
    } else {
        seq![s[0]] + without_comment(s.drop_first())
    }
}

/// `Regex::new` and `Regex::splitn`, the first piece of two: the text in front of
/// the leftmost match of the pattern `\s+#`, or all of it without a match.
#[verifier::external_body]
fn regex_first_piece(pattern: &str, s: &str) -> (r: String)
    requires
        pattern@ == "\\s+#"@,
    ensures
        r@ == without_comment(s@),
{
    Regex::new(pattern).unwrap().splitn(s, 2).next().unwrap_or(s).to_string()
}

/// What one line of an environment file says: a key and its value. Blank lines,
/// lines that start with `#` and lines without `=` say nothing.
pub open spec fn env_pair(line: Seq<char>) -> Option<(Seq<char>, Seq<char>)> {
    let l = trimmed(line);
    let at = first_at(l, '=') as int;
    if l.len() == 0 || l[0] == '#' || at >= l.len() {
        None
    } else {
        Some((trimmed(l.take(at)), trimmed(without_comment(trimmed(l.skip(at + 1))))))
    }
}

/// Reads one line of an environment file.
pub fn parse_env_line(line: &str) -> (r: Option<(String, String)>)
    ensures
        match r {
            Some(p) => env_pair(line@) == Some((p.0@, p.1@)),
            None => env_pair(line@) is None,
        },
{
    let l = trim(line);
    let v = chars_of(l.as_str());
    if v.len() == 0 || v[0] == '#' {
        return None;
    }
    let at: usize = find_char(&v, '=', 0);
    assert(v@.skip(0) == v@);
    if at >= v.len() {
        return None;
    }
    let key = slice_text(&v, 0, at);
    assert(v@.subrange(0, at as int) == v@.take(at as int));
    let rest = slice_text(&v, at + 1, v.len());
    assert(v@.subrange(at + 1, v@.len() as int) == v@.skip(at + 1));
    let raw = trim(rest.as_str());
    let value = regex_first_piece("\\s+#", raw.as_str());
    Some((trim(key.as_str()), trim(value.as_str())))
}

/// The settings after one line of an environment file.
pub open spec fn line_applied(s: Settings, line: Seq<char>) -> Settings {
    match env_pair(line) {
        Some(p) => applied(s, p.0, p.1),
        None => s,
    }
}

/// The lines of a text, split at every line feed.
pub open spec fn lines_of(text: Seq<char>) -> Seq<Seq<char>>
    decreases text.len(),
{
    let end = first_at(text, '\n') as int;
    if end >= text.len() {
        seq![text]
    } else {
        seq![text.take(end)] + lines_of(text.skip(end + 1))
    }
}

fn split_lines(text: &str) -> (r: Vec<String>)
    ensures
        texts(r@) == lines_of(text@),
{
    let v = chars_of(text);
    let mut out: Vec<String> = Vec::new();
    let mut from: usize = 0;
    assert(v@.skip(0) == v@);
    assert(texts(out@) + lines_of(v@) =~= lines_of(v@));
    loop
        invariant_except_break
            lines_of(text@) == texts(out@) + lines_of(v@.skip(from as int)),
        invariant
            v@ == text@,
            from <= v@.len(),
        ensures
            texts(out@) == lines_of(text@),
        decreases v@.len() - from,
    {
        let end: usize = find_char(&v, '\n', from);
        let line = slice_text(&v, from, end);
        let ghost rest = v@.skip(from as int);
        let ghost before = texts(out@);
        let ghost l = line@;
        assert(l == rest.take(end - from));
        out.push(line);
        assert(texts(out@) =~= before + seq![l]);
        if end >= v.len() {
            assert(l == rest);
            break;
        }
        assert(rest.skip(end - from + 1) == v@.skip(end + 1));
        assert(before + (seq![l] + lines_of(v@.skip(end + 1))) =~= texts(out@) + lines_of(
            v@.skip(end + 1),
        ));
        from = end + 1;
    }
    out
}

/// The settings after the lines of an environment file, in order.
pub open spec fn lines_applied(s: Settings, lines: Seq<Seq<char>>) -> Settings
    decreases lines.len(),
{
    if lines.len() == 0 {
        s
    } else {
        line_applied(lines_applied(s, lines.drop_last()), lines.last())
    }
}

fn apply_line(line: &str, c: &mut AppConfig)
    ensures
        final(c)@ == line_applied(old(c)@, line@),
{
    if let Some((key, value)) = parse_env_line(line) {
        apply(key.as_str(), value.as_str(), c);
    }
}

/// Takes over the lines of an environment file.
pub fn apply_env_text(text: &str, c: &mut AppConfig)
    ensures
        final(c)@ == lines_applied(old(c)@, lines_of(text@)),
{
    let ghost start = c@;
    let lines = split_lines(text);
    let ghost all = texts(lines@);
    let mut i: usize = 0;
    while i < lines.len()
        invariant
            all == texts(lines@),
            i <= lines@.len(),
            c@ == lines_applied(start, all.take(i as int)),
        decreases lines@.len() - i,
    {
        assert(all.take(i + 1).drop_last() == all.take(i as int));
        assert(all.take(i + 1).last() == lines@[i as int]@);
        apply_line(lines[i].as_str(), c);
        i += 1;
    }
    assert(all.take(all.len() as int) == all);
}

/// The settings after a list of variables, the keys taken in upper case.
pub open spec fn overridden(s: Settings, vars: Seq<(String, String)>) -> Settings
    decreases vars.len(),
{
    if vars.len() == 0 {
        s
    } else {
        let before = overridden(s, vars.drop_last());
        applied(before, upper(vars.last().0@), vars.last().1@)
    }
}

/// Takes over the variables of the process environment.
pub fn apply_overrides(vars: &Vec<(String, String)>, c: &mut AppConfig)
    ensures
        final(c)@ == overridden(old(c)@, vars@),
{
    let ghost start = c@;
    let mut i: usize = 0;
    while i < vars.len()
        invariant
            i <= vars@.len(),
            c@ == overridden(start, vars@.take(i as int)),
        decreases vars@.len() - i,
    {
        assert(vars@.take(i + 1).drop_last() == vars@.take(i as int));
        apply(to_upper(vars[i].0.as_str()).as_str(), vars[i].1.as_str(), c);
        i += 1;
    }
    assert(vars@.take(vars@.len() as int) == vars@);
}

impl AppConfig {
    /// Whether the rule parameters are of a size that the rules can reckon with.
    pub fn within_limits(&self) -> (r: bool)
        ensures
            r == settings_within_limits(self@),
    {
        is_within(self.target_nav_start, LIMIT)
            && is_within(self.build_daily_budget, LIMIT)
            && is_within(self.target_cagr, FRACTION_LIMIT)
            && is_within(self.target_horizon_years, FRACTION_LIMIT)
            && is_within(self.cash_buffer_pct, FRACTION_LIMIT)
            && is_within(self.position_trim_trigger_pct, FRACTION_LIMIT)
            && is_within(self.position_trim_target_pct, FRACTION_LIMIT)
            && is_within(self.cluster_cap_pct, FRACTION_LIMIT)
            && is_within(self.theme_drift_band_pct, FRACTION_LIMIT)
            && is_within(self.position_stop_pct, FRACTION_LIMIT)
            && is_within(self.drawdown_deploy_pct, FRACTION_LIMIT)
            && is_within(self.drawdown_deploy_single_pct, FRACTION_LIMIT)
            && is_within(self.rebalance_band_pct, FRACTION_LIMIT)
    }

    /// The directory of the nightly reports: the one that is set, else the one
    /// beside the vault, else `fallback`.
    pub fn daily_analysis_dir(&self, beside_vault: Option<String>, fallback: String) -> (r: String)
        ensures
            r@ == match self@.daily_analysis_path {
                Some(p) => p,
                None => match beside_vault {
                    Some(p) => p@,
                    None => fallback@,
                },
            },
    {
        match &self.daily_analysis_path {
            Some(p) => p.clone(),
            None => match beside_vault {
                Some(p) => p,
                None => fallback,
            },
        }
    }

    /// Whether both broker keys are set.
    pub fn has_keys(&self) -> (r: bool)
        ensures
            r == (self@.alpaca_api_key.len() > 0 && self@.alpaca_secret_key.len() > 0),
    {
        self.alpaca_api_key.as_str().unicode_len() > 0 && self.alpaca_secret_key.as_str().unicode_len() > 0
    }
}

} // verus!
