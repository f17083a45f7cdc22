//! What a setting is read as: each key sets its own field and no other, and a line of
//! an environment file says what stands on either side of its first equals sign.
use vstd::prelude::*;

use crate::config::{
    applied, comment_starts, decimal_or, env_pair, is_truthy, line_applied, lines_applied, lines_of, whole_or,
    without_comment, Settings,
};
use crate::numerals::{decimal_value, whole_value};
use crate::text::{first_at, is_white, lower, trimmed, upper, without_trailing};

verus! {

// ── the keys ───────────────────────────────────────────────────────────────

proof fn the_keys_are_told_apart()
    ensures
        "ALPACA_API_KEY_ID"@.len() == 17,
        "ALPACA_API_SECRET_KEY"@.len() == 21,
        "ALPACA_BASE_URL"@.len() == 15,
        "PAPER_MODE"@.len() == 10,
        "TARGET_NAV_START"@.len() == 16,
        "TARGET_CAGR"@.len() == 11,
        "TARGET_HORIZON_YEARS"@.len() == 20,
        "CASH_BUFFER_PCT"@.len() == 15,
        "POSITION_TRIM_TRIGGER_PCT"@.len() == 25,
        "POSITION_TRIM_TARGET_PCT"@.len() == 24,
        "CLUSTER_CAP_PCT"@.len() == 15,
        "POSITION_STOP_PCT"@.len() == 17,
        "DRAWDOWN_DEPLOY_PCT"@.len() == 19,
        "DRAWDOWN_DEPLOY_SINGLE_PCT"@.len() == 26,
        "REBALANCE_BAND_PCT"@.len() == 18,
        "MAX_ORDERS_PER_DAY"@.len() == 18,
        "BUILD_DAILY_BUDGET"@.len() == 18,
        "SIGNAL_BIAS_ENABLED"@.len() == 19,
        "MICROCAP_1"@.len() == 10,
        "MICROCAP_2"@.len() == 10,
        "TIMEZONE"@.len() == 8,
        "CATCHUP_ON_START"@.len() == 16,
        "VAULT_PATH"@.len() == 10,
        "DAILY_ANALYSIS_PATH"@.len() == 19,
        "KILL_FILE"@.len() == 9,
        "LIVE_TRADING_ENABLED"@.len() == 20,
        "LOG_LEVEL"@.len() == 9,
        "TELEGRAM_BOT_TOKEN"@.len() == 18,
        "TELEGRAM_CHAT_ID"@.len() == 16,
        "CASH_BUFFER_PCT"@ != "ALPACA_BASE_URL"@,
        "CLUSTER_CAP_PCT"@ != "ALPACA_BASE_URL"@,
        "CLUSTER_CAP_PCT"@ != "CASH_BUFFER_PCT"@,
        "POSITION_STOP_PCT"@ != "ALPACA_API_KEY_ID"@,
        "MAX_ORDERS_PER_DAY"@ != "REBALANCE_BAND_PCT"@,
        "BUILD_DAILY_BUDGET"@ != "REBALANCE_BAND_PCT"@,
        "BUILD_DAILY_BUDGET"@ != "MAX_ORDERS_PER_DAY"@,
        "SIGNAL_BIAS_ENABLED"@ != "DRAWDOWN_DEPLOY_PCT"@,
        "MICROCAP_1"@ != "PAPER_MODE"@,
        "MICROCAP_2"@ != "PAPER_MODE"@,
        "MICROCAP_2"@ != "MICROCAP_1"@,
        "CATCHUP_ON_START"@ != "TARGET_NAV_START"@,
        "VAULT_PATH"@ != "PAPER_MODE"@,
        "VAULT_PATH"@ != "MICROCAP_1"@,
        "VAULT_PATH"@ != "MICROCAP_2"@,
        "DAILY_ANALYSIS_PATH"@ != "DRAWDOWN_DEPLOY_PCT"@,
        "DAILY_ANALYSIS_PATH"@ != "SIGNAL_BIAS_ENABLED"@,
        "LIVE_TRADING_ENABLED"@ != "TARGET_HORIZON_YEARS"@,
        "LOG_LEVEL"@ != "KILL_FILE"@,
        "TELEGRAM_BOT_TOKEN"@ != "REBALANCE_BAND_PCT"@,
        "TELEGRAM_BOT_TOKEN"@ != "MAX_ORDERS_PER_DAY"@,
        "TELEGRAM_BOT_TOKEN"@ != "BUILD_DAILY_BUDGET"@,
        "TELEGRAM_CHAT_ID"@ != "TARGET_NAV_START"@,
        "TELEGRAM_CHAT_ID"@ != "CATCHUP_ON_START"@,
{
    reveal_strlit("ALPACA_API_KEY_ID");
    reveal_strlit("ALPACA_API_SECRET_KEY");
    reveal_strlit("ALPACA_BASE_URL");
    reveal_strlit("PAPER_MODE");
    reveal_strlit("TARGET_NAV_START");
    reveal_strlit("TARGET_CAGR");
    reveal_strlit("TARGET_HORIZON_YEARS");
    reveal_strlit("CASH_BUFFER_PCT");
    reveal_strlit("POSITION_TRIM_TRIGGER_PCT");
    reveal_strlit("POSITION_TRIM_TARGET_PCT");
    reveal_strlit("CLUSTER_CAP_PCT");
    reveal_strlit("POSITION_STOP_PCT");
    reveal_strlit("DRAWDOWN_DEPLOY_PCT");
    reveal_strlit("DRAWDOWN_DEPLOY_SINGLE_PCT");
    reveal_strlit("REBALANCE_BAND_PCT");
    reveal_strlit("MAX_ORDERS_PER_DAY");
    reveal_strlit("BUILD_DAILY_BUDGET");
    reveal_strlit("SIGNAL_BIAS_ENABLED");
    reveal_strlit("MICROCAP_1");
    reveal_strlit("MICROCAP_2");
    reveal_strlit("TIMEZONE");
    reveal_strlit("CATCHUP_ON_START");
    reveal_strlit("VAULT_PATH");
    reveal_strlit("DAILY_ANALYSIS_PATH");
    reveal_strlit("KILL_FILE");
    reveal_strlit("LIVE_TRADING_ENABLED");
    reveal_strlit("LOG_LEVEL");
    reveal_strlit("TELEGRAM_BOT_TOKEN");
    reveal_strlit("TELEGRAM_CHAT_ID");
    assert("CASH_BUFFER_PCT"@[0] != "ALPACA_BASE_URL"@[0]);
    assert("CLUSTER_CAP_PCT"@[0] != "ALPACA_BASE_URL"@[0]);
    assert("CLUSTER_CAP_PCT"@[1] != "CASH_BUFFER_PCT"@[1]);
    assert("POSITION_STOP_PCT"@[0] != "ALPACA_API_KEY_ID"@[0]);
    assert("MAX_ORDERS_PER_DAY"@[0] != "REBALANCE_BAND_PCT"@[0]);
    assert("BUILD_DAILY_BUDGET"@[0] != "REBALANCE_BAND_PCT"@[0]);
    assert("BUILD_DAILY_BUDGET"@[0] != "MAX_ORDERS_PER_DAY"@[0]);
    assert("SIGNAL_BIAS_ENABLED"@[0] != "DRAWDOWN_DEPLOY_PCT"@[0]);
    assert("MICROCAP_1"@[0] != "PAPER_MODE"@[0]);
    assert("MICROCAP_2"@[0] != "PAPER_MODE"@[0]);
    assert("MICROCAP_2"@[9] != "MICROCAP_1"@[9]);
    assert("CATCHUP_ON_START"@[0] != "TARGET_NAV_START"@[0]);
    assert("VAULT_PATH"@[0] != "PAPER_MODE"@[0]);
    assert("VAULT_PATH"@[0] != "MICROCAP_1"@[0]);
    assert("VAULT_PATH"@[0] != "MICROCAP_2"@[0]);
    assert("DAILY_ANALYSIS_PATH"@[1] != "DRAWDOWN_DEPLOY_PCT"@[1]);
    assert("DAILY_ANALYSIS_PATH"@[0] != "SIGNAL_BIAS_ENABLED"@[0]);
    assert("LIVE_TRADING_ENABLED"@[0] != "TARGET_HORIZON_YEARS"@[0]);
    assert("LOG_LEVEL"@[0] != "KILL_FILE"@[0]);
    assert("TELEGRAM_BOT_TOKEN"@[0] != "REBALANCE_BAND_PCT"@[0]);
    assert("TELEGRAM_BOT_TOKEN"@[0] != "MAX_ORDERS_PER_DAY"@[0]);
    assert("TELEGRAM_BOT_TOKEN"@[0] != "BUILD_DAILY_BUDGET"@[0]);
    assert("TELEGRAM_CHAT_ID"@[1] != "TARGET_NAV_START"@[1]);
    assert("TELEGRAM_CHAT_ID"@[0] != "CATCHUP_ON_START"@[0]);
}

/// Each key of a number sets that number and nothing else; a text that is no number leaves
/// it as it was.
pub proof fn a_key_of_a_number_sets_its_number(s: Settings, v: Seq<char>)
    ensures
        applied(s, "TARGET_NAV_START"@, v) == (Settings { target_nav_start: decimal_or(v, s.target_nav_start), ..s }),
        applied(s, "TARGET_CAGR"@, v) == (Settings { target_cagr: decimal_or(v, s.target_cagr), ..s }),
        applied(s, "TARGET_HORIZON_YEARS"@, v) == (Settings { target_horizon_years: decimal_or(v, s.target_horizon_years), ..s }),
        applied(s, "CASH_BUFFER_PCT"@, v) == (Settings { cash_buffer_pct: decimal_or(v, s.cash_buffer_pct), ..s }),
        applied(s, "POSITION_TRIM_TRIGGER_PCT"@, v) == (Settings { position_trim_trigger_pct: decimal_or(v, s.position_trim_trigger_pct), ..s }),
        applied(s, "POSITION_TRIM_TARGET_PCT"@, v) == (Settings { position_trim_target_pct: decimal_or(v, s.position_trim_target_pct), ..s }),
        applied(s, "CLUSTER_CAP_PCT"@, v) == (Settings { cluster_cap_pct: decimal_or(v, s.cluster_cap_pct), ..s }),
        applied(s, "POSITION_STOP_PCT"@, v) == (Settings { position_stop_pct: decimal_or(v, s.position_stop_pct), ..s }),
        applied(s, "DRAWDOWN_DEPLOY_PCT"@, v) == (Settings { drawdown_deploy_pct: decimal_or(v, s.drawdown_deploy_pct), ..s }),
        applied(s, "DRAWDOWN_DEPLOY_SINGLE_PCT"@, v) == (Settings { drawdown_deploy_single_pct: decimal_or(v, s.drawdown_deploy_single_pct), ..s }),
        applied(s, "REBALANCE_BAND_PCT"@, v) == (Settings { rebalance_band_pct: decimal_or(v, s.rebalance_band_pct), ..s }),
        applied(s, "MAX_ORDERS_PER_DAY"@, v) == (Settings { max_orders_per_day: whole_or(v, s.max_orders_per_day), ..s }),
        applied(s, "BUILD_DAILY_BUDGET"@, v) == (Settings { build_daily_budget: decimal_or(v, s.build_daily_budget), ..s }),
{
    the_keys_are_told_apart();
}

/// Each key of a switch sets that switch and nothing else.
pub proof fn a_key_of_a_switch_sets_its_switch(s: Settings, v: Seq<char>)
    ensures
        applied(s, "PAPER_MODE"@, v) == (Settings { paper_mode: is_truthy(v), ..s }),
        applied(s, "SIGNAL_BIAS_ENABLED"@, v) == (Settings { signal_bias_enabled: is_truthy(v), ..s }),
        applied(s, "CATCHUP_ON_START"@, v) == (Settings { catchup_on_start: is_truthy(v), ..s }),
        applied(s, "LIVE_TRADING_ENABLED"@, v) == (Settings { live_trading_enabled: is_truthy(v), ..s }),
{
    the_keys_are_told_apart();
}

/// Each key of a text sets that text and nothing else.
pub proof fn a_key_of_a_text_sets_its_text(s: Settings, v: Seq<char>)
    ensures
        applied(s, "ALPACA_API_KEY_ID"@, v) == (Settings { alpaca_api_key: v, ..s }),
        applied(s, "ALPACA_API_SECRET_KEY"@, v) == (Settings { alpaca_secret_key: v, ..s }),
        applied(s, "ALPACA_BASE_URL"@, v) == (Settings { alpaca_base_url: without_trailing(v, '/'), ..s }),
        applied(s, "MICROCAP_1"@, v) == (Settings { microcap_1: upper(trimmed(v)), ..s }),
        applied(s, "MICROCAP_2"@, v) == (Settings { microcap_2: upper(trimmed(v)), ..s }),
        applied(s, "TIMEZONE"@, v) == (Settings { timezone_str: v, ..s }),
        applied(s, "VAULT_PATH"@, v) == (Settings { vault_path: v, ..s }),
        applied(s, "DAILY_ANALYSIS_PATH"@, v) == (Settings { daily_analysis_path: Some(v), ..s }),
        applied(s, "KILL_FILE"@, v) == (Settings { kill_file: v, ..s }),
        applied(s, "LOG_LEVEL"@, v) == (Settings { log_level: trimmed(v), ..s }),
        applied(s, "TELEGRAM_BOT_TOKEN"@, v) == (Settings { telegram_bot_token: trimmed(v), ..s }),
        applied(s, "TELEGRAM_CHAT_ID"@, v) == (Settings { telegram_chat_id: trimmed(v), ..s }),
{
    the_keys_are_told_apart();
}

/// A key that is none of these changes nothing.
pub proof fn an_unknown_key_changes_nothing(s: Settings, key: Seq<char>, v: Seq<char>)
    requires
        key != "ALPACA_API_KEY_ID"@,
        key != "ALPACA_API_SECRET_KEY"@,
        key != "ALPACA_BASE_URL"@,
        key != "PAPER_MODE"@,
        key != "TARGET_NAV_START"@,
        key != "TARGET_CAGR"@,
        key != "TARGET_HORIZON_YEARS"@,
        key != "CASH_BUFFER_PCT"@,
        key != "POSITION_TRIM_TRIGGER_PCT"@,
        key != "POSITION_TRIM_TARGET_PCT"@,
        key != "CLUSTER_CAP_PCT"@,
        key != "POSITION_STOP_PCT"@,
        key != "DRAWDOWN_DEPLOY_PCT"@,
        key != "DRAWDOWN_DEPLOY_SINGLE_PCT"@,
        key != "REBALANCE_BAND_PCT"@,
        key != "MAX_ORDERS_PER_DAY"@,
        key != "BUILD_DAILY_BUDGET"@,
        key != "SIGNAL_BIAS_ENABLED"@,
        key != "MICROCAP_1"@,
        key != "MICROCAP_2"@,
        key != "TIMEZONE"@,
        key != "CATCHUP_ON_START"@,
        key != "VAULT_PATH"@,
        key != "DAILY_ANALYSIS_PATH"@,
        key != "KILL_FILE"@,
        key != "LIVE_TRADING_ENABLED"@,
        key != "LOG_LEVEL"@,
        key != "TELEGRAM_BOT_TOKEN"@,
        key != "TELEGRAM_CHAT_ID"@,
    ensures
        applied(s, key, v) == s,
{
}

/// A yes is `true`, `1` or `yes`, in any case and between any white space; anything else
/// is a no.
pub proof fn three_words_mean_yes(v: Seq<char>)
    ensures
        is_truthy(v) <==> lower(trimmed(v)) == "true"@ || lower(trimmed(v)) == "1"@ || lower(trimmed(v)) == "yes"@,
{
}

// ── lines of an environment file ───────────────────────────────────────────

proof fn trimmed_already(s: Seq<char>)
    requires
        s.len() == 0 || (!is_white(s[0]) && !is_white(s.last())),
    ensures
        trimmed(s) == s,
{
}

proof fn no_comment(s: Seq<char>)
    requires
        forall|k: int| 0 <= k < s.len() ==> #[trigger] s[k] != '#',
    ensures
        without_comment(s) == s,
    decreases s.len(),
{
    if s.len() > 0 {
        let rest = s.drop_first();
        assert forall|k: int| 0 <= k < rest.len() implies #[trigger] rest[k] != '#' by {
            assert(rest[k] == s[k + 1]);
        }
        no_comment(rest);
        starts_no_comment(s);
        assert(s =~= seq![s[0]] + rest);
    } else {
        assert(s =~= seq![]);
    }
}

proof fn starts_no_comment(s: Seq<char>)
    requires
        forall|k: int| 0 <= k < s.len() ==> #[trigger] s[k] != '#',
    ensures
        !comment_starts(s),
    decreases s.len(),
{
    if s.len() > 1 {
        let rest = s.drop_first();
        assert forall|k: int| 0 <= k < rest.len() implies #[trigger] rest[k] != '#' by {
            assert(rest[k] == s[k + 1]);
        }
        starts_no_comment(rest);
        assert(s[1] != '#');
    }
}

proof fn first_at_of_front(k: Seq<char>, rest: Seq<char>, c: char)
    requires
        forall|i: int| 0 <= i < k.len() ==> #[trigger] k[i] != c,
        rest.len() > 0,
        rest[0] == c,
    ensures
        first_at(k + rest, c) == k.len(),
    decreases k.len(),
{
    let s = k + rest;
    if k.len() > 0 {
        let front = k.drop_first();
        assert forall|i: int| 0 <= i < front.len() implies #[trigger] front[i] != c by {
            assert(front[i] == k[i + 1]);
        }
        first_at_of_front(front, rest, c);
        assert(s.drop_first() =~= front + rest);
        assert(s[0] == k[0]);
    } else {
        assert(s =~= rest);
    }
}

/// A key, an equals sign and a value say that the key has the value; the value may hold
/// more equals signs. Then the settings are those that the key and the value give.
pub proof fn a_line_says_what_it_assigns(s: Settings, k: Seq<char>, v: Seq<char>)
    requires
        k.len() > 0,
        !is_white(k[0]),
        !is_white(k.last()),
        k[0] != '#',
        forall|i: int| 0 <= i < k.len() ==> #[trigger] k[i] != '=',
        v.len() == 0 || (!is_white(v[0]) && !is_white(v.last())),
        forall|i: int| 0 <= i < v.len() ==> #[trigger] v[i] != '#',
    ensures
        env_pair(k + seq!['='] + v) == Some((k, v)),
        line_applied(s, k + seq!['='] + v) == applied(s, k, v),
{
    let line = k + seq!['='] + v;
    let rest = seq!['='] + v;
    assert(line =~= k + rest);
    assert(line[0] == k[0]);
    assert(line.last() == if v.len() > 0 {
        v.last()
    } else {
        '='
    });
    trimmed_already(line);
    first_at_of_front(k, rest, '=');
    assert(line.take(k.len() as int) =~= k);
    let n = k.len() as int;
    assert(line.skip(n + 1) =~= v);
    trimmed_already(k);
    trimmed_already(v);
    no_comment(v);
}

/// A line that holds nothing but white space, that begins with a hash sign or that has no
/// equals sign says nothing.
pub proof fn a_line_without_an_assignment_says_nothing(s: Settings, line: Seq<char>)
    requires
        trimmed(line).len() == 0 || trimmed(line)[0] == '#' || forall|i: int|
            0 <= i < trimmed(line).len() ==> #[trigger] trimmed(line)[i] != '=',
    ensures
        env_pair(line) is None,
        line_applied(s, line) == s,
{
    let l = trimmed(line);
    if l.len() > 0 && l[0] != '#' {
        nowhere(l, '=');
    }
}

proof fn nowhere(s: Seq<char>, c: char)
    requires
        forall|i: int| 0 <= i < s.len() ==> #[trigger] s[i] != c,
    ensures
        first_at(s, c) == s.len(),
    decreases s.len(),
{
    if s.len() > 0 {
        let rest = s.drop_first();
        assert forall|i: int| 0 <= i < rest.len() implies #[trigger] rest[i] != c by {
            assert(rest[i] == s[i + 1]);
        }
        nowhere(rest, c);
        assert(s[0] != c);
    }
}

/// A text is read line by line: what stands before its first line feed is its first line,
/// and a later line is applied on top of the earlier ones.
pub proof fn later_lines_count_more(s: Settings, first: Seq<char>, rest: Seq<char>, lines: Seq<Seq<char>>, line: Seq<char>)
    requires
        forall|i: int| 0 <= i < first.len() ==> #[trigger] first[i] != '\n',
    ensures
        lines_of(first) == seq![first],
        lines_of(first + seq!['\n'] + rest) == seq![first] + lines_of(rest),
        lines_applied(s, lines.push(line)) == line_applied(lines_applied(s, lines), line),
{
    nowhere(first, '\n');
    let text = first + seq!['\n'] + rest;
    let n = first.len() as int;
    assert(text =~= first + (seq!['\n'] + rest));
    first_at_of_front(first, seq!['\n'] + rest, '\n');
    assert(text.take(n) =~= first);
    assert(text.skip(n + 1) =~= rest);
    assert(lines.push(line).drop_last() =~= lines);
}

/// A text that denotes a number gives that number, and any other leaves what was there; a
/// whole number counts where it fits 64 bits.
pub proof fn a_readable_number_counts(v: Seq<char>, before: int)
    ensures
        decimal_value(v) matches Some(x) ==> decimal_or(v, before) == x,
        decimal_value(v) is None ==> decimal_or(v, before) == before,
        whole_value(v, true) matches Some(n) ==> whole_or(v, before) == if i64::MIN <= n <= i64::MAX {
            n
        } else {
            before
        },
        whole_value(v, true) is None ==> whole_or(v, before) == before,
{
}

} // verus!
