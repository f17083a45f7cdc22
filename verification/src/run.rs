//! The command line: which command the arguments ask for, whether it is armed, and
//! the lines that the commands print.
use vstd::prelude::*;
use vstd::string::*;

use crate::config::{settings_within_limits, AppConfig, Settings};
use crate::fixed::{decimal, decimal_text, magnitude, percent, percent_text, render, rendered, within, Fixed, FRACTION_LIMIT, ONE};
use crate::lifecycle::audit::{alarming, AuditReport, Finding, FindingKind, FindingView};
use crate::portfolio::metrics::{metric_bounded, MetricView, PositionMetric};
use crate::portfolio::targets::{invested, table, weight_at, weight_sum, weights_add_up, COUNT, INVESTED};
use crate::signals::daily_analysis::{AnalysisView, DailyAnalysis, Direction};
use crate::text::{
    align_left, align_right, ascii_lower, finishes_with, includes, join, joined, left_aligned, lower, occurs, right_aligned, same,
    same_ignoring_ascii_case, texts, to_lower, to_upper, upper,
};

verus! {

// ── arguments ──────────────────────────────────────────────────────────────

/// The word turns trading off.
pub open spec fn disarms(s: Seq<char>) -> bool {
    lower(s) == "dry-run"@ || lower(s) == "dryrun"@
}

/// The word chooses the mode of a command, in any case of its letters.
pub open spec fn chooses_mode(s: Seq<char>) -> bool {
    disarms(s) || lower(s) == "execute"@ || lower(s) == "armed"@
}

/// Whether a word chooses the mode of a command.
pub fn is_mode_token(s: &str) -> (r: bool)
    ensures
        r == chooses_mode(s@),
{
    let word = to_lower(s);
    same(word.as_str(), "dry-run") || same(word.as_str(), "dryrun") || same(word.as_str(), "execute") || same(
        word.as_str(),
        "armed",
    )
}

/// Whether a command is armed: unless a word turns trading off.
pub fn armed_from(args: &[String]) -> (r: bool)
    ensures
        r == !exists|i: int| 0 <= i < args@.len() && disarms(#[trigger] args@[i]@),
{
    let mut i: usize = 0;
    while i < args.len()
        invariant
            i <= args@.len(),
            forall|k: int| 0 <= k < i ==> !disarms(#[trigger] args@[k]@),
        decreases args@.len() - i,
    {
        let word = to_lower(args[i].as_str());
        if same(word.as_str(), "dry-run") || same(word.as_str(), "dryrun") {
            assert(disarms(args@[i as int]@));
            return false;
        }
        assert(!disarms(args@[i as int]@));
        i += 1;
    }
    true
}

/// A command.
#[derive(Debug, Clone, PartialEq)]
pub enum Command {
    Config,
    Status,
    Positions,
    Build,
    Daily,
    Review,
    Reconcile,
    Signals,
    Cancel,
    Notify,
    Test,
    Scheduler,
    Help,
    Unknown(String),
}

/// The command that a word names.
pub open spec fn names_command(word: Seq<char>, c: Command) -> bool {
    match c {
        Command::Config => word == "config"@,
        Command::Status => word == "status"@,
        Command::Positions => word == "positions"@,
        Command::Build => word == "build"@,
        Command::Daily => word == "daily"@ || word == "track"@ || word == "rebalance"@,
        Command::Review => word == "review"@,
        Command::Reconcile => word == "reconcile"@,
        Command::Signals => word == "signals"@,
        Command::Cancel => word == "cancel"@,
        Command::Notify => word == "notify"@,
        Command::Test => word == "test"@,
        Command::Scheduler => word == "scheduler"@,
        Command::Help => word == "help"@ || word == "--help"@ || word == "-h"@,
        Command::Unknown(s) => {
            &&& s@ == word
            &&& !is_known(word)
        },
    }
}

/// The word names a command.
pub open spec fn is_known(word: Seq<char>) -> bool {
    ||| word == "config"@
    ||| word == "status"@
    ||| word == "positions"@
    ||| word == "build"@
    ||| word == "daily"@
    ||| word == "track"@
    ||| word == "rebalance"@
    ||| word == "review"@
    ||| word == "reconcile"@
    ||| word == "signals"@
    ||| word == "cancel"@
    ||| word == "notify"@
    ||| word == "test"@
    ||| word == "scheduler"@
    ||| word == "help"@
    ||| word == "--help"@
    ||| word == "-h"@
}

/// The command that the first argument names; without one, the help.
pub fn command_from(args: &[String]) -> (r: Command)
    ensures
        args@.len() == 0 ==> r == Command::Help,
        args@.len() > 0 ==> names_command(args@[0]@, r),
{
    if args.len() == 0 {
        return Command::Help;
    }
    let w = args[0].as_str();
    if same(w, "config") {
        Command::Config
    } else if same(w, "status") {
        Command::Status
    } else if same(w, "positions") {
        Command::Positions
    } else if same(w, "build") {
        Command::Build
    } else if same(w, "daily") || same(w, "track") || same(w, "rebalance") {
        Command::Daily
    } else if same(w, "review") {
        Command::Review
    } else if same(w, "reconcile") {
        Command::Reconcile
    } else if same(w, "signals") {
        Command::Signals
    } else if same(w, "cancel") {
        Command::Cancel
    } else if same(w, "notify") {
        Command::Notify
    } else if same(w, "test") {
        Command::Test
    } else if same(w, "scheduler") {
        Command::Scheduler
    } else if same(w, "help") || same(w, "--help") || same(w, "-h") {
        Command::Help
    } else {
        Command::Unknown(w.to_owned())
    }
}

/// The exit code of a command: 2 for one that is not known.
pub fn exit_code(c: &Command) -> (r: i32)
    ensures
        r == (if *c is Unknown {
            2i32
        } else {
            0
        }),
{
    match c {
        Command::Unknown(_) => 2,
        _ => 0,
    }
}

/// The first `n` words without those that choose the mode.
pub open spec fn plain_words(args: Seq<Seq<char>>, n: int) -> Seq<Seq<char>>
    decreases n,
{
    if n <= 0 {
        seq![]
    } else if chooses_mode(args[n - 1]) {
        plain_words(args, n - 1)
    } else {
        plain_words(args, n - 1).push(args[n - 1])
    }
}

fn words_from(args: &[String]) -> (r: Vec<String>)
    ensures
        texts(r@) == plain_words(texts(args@), args@.len() as int),
{
    let mut out: Vec<String> = Vec::new();
    let mut n: usize = 0;
    assert(texts(out@) =~= seq![]);
    while n < args.len()
        invariant
            n <= args@.len(),
            texts(out@) == plain_words(texts(args@), n as int),
        decreases args@.len() - n,
    {
        assert(texts(args@)[n as int] == args@[n as int]@);
        if !is_mode_token(args[n].as_str()) {
            let ghost before = texts(out@);
            out.push(args[n].clone());
            assert(texts(out@) =~= before.push(args@[n as int]@));
        }
        n += 1;
    }
    out
}

/// The text that a notification carries.
pub open spec fn notification(args: Seq<Seq<char>>) -> Seq<char> {
    let text = joined(plain_words(args, args.len() as int), " "@);
    if text.len() == 0 {
        "aschenbrenner-unlimited test notification"@
    } else {
        text
    }
}

/// The text that the arguments ask to send.
pub fn notification_from(args: &[String]) -> (r: String)
    ensures
        r@ == notification(texts(args@)),
{
    let text = join(&words_from(args), " ");
    if text.as_str().unicode_len() == 0 {
        "aschenbrenner-unlimited test notification".to_owned()
    } else {
        text
    }
}

/// The tickers whose signals are shown: those that were asked for, in upper case,
/// or all that the book is invested in.
pub open spec fn asked_tickers(args: Seq<Seq<char>>) -> Seq<Seq<char>> {
    let words = plain_words(args, args.len() as int);
    if words.len() > 0 {
        words.map_values(|w: Seq<char>| upper(w))
    } else {
        Seq::new(INVESTED as nat, |i: int| table()[i].ticker@)
    }
}

/// The tickers whose signals the arguments ask for.
pub fn tickers_from(args: &[String]) -> (r: Vec<String>)
    ensures
        texts(r@) == asked_tickers(texts(args@)),
{
    let words = words_from(args);
    let ghost want = asked_tickers(texts(args@));
    let mut out: Vec<String> = Vec::new();
    if words.len() > 0 {
        let mut i: usize = 0;
        while i < words.len()
            invariant
                i <= words@.len(),
                out@.len() == i,
                forall|k: int| 0 <= k < i ==> (#[trigger] out@[k])@ == upper(words@[k]@),
            decreases words@.len() - i,
        {
            out.push(to_upper(words[i].as_str()));
            i += 1;
        }
        assert(texts(words@).len() == words@.len());
        assert(texts(out@) =~= want);
    } else {
        let all = invested();
        let mut i: usize = 0;
        while i < all.len()
            invariant
                i <= all@.len(),
                all@ == table().subrange(0, INVESTED as int),
                all@.len() == INVESTED,
                table().len() == COUNT,
                out@.len() == i,
                forall|k: int| 0 <= k < i ==> (#[trigger] out@[k])@ == table()[k].ticker@,
            decreases all@.len() - i,
        {
            assert(all@[i as int] == table()[i as int]);
            out.push(all[i].ticker.to_owned());
            i += 1;
        }
        assert(texts(words@).len() == 0);
        assert(texts(out@) =~= want);
    }
    out
}

/// Whether an audit may send an alarm: unless a word says `no-send`.
pub fn sends_alarms(args: &[String]) -> (r: bool)
    ensures
        r == !exists|i: int| 0 <= i < args@.len() && ascii_lower((#[trigger] args@[i])@) == ascii_lower("no-send"@),
{
    let mut i: usize = 0;
    while i < args.len()
        invariant
            i <= args@.len(),
            forall|k: int| 0 <= k < i ==> ascii_lower((#[trigger] args@[k])@) != ascii_lower("no-send"@),
        decreases args@.len() - i,
    {
        if same_ignoring_ascii_case(args[i].as_str(), "no-send") {
            return false;
        }
        i += 1;
    }
    true
}

// ── self-test ──────────────────────────────────────────────────────────────

/// Whether the address is the paper host, without the version behind it.
pub fn is_paper_host(url: &str) -> (r: bool)
    ensures
        r == (occurs(url@, "paper-api"@) && !"/v2"@.is_suffix_of(url@)),
{
    includes(url, "paper-api") && !finishes_with(url, "/v2")
}

/// The weights of all invested lines.
pub fn total_weight(cash_buffer_pct: Fixed) -> (r: Fixed)
    requires
        within(cash_buffer_pct as int, FRACTION_LIMIT as int),
    ensures
        r == weight_sum(INVESTED as int, cash_buffer_pct as int),
        0 <= r <= 2_000_000_000_000_000 * INVESTED,
{
    let mut total: i128 = 0;
    let mut n: usize = 0;
    while n < INVESTED
        invariant
            n <= INVESTED,
            within(cash_buffer_pct as int, FRACTION_LIMIT as int),
            total == weight_sum(n as int, cash_buffer_pct as int),
            0 <= total <= 2_000_000_000_000_000 * n,
        decreases INVESTED - n,
    {
        total = total + weight_at(n, cash_buffer_pct);
        n += 1;
    }
    total
}

/// The weights fill what the cash buffer leaves, to within a millionth.
pub open spec fn model_holds(cash_buffer_pct: int) -> bool {
    magnitude(weight_sum(INVESTED as int, cash_buffer_pct) - (ONE - cash_buffer_pct)) < 1_000_000
}

/// Whether the target model fits the cash buffer: the weights of the 22 invested
/// lines fill what the buffer leaves.
pub fn targets_intact(cash_buffer_pct: Fixed) -> (r: bool)
    requires
        within(cash_buffer_pct as int, FRACTION_LIMIT as int),
    ensures
        r == model_holds(cash_buffer_pct as int),
{
    let gap: i128 = total_weight(cash_buffer_pct) - (ONE - cash_buffer_pct);
    -1_000_000 < gap && gap < 1_000_000 && invested().len() == 22
}

/// The target model fits every buffer of at most the whole account.
pub proof fn the_model_fits_every_buffer(cash_buffer_pct: int)
    requires
        cash_buffer_pct <= ONE,
    ensures
        model_holds(cash_buffer_pct),
{
    weights_add_up(cash_buffer_pct);
}

// ── lines ──────────────────────────────────────────────────────────────────

/// The line of the rules.
pub open spec fn rules_text(c: Settings) -> Seq<char> {
    "cluster-cap "@ + percent(c.cluster_cap_pct, 0, false) + "% · trim "@ + percent(
        c.position_trim_trigger_pct,
        0,
        false,
    ) + "%→"@ + percent(c.position_trim_target_pct, 0, false) + "% · stop -"@ + percent(c.position_stop_pct, 0, false)
        + "% · deploy>"@ + percent(c.drawdown_deploy_pct, 0, false) + "% dd · band "@ + percent(
        c.rebalance_band_pct,
        0,
        false,
    ) + "%"@
}

/// The line of the rules.
pub fn rules_line(cfg: &AppConfig) -> (r: String)
    requires
        settings_within_limits(cfg@),
    ensures
        r@ == rules_text(cfg@),
{
    let mut r = "cluster-cap ".to_owned();
    r.append(percent_text(cfg.cluster_cap_pct, 0, false).as_str());
    r.append("% · trim ");
    r.append(percent_text(cfg.position_trim_trigger_pct, 0, false).as_str());
    r.append("%→");
    r.append(percent_text(cfg.position_trim_target_pct, 0, false).as_str());
    r.append("% · stop -");
    r.append(percent_text(cfg.position_stop_pct, 0, false).as_str());
    r.append("% · deploy>");
    r.append(percent_text(cfg.drawdown_deploy_pct, 0, false).as_str());
    r.append("% dd · band ");
    r.append(percent_text(cfg.rebalance_band_pct, 0, false).as_str());
    r.append("%");
    r
}

/// A row of the positions.
pub open spec fn position_text(m: MetricView) -> Seq<char> {
    left_aligned(m.ticker, 6) + " "@ + left_aligned(m.tier, 7) + " "@ + right_aligned(
        rendered(m.market_value, 0, false),
        10,
    ) + " "@ + right_aligned(percent(m.weight, 1, false), 7) + "% "@ + right_aligned(
        percent(m.target_weight, 1, false),
        7,
    ) + "% "@ + right_aligned(percent(m.drift, 1, true), 7) + "% "@ + right_aligned(percent(m.drawdown, 0, false), 6) + "%"@
}

/// A row of the positions.
pub fn position_row(m: &PositionMetric) -> (r: String)
    requires
        metric_bounded(m@),
    ensures
        r@ == position_text(m@),
{
    let mut r = align_left(m.ticker.as_str(), 6);
    r.append(" ");
    r.append(align_left(m.tier, 7).as_str());
    r.append(" ");
    r.append(align_right(render(m.market_value, 0, false).as_str(), 10).as_str());
    r.append(" ");
    r.append(align_right(percent_text(m.weight, 1, false).as_str(), 7).as_str());
    r.append("% ");
    r.append(align_right(percent_text(m.target_weight, 1, false).as_str(), 7).as_str());
    r.append("% ");
    r.append(align_right(percent_text(m.drift, 1, true).as_str(), 7).as_str());
    r.append("% ");
    r.append(align_right(percent_text(m.drawdown, 0, false).as_str(), 6).as_str());
    r.append("%");
    r
}

/// A row of the clusters.
pub open spec fn cluster_text(name: Seq<char>, current: int, target: int, cap: int) -> Seq<char> {
    "  "@ + left_aligned(name, 20) + " "@ + right_aligned(percent(current, 1, false), 5) + "% (target "@ + right_aligned(
        percent(target, 1, false),
        4,
    ) + "%)"@ + if current > cap {
        " ⚠ OVER"@
    } else {
        ""@
    }
}

/// A row of the clusters: its share, its target, and a mark where it is over the cap.
pub fn cluster_row(name: &str, current: Fixed, target: Fixed, cap: Fixed) -> (r: String)
    requires
        within(current as int, 1_500_000_000_000_000_000_000_000_000_000_000_000),
        within(target as int, 1_500_000_000_000_000_000_000_000_000_000_000_000),
    ensures
        r@ == cluster_text(name@, current as int, target as int, cap as int),
{
    let mut r = "  ".to_owned();
    r.append(align_left(name, 20).as_str());
    r.append(" ");
    r.append(align_right(percent_text(current, 1, false).as_str(), 5).as_str());
    r.append("% (target ");
    r.append(align_right(percent_text(target, 1, false).as_str(), 4).as_str());
    r.append("%)");
    if current > cap {
        r.append(" ⚠ OVER");
    } else {
        r.append("");
    }
    r
}

/// The name of a direction.
pub open spec fn direction_name(d: Direction) -> Seq<char> {
    match d {
        Direction::Bullish => "Bullish"@,
        Direction::Bearish => "Bearish"@,
        Direction::Neutral => "Neutral"@,
    }
}

fn direction_text(d: Direction) -> (r: &'static str)
    ensures
        r@ == direction_name(d),
{
    match d {
        Direction::Bullish => "Bullish",
        Direction::Bearish => "Bearish",
        Direction::Neutral => "Neutral",
    }
}

/// A row of the signals.
pub open spec fn signal_text(ticker: Seq<char>, a: AnalysisView) -> Seq<char> {
    left_aligned(ticker, 6) + " "@ + left_aligned(direction_name(a.direction), 8) + " "@ + right_aligned(
        rendered(a.confidence, 2, false),
        6,
    ) + " "@ + left_aligned(
        if a.found {
            "true"@
        } else {
            "false"@
        },
        9,
    ) + " "@ + a.decision
}

/// A row of the signals.
pub fn signal_row(ticker: &str, a: &DailyAnalysis) -> (r: String)
    requires
        i128::MIN < a.confidence,
    ensures
        r@ == signal_text(ticker@, a@),
{
    let mut r = align_left(ticker, 6);
    r.append(" ");
    r.append(align_left(direction_text(a.direction), 8).as_str());
    r.append(" ");
    r.append(align_right(render(a.confidence, 2, false).as_str(), 6).as_str());
    r.append(" ");
    let found = if a.found {
        "true"
    } else {
        "false"
    };
    r.append(align_left(found, 9).as_str());
    r.append(" ");
    r.append(a.decision.as_str());
    r
}

/// The name of a kind of finding.
pub open spec fn kind_name(k: FindingKind) -> Seq<char> {
    match k {
        FindingKind::ShortPosition => "ShortPosition"@,
        FindingKind::NonLongCallOption => "NonLongCallOption"@,
        FindingKind::Untracked => "Untracked"@,
        FindingKind::MissingTarget => "MissingTarget"@,
        FindingKind::UnresolvedTarget => "UnresolvedTarget"@,
    }
}

fn kind_text(k: FindingKind) -> (r: &'static str)
    ensures
        r@ == kind_name(k),
{
    match k {
        FindingKind::ShortPosition => "ShortPosition",
        FindingKind::NonLongCallOption => "NonLongCallOption",
        FindingKind::Untracked => "Untracked",
        FindingKind::MissingTarget => "MissingTarget",
        FindingKind::UnresolvedTarget => "UnresolvedTarget",
    }
}

/// The line of a finding.
pub open spec fn finding_text(f: FindingView) -> Seq<char> {
    "  "@ + (if alarming(f.kind) {
        "ALARM"@
    } else {
        "note "@
    }) + "     : "@ + kind_name(f.kind) + " "@ + f.symbol + " qty "@ + rendered(f.qty, 0, true) + " mv $"@ + rendered(
        f.market_value,
        0,
        true,
    ) + " — "@ + f.detail
}

/// The line of a finding.
pub fn finding_line(f: &Finding) -> (r: String)
    requires
        i128::MIN < f.qty,
        i128::MIN < f.market_value,
    ensures
        r@ == finding_text(f@),
{
    let mut r = "  ".to_owned();
    if f.kind.is_alarm() {
        r.append("ALARM");
    } else {
        r.append("note ");
    }
    r.append("     : ");
    r.append(kind_text(f.kind));
    r.append(" ");
    r.append(f.symbol.as_str());
    r.append(" qty ");
    r.append(render(f.qty, 0, true).as_str());
    r.append(" mv $");
    r.append(render(f.market_value, 0, true).as_str());
    r.append(" — ");
    r.append(f.detail.as_str());
    r
}

/// The first line of an audit.
pub open spec fn audit_text(a: AuditReport) -> Seq<char> {
    "date "@ + a.date@ + " · broker positions "@ + decimal(a.broker_positions as nat) + " · designed targets "@ + decimal(
        a.expected_targets as nat,
    ) + " · alarms "@ + decimal(a.alarms as nat) + " · notes "@ + decimal(a.notes as nat)
}

/// The first line of an audit.
pub fn audit_line(a: &AuditReport) -> (r: String)
    ensures
        r@ == audit_text(*a),
{
    let mut r = "date ".to_owned();
    r.append(a.date.as_str());
    r.append(" · broker positions ");
    r.append(decimal_text(a.broker_positions as u128).as_str());
    r.append(" · designed targets ");
    r.append(decimal_text(a.expected_targets as u128).as_str());
    r.append(" · alarms ");
    r.append(decimal_text(a.alarms as u128).as_str());
    r.append(" · notes ");
    r.append(decimal_text(a.notes as u128).as_str());
    r
}

/// The last line of an audit.
pub open spec fn audit_end(a: AuditReport, send: bool) -> Seq<char> {
    "Audit note written to meta/reconcile-"@ + a.date@ + ".json"@ + (if a.alarms == 0 {
        " (clean — no Telegram)"@
    } else if send {
        "; Telegram alarm sent"@
    } else {
        " (no-send)"@
    }) + "."@
}

/// The last line of an audit: where the note stands, and what became of the alarm.
pub fn audit_closing(a: &AuditReport, send: bool) -> (r: String)
    ensures
        r@ == audit_end(*a, send),
{
    let mut r = "Audit note written to meta/reconcile-".to_owned();
    r.append(a.date.as_str());
    r.append(".json");
    if a.alarms == 0 {
        r.append(" (clean — no Telegram)");
    } else if send {
        r.append("; Telegram alarm sent");
    } else {
        r.append(" (no-send)");
    }
    r.append(".");
    r
}

} // verus!
