use aschenbrenner_unlimited::calendar::Date;
use aschenbrenner_unlimited::config::AppConfig;
use aschenbrenner_unlimited::delivery::{delivered, telegram_message};
use aschenbrenner_unlimited::fixed::{Fixed, ONE};
use aschenbrenner_unlimited::json::Json;
use aschenbrenner_unlimited::lifecycle::daily::{cards_document, today_in_tz};
use aschenbrenner_unlimited::run::{
    armed_from, cluster_row, command_from, exit_code, is_mode_token, is_paper_host, notification_from, rules_line,
    sends_alarms, targets_intact, total_weight, Command,
};
use aschenbrenner_unlimited::scheduler::{is_weekday, last_run, moment_in, quarter, Moment, Schedule};

fn at(y: i32, m: u32, d: u32, hour: u32, minute: u32) -> Moment {
    Moment { date: Date::from_ymd_opt(y, m, d).unwrap(), hour, minute }
}

fn args(l: &[&str]) -> Vec<String> {
    l.iter().map(|s| s.to_string()).collect()
}

const PCT: Fixed = ONE / 100;

#[test]
fn the_window_runs_once_a_day() {
    let mut s = Schedule::new(None);
    // 2026-06-22 is a Monday.
    let now = at(2026, 6, 22, 10, 0);
    assert!(s.asks_calendar(now));
    assert!(s.daily_due(now, Some(true)));
    assert!(!s.asks_calendar(at(2026, 6, 22, 10, 1)));
    assert!(!s.daily_due(at(2026, 6, 22, 10, 1), Some(true)));
    // The next day has its own turn.
    assert!(s.daily_due(at(2026, 6, 23, 10, 4), Some(true)));
}

#[test]
fn a_failed_lookup_is_asked_again_and_a_holiday_is_not() {
    let mut s = Schedule::new(None);
    let now = at(2026, 9, 7, 10, 0);
    assert!(!s.daily_due(now, None));
    assert!(s.asks_calendar(at(2026, 9, 7, 10, 1)));
    assert!(!s.daily_due(at(2026, 9, 7, 10, 1), Some(false)));
    assert!(!s.asks_calendar(at(2026, 9, 7, 10, 2)));
    assert!(!s.daily_due(at(2026, 9, 7, 10, 2), Some(true)));
}

#[test]
fn the_window_is_five_minutes_of_a_weekday() {
    assert!(Schedule::window_open(at(2026, 6, 22, 10, 4)));
    assert!(!Schedule::window_open(at(2026, 6, 22, 10, 5)));
    assert!(!Schedule::window_open(at(2026, 6, 22, 11, 0)));
    assert!(!Schedule::window_open(at(2026, 6, 21, 10, 0)));
    assert!(!Schedule::new(None).daily_due(at(2026, 6, 21, 10, 0), Some(true)));
}

#[test]
fn a_missed_window_is_made_up_for() {
    let mut s = Schedule::new(None);
    let now = at(2026, 6, 22, 13, 30);
    assert!(Schedule::catch_up_due(true, now));
    assert!(!Schedule::catch_up_due(false, now));
    assert!(!Schedule::catch_up_due(true, at(2026, 6, 22, 9, 59)));
    assert!(!Schedule::catch_up_due(true, at(2026, 6, 20, 13, 30)));
    assert!(!s.catch_up(true, now, None));
    assert!(!s.catch_up(true, now, Some(false)));
    assert!(s.catch_up(true, now, Some(true)));
    assert!(!s.catch_up(true, now, Some(true)));
    // A start within the window leaves nothing to run.
    let mut s = Schedule::new(None);
    assert!(s.catch_up(true, at(2026, 6, 22, 10, 2), Some(true)));
    assert!(!s.asks_calendar(at(2026, 6, 22, 10, 3)));
}

#[test]
fn a_restart_does_not_repeat_the_day() {
    let now = at(2026, 6, 22, 13, 30);
    let mut s = Schedule::new(Some(now.date));
    assert!(!s.catch_up(true, now, Some(true)));
    assert!(!s.asks_calendar(at(2026, 6, 22, 10, 1)));
    // The next day has its own turn, on start and in the window.
    assert!(Schedule::new(Some(now.date)).catch_up(true, at(2026, 6, 23, 13, 30), Some(true)));
    assert!(s.daily_due(at(2026, 6, 23, 10, 0), Some(true)));
}

#[test]
fn the_cards_of_a_cycle_tell_its_day() {
    let monday = Date::from_ymd_opt(2026, 6, 22).unwrap();
    let cards = |armed: bool| cards_document(monday, "build", armed, &vec![], &vec![]);
    assert_eq!(last_run(&cards(true), true), Some(monday));
    assert_eq!(last_run(&cards(true), false), Some(monday));
    assert_eq!(last_run(&cards(false), false), Some(monday));
    // A dry cycle does not stand for one that makes orders.
    assert_eq!(last_run(&cards(false), true), None);
    assert_eq!(last_run(&Json::Null, false), None);
    assert_eq!(last_run(&Json::parse(r#"{"date":"soon"}"#).unwrap(), false), None);
}

#[test]
fn the_review_runs_once_a_quarter() {
    let mut s = Schedule::new(None);
    assert!(s.review_due(at(2026, 7, 1, 10, 0)));
    assert!(!s.review_due(at(2026, 7, 2, 10, 0)));
    assert!(!s.review_due(at(2026, 10, 1, 11, 0)));
    assert!(s.review_due(at(2026, 10, 1, 10, 1)));
    // Only the first weekday counts: 2 July 2026 is a Thursday behind a Wednesday, and
    // 3 January 2028 a Monday behind a weekend.
    assert!(!Schedule::new(None).review_due(at(2026, 7, 2, 10, 0)));
    assert!(Schedule::new(None).review_due(at(2028, 1, 3, 10, 0)));
    assert!(!Schedule::new(None).review_due(at(2028, 1, 4, 10, 0)));
    assert!(!Schedule::new(None).review_due(at(2026, 8, 3, 10, 0)));
    assert!(!Schedule::new(None).review_due(at(2026, 7, 6, 10, 0)));
    assert!(s.review_due(at(2027, 7, 1, 10, 0)));
}

#[test]
fn keys_are_forgotten_once_there_are_too_many() {
    let mut s = Schedule::new(None);
    let mut d = Date::from_ymd_opt(2026, 1, 1).unwrap();
    let mut runs = 0;
    while runs < 400 {
        if s.daily_due(Moment { date: d, hour: 10, minute: 0 }, Some(true)) {
            runs += 1;
        }
        d = d.plus_days(1);
    }
    s.trim(d);
    assert!(!s.asks_calendar(at(2026, 1, 1, 10, 0)));
    while !s.daily_due(Moment { date: d, hour: 10, minute: 0 }, Some(true)) {
        d = d.plus_days(1);
    }
    s.trim(d);
    assert!(s.asks_calendar(at(2026, 1, 1, 10, 0)));
    // The day itself is not run again.
    assert!(!s.asks_calendar(Moment { date: d, hour: 10, minute: 1 }));
    assert!(s.daily_due(Moment { date: d.plus_days(7), hour: 10, minute: 0 }, Some(true)));
}

#[test]
fn weekdays_and_quarters() {
    assert!((0..5).all(is_weekday));
    assert!(!is_weekday(5) && !is_weekday(6));
    assert_eq!((quarter(1), quarter(3), quarter(4), quarter(12)), (1, 1, 2, 4));
}

#[test]
fn commands_are_armed_unless_told_otherwise() {
    assert!(is_mode_token("Dry-Run") && is_mode_token("dryrun") && is_mode_token("EXECUTE") && is_mode_token("armed"));
    assert!(!is_mode_token("dry"));
    assert!(armed_from(&args(&[])));
    assert!(armed_from(&args(&["execute"])));
    assert!(!armed_from(&args(&["armed", "DRY-RUN"])));
    assert!(!armed_from(&args(&["dryrun"])));
}

#[test]
fn commands_by_their_names() {
    assert_eq!(command_from(&args(&[])), Command::Help);
    assert_eq!(command_from(&args(&["-h"])), Command::Help);
    for w in ["daily", "track", "rebalance"] {
        assert_eq!(command_from(&args(&[w])), Command::Daily);
    }
    for (w, c) in [
        ("config", Command::Config),
        ("status", Command::Status),
        ("positions", Command::Positions),
        ("build", Command::Build),
        ("review", Command::Review),
        ("reconcile", Command::Reconcile),
        ("signals", Command::Signals),
        ("cancel", Command::Cancel),
        ("notify", Command::Notify),
        ("test", Command::Test),
        ("scheduler", Command::Scheduler),
    ] {
        assert_eq!(exit_code(&c), 0);
        assert_eq!(command_from(&args(&[w, "dry-run"])), c);
    }
    let c = command_from(&args(&["Build"]));
    assert_eq!(c, Command::Unknown("Build".to_string()));
    assert_eq!(exit_code(&c), 2);
}

#[test]
fn notifications() {
    assert_eq!(notification_from(&args(&["hello", "dry-run", "world"])), "hello world");
    assert_eq!(notification_from(&args(&["armed"])), "aschenbrenner-unlimited test notification");
    assert_eq!(notification_from(&args(&[])), "aschenbrenner-unlimited test notification");
    assert!(sends_alarms(&args(&["now"])));
    assert!(!sends_alarms(&args(&["now", "No-Send"])));
}

#[test]
fn messages_go_out_only_where_a_bot_is_set() {
    let mut cfg = AppConfig::default();
    assert!(telegram_message(&cfg, "hi").is_none());
    cfg.telegram_bot_token = "12:ab".to_string();
    assert!(telegram_message(&cfg, "hi").is_none());
    cfg.telegram_chat_id = "42".to_string();
    assert!(telegram_message(&cfg, "").is_none());
    let m = telegram_message(&cfg, "hi").unwrap();
    assert_eq!(m.url, "https://api.telegram.org/bot12:ab/sendMessage");
    assert_eq!((m.chat_id.as_str(), m.text.as_str()), ("42", "hi"));
    let long: String = "é".repeat(5_000);
    assert_eq!(telegram_message(&cfg, &long).unwrap().text.chars().count(), 4_096);
    assert_eq!((delivered(Some(200)), delivered(Some(404)), delivered(None)), (1, 0, 0));
}

#[test]
fn the_self_test() {
    assert!(is_paper_host("https://paper-api.alpaca.markets"));
    assert!(!is_paper_host("https://paper-api.alpaca.markets/v2"));
    assert!(!is_paper_host("https://api.alpaca.markets"));
    assert!(targets_intact(5 * PCT));
    assert!(targets_intact(ONE));
    assert!(!targets_intact(ONE + PCT));
    let total = total_weight(5 * PCT);
    assert!(95 * PCT - 22 <= total && total <= 95 * PCT);
}

#[test]
fn lines_of_the_commands() {
    assert_eq!(
        rules_line(&AppConfig::default()),
        "cluster-cap 30% · trim 15%→10% · stop -35% · deploy>15% dd · band 3%"
    );
    assert_eq!(cluster_row("Fab", 31 * PCT, 7 * PCT, 30 * PCT), "  Fab                   31.0% (target  7.0%) ⚠ OVER");
    assert_eq!(cluster_row("Fab", 30 * PCT, 7 * PCT, 30 * PCT), "  Fab                   30.0% (target  7.0%)");
}

#[test]
fn the_clock_of_a_time_zone() {
    let shown = |seconds: i64, zone: &str| {
        let m = moment_in(seconds, zone);
        (m.date.iso(), m.hour, m.minute)
    };
    // 22 June 2026, 17:05 UTC.
    let noon = 1_782_147_900;
    assert_eq!(shown(noon, "UTC"), ("2026-06-22".to_string(), 17, 5));
    assert_eq!(shown(noon, "America/Los_Angeles"), ("2026-06-22".to_string(), 10, 5));
    assert_eq!(shown(noon, "America/New_York"), ("2026-06-22".to_string(), 13, 5));
    assert_eq!(shown(noon, "Asia/Tokyo"), ("2026-06-23".to_string(), 2, 5));
    // A zone that is not known is taken for Los Angeles.
    assert_eq!(shown(noon, "Mars/Olympus"), shown(noon, "America/Los_Angeles"));
    assert_eq!(shown(0, "UTC"), ("1970-01-01".to_string(), 0, 0));
    let mut cfg = AppConfig::default();
    assert_eq!(today_in_tz(&cfg, noon).iso(), "2026-06-22");
    cfg.timezone_str = "Asia/Tokyo".to_string();
    assert_eq!(today_in_tz(&cfg, noon).iso(), "2026-06-23");
}
