//! When the daily cycle and the quarterly review run: one window on each weekday,
//! and only on a day that the broker's calendar confirms as a session. The clock,
//! the calendar and the cycle itself are the caller's.
use vstd::prelude::*;
use vstd::string::*;

use crate::alpaca_data::padded_number;
use crate::calendar::{
    chrono_clock, day_number, iso_text, on_calendar, parsed_date, two_digits, weekday, zone_clock, Date, Ymd, CLOCK_RANGE,
};
use crate::fixed::{decimal, decimal_text, integer_text, pow10, signed_decimal};
use crate::json::{flag_in, text_in, Document, Json};
use crate::lifecycle::review::quarter_of;
use crate::str_map::{included, StrSet};
use crate::text::zero_padded;

verus! {

/// The hour of the daily window.
pub const DAILY_HOUR: u32 = 10;

/// The number of minutes that the window is open.
pub const WINDOW_MINUTES: u32 = 5;

/// The number of keys past which they are forgotten.
pub const KEYS_KEPT: usize = 400;

/// A moment on the clock of the configured time zone.
#[derive(Clone, Copy)]
pub struct Moment {
    pub date: Date,
    pub hour: u32,
    pub minute: u32,
}

/// What the clock of a time zone shows; that of Los Angeles where the zone is not known.
pub open spec fn local_clock(seconds: int, zone: Seq<char>) -> Option<(int, int, int, int, int)> {
    match zone_clock(seconds, zone) {
        Some(t) => Some(t),
        None => zone_clock(seconds, "America/Los_Angeles"@),
    }
}

/// A moment as plain values.
pub open spec fn moment_values(m: Moment) -> (int, int, int, int, int) {
    (m.date@.year, m.date@.month, m.date@.day, m.hour as int, m.minute as int)
}

/// The moment on the clock of a time zone, so many seconds after the beginning of 1970.
pub fn moment_in(seconds: i64, zone: &str) -> (r: Moment)
    requires
        -CLOCK_RANGE <= seconds <= CLOCK_RANGE,
    ensures
        local_clock(seconds as int, zone@) == Some(moment_values(r)),
        r.hour < 24,
        r.minute < 60,
{
    let shown = match chrono_clock(seconds, zone) {
        Some(t) => Some(t),
        None => chrono_clock(seconds, "America/Los_Angeles"),
    };
    let (year, month, day, hour, minute) = shown.unwrap();
    Moment { date: Date::from_ymd_opt(year, month, day).unwrap(), hour, minute }
}

/// Whether a day of the week, from Monday at 0, is a weekday.
pub fn is_weekday(day: u32) -> (r: bool)
    ensures
        r == (day != 5 && day != 6),
{
    day != 5 && day != 6
}

/// The quarter of a month, from 1 to 4.
pub fn quarter(month: u32) -> (r: u32)
    requires
        month >= 1,
    ensures
        r == quarter_of(month as int),
{
    (month - 1) / 3 + 1
}

/// The day is a weekday.
pub open spec fn on_weekday(d: Ymd) -> bool {
    weekday(d) < 5
}

/// A missed window is made up for on start: later than the hour, on a weekday.
pub open spec fn is_missed(catchup: bool, now: Moment) -> bool {
    catchup && on_weekday(now.date@) && now.hour >= DAILY_HOUR
}

/// The window is open.
pub open spec fn is_open(now: Moment) -> bool {
    on_weekday(now.date@) && now.hour == DAILY_HOUR && now.minute < WINDOW_MINUTES
}

/// The first weekday of its month.
pub open spec fn is_first_weekday(d: Ymd) -> bool {
    on_weekday(d) && forall|k: int| 1 <= k < d.day ==> !on_weekday(#[trigger] earlier(d, k))
}

/// Day `k` of the same month.
pub open spec fn earlier(d: Ymd, k: int) -> Ymd {
    Ymd { day: k, ..d }
}

/// The day of the quarterly review: the first weekday of a quarter.
pub open spec fn is_quarter_start(d: Ymd) -> bool {
    (d.month == 1 || d.month == 4 || d.month == 7 || d.month == 10) && is_first_weekday(d)
}

/// Whether a date is the first weekday of its month: the first day, or a Monday behind
/// a weekend.
fn first_weekday(date: &Date) -> (r: bool)
    ensures
        r == is_first_weekday(date@),
{
    let w: u32 = date.weekday_from_monday();
    let day: u32 = date.day();
    let r = w < 5 && (day == 1 || (w == 0 && day <= 3));
    proof {
        let d = date@;
        if r {
            assert forall|k: int| 1 <= k < d.day implies !on_weekday(#[trigger] earlier(d, k)) by {
                assert(day_number(earlier(d, k)) == day_number(d) - (d.day - k));
                assert(d.day - k == 1 || d.day - k == 2);
            }
        } else if w < 5 {
            let k = if w == 0 {
                d.day - 3
            } else {
                d.day - 1
            };
            assert(day_number(earlier(d, k)) == day_number(d) - (d.day - k));
            assert(on_weekday(earlier(d, k)));
        }
    }
    r
}

/// The key of a day whose cycle has run.
pub open spec fn daily_key(d: Ymd) -> Seq<char> {
    "daily@"@ + iso_text(d)
}

/// The key of a day that is no session.
pub open spec fn holiday_key(d: Ymd) -> Seq<char> {
    "nosession@"@ + iso_text(d)
}

/// The key of a quarter whose review has run.
pub open spec fn quarter_key(d: Ymd) -> Seq<char> {
    "quarterly@"@ + signed_decimal(d.year) + "-Q"@ + decimal(quarter_of(d.month) as nat)
}

/// The broker's calendar has to be asked: the window is open, and the day has
/// neither run nor turned out to be a holiday.
pub open spec fn is_pending(keys: Seq<Seq<char>>, now: Moment) -> bool {
    is_open(now) && !keys.contains(daily_key(now.date@)) && !keys.contains(holiday_key(now.date@))
}

/// The keys after the calendar's answer on a day that was pending.
pub open spec fn answered(keys: Seq<Seq<char>>, now: Moment, session: Option<bool>) -> Seq<Seq<char>> {
    if is_pending(keys, now) {
        match session {
            Some(true) => included(keys, daily_key(now.date@)),
            Some(false) => included(keys, holiday_key(now.date@)),
            None => keys,
        }
    } else {
        keys
    }
}

/// The daily cycle runs.
pub open spec fn is_run(keys: Seq<Seq<char>>, now: Moment, session: Option<bool>) -> bool {
    is_pending(keys, now) && session == Some(true)
}

/// The keys of a schedule that starts: the day of the last run, where one is known.
pub open spec fn known(last_run: Option<Ymd>) -> Seq<Seq<char>> {
    match last_run {
        Some(d) => seq![daily_key(d)],
        None => seq![],
    }
}

/// The day of the last run.
pub open spec fn day_of(last_run: Option<Date>) -> Option<Ymd> {
    match last_run {
        Some(d) => Some(d@),
        None => None,
    }
}

/// The day of the cycle that a stored record of its cards tells of. A cycle that ran
/// dry does not count where orders are to be made.
pub open spec fn recorded_day(record: Document, armed: bool) -> Option<Ymd> {
    if armed && flag_in(record, "armed"@) != Some(true) {
        None
    } else {
        match text_in(record, "date"@) {
            Some(t) => match parsed_date(t, "%Y-%m-%d"@) {
                Some(x) => Some(Ymd { year: x.0, month: x.1, day: x.2 }),
                None => None,
            },
            None => None,
        }
    }
}

/// The day of the cycle that a stored record of its cards tells of.
pub fn last_run(record: &Json, armed: bool) -> (r: Option<Date>)
    ensures
        day_of(r) == recorded_day(record@, armed),
        forall|e: Ymd|
            on_calendar(e) && text_in(record@, "date"@) == Some(#[trigger] iso_text(e)) && (armed ==> flag_in(
                record@,
                "armed"@,
            ) == Some(true)) ==> day_of(r) == Some(e),
{
    if armed && record.flag_at("armed") != Some(true) {
        return None;
    }
    match record.text_at("date") {
        Some(t) => Date::parse_iso(t.as_str()),
        None => None,
    }
}

/// The cycle runs on start.
pub open spec fn is_made_up_for(keys: Seq<Seq<char>>, catchup: bool, now: Moment, session: Option<bool>) -> bool {
    is_missed(catchup, now) && session == Some(true) && !keys.contains(daily_key(now.date@))
}

/// The keys after a start.
pub open spec fn started(keys: Seq<Seq<char>>, catchup: bool, now: Moment, session: Option<bool>) -> Seq<Seq<char>> {
    if is_missed(catchup, now) && session == Some(true) {
        included(keys, daily_key(now.date@))
    } else {
        keys
    }
}

/// The keys after the review's turn.
pub open spec fn reviewed(keys: Seq<Seq<char>>, now: Moment) -> Seq<Seq<char>> {
    if is_open(now) && is_quarter_start(now.date@) {
        included(keys, quarter_key(now.date@))
    } else {
        keys
    }
}

/// The key is carried over where it is among the keys.
pub open spec fn carried(out: Seq<Seq<char>>, keys: Seq<Seq<char>>, k: Seq<char>) -> Seq<Seq<char>> {
    if keys.contains(k) {
        included(out, k)
    } else {
        out
    }
}

/// The keys after a trim: once there are too many, only those of the day and of its
/// quarter are left.
pub open spec fn trimmed(keys: Seq<Seq<char>>, d: Ymd) -> Seq<Seq<char>> {
    if keys.len() > KEYS_KEPT {
        carried(carried(carried(seq![], keys, daily_key(d)), keys, holiday_key(d)), keys, quarter_key(d))
    } else {
        keys
    }
}

fn key_of(kind: &str, date: &Date) -> (r: String)
    ensures
        r@ == kind@ + iso_text(date@),
{
    let mut r = kind.to_owned();
    r.append(date.iso().as_str());
    r
}

fn key_of_quarter(date: &Date) -> (r: String)
    ensures
        r@ == quarter_key(date@),
{
    let mut key = "quarterly@".to_owned();
    key.append(integer_text(date.year() as i128).as_str());
    key.append("-Q");
    key.append(decimal_text(quarter(date.month()) as u128).as_str());
    key
}

/// What has run.
#[derive(Debug, Clone)]
pub struct Schedule {
    fired: StrSet,
}

impl View for Schedule {
    type V = Seq<Seq<char>>;

    closed spec fn view(&self) -> Seq<Seq<char>> {
        self.fired@
    }
}

impl Schedule {
    /// A schedule that starts, with the day of the last run where one is known: on that
    /// day nothing is made up for, and the cycle does not run again.
    pub fn new(last_run: Option<Date>) -> (r: Self)
        ensures
            r@ == known(day_of(last_run)),
            forall|catchup: bool, now: Moment, session: Option<bool>|
                day_of(last_run) == Some(now.date@) ==> !#[trigger] is_made_up_for(r@, catchup, now, session),
            forall|now: Moment, session: Option<bool>|
                day_of(last_run) == Some(now.date@) ==> !#[trigger] is_run(r@, now, session),
    {
        let mut fired = StrSet::new();
        if let Some(d) = last_run {
            let _new = fired.insert(key_of("daily@", &d));
            assert(fired@ =~= seq![daily_key(d@)]);
            assert(fired@[0] == daily_key(d@));
        }
        Schedule { fired }
    }

    /// Whether a missed window is to be made up for, if the day is a session.
    pub fn catch_up_due(catchup: bool, now: Moment) -> (r: bool)
        ensures
            r == is_missed(catchup, now),
    {
        catchup && is_weekday(now.date.weekday_from_monday()) && now.hour >= DAILY_HOUR
    }

    /// Whether the cycle runs on start, after the calendar's answer. A holiday or a
    /// failed lookup leaves the day's key unused.
    pub fn catch_up(&mut self, catchup: bool, now: Moment, session: Option<bool>) -> (r: bool)
        ensures
            final(self)@ == started(old(self)@, catchup, now, session),
            r == is_made_up_for(old(self)@, catchup, now, session),
    {
        if Schedule::catch_up_due(catchup, now) {
            if let Some(true) = session {
                return self.fired.insert(key_of("daily@", &now.date));
            }
        }
        false
    }

    /// Whether the window is open.
    pub fn window_open(now: Moment) -> (r: bool)
        ensures
            r == is_open(now),
    {
        is_weekday(now.date.weekday_from_monday()) && now.hour == DAILY_HOUR && now.minute < WINDOW_MINUTES
    }

    /// Whether the quarterly review runs now.
    pub fn review_due(&mut self, now: Moment) -> (r: bool)
        ensures
            final(self)@ == reviewed(old(self)@, now),
            r == (is_open(now) && is_quarter_start(now.date@) && !old(self)@.contains(quarter_key(now.date@))),
    {
        if !Schedule::window_open(now) {
            return false;
        }
        let month = now.date.month();
        if (month == 1 || month == 4 || month == 7 || month == 10) && first_weekday(&now.date) {
            return self.fired.insert(key_of_quarter(&now.date));
        }
        false
    }

    /// Whether the calendar has to be asked about the day.
    pub fn asks_calendar(&self, now: Moment) -> (r: bool)
        ensures
            r == is_pending(self@, now),
    {
        Schedule::window_open(now) && !self.fired.contains(key_of("daily@", &now.date).as_str())
            && !self.fired.contains(key_of("nosession@", &now.date).as_str())
    }

    /// Whether the daily cycle runs now, after the calendar's answer: `Some(true)` for
    /// a session, `Some(false)` for a holiday, `None` where the lookup failed.
    pub fn daily_due(&mut self, now: Moment, session: Option<bool>) -> (r: bool)
        ensures
            final(self)@ == answered(old(self)@, now, session),
            r == is_run(old(self)@, now, session),
    {
        if !self.asks_calendar(now) {
            return false;
        }
        match session {
            Some(true) => self.fired.insert(key_of("daily@", &now.date)),
            Some(false) => {
                let _new = self.fired.insert(key_of("nosession@", &now.date));
                false
            },
            None => false,
        }
    }

    fn carry(&self, out: &mut StrSet, key: String)
        ensures
            final(out)@ == carried(old(out)@, self@, key@),
    {
        if self.fired.contains(key.as_str()) {
            let _new = out.insert(key);
        }
    }

    /// Forgets what has run on other days and in other quarters once there are too many
    /// keys.
    pub fn trim(&mut self, today: Date)
        ensures
            final(self)@ == trimmed(old(self)@, today@),
    {
        if self.fired.len() > KEYS_KEPT {
            let mut left = StrSet::new();
            self.carry(&mut left, key_of("daily@", &today));
            self.carry(&mut left, key_of("nosession@", &today));
            self.carry(&mut left, key_of_quarter(&today));
            self.fired = left;
        }
    }
}

/// The cycle never runs without a confirmed session, nor outside the window of a weekday.
pub proof fn no_run_without_a_session(keys: Seq<Seq<char>>, now: Moment, session: Option<bool>)
    ensures
        is_run(keys, now, session) ==> session == Some(true) && is_open(now) && on_weekday(now.date@),
{
}

/// Every key stays until it is trimmed: the calendar's answer, a start and a review
/// only add keys.
pub proof fn keys_stay(keys: Seq<Seq<char>>, catchup: bool, now: Moment, session: Option<bool>, k: Seq<char>)
    requires
        keys.contains(k),
    ensures
        answered(keys, now, session).contains(k),
        started(keys, catchup, now, session).contains(k),
        reviewed(keys, now).contains(k),
{
    included_keeps(keys, daily_key(now.date@), k);
    included_keeps(keys, holiday_key(now.date@), k);
    included_keeps(keys, quarter_key(now.date@), k);
}

proof fn included_keeps(keys: Seq<Seq<char>>, new: Seq<char>, k: Seq<char>)
    ensures
        keys.contains(k) ==> included(keys, new).contains(k),
        included(keys, new).contains(new),
{
    if keys.contains(k) {
        let i = choose|i: int| 0 <= i < keys.len() && keys[i] == k;
        assert(keys.push(new)[i] == k);
    }
    assert(keys.push(new).last() == new);
}

/// A trim keeps what has run on the day and in its quarter.
pub proof fn a_trim_keeps_the_day(keys: Seq<Seq<char>>, d: Ymd)
    ensures
        keys.contains(daily_key(d)) ==> trimmed(keys, d).contains(daily_key(d)),
        keys.contains(holiday_key(d)) ==> trimmed(keys, d).contains(holiday_key(d)),
        keys.contains(quarter_key(d)) ==> trimmed(keys, d).contains(quarter_key(d)),
{
    let one = carried(seq![], keys, daily_key(d));
    let two = carried(one, keys, holiday_key(d));
    included_keeps(seq![], daily_key(d), daily_key(d));
    included_keeps(one, holiday_key(d), daily_key(d));
    included_keeps(two, quarter_key(d), daily_key(d));
    included_keeps(two, quarter_key(d), holiday_key(d));
}

/// A day's cycle runs at most once: after a run, in the window or on start, the
/// calendar is not asked again on that day, also after a trim.
pub proof fn a_day_runs_at_most_once(
    keys: Seq<Seq<char>>,
    catchup: bool,
    first: Moment,
    session: Option<bool>,
    after: Seq<Seq<char>>,
    later: Moment,
)
    requires
        first.date@ == later.date@,
        ({
            ||| is_run(keys, first, session) && after == answered(keys, first, session)
            ||| is_missed(catchup, first) && session == Some(true) && after == started(keys, catchup, first, session)
            ||| after.contains(daily_key(first.date@))
        }),
    ensures
        after.contains(daily_key(first.date@)),
        !is_pending(after, later),
        !is_pending(trimmed(after, first.date@), later),
        forall|answer: Option<bool>| !is_run(after, later, answer),
        forall|answer: Option<bool>| !is_run(trimmed(after, first.date@), later, answer),
{
    included_keeps(keys, daily_key(first.date@), daily_key(first.date@));
    a_trim_keeps_the_day(after, first.date@);
}

/// After a restart the day of the last run is not run again, neither on start nor in
/// the window; on any other day the start goes by the clock and the calendar alone.
pub proof fn a_restart_repeats_no_day(last: Ymd, catchup: bool, now: Moment, session: Option<bool>)
    requires
        on_calendar(last),
        on_calendar(now.date@),
        0 <= last.year <= 9999,
        0 <= now.date@.year <= 9999,
    ensures
        last == now.date@ ==> !is_made_up_for(known(Some(last)), catchup, now, session) && !is_run(
            known(Some(last)),
            now,
            session,
        ),
        last != now.date@ ==> is_made_up_for(known(Some(last)), catchup, now, session) == (is_missed(catchup, now)
            && session == Some(true)),
{
    assert(known(Some(last))[0] == daily_key(last));
    if last != now.date@ {
        each_day_has_its_own_key(last, now.date@);
    }
}

/// A holiday is asked about once; a failed lookup is asked again, and leaves no key.
pub proof fn a_holiday_is_remembered(keys: Seq<Seq<char>>, first: Moment, later: Moment)
    requires
        first.date@ == later.date@,
        is_pending(keys, first),
        is_open(later),
    ensures
        !is_pending(answered(keys, first, Some(false)), later),
        answered(keys, first, None) == keys,
        is_pending(answered(keys, first, None), later),
{
    included_keeps(keys, holiday_key(first.date@), holiday_key(first.date@));
}

/// On start, a holiday or a failed lookup does not use up the day's key.
pub proof fn a_start_without_a_session_changes_nothing(
    keys: Seq<Seq<char>>,
    catchup: bool,
    now: Moment,
    session: Option<bool>,
)
    requires
        session != Some(true),
    ensures
        started(keys, catchup, now, session) == keys,
{
}

/// A review runs at most once a quarter: its key stays, also after a trim in the quarter.
pub proof fn a_quarter_is_reviewed_once(keys: Seq<Seq<char>>, now: Moment)
    requires
        is_open(now),
        is_quarter_start(now.date@),
    ensures
        reviewed(keys, now).contains(quarter_key(now.date@)),
        trimmed(reviewed(keys, now), now.date@).contains(quarter_key(now.date@)),
{
    included_keeps(keys, quarter_key(now.date@), quarter_key(now.date@));
    a_trim_keeps_the_day(reviewed(keys, now), now.date@);
}

/// Each day has its own key, so the run of one day does not keep another from running.
pub proof fn each_day_has_its_own_key(a: Ymd, b: Ymd)
    requires
        on_calendar(a),
        on_calendar(b),
        0 <= a.year <= 9999,
        0 <= b.year <= 9999,
        a != b,
    ensures
        daily_key(a) != daily_key(b),
        holiday_key(a) != holiday_key(b),
{
    if iso_text(a) == iso_text(b) {
        reveal_with_fuel(pow10, 5);
        reveal_strlit("-");
        padded_number(a.year as nat, 4);
        padded_number(b.year as nat, 4);
        padded_number(a.month as nat, 2);
        padded_number(b.month as nat, 2);
        padded_number(a.day as nat, 2);
        padded_number(b.day as nat, 2);
        let (s, t) = (iso_text(a), iso_text(b));
        assert(s.subrange(0, 4) =~= zero_padded(decimal(a.year as nat), 4));
        assert(t.subrange(0, 4) =~= zero_padded(decimal(b.year as nat), 4));
        assert(s.subrange(5, 7) =~= two_digits(a.month));
        assert(t.subrange(5, 7) =~= two_digits(b.month));
        assert(s.subrange(8, 10) =~= two_digits(a.day));
        assert(t.subrange(8, 10) =~= two_digits(b.day));
        assert(false);
    }
    if daily_key(a) == daily_key(b) {
        assert(iso_text(a) =~= daily_key(a).skip("daily@"@.len() as int));
        assert(iso_text(b) =~= daily_key(b).skip("daily@"@.len() as int));
    }
    if holiday_key(a) == holiday_key(b) {
        assert(iso_text(a) =~= holiday_key(a).skip("nosession@"@.len() as int));
        assert(iso_text(b) =~= holiday_key(b).skip("nosession@"@.len() as int));
    }
}

} // verus!
