//! Calendar dates. The arithmetic is chrono's; the contracts state it over the
//! proleptic Gregorian calendar.
use chrono::{DateTime, Datelike, Duration, NaiveDate, Timelike};
use chrono_tz::Tz;
use vstd::prelude::*;
use vstd::string::*;

use crate::fixed::decimal;
use crate::text::zero_padded;

verus! {

/// The first year that a date can have.
pub const FIRST_YEAR: i32 = -262_143;

/// The last year that a date can have.
pub const LAST_YEAR: i32 = 262_142;

/// A calendar date as three numbers.
pub struct Ymd {
    pub year: int,
    pub month: int,
    pub day: int,
}

/// Years with 366 days.
pub open spec fn leap(year: int) -> bool {
    year % 4 == 0 && (year % 100 != 0 || year % 400 == 0)
}

/// The number of days in a month.
pub open spec fn month_length(year: int, month: int) -> int {
    if month == 2 {
        if leap(year) {
            29
        } else {
            28
        }
    } else if month == 4 || month == 6 || month == 9 || month == 11 {
        30
    } else {
        31
    }
}

/// `d` is a day of the calendar.
pub open spec fn on_calendar(d: Ymd) -> bool {
    &&& FIRST_YEAR <= d.year <= LAST_YEAR
    &&& 1 <= d.month <= 12
    &&& 1 <= d.day <= month_length(d.year, d.month)
}

/// The days of the year in front of a month.
pub open spec fn days_before_month(year: int, month: int) -> int
    decreases month,
{
    if month <= 1 {
        0
    } else {
        days_before_month(year, month - 1) + month_length(year, month - 1)
    }
}

/// The days in front of a year, counted from the beginning of year 1.
pub open spec fn days_before_year(year: int) -> int {
    let y = year - 1;
    365 * y + y / 4 - y / 100 + y / 400
}

/// The day's number, where 1 January of year 1 has number 1.
pub open spec fn day_number(d: Ymd) -> int {
    days_before_year(d.year) + days_before_month(d.year, d.month) + d.day
}

/// The day of the week: 0 is Monday, 6 is Sunday.
pub open spec fn weekday(d: Ymd) -> int {
    (day_number(d) - 1) % 7
}

/// A date of the calendar.
#[derive(Clone, Copy, Debug, PartialEq, Eq, Structural)]
pub struct Date {
    year: i32,
    month: u32,
    day: u32,
}

impl View for Date {
    type V = Ymd;

    closed spec fn view(&self) -> Ymd {
        Ymd { year: self.year as int, month: self.month as int, day: self.day as int }
    }
}

// ── facts about the calendar ───────────────────────────────────────────────

proof fn year_length(year: int)
    ensures
        days_before_year(year + 1) == days_before_year(year) + if leap(year) {
            366int
        } else {
            365
        },
{
    let y = year - 1;
    assert(year / 4 == y / 4 + if year % 4 == 0 { 1int } else { 0 });
    assert(year / 100 == y / 100 + if year % 100 == 0 { 1int } else { 0 });
    assert(year / 400 == y / 400 + if year % 400 == 0 { 1int } else { 0 });
    assert(year % 100 == 0 ==> year % 4 == 0);
    assert(year % 400 == 0 ==> year % 100 == 0);
}

proof fn years_ascend(a: int, b: int)
    requires
        a <= b,
    ensures
        days_before_year(a) + 365 * (b - a) <= days_before_year(b),
    decreases b - a,
{
    if a < b {
        year_length(b - 1);
        years_ascend(a, b - 1);
    }
}

proof fn day_in_year(d: Ymd)
    requires
        on_calendar(d),
    ensures
        1 <= days_before_month(d.year, d.month) + d.day <= if leap(d.year) {
            366int
        } else {
            365
        },
{
    reveal_with_fuel(days_before_month, 13);
}

proof fn months_ascend(year: int, a: int, b: int)
    requires
        1 <= a < b,
    ensures
        days_before_month(year, a) + month_length(year, a) <= days_before_month(year, b),
    decreases b - a,
{
    if a < b - 1 {
        months_ascend(year, a, b - 1);
    }
}

/// A later day has a larger number.
pub proof fn day_numbers_ascend(a: Ymd, b: Ymd)
    requires
        on_calendar(a),
        on_calendar(b),
        a.year < b.year || (a.year == b.year && (a.month < b.month || (a.month == b.month && a.day
            < b.day))),
    ensures
        day_number(a) < day_number(b),
{
    if a.year < b.year {
        day_in_year(a);
        day_in_year(b);
        year_length(a.year);
        years_ascend(a.year + 1, b.year);
    } else if a.month < b.month {
        months_ascend(a.year, a.month, b.month);
    }
}

/// Two days with the same number are the same day.
pub proof fn day_number_determines_the_day(a: Ymd, b: Ymd)
    requires
        on_calendar(a),
        on_calendar(b),
        day_number(a) == day_number(b),
    ensures
        a == b,
{
    if a.year != b.year || a.month != b.month || a.day != b.day {
        if a.year < b.year || (a.year == b.year && (a.month < b.month || (a.month == b.month
            && a.day < b.day))) {
            day_numbers_ascend(a, b);
        } else {
            day_numbers_ascend(b, a);
        }
    }
}

/// The numbers of the days stay within the range of the years.
pub proof fn day_number_range(d: Ymd)
    requires
        on_calendar(d),
    ensures
        -95_800_000 < day_number(d) < 95_800_000,
{
    day_in_year(d);
    years_ascend(FIRST_YEAR as int, d.year);
    years_ascend(d.year, LAST_YEAR as int);
}

/// The first day of the calendar.
pub open spec fn first_day() -> Ymd {
    Ymd { year: FIRST_YEAR as int, month: 1, day: 1 }
}

/// The day before another one.
pub open spec fn day_before(d: Ymd) -> Ymd {
    if d.day > 1 {
        Ymd { year: d.year, month: d.month, day: d.day - 1 }
    } else if d.month > 1 {
        Ymd { year: d.year, month: d.month - 1, day: month_length(d.year, d.month - 1) }
    } else {
        Ymd { year: d.year - 1, month: 12, day: 31 }
    }
}

proof fn day_before_is_one_less(d: Ymd)
    requires
        on_calendar(d),
        d != first_day(),
    ensures
        on_calendar(day_before(d)),
        day_number(day_before(d)) == day_number(d) - 1,
{
    if d.day == 1 && d.month == 1 {
        year_length(d.year - 1);
        reveal_with_fuel(days_before_month, 13);
    }
}

/// The calendar has every day from its first one on, up to a day that it has.
pub proof fn calendar_has_no_gaps(d: Ymd, k: int) -> (e: Ymd)
    requires
        on_calendar(d),
        0 <= k <= day_number(d) - day_number(first_day()),
    ensures
        on_calendar(e),
        day_number(e) == day_number(d) - k,
    decreases k,
{
    if k == 0 {
        d
    } else {
        day_before_is_one_less(d);
        calendar_has_no_gaps(day_before(d), k - 1)
    }
}

/// The first day has the smallest number.
pub proof fn first_day_comes_first(d: Ymd)
    requires
        on_calendar(d),
    ensures
        day_number(first_day()) <= day_number(d),
{
    if d != first_day() {
        day_numbers_ascend(first_day(), d);
    }
}

/// The last day of the calendar.
pub open spec fn last_day() -> Ymd {
    Ymd { year: LAST_YEAR as int, month: 12, day: 31 }
}

/// The last day has the largest number.
pub proof fn last_day_comes_last(d: Ymd)
    requires
        on_calendar(d),
    ensures
        day_number(d) <= day_number(last_day()),
{
    if d != last_day() {
        day_numbers_ascend(d, last_day());
    }
}

// ── dates ──────────────────────────────────────────────────────────────────

/// `NaiveDate::from_ymd_opt`: whether the calendar has the day.
#[verifier::external_body]
fn chrono_has_day(year: i32, month: u32, day: u32) -> (r: bool)
    ensures
        r == on_calendar(Ymd { year: year as int, month: month as int, day: day as int }),
{
    NaiveDate::from_ymd_opt(year, month, day).is_some()
}

/// `NaiveDate::weekday` and `Weekday::num_days_from_monday`: the day of the week
/// counted from Monday.
#[verifier::external_body]
fn chrono_weekday(year: i32, month: u32, day: u32) -> (r: u32)
    requires
        on_calendar(Ymd { year: year as int, month: month as int, day: day as int }),
    ensures
        r == weekday(Ymd { year: year as int, month: month as int, day: day as int }),
{
    NaiveDate::from_ymd_opt(year, month, day).unwrap().weekday().num_days_from_monday()
}

/// `NaiveDate + Duration::days(n)`: the day `n` days later.
#[verifier::external_body]
fn chrono_plus_days(year: i32, month: u32, day: u32, n: i64) -> (r: (i32, u32, u32))
    requires
        on_calendar(Ymd { year: year as int, month: month as int, day: day as int }),
        exists|e: Ymd|
            on_calendar(e) && day_number(e) == day_number(
                Ymd { year: year as int, month: month as int, day: day as int },
            ) + n,
    ensures
        on_calendar(Ymd { year: r.0 as int, month: r.1 as int, day: r.2 as int }),
        day_number(Ymd { year: r.0 as int, month: r.1 as int, day: r.2 as int }) == day_number(
            Ymd { year: year as int, month: month as int, day: day as int },
        ) + n,
{
    let d = NaiveDate::from_ymd_opt(year, month, day).unwrap() + Duration::days(n);
    (d.year(), d.month(), d.day())
}

/// `NaiveDate - NaiveDate` and `TimeDelta::num_days`: the days from the second
/// date to the first.
#[verifier::external_body]
fn chrono_days_between(a: (i32, u32, u32), b: (i32, u32, u32)) -> (r: i64)
    requires
        on_calendar(Ymd { year: a.0 as int, month: a.1 as int, day: a.2 as int }),
        on_calendar(Ymd { year: b.0 as int, month: b.1 as int, day: b.2 as int }),
    ensures
        r == day_number(Ymd { year: a.0 as int, month: a.1 as int, day: a.2 as int }) - day_number(
            Ymd { year: b.0 as int, month: b.1 as int, day: b.2 as int },
        ),
{
    let first = NaiveDate::from_ymd_opt(a.0, a.1, a.2).unwrap();
    let second = NaiveDate::from_ymd_opt(b.0, b.1, b.2).unwrap();
    (first - second).num_days()
}

/// A year in four digits; one outside 0 to 9999 carries its sign.
pub open spec fn year_text(year: int) -> Seq<char> {
    if 0 <= year <= 9999 {
        zero_padded(decimal(year as nat), 4)
    } else if year < 0 {
        "-"@ + zero_padded(decimal((-year) as nat), 4)
    } else {
        "+"@ + zero_padded(decimal(year as nat), 4)
    }
}

/// Two digits.
pub open spec fn two_digits(n: int) -> Seq<char> {
    zero_padded(decimal(n as nat), 2)
}

/// A date as `2026-06-22`.
pub open spec fn iso_text(d: Ymd) -> Seq<char> {
    year_text(d.year) + "-"@ + two_digits(d.month) + "-"@ + two_digits(d.day)
}

/// A date as `260622`.
pub open spec fn short_text(d: Ymd) -> Seq<char> {
    two_digits(d.year % 100) + two_digits(d.month) + two_digits(d.day)
}

/// `NaiveDate::format`: the date under the pattern `%Y-%m-%d` or `%y%m%d`.
#[verifier::external_body]
fn chrono_format(year: i32, month: u32, day: u32, pattern: &str) -> (r: String)
    requires
        on_calendar(Ymd { year: year as int, month: month as int, day: day as int }),
        pattern@ == "%Y-%m-%d"@ || pattern@ == "%y%m%d"@,
    ensures
        pattern@ == "%Y-%m-%d"@ ==> r@ == iso_text(
            Ymd { year: year as int, month: month as int, day: day as int },
        ),
        pattern@ == "%y%m%d"@ ==> r@ == short_text(
            Ymd { year: year as int, month: month as int, day: day as int },
        ),
{
    NaiveDate::from_ymd_opt(year, month, day).unwrap().format(pattern).to_string()
}

/// What `NaiveDate::parse_from_str` reads from a text under a pattern.
pub uninterp spec fn parsed_date(s: Seq<char>, pattern: Seq<char>) -> Option<(int, int, int)>;

/// A text that a day is written as is read as that day.
pub open spec fn reads_back(s: Seq<char>, r: Option<(i32, u32, u32)>) -> bool {
    forall|e: Ymd|
        on_calendar(e) && s == #[trigger] iso_text(e) ==> (r matches Some(d) && d.0 == e.year && d.1 == e.month && d.2
            == e.day)
}

/// `NaiveDate::parse_from_str`: the date that a text holds under a pattern, which
/// is a day of the calendar. A day that was written under `%Y-%m-%d` is read back.
/// Which other texts are read is only named.
#[verifier::external_body]
fn chrono_parse(s: &str, pattern: &str) -> (r: Option<(i32, u32, u32)>)
    ensures
        pattern@ == "%Y-%m-%d"@ ==> reads_back(s@, r),
        match r {
            Some(d) => {
                &&& parsed_date(s@, pattern@) == Some((d.0 as int, d.1 as int, d.2 as int))
                &&& on_calendar(Ymd { year: d.0 as int, month: d.1 as int, day: d.2 as int })
            },
            None => parsed_date(s@, pattern@) is None,
        },
{
    NaiveDate::parse_from_str(s, pattern).ok().map(|d| (d.year(), d.month(), d.day()))
}

/// The farthest that the clock is read from the beginning of 1970, in seconds.
pub const CLOCK_RANGE: i64 = 8_000_000_000_000;

/// What the clock of a time zone shows so many seconds after the beginning of 1970:
/// year, month, day, hour and minute.
pub uninterp spec fn zone_clock(seconds: int, zone: Seq<char>) -> Option<(int, int, int, int, int)>;

/// `Tz::from_str` of `chrono_tz`, `DateTime::from_timestamp` and `DateTime::with_timezone`:
/// what the clock of a time zone shows, a day of the calendar with an hour and a minute;
/// nothing where no zone has the name. Los Angeles is one. What the clock shows is only
/// named.
#[verifier::external_body]
pub(crate) fn chrono_clock(seconds: i64, zone: &str) -> (r: Option<(i32, u32, u32, u32, u32)>)
    requires
        -CLOCK_RANGE <= seconds <= CLOCK_RANGE,
    ensures
        zone@ == "America/Los_Angeles"@ ==> r is Some,
        match r {
            Some(t) => {
                &&& zone_clock(seconds as int, zone@) == Some(
                    (t.0 as int, t.1 as int, t.2 as int, t.3 as int, t.4 as int),
                )
                &&& on_calendar(Ymd { year: t.0 as int, month: t.1 as int, day: t.2 as int })
                &&& t.3 < 24
                &&& t.4 < 60
            },
            None => zone_clock(seconds as int, zone@) is None,
        },
{
    let tz: Tz = zone.parse().ok()?;
    let t = DateTime::from_timestamp(seconds, 0)?.with_timezone(&tz);
    Some((t.year(), t.month(), t.day(), t.hour(), t.minute()))
}

impl Date {
    /// Every date is a day of the calendar.
    #[verifier::type_invariant]
    pub open spec fn is_valid(self) -> bool {
        on_calendar(self@)
    }

    /// The date, when the calendar has it.
    pub fn from_ymd_opt(year: i32, month: u32, day: u32) -> (r: Option<Date>)
        ensures
            match r {
                Some(d) => d@ == (Ymd { year: year as int, month: month as int, day: day as int })
                    && on_calendar(d@),
                None => !on_calendar(
                    Ymd { year: year as int, month: month as int, day: day as int },
                ),
            },
    {
        if chrono_has_day(year, month, day) {
            Some(Date { year, month, day })
        } else {
            None
        }
    }

    /// The year.
    pub fn year(&self) -> (r: i32)
        ensures
            r == self@.year,
            on_calendar(self@),
    {
        proof {
            use_type_invariant(self);
        }
        self.year
    }

    /// The month, from 1.
    pub fn month(&self) -> (r: u32)
        ensures
            r == self@.month,
            on_calendar(self@),
    {
        proof {
            use_type_invariant(self);
        }
        self.month
    }

    /// The day of the month, from 1.
    pub fn day(&self) -> (r: u32)
        ensures
            r == self@.day,
            on_calendar(self@),
    {
        proof {
            use_type_invariant(self);
        }
        self.day
    }

    /// The day of the week, from Monday at 0.
    pub fn weekday_from_monday(&self) -> (r: u32)
        ensures
            r == weekday(self@),
            r < 7,
            on_calendar(self@),
    {
        proof {
            use_type_invariant(self);
        }
        chrono_weekday(self.year, self.month, self.day)
    }

    /// The day `n` days later, which the calendar must have.
    pub fn plus_days(&self, n: i64) -> (r: Date)
        requires
            exists|e: Ymd| on_calendar(e) && #[trigger] day_number(e) == day_number(self@) + n,
        ensures
            day_number(r@) == day_number(self@) + n,
            on_calendar(r@),
    {
        proof {
            use_type_invariant(self);
        }
        let (year, month, day) = chrono_plus_days(self.year, self.month, self.day, n);
        Date { year, month, day }
    }

    /// The day `n` days later, where the calendar has it.
    pub fn plus_days_opt(&self, n: i128) -> (r: Option<Date>)
        ensures
            match r {
                Some(d) => day_number(d@) == day_number(self@) + n && on_calendar(d@),
                None => forall|e: Ymd| on_calendar(e) ==> #[trigger] day_number(e) != day_number(self@) + n,
            },
    {
        let first = Date { year: FIRST_YEAR, month: 1, day: 1 };
        let last = Date { year: LAST_YEAR, month: 12, day: 31 };
        let back: i64 = self.days_since(&first);
        let ahead: i64 = last.days_since(self);
        if -(back as i128) <= n && n <= ahead as i128 {
            proof {
                let e = calendar_has_no_gaps(last@, ahead - n);
                assert(day_number(e) == day_number(self@) + n);
            }
            Some(self.plus_days(n as i64))
        } else {
            proof {
                assert forall|e: Ymd| on_calendar(e) implies #[trigger] day_number(e) != day_number(self@) + n by {
                    first_day_comes_first(e);
                    last_day_comes_last(e);
                }
            }
            None
        }
    }

    /// The number of days from `earlier` to this date.
    pub fn days_since(&self, earlier: &Date) -> (r: i64)
        ensures
            r == day_number(self@) - day_number(earlier@),
            -200_000_000 < r < 200_000_000,
            on_calendar(self@),
            on_calendar(earlier@),
    {
        proof {
            use_type_invariant(self);
            use_type_invariant(earlier);
            day_number_range(self@);
            day_number_range(earlier@);
        }
        chrono_days_between(
            (self.year, self.month, self.day),
            (earlier.year, earlier.month, earlier.day),
        )
    }

    /// The date as `2026-06-22`.
    pub fn iso(&self) -> (r: String)
        ensures
            r@ == iso_text(self@),
    {
        proof {
            use_type_invariant(self);
        }
        chrono_format(self.year, self.month, self.day, "%Y-%m-%d")
    }

    /// The date as `260622`.
    pub fn short(&self) -> (r: String)
        ensures
            r@ == short_text(self@),
    {
        proof {
            use_type_invariant(self);
            reveal_strlit("%Y-%m-%d");
            reveal_strlit("%y%m%d");
        }
        chrono_format(self.year, self.month, self.day, "%y%m%d")
    }

    /// The date that `s` holds in the form `2026-06-22`. A date that was written in
    /// that form is read back.
    pub fn parse_iso(s: &str) -> (r: Option<Date>)
        ensures
            forall|e: Ymd| on_calendar(e) && s@ == #[trigger] iso_text(e) ==> (r matches Some(d) && d@ == e),
            match r {
                Some(d) => parsed_date(s@, "%Y-%m-%d"@) == Some(
                    (d@.year, d@.month, d@.day),
                ) && on_calendar(d@),
                None => parsed_date(s@, "%Y-%m-%d"@) is None,
            },
    {
        match chrono_parse(s, "%Y-%m-%d") {
            Some((year, month, day)) => Some(Date { year, month, day }),
            None => None,
        }
    }
}

} // verus!
