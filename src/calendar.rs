//! Calendar model: dates, times of day and instants counted in seconds
//! from 0001-01-01 00:00:00 of a fixed local offset.

use chrono::{Datelike, Timelike};
use vstd::prelude::*;

verus! {

/// Largest year that a date of this library may carry.
pub const MAX_YEAR: i32 = 9999;

/// Largest year of chrono's `NaiveDate`.
pub const CHRONO_MAX_YEAR: i32 = 262142;

/// The fixed local offset east of UTC, in seconds (UTC+3).
pub const LOCAL_OFFSET_SECS: i32 = 10800;

pub const SECS_PER_DAY: i64 = 86400;

pub open spec fn is_leap_year(y: int) -> bool {
    (y % 4 == 0 && y % 100 != 0) || y % 400 == 0
}

pub open spec fn days_in_month(y: int, m: int) -> int {
    if m == 2 {
        if is_leap_year(y) { 29 } else { 28 }
    } else if m == 4 || m == 6 || m == 9 || m == 11 {
        30
    } else {
        31
    }
}

/// The day `d` of month `m` exists in year `y`.
pub open spec fn is_valid_date(y: int, m: int, d: int) -> bool {
    1 <= m <= 12 && 1 <= d <= days_in_month(y, m)
}

/// The day and month exist in some year (29 February included).
pub open spec fn is_valid_day_month(d: int, m: int) -> bool {
    is_valid_date(4, m, d)
}

/// Days of year `y` before the first of month `m`.
pub open spec fn days_before_month(y: int, m: int) -> int
    decreases m,
{
    if m <= 1 {
        0
    } else {
        days_before_month(y, m - 1) + days_in_month(y, m - 1)
    }
}

/// Days from 0001-01-01 to the first of January of year `y`.
pub open spec fn days_before_year(y: int) -> int {
    365 * (y - 1) + (y - 1) / 4 - (y - 1) / 100 + (y - 1) / 400
}

/// Days from 0001-01-01 to the given date.
pub open spec fn day_number(y: int, m: int, d: int) -> int {
    days_before_year(y) + days_before_month(y, m) + d - 1
}

/// Seconds from 0001-01-01 00:00:00 to the given day at the given time.
pub open spec fn instant_at(day: int, hour: int, minute: int, second: int) -> int {
    day * 86400 + hour * 3600 + minute * 60 + second
}

/// A calendar date.
#[derive(Clone, Copy, Debug, PartialEq, Eq, Structural)]
pub struct Date {
    pub year: i32,
    pub month: u32,
    pub day: u32,
}

/// A time of day with minute resolution.
#[derive(Clone, Copy, Debug, PartialEq, Eq, Structural)]
pub struct TimeOfDay {
    pub hour: u32,
    pub minute: u32,
}

/// A local date and time with second resolution.
#[derive(Clone, Copy, Debug, PartialEq, Eq, Structural)]
pub struct LocalDateTime {
    pub date: Date,
    pub time: TimeOfDay,
    pub second: u32,
}

impl Date {
    pub open spec fn wf(&self) -> bool {
        &&& 1 <= self.year <= MAX_YEAR
        &&& is_valid_date(self.year as int, self.month as int, self.day as int)
    }

    pub open spec fn day_number(&self) -> int {
        day_number(self.year as int, self.month as int, self.day as int)
    }
}

impl TimeOfDay {
    pub open spec fn wf(&self) -> bool {
        self.hour < 24 && self.minute < 60
    }

    /// Seconds since midnight.
    pub open spec fn secs(&self) -> int {
        self.hour * 3600 + self.minute * 60
    }
}

impl LocalDateTime {
    pub open spec fn wf(&self) -> bool {
        self.date.wf() && self.time.wf() && self.second < 60
    }

    pub open spec fn instant(&self) -> int {
        instant_at(self.date.day_number(), self.time.hour as int, self.time.minute as int,
            self.second as int)
    }

    /// Seconds from 0001-01-01 00:00:00 to this moment.
    pub fn instant_secs(&self) -> (r: i64)
        requires
            self.wf(),
        ensures
            r == self.instant(),
            r >= 0,
    {
        let day = day_number_of(self.date.year, self.date.month, self.date.day);
        day * SECS_PER_DAY + (self.time.hour as i64) * 3600 + (self.time.minute as i64) * 60
            + self.second as i64
    }
}

#[verifier::external_type_specification]
#[verifier::external_body]
pub struct ExNaiveDate(chrono::NaiveDate);

#[verifier::external_type_specification]
#[verifier::external_body]
pub struct ExNaiveTime(chrono::NaiveTime);

/// chrono's `NaiveDate::from_ymd_opt` gives a date exactly when the calendar
/// day exists; its year range reaches far beyond `MAX_YEAR`.
pub assume_specification[ chrono::NaiveDate::from_ymd_opt ](year: i32, month: u32, day: u32) -> (r:
    Option<chrono::NaiveDate>)
    ensures
        1 <= year <= CHRONO_MAX_YEAR ==> (r is Some <==> is_valid_date(
            year as int,
            month as int,
            day as int,
        )),
;

/// chrono's `NaiveTime::from_hms_opt` gives a time exactly when hour, minute
/// and second are in range.
pub assume_specification[ chrono::NaiveTime::from_hms_opt ](hour: u32, min: u32, sec: u32) -> (r:
    Option<chrono::NaiveTime>)
    ensures
        r is Some <==> (hour < 24 && min < 60 && sec < 60),
;

/// The date exists and lies in the years this library handles.
pub fn date_exists(year: i32, month: u32, day: u32) -> (r: bool)
    ensures
        r == (1 <= year <= MAX_YEAR && is_valid_date(year as int, month as int, day as int)),
{
    if year < 1 || year > MAX_YEAR {
        return false;
    }
    day_exists(year, month, day)
}

/// The date exists, for a year in `1..=CHRONO_MAX_YEAR`.
pub fn day_exists(year: i32, month: u32, day: u32) -> (r: bool)
    requires
        1 <= year <= CHRONO_MAX_YEAR,
    ensures
        r == is_valid_date(year as int, month as int, day as int),
{
    chrono::NaiveDate::from_ymd_opt(year, month, day).is_some()
}

/// The hour and minute form a time of day.
pub fn time_exists(hour: u32, minute: u32) -> (r: bool)
    ensures
        r == (TimeOfDay { hour, minute }).wf(),
{
    chrono::NaiveTime::from_hms_opt(hour, minute, 0).is_some()
}

/// Relies on chrono's `Utc::now` shifted by `FixedOffset::east_opt(offset)`:
/// the calendar fields of a chrono date-time are always a real date with
/// month 1..=12, hour 0..=23, minute and second 0..=59.
#[verifier::external_body]
fn clock_now(offset: i32) -> (r: LocalDateTime)
    requires
        -86400 < offset < 86400,
    ensures
        is_valid_date(r.date.year as int, r.date.month as int, r.date.day as int),
        r.time.wf(),
        r.second < 60,
{
    let t = chrono::Utc::now().with_timezone(&chrono::FixedOffset::east_opt(offset).unwrap());
    LocalDateTime {
        date: Date { year: t.year(), month: t.month(), day: t.day() },
        time: TimeOfDay { hour: t.hour(), minute: t.minute() },
        second: t.second(),
    }
}

/// The current local time, or `None` when the clock reads a year outside
/// `1..=MAX_YEAR`.
pub fn current_local_time() -> (r: Option<LocalDateTime>)
    ensures
        r matches Some(t) ==> t.wf(),
{
    let t = clock_now(LOCAL_OFFSET_SECS);
    if t.date.year < 1 || t.date.year > MAX_YEAR {
        None
    } else {
        Some(t)
    }
}

/// Days of the year before the given month, month by month.
fn days_before_month_of(year: i32, month: u32) -> (r: i64)
    requires
        1 <= month <= 12,
    ensures
        r == days_before_month(year as int, month as int),
        0 <= r <= 335,
{
    reveal_with_fuel(days_before_month, 12);
    let leap: i64 = if is_leap(year) { 1 } else { 0 };
    match month {
        1 => 0,
        2 => 31,
        3 => 59 + leap,
        4 => 90 + leap,
        5 => 120 + leap,
        6 => 151 + leap,
        7 => 181 + leap,
        8 => 212 + leap,
        9 => 243 + leap,
        10 => 273 + leap,
        11 => 304 + leap,
        _ => 334 + leap,
    }
}

pub fn is_leap(year: i32) -> (r: bool)
    ensures
        r == is_leap_year(year as int),
{
    (year % 4 == 0 && year % 100 != 0) || year % 400 == 0
}

/// Day number of a date whose year lies in `1..=2 * MAX_YEAR + 2`.
pub fn day_number_of(year: i32, month: u32, day: u32) -> (r: i64)
    requires
        1 <= year <= 2 * MAX_YEAR + 2,
        1 <= month <= 12,
        1 <= day <= 31,
    ensures
        r == day_number(year as int, month as int, day as int),
        0 <= r <= 8_000_000,
{
    let p = (year - 1) as i64;
    let before_year = 365 * p + p / 4 - p / 100 + p / 400;
    before_year + days_before_month_of(year, month) + day as i64 - 1
}

proof fn lemma_div_step(q: int, c: int)
    requires
        q >= 0,
        c > 0,
    ensures
        (q + 1) % c == 0 ==> (q + 1) / c == q / c + 1,
        (q + 1) % c != 0 ==> (q + 1) / c == q / c,
{
    let a = (q + 1) / c;
    let b = q / c;
    vstd::arithmetic::div_mod::lemma_fundamental_div_mod(q, c);
    vstd::arithmetic::div_mod::lemma_fundamental_div_mod(q + 1, c);
    vstd::arithmetic::div_mod::lemma_mod_bound(q, c);
    vstd::arithmetic::div_mod::lemma_mod_bound(q + 1, c);
    assert(c * (a - b) == c * a - c * b) by (nonlinear_arith);
    assert(0 <= a - b <= 1) by (nonlinear_arith)
        requires
            c * (a - b) > -c,
            c * (a - b) <= c,
            c > 0,
    ;
}

/// Each year is 365 or 366 days long.
pub proof fn lemma_year_length(y: int)
    requires
        y >= 1,
    ensures
        days_before_year(y + 1) >= days_before_year(y) + 365,
        days_before_year(y + 1) <= days_before_year(y) + 366,
{
    let q = y - 1;
    lemma_div_step(q, 4);
    lemma_div_step(q, 100);
    lemma_div_step(q, 400);
    if (q + 1) % 100 == 0 {
        assert((q + 1) % 4 == 0);
    }
    if (q + 1) % 400 == 0 {
        assert((q + 1) % 100 == 0);
    }
}

/// Later years start later, by at least 365 days a year.
pub proof fn lemma_years_apart(a: int, b: int)
    requires
        1 <= a <= b,
    ensures
        days_before_year(b) >= days_before_year(a) + 365 * (b - a),
    decreases b - a,
{
    if a < b {
        lemma_years_apart(a, b - 1);
        lemma_year_length(b - 1);
    }
}

/// A day of year `y` lies within that year.
pub proof fn lemma_day_in_year(y: int, m: int, d: int)
    requires
        y >= 1,
        is_valid_date(y, m, d),
    ensures
        days_before_year(y) <= day_number(y, m, d) <= days_before_year(y) + 365,
{
    reveal_with_fuel(days_before_month, 12);
}

/// Every eight consecutive years hold a leap year.
pub proof fn lemma_leap_within_eight(a: int)
    ensures
        exists|y: int| a <= y < a + 8 && is_leap_year(y),
{
    let k = a + (4 - a % 4) % 4;
    assert(k % 4 == 0);
    if k % 100 != 0 {
        assert(is_leap_year(k));
    } else {
        assert((k + 4) % 100 == 4);
        assert(is_leap_year(k + 4));
    }
}

} // verus!
