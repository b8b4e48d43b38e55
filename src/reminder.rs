//! The two reminder kinds and when each fires next.

use crate::calendar::{
    LocalDateTime, TimeOfDay, Date, day_exists, day_number, day_number_of, days_before_year,
    instant_at, is_leap_year, is_valid_date, is_valid_day_month, lemma_day_in_year,
    lemma_leap_within_eight, lemma_years_apart, MAX_YEAR, SECS_PER_DAY,
};
use vstd::prelude::*;

verus! {

/// A one-shot reminder: a text sent once at a fixed local date and time.
#[derive(Clone, Debug)]
pub struct SimpleNotification {
    pub enabled: bool,
    pub text: String,
    pub date: Date,
    pub daytime: TimeOfDay,
}

/// A yearly birthday reminder, fired `preping` days ahead of the day when
/// that is set.
#[derive(Clone, Debug)]
pub struct Birthday {
    pub enabled: bool,
    pub name: String,
    pub bday: u32,
    pub bmonth: u32,
    pub byear: Option<i32>,
    pub preping: Option<u8>,
    pub daytime_to_ping: TimeOfDay,
}

/// A reminder of either kind.
#[derive(Clone, Debug)]
pub enum Notification {
    Simple(SimpleNotification),
    Birthday(Birthday),
}

impl SimpleNotification {
    pub open spec fn wf(&self) -> bool {
        self.date.wf() && self.daytime.wf()
    }

    /// The one instant at which this reminder fires.
    pub open spec fn at(&self) -> int {
        instant_at(self.date.day_number(), self.daytime.hour as int, self.daytime.minute as int, 0)
    }
}

impl Birthday {
    pub open spec fn wf(&self) -> bool {
        &&& is_valid_day_month(self.bday as int, self.bmonth as int)
        &&& self.byear matches Some(y) ==> 1 <= y <= MAX_YEAR && is_valid_date(
            y as int,
            self.bmonth as int,
            self.bday as int,
        )
        &&& self.daytime_to_ping.wf()
    }

    pub open spec fn preping_days(&self) -> int {
        match self.preping {
            Some(p) => p as int,
            None => 0,
        }
    }

    /// The instant at which the occurrence of year `y` fires: the birthday
    /// of that year, `preping` days earlier, at the time of day to ping.
    pub open spec fn occurrence(&self, y: int) -> int {
        instant_at(
            day_number(y, self.bmonth as int, self.bday as int) - self.preping_days(),
            self.daytime_to_ping.hour as int,
            self.daytime_to_ping.minute as int,
            0,
        )
    }

    /// Year `y` has the birthday, and its occurrence is not before `now`.
    pub open spec fn fires_in(&self, now: LocalDateTime, y: int) -> bool {
        is_valid_date(y, self.bmonth as int, self.bday as int) && self.occurrence(y) >= now.instant()
    }

    /// `y` is the first year from `now`'s on whose occurrence is not before `now`.
    pub open spec fn is_next_year(&self, now: LocalDateTime, y: int) -> bool {
        &&& now.date.year <= y
        &&& self.fires_in(now, y)
        &&& forall|z: int| now.date.year <= z < y ==> !self.fires_in(now, z)
    }

    /// The instant of the nearest occurrence not before `now`.
    pub open spec fn next_occurrence(&self, now: LocalDateTime) -> int {
        self.occurrence(choose|y: int| self.is_next_year(now, y))
    }
}

impl Notification {
    pub open spec fn wf(&self) -> bool {
        match self {
            Notification::Simple(s) => s.wf(),
            Notification::Birthday(b) => b.wf(),
        }
    }

    pub open spec fn is_enabled(&self) -> bool {
        match self {
            Notification::Simple(s) => s.enabled,
            Notification::Birthday(b) => b.enabled,
        }
    }

    /// A birthday recurs every year; a simple reminder fires once.
    pub open spec fn recurs(&self) -> bool {
        self is Birthday
    }

    /// The instant at which the reminder fires next, seen from `now`.
    pub open spec fn next_ping_at(&self, now: LocalDateTime) -> Option<int> {
        if !self.is_enabled() {
            None
        } else {
            match self {
                Notification::Simple(s) => Some(s.at()),
                Notification::Birthday(b) => Some(b.next_occurrence(now)),
            }
        }
    }

    /// The same reminder with its enabled flag set to `on`.
    pub open spec fn with_enabled(&self, on: bool) -> Notification {
        match self {
            Notification::Simple(s) => Notification::Simple(SimpleNotification { enabled: on, ..*s }),
            Notification::Birthday(b) => Notification::Birthday(Birthday { enabled: on, ..*b }),
        }
    }
}

/// Two years after `now`'s, any year with the birthday fires after `now`;
/// and some year of the eight from there has the birthday.
proof fn lemma_next_year_exists(b: Birthday, now: LocalDateTime)
    requires
        b.wf(),
        now.wf(),
    ensures
        exists|y: int| now.date.year + 2 <= y < now.date.year + 10 && #[trigger] b.fires_in(now, y),
{
    let yy = now.date.year as int;
    let m = b.bmonth as int;
    let d = b.bday as int;
    let w: int;
    if m == 2 && d == 29 {
        lemma_leap_within_eight(yy + 2);
        w = choose|y: int| yy + 2 <= y < yy + 10 && is_leap_year(y);
    } else {
        w = yy + 2;
    }
    assert(is_valid_date(w, m, d));
    lemma_day_in_year(yy, now.date.month as int, now.date.day as int);
    lemma_day_in_year(w, m, d);
    lemma_years_apart(yy, w);
    assert(b.fires_in(now, w)) by (nonlinear_arith)
        requires
            b.occurrence(w) == (day_number(w, m, d) - b.preping_days()) * 86400
                + b.daytime_to_ping.hour * 3600 + b.daytime_to_ping.minute * 60,
            now.instant() == now.date.day_number() * 86400 + now.time.hour * 3600
                + now.time.minute * 60 + now.second,
            now.date.day_number() <= days_before_year(yy) + 365,
            day_number(w, m, d) >= days_before_year(w),
            days_before_year(w) >= days_before_year(yy) + 730,
            0 <= b.preping_days() <= 255,
            now.time.hour < 24,
            now.time.minute < 60,
            now.second < 60,
            b.daytime_to_ping.hour >= 0,
            b.daytime_to_ping.minute >= 0,
            is_valid_date(w, m, d),
            b.fires_in(now, w) == (is_valid_date(w, m, d) && b.occurrence(w) >= now.instant()),
    ;
}

impl Birthday {
    /// The occurrence of year `y`, as seconds.
    fn occurrence_secs(&self, y: i32) -> (r: i64)
        requires
            self.wf(),
            1 <= y <= MAX_YEAR + 10,
        ensures
            r == self.occurrence(y as int),
    {
        let day = day_number_of(y, self.bmonth, self.bday);
        let p: i64 = match self.preping {
            Some(p) => p as i64,
            None => 0,
        };
        (day - p) * SECS_PER_DAY + (self.daytime_to_ping.hour as i64) * 3600
            + (self.daytime_to_ping.minute as i64) * 60
    }

    /// The nearest occurrence not before `now`; `None` when disabled.
    pub fn next_ping(&self, now: &LocalDateTime) -> (r: Option<i64>)
        requires
            self.wf(),
            now.wf(),
        ensures
            !self.enabled ==> r is None,
            self.enabled ==> (r matches Some(t) && t == self.next_occurrence(*now)),
            self.enabled ==> exists|y: int| #[trigger]
                self.is_next_year(*now, y) && y <= now.date.year + 9,
    {
        if !self.enabled {
            return None;
        }
        let now_secs = now.instant_secs();
        let mut y: i32 = now.date.year;
        proof {
            lemma_next_year_exists(*self, *now);
        }
        loop
            invariant
                self.wf(),
                now.wf(),
                self.enabled,
                now_secs == now.instant(),
                now.date.year <= y <= now.date.year + 9,
                forall|z: int| now.date.year <= z < y ==> !self.fires_in(*now, z),
                exists|z: int| now.date.year + 2 <= z < now.date.year + 10 && #[trigger] self.fires_in(*now, z),
            decreases now.date.year + 10 - y,
        {
            if day_exists(y, self.bmonth, self.bday) {
                let t = self.occurrence_secs(y);
                if t >= now_secs {
                    assert(self.is_next_year(*now, y as int));
                    proof {
                        let c = choose|z: int| self.is_next_year(*now, z);
                        if c < y {
                            assert(!self.fires_in(*now, c));
                        }
                        if c > y {
                            assert(!self.fires_in(*now, y as int));
                        }
                    }
                    return Some(t);
                }
            }
            assert(!self.fires_in(*now, y as int));
            if y >= now.date.year + 9 {
                proof {
                    let z = choose|z: int| now.date.year + 2 <= z < now.date.year + 10 && #[trigger] self.fires_in(*now, z);
                    assert(z <= y);
                }
            }
            y = y + 1;
        }
    }
}

impl SimpleNotification {
    /// The fixed instant when enabled; `None` when disabled.
    pub fn next_ping(&self) -> (r: Option<i64>)
        requires
            self.wf(),
        ensures
            !self.enabled ==> r is None,
            self.enabled ==> (r matches Some(t) && t == self.at()),
    {
        if !self.enabled {
            return None;
        }
        let day = day_number_of(self.date.year, self.date.month, self.date.day);
        Some(day * SECS_PER_DAY + (self.daytime.hour as i64) * 3600 + (self.daytime.minute as i64)
            * 60)
    }
}

pub open spec fn as_int_opt(o: Option<i64>) -> Option<int> {
    match o {
        Some(t) => Some(t as int),
        None => None,
    }
}

impl Notification {
    pub fn enabled(&self) -> (r: bool)
        ensures
            r == self.is_enabled(),
    {
        match self {
            Notification::Simple(s) => s.enabled,
            Notification::Birthday(b) => b.enabled,
        }
    }

    pub fn enable(&mut self)
        ensures
            *final(self) == old(self).with_enabled(true),
    {
        match self {
            Notification::Simple(s) => s.enabled = true,
            Notification::Birthday(b) => b.enabled = true,
        }
    }

    pub fn disable(&mut self)
        ensures
            *final(self) == old(self).with_enabled(false),
    {
        match self {
            Notification::Simple(s) => s.enabled = false,
            Notification::Birthday(b) => b.enabled = false,
        }
    }

    /// Days ahead of the date that the reminder fires, if any.
    pub fn preping(&self) -> (r: Option<u8>)
        ensures
            self is Simple ==> r is None,
            self matches Notification::Birthday(b) ==> r == b.preping,
    {
        match self {
            Notification::Simple(_) => None,
            Notification::Birthday(b) => b.preping,
        }
    }

    pub fn is_recurring(&self) -> (r: bool)
        ensures
            r == self.recurs(),
    {
        match self {
            Notification::Simple(_) => false,
            Notification::Birthday(_) => true,
        }
    }

    /// The text sent when the reminder fires: the reminder's text, or the
    /// birthday person's name.
    pub open spec fn message_view(&self) -> Seq<char> {
        match self {
            Notification::Simple(s) => s.text@,
            Notification::Birthday(b) => b.name@,
        }
    }

    pub fn message(&self) -> (r: String)
        ensures
            r@ == self.message_view(),
    {
        match self {
            Notification::Simple(s) => s.text.clone(),
            Notification::Birthday(b) => b.name.clone(),
        }
    }

    /// The name the reminder is registered under: its text or the
    /// birthday person's name.
    pub fn name(&self) -> (r: String)
        ensures
            r@ == self.name_view(),
    {
        match self {
            Notification::Simple(s) => s.text.clone(),
            Notification::Birthday(b) => b.name.clone(),
        }
    }

    pub open spec fn name_view(&self) -> Seq<char> {
        match self {
            Notification::Simple(s) => s.text@,
            Notification::Birthday(b) => b.name@,
        }
    }

    /// The instant of the next firing, seen from `now`; `None` when disabled.
    pub fn next_ping(&self, now: &LocalDateTime) -> (r: Option<i64>)
        requires
            self.wf(),
            now.wf(),
        ensures
            as_int_opt(r) == self.next_ping_at(*now),
    {
        match self {
            Notification::Simple(s) => s.next_ping(),
            Notification::Birthday(b) => b.next_ping(now),
        }
    }
}

proof fn lemma_first_year_from(b: Birthday, now: LocalDateTime, y: int)
    requires
        now.date.year <= y,
        forall|z: int| now.date.year <= z < y ==> !b.fires_in(now, z),
        exists|z: int| y <= z < now.date.year + 10 && #[trigger] b.fires_in(now, z),
    ensures
        exists|z: int| #[trigger] b.is_next_year(now, z),
    decreases now.date.year + 10 - y,
{
    if b.fires_in(now, y) {
        assert(b.is_next_year(now, y));
    } else {
        let w = choose|z: int| y <= z < now.date.year + 10 && #[trigger] b.fires_in(now, z);
        assert(w != y);
        lemma_first_year_from(b, now, y + 1);
    }
}

proof fn lemma_day_number_bound(y: int, m: int, d: int)
    requires
        1 <= y <= 2 * MAX_YEAR + 2,
        is_valid_date(y, m, d),
    ensures
        0 <= day_number(y, m, d) <= 8_000_000,
{
    lemma_day_in_year(y, m, d);
}

/// An enabled birthday always has a next occurrence, and it is not
/// before `now`.
pub proof fn lemma_next_occurrence_not_before(b: Birthday, now: LocalDateTime)
    requires
        b.wf(),
        now.wf(),
    ensures
        b.is_next_year(now, choose|y: int| b.is_next_year(now, y)),
        b.next_occurrence(now) >= now.instant(),
        b.next_occurrence(now) < 1_000_000_000_000,
{
    lemma_next_year_exists(b, now);
    lemma_first_year_from(b, now, now.date.year as int);
    let c = choose|y: int| b.is_next_year(now, y);
    let z = choose|z: int| now.date.year + 2 <= z < now.date.year + 10 && #[trigger] b.fires_in(now, z);
    assert(c <= z);
    lemma_day_number_bound(c, b.bmonth as int, b.bday as int);
}

/// Disabling a reminder leaves it with no trigger; enabling it again later
/// gives a trigger strictly after the moment it was disabled. A simple
/// reminder's one instant must itself lie after that moment.
pub proof fn lemma_disable_then_enable(n: Notification, disabled_at: LocalDateTime, enabled_at: LocalDateTime)
    requires
        n.wf(),
        disabled_at.wf(),
        enabled_at.wf(),
        disabled_at.instant() < enabled_at.instant(),
        n matches Notification::Simple(s) ==> s.at() > disabled_at.instant(),
    ensures
        n.with_enabled(false).next_ping_at(disabled_at) is None,
        n.with_enabled(false).with_enabled(true).next_ping_at(enabled_at) matches Some(t) && t
            > disabled_at.instant(),
{
    let m = n.with_enabled(false).with_enabled(true);
    if let Notification::Birthday(b) = m {
        lemma_next_occurrence_not_before(b, enabled_at);
    }
}

} // verus!
