use vstd::prelude::*;
use chrono::{Datelike, Timelike};
use crate::text::{decimal, decimal_text};

verus! {

/// A day of the week.
#[derive(Debug, Clone, Copy, PartialEq, Eq, Structural)]
pub enum Weekday {
    Monday,
    Tuesday,
    Wednesday,
    Thursday,
    Friday,
    Saturday,
    Sunday,
}

/// A time of day on the local clock. A leap second is written as second 59
/// with a nanosecond count of a thousand million or more.
#[derive(Debug, Clone, Copy, PartialEq, Eq, Structural)]
pub struct TimeOfDay {
    pub hour: u8,
    pub minute: u8,
    pub second: u8,
    pub nanosecond: u32,
}

/// A point in time: whole seconds since the start of 1970 in universal
/// time, and the nanoseconds into the second.
#[derive(Debug, Clone, Copy, PartialEq, Eq, Structural)]
pub struct Timestamp {
    pub secs: i64,
    pub nanos: u32,
}

/// A moment as the scheduling rules see it: the local day of the week and
/// the local time of day.
#[derive(Debug, Clone, Copy, PartialEq, Eq, Structural)]
pub struct LocalMoment {
    pub weekday: Weekday,
    pub time: TimeOfDay,
}

/// The English name of a day, in lower case.
pub open spec fn weekday_name(day: Weekday) -> Seq<char> {
    match day {
        Weekday::Monday => "monday"@,
        Weekday::Tuesday => "tuesday"@,
        Weekday::Wednesday => "wednesday"@,
        Weekday::Thursday => "thursday"@,
        Weekday::Friday => "friday"@,
        Weekday::Saturday => "saturday"@,
        Weekday::Sunday => "sunday"@,
    }
}

/// The day that lies `n` days after a Monday, for `n` below seven.
pub open spec fn weekday_from_monday(n: int) -> Weekday {
    if n == 0 {
        Weekday::Monday
    } else if n == 1 {
        Weekday::Tuesday
    } else if n == 2 {
        Weekday::Wednesday
    } else if n == 3 {
        Weekday::Thursday
    } else if n == 4 {
        Weekday::Friday
    } else if n == 5 {
        Weekday::Saturday
    } else {
        Weekday::Sunday
    }
}

impl Weekday {
    /// The English name of the day, in lower case.
    pub fn name(&self) -> (name: &'static str)
        ensures
            name@ == weekday_name(*self),
    {
        match self {
            Weekday::Monday => "monday",
            Weekday::Tuesday => "tuesday",
            Weekday::Wednesday => "wednesday",
            Weekday::Thursday => "thursday",
            Weekday::Friday => "friday",
            Weekday::Saturday => "saturday",
            Weekday::Sunday => "sunday",
        }
    }

    /// The day that lies `n` days after a Monday; every `n` above five
    /// gives Sunday.
    pub fn from_monday(n: u8) -> (day: Weekday)
        ensures
            day == weekday_from_monday(n as int),
    {
        if n == 0 {
            Weekday::Monday
        } else if n == 1 {
            Weekday::Tuesday
        } else if n == 2 {
            Weekday::Wednesday
        } else if n == 3 {
            Weekday::Thursday
        } else if n == 4 {
            Weekday::Friday
        } else if n == 5 {
            Weekday::Saturday
        } else {
            Weekday::Sunday
        }
    }
}

/// A number written with two digits at least: a zero leads a number
/// below ten.
pub open spec fn two_digits(n: nat) -> Seq<char> {
    if n < 10 {
        seq!['0'] + decimal(n)
    } else {
        decimal(n)
    }
}

impl TimeOfDay {
    /// Whether each part lies in its range.
    pub open spec fn is_valid(&self) -> bool {
        &&& self.hour < 24
        &&& self.minute < 60
        &&& self.second < 60
        &&& self.nanosecond < 2_000_000_000
    }

    /// Whole seconds since midnight.
    pub open spec fn seconds(&self) -> int {
        self.hour as int * 3600 + self.minute as int * 60 + self.second as int
    }

    /// Whether this time is no later than `other`: earlier by whole
    /// seconds, or in the same second and no later within it.
    pub open spec fn not_after(&self, other: TimeOfDay) -> bool {
        self.seconds() < other.seconds() || (self.seconds() == other.seconds() && self.nanosecond
            <= other.nanosecond)
    }

    /// The hour and minute as they are written in a schedule.
    pub open spec fn clock_text(&self) -> Seq<char> {
        two_digits(self.hour as nat) + seq![':'] + two_digits(self.minute as nat)
    }

    /// Writes the hour and minute as they are written in a schedule, as in
    /// `09:05`.
    pub fn hour_and_minute(&self) -> (text: String)
        ensures
            text@ == self.clock_text(),
    {
        let mut text = String::new();
        if self.hour < 10 {
            text.push('0');
        }
        text.append(decimal_text(self.hour as usize).as_str());
        text.push(':');
        if self.minute < 10 {
            text.push('0');
        }
        text.append(decimal_text(self.minute as usize).as_str());
        assert(text@ =~= self.clock_text());
        text
    }

    /// Whether this time is no later than `other`.
    pub fn is_not_after(&self, other: &TimeOfDay) -> (ordered: bool)
        ensures
            ordered == self.not_after(*other),
    {
        let a: u32 = self.hour as u32 * 3600 + self.minute as u32 * 60 + self.second as u32;
        let b: u32 = other.hour as u32 * 3600 + other.minute as u32 * 60 + other.second as u32;
        a < b || (a == b && self.nanosecond <= other.nanosecond)
    }
}

/// The time of day that `chrono` reads from a text under a format, as
/// hour, minute, second and nanosecond; nothing where it reads none.
pub uninterp spec fn clock_reading(text: Seq<char>, format: Seq<char>) -> Option<
    (u8, u8, u8, u32),
>;

/// `chrono::NaiveTime::parse_from_str`, with the time it returns taken
/// apart by `hour`, `minute`, `second` and `nanosecond`. The reading depends
/// on the two texts alone; an hour is below 24, a minute and a second are
/// below 60, and a nanosecond count is below two thousand million.
#[verifier::external_body]
fn read_clock(text: &str, format: &str) -> (read: Option<(u8, u8, u8, u32)>)
    ensures
        read == clock_reading(text@, format@),
        read matches Some(t) ==> t.0 < 24 && t.1 < 60 && t.2 < 60 && t.3 < 2_000_000_000,
{
    match chrono::NaiveTime::parse_from_str(text, format) {
        Ok(t) => Some((t.hour() as u8, t.minute() as u8, t.second() as u8, t.nanosecond())),
        Err(_) => None,
    }
}

/// `chrono::Local::now`, taken apart into the number of days since Monday
/// and the hour, minute, second and nanosecond of the local time. Only the
/// ranges of the parts are claimed.
#[verifier::external_body]
fn read_local_clock() -> (now: (u8, u8, u8, u8, u32))
    ensures
        now.0 < 7,
        now.1 < 24,
        now.2 < 60,
        now.3 < 60,
        now.4 < 2_000_000_000,
{
    let now = chrono::Local::now();
    (
        now.weekday().num_days_from_monday() as u8,
        now.hour() as u8,
        now.minute() as u8,
        now.second() as u8,
        now.nanosecond(),
    )
}

/// `chrono::Utc::now`, taken apart by `timestamp` and
/// `timestamp_subsec_nanos`. Only the range of the nanoseconds is claimed.
#[verifier::external_body]
fn read_utc_clock() -> (now: (i64, u32))
    ensures
        now.1 < 2_000_000_000,
{
    let now = chrono::Utc::now();
    (now.timestamp(), now.timestamp_subsec_nanos())
}

/// The present point in time.
pub fn utc_now() -> (now: Timestamp)
    ensures
        now.nanos < 2_000_000_000,
{
    let parts = read_utc_clock();
    Timestamp { secs: parts.0, nanos: parts.1 }
}

/// The format of a schedule's times: hour and minute on the 24-hour clock.
pub open spec fn schedule_time_format() -> Seq<char> {
    "%H:%M"@
}

/// What a text says as a schedule time, if anything.
pub open spec fn schedule_time_of(text: Seq<char>) -> Option<TimeOfDay> {
    match clock_reading(text, schedule_time_format()) {
        Some(t) => Some(TimeOfDay { hour: t.0, minute: t.1, second: t.2, nanosecond: t.3 }),
        None => None,
    }
}

/// Reads a schedule time such as `09:00`.
pub fn parse_schedule_time(text: &str) -> (read: Option<TimeOfDay>)
    ensures
        read == schedule_time_of(text@),
        read matches Some(t) ==> t.is_valid(),
{
    match read_clock(text, "%H:%M") {
        Some(t) => Some(TimeOfDay { hour: t.0, minute: t.1, second: t.2, nanosecond: t.3 }),
        None => None,
    }
}

/// The present moment on the local clock.
pub fn local_now() -> (now: LocalMoment)
    ensures
        now.time.is_valid(),
{
    let parts = read_local_clock();
    LocalMoment {
        weekday: Weekday::from_monday(parts.0),
        time: TimeOfDay { hour: parts.1, minute: parts.2, second: parts.3, nanosecond: parts.4 },
    }
}

} // verus!
