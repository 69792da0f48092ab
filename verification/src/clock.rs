//! Times of day, calendar dates, and the wrap-around distance between two
//! times of day.

use crate::text::{padded, push_padded};
use chrono::{Datelike, Local, NaiveDate, Timelike};
use vstd::prelude::*;

verus! {

/// A time of day to the second.
#[derive(Clone, Copy, Debug, PartialEq, Eq, Structural)]
pub struct EventTime {
    pub hour: u32,
    pub minute: u32,
    pub second: u32,
}

/// A calendar date in the proleptic Gregorian calendar.
#[derive(Clone, Copy, Debug, PartialEq, Eq, Structural)]
pub struct EventDate {
    pub year: i32,
    pub month: u32,
    pub day: u32,
}

/// Seconds until `target` next occurs when the clock reads `now`, both given
/// as seconds since midnight. A target that is not strictly ahead of the clock
/// is reached on the following day, so the distance is never zero.
pub open spec fn wrap_distance(now: int, target: int) -> int {
    if target > now {
        target - now
    } else {
        target - now + 86400
    }
}

/// Whether `year` is a leap year of the Gregorian calendar.
pub open spec fn is_leap_year(year: int) -> bool {
    year % 4 == 0 && (year % 100 != 0 || year % 400 == 0)
}

/// Number of days of `month` in `year`; 0 for a month outside 1..=12.
pub open spec fn days_in_month(year: int, month: int) -> int {
    if month == 2 {
        if is_leap_year(year) {
            29
        } else {
            28
        }
    } else if month == 4 || month == 6 || month == 9 || month == 11 {
        30
    } else if 1 <= month <= 12 {
        31
    } else {
        0
    }
}

/// The earliest year a date may lie in.
pub const MIN_YEAR: i32 = -262143;

/// The latest year a date may lie in.
pub const MAX_YEAR: i32 = 262142;

/// Whether year, month and day name a day that exists.
pub open spec fn is_calendar_day(year: int, month: int, day: int) -> bool {
    &&& MIN_YEAR <= year <= MAX_YEAR
    &&& 1 <= month <= 12
    &&& 1 <= day <= days_in_month(year, month)
}

impl EventTime {
    /// Hour below 24, minute and second below 60.
    pub open spec fn wf(&self) -> bool {
        self.hour < 24 && self.minute < 60 && self.second < 60
    }

    /// Seconds since midnight.
    pub open spec fn seconds(&self) -> int {
        self.hour * 3600 + self.minute * 60 + self.second
    }

    /// Midnight.
    pub fn midnight() -> (t: EventTime)
        ensures
            t == (EventTime { hour: 0, minute: 0, second: 0 }),
    {
        EventTime { hour: 0, minute: 0, second: 0 }
    }

    /// The time `hour:minute:second`, where it exists.
    pub fn from_hms_opt(hour: u32, minute: u32, second: u32) -> (t: Option<EventTime>)
        ensures
            t == if hour < 24 && minute < 60 && second < 60 {
                Some(EventTime { hour, minute, second })
            } else {
                None
            },
    {
        if hour < 24 && minute < 60 && second < 60 {
            Some(EventTime { hour, minute, second })
        } else {
            None
        }
    }

    /// Seconds since midnight.
    pub fn num_seconds_from_midnight(&self) -> (s: u64)
        ensures
            s == self.seconds(),
    {
        self.hour as u64 * 3600 + self.minute as u64 * 60 + self.second as u64
    }
}

/// The wrap-around distance from one time of day to another.
pub trait Diff {
    /// The reading of `self` in seconds since midnight.
    spec fn reading(&self) -> int;

    /// Seconds from `self` until `other` next occurs.
    fn timeDif(&self, other: &EventTime) -> (d: i64)
        ensures
            d == wrap_distance(self.reading(), other.seconds()),
    ;
}

impl Diff for EventTime {
    open spec fn reading(&self) -> int {
        self.seconds()
    }

    fn timeDif(&self, other: &EventTime) -> (d: i64) {
        let current_secs: i64 = self.num_seconds_from_midnight() as i64;
        let target_secs: i64 = other.num_seconds_from_midnight() as i64;
        let difference: i64 = target_secs - current_secs;
        if difference > 0 {
            difference
        } else {
            difference + 24 * 3600
        }
    }
}

impl EventDate {
    /// The date names a day that exists.
    pub open spec fn wf(&self) -> bool {
        is_calendar_day(self.year as int, self.month as int, self.day as int)
    }

    /// `self` lies strictly before `other`.
    pub open spec fn precedes(&self, other: &EventDate) -> bool {
        self.year < other.year || (self.year == other.year && (self.month < other.month || (
        self.month == other.month && self.day < other.day)))
    }

    /// The first day of 1970.
    pub fn epoch() -> (d: EventDate)
        ensures
            d == (EventDate { year: 1970, month: 1, day: 1 }),
            d.wf(),
    {
        EventDate { year: 1970, month: 1, day: 1 }
    }

    /// The date of `day` in `month` of `year`, where that day exists.
    pub fn from_ymd_opt(year: i32, month: u32, day: u32) -> (d: Option<EventDate>)
        ensures
            d == if is_calendar_day(year as int, month as int, day as int) {
                Some(EventDate { year, month, day })
            } else {
                None
            },
    {
        if year < MIN_YEAR || year > MAX_YEAR || month < 1 || month > 12 || day < 1 {
            return None;
        }
        // a multiple of 400 years later, where the year is positive
        let shifted: u32 = (year + 262400) as u32;
        let leap: bool = shifted % 4 == 0 && (shifted % 100 != 0 || shifted % 400 == 0);
        assert(leap == is_leap_year(year as int));
        let last: u32 = if month == 2 {
            if leap {
                29
            } else {
                28
            }
        } else if month == 4 || month == 6 || month == 9 || month == 11 {
            30
        } else {
            31
        };
        if day <= last {
            Some(EventDate { year, month, day })
        } else {
            None
        }
    }

    /// Whether `self` lies strictly before `other`.
    pub fn is_before(&self, other: &EventDate) -> (b: bool)
        ensures
            b == self.precedes(other),
    {
        self.year < other.year || (self.year == other.year && (self.month < other.month || (
        self.month == other.month && self.day < other.day)))
    }
}

/// The number of days from the second date to the first, as the calendar
/// counts them; negative where the first date is the earlier one.
pub uninterp spec fn days_between(
    year: int,
    month: int,
    day: int,
    since_year: int,
    since_month: int,
    since_day: int,
) -> int;

impl EventDate {
    /// The number of days from `earlier` to `self`.
    pub open spec fn days_since(&self, earlier: &EventDate) -> int {
        days_between(
            self.year as int,
            self.month as int,
            self.day as int,
            earlier.year as int,
            earlier.month as int,
            earlier.day as int,
        )
    }

    /// The text of the date: the year in at least four digits, with a sign
    /// where it lies outside 0..=9999, then month and day in two digits, with
    /// hyphens between them.
    pub open spec fn text(&self) -> Seq<char> {
        let year = if 0 <= self.year <= 9999 {
            padded(self.year as nat, 4)
        } else if self.year < 0 {
            seq!['-'] + padded((-self.year) as nat, 4)
        } else {
            seq!['+'] + padded(self.year as nat, 4)
        };
        year + seq!['-'] + padded(self.month as nat, 2) + seq!['-'] + padded(self.day as nat, 2)
    }

    /// The text of the date.
    pub fn to_text(&self) -> (out: String)
        ensures
            out@ == self.text(),
    {
        let mut out: String = String::new();
        if 0 <= self.year && self.year <= 9999 {
            push_padded(&mut out, self.year as u64, 4);
        } else if self.year < 0 {
            out.push('-');
            push_padded(&mut out, (-(self.year as i64)) as u64, 4);
        } else {
            out.push('+');
            push_padded(&mut out, self.year as u64, 4);
        }
        out.push('-');
        push_padded(&mut out, self.month as u64, 2);
        out.push('-');
        push_padded(&mut out, self.day as u64, 2);
        assert(out@ =~= self.text());
        out
    }
}

impl EventTime {
    /// The text of the time: hour, minute and second in two digits each,
    /// with colons between them.
    pub open spec fn text(&self) -> Seq<char> {
        padded(self.hour as nat, 2) + seq![':'] + padded(self.minute as nat, 2) + seq![':']
            + padded(self.second as nat, 2)
    }

    /// The text of the time.
    pub fn to_text(&self) -> (out: String)
        ensures
            out@ == self.text(),
    {
        let mut out: String = String::new();
        push_padded(&mut out, self.hour as u64, 2);
        out.push(':');
        push_padded(&mut out, self.minute as u64, 2);
        out.push(':');
        push_padded(&mut out, self.second as u64, 2);
        assert(out@ =~= self.text());
        out
    }
}

/// Makes both dates with `NaiveDate::from_ymd_opt` of chrono, which gives a
/// date for every day that exists, calls `NaiveDate::signed_duration_since`
/// on them and takes `TimeDelta::num_days` of what it returns. The count is
/// a function of the two dates alone; it is not computed here, only named.
#[verifier::external_body]
pub(crate) fn days_from(date: &EventDate, earlier: &EventDate) -> (days: i64)
    requires
        date.wf(),
        earlier.wf(),
    ensures
        days == days_between(
            date.year as int,
            date.month as int,
            date.day as int,
            earlier.year as int,
            earlier.month as int,
            earlier.day as int,
        ),
{
    let a = NaiveDate::from_ymd_opt(date.year, date.month, date.day).unwrap();
    let b = NaiveDate::from_ymd_opt(earlier.year, earlier.month, earlier.day).unwrap();
    a.signed_duration_since(b).num_days()
}

/// Calls `Local::now` of chrono and takes hour, minute and second of the
/// time of day that it returns. Nothing is claimed of the reading but that
/// it is a time of day; two readings may differ.
#[verifier::external_body]
pub(crate) fn local_time() -> (now: EventTime)
    ensures
        now.wf(),
{
    let t = Local::now().time();
    EventTime { hour: t.hour(), minute: t.minute(), second: t.second() }
}

/// Calls `Local::now` of chrono and takes year, month and day of the date
/// that it returns. Nothing is claimed of the date but that it names a day
/// that exists; two readings may differ.
#[verifier::external_body]
pub(crate) fn local_date() -> (today: EventDate)
    ensures
        today.wf(),
{
    let d = Local::now().date_naive();
    EventDate { year: d.year(), month: d.month(), day: d.day() }
}

} // verus!
