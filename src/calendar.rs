//! UTC calendar dates and times of day, checked against the proleptic
//! Gregorian calendar by chrono.
use vstd::prelude::*;

verus! {

/// Earliest year that chrono's dates cover.
pub const MIN_YEAR: i32 = -262143;

/// Latest year that chrono's dates cover.
pub const MAX_YEAR: i32 = 262142;

pub open spec fn is_leap_year(y: int) -> bool {
    (y % 4 == 0 && y % 100 != 0) || y % 400 == 0
}

pub open spec fn days_in_month(y: int, m: int) -> int {
    if m == 2 {
        if is_leap_year(y) { 29 } else { 28 }
    } else if m == 4 || m == 6 || m == 9 || m == 11 {
        30
    } else {
        31
    }
}

/// A day that exists in the proleptic Gregorian calendar, within chrono's
/// range of years.
pub open spec fn is_calendar_date(y: int, m: int, d: int) -> bool {
    &&& MIN_YEAR <= y <= MAX_YEAR
    &&& 1 <= m <= 12
    &&& 1 <= d <= days_in_month(y, m)
}

pub open spec fn is_time_of_day(h: int, m: int, s: int) -> bool {
    0 <= h < 24 && 0 <= m < 60 && 0 <= s < 60
}

/// Relies on chrono::NaiveDate::from_ymd_opt: `Some` exactly for an existing
/// Gregorian day in a year from MIN_YEAR to MAX_YEAR.
#[verifier::external_body]
fn chrono_date_exists(year: i32, month: u32, day: u32) -> (r: bool)
    ensures
        r == is_calendar_date(year as int, month as int, day as int),
{
    chrono::NaiveDate::from_ymd_opt(year, month, day).is_some()
}

/// Relies on chrono::NaiveTime::from_hms_opt: `Some` exactly when the hour is
/// below 24 and the minute and second below 60.
#[verifier::external_body]
fn chrono_time_exists(hour: u32, min: u32, sec: u32) -> (r: bool)
    ensures
        r == is_time_of_day(hour as int, min as int, sec as int),
{
    chrono::NaiveTime::from_hms_opt(hour, min, sec).is_some()
}

/// A calendar day in UTC.
#[derive(Debug, Copy, Clone, PartialEq, Eq, PartialOrd, Ord, Hash, Structural)]
pub struct UtcDate {
    pub year: i32,
    pub month: u32,
    pub day: u32,
}

impl UtcDate {
    pub open spec fn wf(&self) -> bool {
        is_calendar_date(self.year as int, self.month as int, self.day as int)
    }

    /// The given day, if it exists.
    pub fn with_ymd(year: i32, month: u32, day: u32) -> (r: Option<UtcDate>)
        ensures
            r == (if is_calendar_date(year as int, month as int, day as int) {
                Some(UtcDate { year, month, day })
            } else {
                None
            }),
    {
        if chrono_date_exists(year, month, day) {
            Some(UtcDate { year, month, day })
        } else {
            None
        }
    }

    /// The instant at the given time of day on this date, if the time exists.
    pub fn and_hms(&self, hour: u32, minute: u32, second: u32) -> (r: Option<UtcDateTime>)
        ensures
            r == (if is_time_of_day(hour as int, minute as int, second as int) {
                Some(UtcDateTime { date: *self, hour, minute, second })
            } else {
                None
            }),
    {
        if chrono_time_exists(hour, minute, second) {
            Some(UtcDateTime { date: *self, hour, minute, second })
        } else {
            None
        }
    }
}

/// An instant in UTC, to the second.
#[derive(Debug, Copy, Clone, PartialEq, Eq, PartialOrd, Ord, Hash, Structural)]
pub struct UtcDateTime {
    pub date: UtcDate,
    pub hour: u32,
    pub minute: u32,
    pub second: u32,
}

impl UtcDateTime {
    pub open spec fn wf(&self) -> bool {
        self.date.wf() && is_time_of_day(self.hour as int, self.minute as int, self.second as int)
    }
}

} // verus!
