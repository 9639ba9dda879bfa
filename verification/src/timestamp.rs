//! Calendar date and time of day, to the second, without a time zone.

use vstd::prelude::*;

verus! {

/// A point in time as its calendar fields in the proleptic Gregorian
/// calendar. A frame carries these fields one byte each.
#[derive(Clone, Copy, Debug, PartialEq, Eq, Structural)]
pub struct Timestamp {
    pub year: i32,
    pub month: u32,
    pub day: u32,
    pub hour: u32,
    pub minute: u32,
    pub second: u32,
}

/// Whether `year` has a 29th of February.
pub open spec fn is_leap_year(year: int) -> bool {
    year % 4 == 0 && (year % 100 != 0 || year % 400 == 0)
}

/// Number of days of `month` in `year`; 0 where `month` is no month.
pub open spec fn days_in_month(year: int, month: int) -> int {
    if month == 2 {
        if is_leap_year(year) {
            29
        } else {
            28
        }
    } else if month == 4 || month == 6 || month == 9 || month == 11 {
        30
    } else if 1 <= month <= 12 {
        31
    } else {
        0
    }
}

/// The time that lies `minutes` minutes before `t`, as the calendar
/// arithmetic of `chrono` gives it; `None` where `t` is no date and time that
/// `chrono` can hold, or the result would be none.
pub uninterp spec fn minutes_before(t: Timestamp, minutes: int) -> Option<Timestamp>;

impl Timestamp {
    /// The fields name a day that exists and a time of day on it.
    pub open spec fn is_valid(&self) -> bool {
        &&& 1 <= self.month <= 12
        &&& 1 <= self.day <= days_in_month(self.year as int, self.month as int)
        &&& self.hour < 24
        &&& self.minute < 60
        &&& self.second < 60
    }

    /// A valid timestamp of a year from 1 to 9999.
    pub open spec fn is_common_era(&self) -> bool {
        self.is_valid() && 1 <= self.year <= 9999
    }

    /// Builds a timestamp from its fields, or `None` where they name no
    /// existing day or time of day.
    pub fn new(year: i32, month: u32, day: u32, hour: u32, minute: u32, second: u32) -> (r: Option<
        Timestamp,
    >)
        ensures
            r == (if (Timestamp { year, month, day, hour, minute, second }).is_valid() {
                Some(Timestamp { year, month, day, hour, minute, second })
            } else {
                None::<Timestamp>
            }),
    {
        let t = Timestamp { year, month, day, hour, minute, second };
        if t.check() {
            Some(t)
        } else {
            None
        }
    }

    /// Tells whether the fields name a day that exists and a time of day on it.
    pub fn check(&self) -> (ok: bool)
        ensures
            ok == self.is_valid(),
    {
        if self.month < 1 || self.month > 12 || self.day < 1 {
            return false;
        }
        let leap: bool = is_leap(self.year);
        let last: u32 = if self.month == 2 {
            if leap {
                29
            } else {
                28
            }
        } else if self.month == 4 || self.month == 6 || self.month == 9 || self.month == 11 {
            30
        } else {
            31
        };
        self.day <= last && self.hour < 24 && self.minute < 60 && self.second < 60
    }

    /// Calls `chrono`: builds a `NaiveDateTime` from the fields with
    /// `NaiveDate::from_ymd_opt` and `and_hms_opt`, subtracts
    /// `TimeDelta::try_minutes(minutes)` with
    /// `NaiveDateTime::checked_sub_signed`, and reads the fields of the
    /// result. The contract gives that result a name and claims two things of
    /// it. Where there is a result, it is a valid timestamp: `chrono` holds
    /// existing days only, and documents the ranges of the six fields. And
    /// there is a result for every valid timestamp of a year from 1 to 9999:
    /// the first two calls fail only on a day or a time of day that does not
    /// exist or on a year beyond about 262 000, the third only beyond some
    /// 10^14 minutes, and the fourth only where the result would lie beyond
    /// those years, while `minutes` spans less than 8200.
    #[verifier::external_body]
    pub(crate) fn minutes_earlier(&self, minutes: u32) -> (r: Option<Timestamp>)
        ensures
            r == minutes_before(*self, minutes as int),
            r is Some ==> r->0.is_valid(),
            self.is_common_era() ==> r is Some,
    {
        let day = chrono::NaiveDate::from_ymd_opt(self.year, self.month, self.day)?;
        let at = day.and_hms_opt(self.hour, self.minute, self.second)?;
        let span = chrono::TimeDelta::try_minutes(i64::from(minutes))?;
        let t = at.checked_sub_signed(span)?;
        let (d, c) = (t.date(), t.time());
        Some(Timestamp {
            year: chrono::Datelike::year(&d),
            month: chrono::Datelike::month(&d),
            day: chrono::Datelike::day(&d),
            hour: chrono::Timelike::hour(&c),
            minute: chrono::Timelike::minute(&c),
            second: chrono::Timelike::second(&c),
        })
    }
}

/// Tells whether `year` has a 29th of February.
pub fn is_leap(year: i32) -> (leap: bool)
    ensures
        leap == is_leap_year(year as int),
{
    let by_4: bool = year % 4 == 0;
    let by_100: bool = year % 100 == 0;
    let by_400: bool = year % 400 == 0;
    assert(by_4 == (year as int % 4 == 0));
    assert(by_100 == (year as int % 100 == 0));
    assert(by_400 == (year as int % 400 == 0));
    by_4 && (!by_100 || by_400)
}

} // verus!
