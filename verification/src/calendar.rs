//! Moments and calendar days in UTC.

use vstd::prelude::*;
use chrono::Datelike;

verus! {

/// A moment: seconds since the start of 1970 in UTC, and nanoseconds within
/// the second.
#[derive(Debug, Clone, Copy, PartialEq, Eq, Structural)]
pub struct Moment {
    pub secs: i64,
    pub nanos: u32,
}

impl Moment {
    /// `self` is strictly later than `other`.
    pub open spec fn after(self, other: Moment) -> bool {
        self.secs > other.secs || (self.secs == other.secs && self.nanos > other.nanos)
    }

    /// Tells whether `self` is strictly later than `other`.
    pub fn is_after(&self, other: &Moment) -> (later: bool)
        ensures
            later == self.after(*other),
    {
        self.secs > other.secs || (self.secs == other.secs && self.nanos > other.nanos)
    }
}

/// A day of the proleptic Gregorian calendar.
#[derive(Debug, Clone, Copy, PartialEq, Eq, Structural)]
pub struct CivilDate {
    pub year: i32,
    pub month: u32,
    pub day: u32,
}

/// A week of the ISO 8601 week calendar.
#[derive(Debug, Clone, Copy, PartialEq, Eq, Structural)]
pub struct IsoWeek {
    pub year: i32,
    pub week: u32,
}

/// The calendar day and the ISO week of a moment.
#[derive(Debug, Clone, Copy, PartialEq, Eq, Structural)]
pub struct CalendarDay {
    pub date: CivilDate,
    pub week: IsoWeek,
}

/// The UTC calendar day and ISO week that hold a moment given in seconds since
/// 1970, as `chrono` computes them; `None` for a moment outside the years it
/// supports.
pub uninterp spec fn calendar_day_of(secs: int) -> Option<CalendarDay>;

/// Calls `chrono::DateTime::from_timestamp` with no nanoseconds and reads the
/// result's date with `date_naive` and its ISO week with `iso_week`. The
/// contract only names the result: it depends on the seconds alone, since the
/// moment is taken in UTC.
#[verifier::external_body]
pub(crate) fn calendar_day(secs: i64) -> (day: Option<CalendarDay>)
    ensures
        day == calendar_day_of(secs as int),
{
    match chrono::DateTime::from_timestamp(secs, 0) {
        Some(moment) => {
            let date = moment.date_naive();
            let week = moment.iso_week();
            Some(CalendarDay {
                date: CivilDate { year: date.year(), month: date.month(), day: date.day() },
                week: IsoWeek { year: week.year(), week: week.week() },
            })
        },
        None => None,
    }
}

/// The hour of the UTC day, 0 to 23, that holds a moment.
pub open spec fn hour_of(secs: i64) -> int {
    (secs as int % 86_400) / 3_600
}

/// Computes the hour of the day of a moment given in seconds since 1970.
pub fn hour(secs: i64) -> (h: u32)
    ensures
        h as int == hour_of(secs),
        h < 24,
{
    let in_day: i64 = if secs >= 0 {
        secs % 86_400
    } else {
        let back: i64 = (-(secs + 1)) % 86_400;
        proof {
            let b = -(secs as int + 1);
            vstd::arithmetic::div_mod::lemma_fundamental_div_mod(b, 86_400);
            vstd::arithmetic::div_mod::lemma_mod_bound(b, 86_400);
            let q = b / 86_400;
            assert(secs as int == 86_400 * (-q - 1) + (86_399 - back as int)) by (nonlinear_arith)
                requires
                    -(secs as int + 1) == 86_400 * q + back as int,
            ;
            assert(86_400 * (-q - 1) == (-q - 1) * 86_400) by (nonlinear_arith);
            vstd::arithmetic::div_mod::lemma_fundamental_div_mod_converse(
                secs as int,
                86_400,
                -q - 1,
                86_399 - back as int,
            );
        }
        86_399 - back
    };
    (in_day / 3_600) as u32
}


/// The milliseconds of one UTC day.
pub const DAY_MILLIS: u64 = 86_400_000;

/// The seconds after which a log file is removed: 365 days.
pub const LOG_LIFETIME_SECS: i64 = 31_536_000;

/// The start of the UTC day that holds a moment, both in milliseconds since
/// 1970.
pub fn start_of_day_millis(now_millis: u64) -> (start: u64)
    ensures
        start <= now_millis,
        now_millis - start < DAY_MILLIS,
        start % DAY_MILLIS == 0,
        start == (now_millis / DAY_MILLIS) * DAY_MILLIS,
{
    crate::decimal::round_to_step(now_millis, DAY_MILLIS)
}

/// Tells whether a log file last modified at `modified` is to be removed at
/// `now`: whether it is more than 365 days old. Both are seconds since 1970.
pub fn log_is_stale(modified: i64, now: i64) -> (stale: bool)
    ensures
        stale == (modified < now - LOG_LIFETIME_SECS),
{
    (modified as i128) < (now as i128) - (LOG_LIFETIME_SECS as i128)
}

} // verus!
