//! The wall clock, read through the chrono library and split into plain
//! fields, and the delay computation of the self-renewing per-second
//! redraw timer.

use chrono::Datelike;
use chrono::Timelike;
use vstd::prelude::*;

verus! {

/// One reading of the local wall clock, split into plain fields.
#[derive(Clone, Copy, PartialEq, Eq, Structural, Debug)]
pub struct TimeParts {
    pub year: i32,
    pub month: u32,
    pub day: u32,
    pub hour: u32,
    pub minute: u32,
    pub second: u32,
    pub millis: u32,
}

impl TimeParts {
    /// The field ranges the clock library guarantees of every reading.
    /// During a leap second the subsecond count runs up to two seconds.
    pub open spec fn valid(self) -> bool {
        &&& -262143 <= self.year <= 262142
        &&& 1 <= self.month <= 12
        &&& 1 <= self.day <= 31
        &&& self.hour < 24
        &&& self.minute < 60
        &&& self.second < 60
        &&& self.millis < 2000
    }
}

/// Relies on chrono's `Local::now` with the `Datelike` and `Timelike`
/// accessors: `hour` is below 24, `minute` and `second` below 60 (a leap
/// second rides on the subsecond field, so `timestamp_subsec_millis` can
/// reach 1999), `day` lies in 1..=31, `month` in 1..=12, and the year
/// within chrono's calendar range (`NaiveDate::MIN`/`MAX`). Nothing is
/// promised about which instant comes back.
#[verifier::external_body]
pub fn now_parts() -> (t: TimeParts)
    ensures
        t.valid(),
{
    let now = chrono::Local::now();
    TimeParts {
        year: now.year(),
        month: now.month(),
        day: now.day(),
        hour: now.hour(),
        minute: now.minute(),
        second: now.second(),
        millis: now.timestamp_subsec_millis(),
    }
}

/// The delay until the next wall-clock second boundary, in milliseconds:
/// the remainder of the current second, and one millisecond during a leap
/// second so the timer always re-arms.
pub open spec fn spec_millis_to_next_second(millis: int) -> int {
    if millis < 1000 {
        1000 - millis
    } else {
        1
    }
}

/// Computes the delay to arm the one-shot redraw timer with.
pub fn millis_to_next_second(t: TimeParts) -> (r: u32)
    requires
        t.valid(),
    ensures
        r == spec_millis_to_next_second(t.millis as int),
        1 <= r <= 1000,
{
    if t.millis < 1000 {
        1000 - t.millis
    } else {
        1
    }
}

/// Reads the wall clock and computes the delay to arm the next one-shot
/// redraw timer with: always at least one millisecond, never more than a
/// second.
pub fn current_tick_delay() -> (r: u32)
    ensures
        1 <= r <= 1000,
{
    let t = now_parts();
    millis_to_next_second(t)
}

/// Relies on chrono's `NaiveDate::from_ymd_opt` (which accepts every
/// in-range year and month with day one) and
/// `Weekday::num_days_from_sunday`: the weekday of the first day of the
/// given month, Sunday as zero. The result is a function of year and
/// month alone.
pub uninterp spec fn weekday_of_month_start(year: int, month: int) -> int;

/// The weekday of the month's first day, Sunday as zero.
#[verifier::external_body]
pub fn month_start_weekday(year: i32, month: u32) -> (r: u32)
    requires
        -262143 <= year <= 262142,
        1 <= month <= 12,
    ensures
        r < 7,
        r == weekday_of_month_start(year as int, month as int),
{
    match chrono::NaiveDate::from_ymd_opt(year, month, 1) {
        Some(d) => d.weekday().num_days_from_sunday(),
        // Unreachable: day one of an in-range year and month is always a
        // valid date. A harmless constant rather than a panic.
        None => 0,
    }
}

} // verus!
