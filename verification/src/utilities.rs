//! Milliseconds since 1970 as a date and a time of day.

use chrono::{Datelike, TimeZone, Timelike};
use vstd::prelude::*;

verus! {

/// A date and a time of day in UTC, to the millisecond.
#[derive(Clone, Copy, PartialEq, Eq, Debug)]
pub struct UtcDateTime {
    pub year: i32,
    pub month: u32,
    pub day: u32,
    pub hour: u32,
    pub minute: u32,
    pub second: u32,
    pub millisecond: u32,
}

/// The date and time, in UTC, of the instant `millis` milliseconds after
/// the first of January 1970, where the calendar reaches that far.
pub uninterp spec fn civil_time_of_millis(millis: int) -> Option<UtcDateTime>;

/// The first instant of the first of January 1970.
pub open spec fn unix_epoch() -> UtcDateTime {
    UtcDateTime { year: 1970, month: 1, day: 1, hour: 0, minute: 0, second: 0, millisecond: 0 }
}

/// Calls chrono's `timestamp_millis_opt` on `Utc`, which gives the date and
/// time of a number of milliseconds since 1970 or, out of the range of its
/// calendar, none. The fields are read off the result with chrono's
/// `year`, `month`, `day`, `hour`, `minute`, `second` and
/// `timestamp_subsec_millis`. The contract names what comes back and says
/// no more of it.
#[verifier::external_body]
fn utc_from_millis(millis: i64) -> (found: Option<UtcDateTime>)
    ensures
        found == civil_time_of_millis(millis as int),
{
    chrono::Utc.timestamp_millis_opt(millis).single().map(
        |at|
            UtcDateTime {
                year: at.year(),
                month: at.month(),
                day: at.day(),
                hour: at.hour(),
                minute: at.minute(),
                second: at.second(),
                millisecond: at.timestamp_subsec_millis(),
            },
    )
}

/// The date and time that was found, or the first instant of the first
/// of January 1970 where none was.
pub fn datetime_or_epoch(found: Option<UtcDateTime>) -> (at: UtcDateTime)
    ensures
        at == (match found {
            Some(known) => known,
            None => unix_epoch(),
        }),
{
    match found {
        Some(known) => known,
        None => UtcDateTime {
            year: 1970,
            month: 1,
            day: 1,
            hour: 0,
            minute: 0,
            second: 0,
            millisecond: 0,
        },
    }
}

/// The date and time, in UTC, of the instant `millis` milliseconds after
/// the first of January 1970. An instant that the calendar does not reach
/// is given as the first instant of the first of January 1970.
pub fn millis_to_datetime(millis: i64) -> (at: UtcDateTime)
    ensures
        at == (match civil_time_of_millis(millis as int) {
            Some(known) => known,
            None => unix_epoch(),
        }),
{
    datetime_or_epoch(utc_from_millis(millis))
}

} // verus!
