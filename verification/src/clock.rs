//! The host's wall clock, as the device's clock takes it: seven numbers read
//! off a `chrono` date and time without a zone.

use crate::message::RtcDateTime;
use chrono::{Datelike, Timelike};
use vstd::prelude::*;

verus! {

#[verifier::external_type_specification]
#[verifier::external_body]
pub struct ExNaiveDateTime(chrono::NaiveDateTime);

/// Whether the numbers lie in the ranges of a calendar date and a time of
/// day: hours to 23, minutes and seconds to 59, days 1 to 31, months 1 to 12,
/// weekdays 1 (Monday) to 7 (Sunday). The year is not bounded.
pub open spec fn in_calendar_range(d: RtcDateTime) -> bool {
    &&& d.hour <= 23
    &&& d.minute <= 59
    &&& d.second <= 59
    &&& 1 <= d.day <= 31
    &&& 1 <= d.month <= 12
    &&& 1 <= d.weekday <= 7
}

/// Reads the date and the time of day off `datetime`.
///
/// Trusted: calls `hour`, `minute`, `second`, `day`, `month`, `year` and
/// `weekday().number_from_monday()` of `chrono::NaiveDateTime`, and casts the year
/// to `u32`. The contract claims the ranges that chrono documents for these
/// numbers.
#[verifier::external_body]
pub(crate) fn clock_fields(datetime: &chrono::NaiveDateTime) -> (d: RtcDateTime)
    ensures
        in_calendar_range(d),
{
    RtcDateTime {
        hour: datetime.hour(),
        minute: datetime.minute(),
        second: datetime.second(),
        day: datetime.day(),
        month: datetime.month(),
        year: datetime.year() as u32,
        weekday: datetime.weekday().number_from_monday(),
    }
}

} // verus!
