//! Calendar time, in seconds since 1970.

use chrono::{DateTime, Duration, Utc};
use vstd::prelude::*;

verus! {

/// The last second that a calendar date with a time of day can name.
pub const TIMESTAMP_MAX: i64 = 8_210_266_876_799;

/// The first second that a calendar date with a time of day can name.
pub const TIMESTAMP_MIN: i64 = -8_334_601_228_800;

/// How many seconds an hour has.
pub const HOUR_SECONDS: i64 = 3_600;

/// The second that is a number of hours after `now`, if it still is a date.
pub open spec fn later(now: i64, hours: i64) -> Option<i64> {
    if now + hours * HOUR_SECONDS <= TIMESTAMP_MAX {
        Some((now + hours * HOUR_SECONDS) as i64)
    } else {
        None
    }
}

/// `chrono::Utc::now`, as a timestamp: some second from 1970 on. Which one
/// depends on the clock of the machine. A clock that stands outside of what
/// dates can name makes it panic.
#[verifier::external_body]
pub(crate) fn utc_now() -> (r: i64)
    ensures
        0 <= r <= TIMESTAMP_MAX,
{
    Utc::now().timestamp()
}

/// `chrono::DateTime::checked_add_signed` with a duration of whole hours: the
/// timestamps differ by that many hours, and there is no result past the last
/// date.
#[verifier::external_body]
pub(crate) fn hours_later(now: i64, hours: i64) -> (r: Option<i64>)
    requires
        TIMESTAMP_MIN <= now <= TIMESTAMP_MAX,
        0 <= hours * HOUR_SECONDS <= i64::MAX / 1000,
    ensures
        r == later(now, hours),
{
    let start = DateTime::<Utc>::from_timestamp(now, 0).unwrap();
    start.checked_add_signed(Duration::hours(hours)).map(|end| end.timestamp())
}

/// A number of hours later is that many times 3600 seconds later, up to the last
/// second of the year 262142.
pub proof fn law_hours_later(now: i64, hours: i64)
    requires
        TIMESTAMP_MIN <= now <= TIMESTAMP_MAX,
        0 <= hours,
    ensures
        later(now, hours) is Some <==> now + hours * 3600 <= 8_210_266_876_799,
        later(now, hours) matches Some(then) ==> then - now == hours * 3600,
        TIMESTAMP_MIN == -8_334_601_228_800,
{
}

} // verus!
