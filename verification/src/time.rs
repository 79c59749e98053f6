//! Points in time: the wire form (`Timestamp`, seconds and nanoseconds as a
//! protobuf message holds them) and the UTC instant (`UtcTime`) that the
//! validation logic compares.

use chrono::{DateTime, Utc};
use vstd::prelude::*;

verus! {

/// The earliest second, counted from the Unix epoch, that a UTC date-time can hold
/// (the first second of the year -262143).
pub const MIN_UTC_SECONDS: i64 = -8_334_601_228_800i64;

/// The latest second, counted from the Unix epoch, that a UTC date-time can hold
/// (the last second of the year 262142).
pub const MAX_UTC_SECONDS: i64 = 8_210_266_876_799i64;

/// A point in time as the protobuf `Timestamp` message carries it.
#[derive(Clone, Copy, Debug, PartialEq, Eq, Structural)]
pub struct Timestamp {
    pub seconds: i64,
    pub nanos: i32,
}

/// A UTC instant: whole seconds since the Unix epoch and the nanoseconds past
/// that second (more than a billion only inside a leap second).
#[derive(Clone, Copy, Debug, PartialEq, Eq, Structural)]
pub struct UtcTime {
    pub seconds: i64,
    pub nanos: u32,
}

/// Whether a UTC date-time exists with these seconds and nanoseconds: the
/// second lies in the representable range, the nanoseconds stay under two
/// seconds, and a leap-second fraction only follows the last second of a minute.
pub open spec fn utc_representable(seconds: i64, nanos: u32) -> bool {
    &&& MIN_UTC_SECONDS <= seconds <= MAX_UTC_SECONDS
    &&& nanos < 2_000_000_000
    &&& (nanos >= 1_000_000_000 ==> (seconds as int) % 60 == 59)
}

/// Strict chronological order of two instants.
pub open spec fn utc_before(a: UtcTime, b: UtcTime) -> bool {
    ||| a.seconds < b.seconds
    ||| (a.seconds == b.seconds && a.nanos < b.nanos)
}

/// Calls `chrono::DateTime::<Utc>::from_timestamp` and reads the instant back
/// with `timestamp` and `timestamp_subsec_nanos`. The contract claims that chrono
/// builds a date-time exactly on the inputs that `utc_representable` admits
/// (its day range and its check of the nanoseconds), and that reading back gives
/// the inputs, as chrono documents.
#[verifier::external_body]
fn utc_from_timestamp(seconds: i64, nanos: u32) -> (r: Option<UtcTime>)
    ensures
        r is Some <==> utc_representable(seconds, nanos),
        r matches Some(t) ==> t.seconds == seconds && t.nanos == nanos,
{
    match DateTime::<Utc>::from_timestamp(seconds, nanos) {
        Some(dt) => Some(UtcTime { seconds: dt.timestamp(), nanos: dt.timestamp_subsec_nanos() }),
        None => None,
    }
}

impl UtcTime {
    /// The instant with these seconds and nanoseconds, where one exists.
    pub fn from_timestamp(seconds: i64, nanos: u32) -> (r: Option<UtcTime>)
        ensures
            r is Some <==> utc_representable(seconds, nanos),
            r matches Some(t) ==> t == (UtcTime { seconds, nanos }),
    {
        utc_from_timestamp(seconds, nanos)
    }

    /// Whether `self` comes strictly before `other`.
    pub fn is_before(&self, other: &UtcTime) -> (r: bool)
        ensures
            r == utc_before(*self, *other),
    {
        self.seconds < other.seconds || (self.seconds == other.seconds && self.nanos < other.nanos)
    }
}

/// Turns a wire timestamp into a UTC instant. The nanoseconds are read as an
/// unsigned number; a timestamp that names no instant is left out.
pub fn convert_to_utc_time(ts: Timestamp) -> (r: UtcTime)
    requires
        utc_representable(ts.seconds, ts.nanos as u32),
    ensures
        r == (UtcTime { seconds: ts.seconds, nanos: ts.nanos as u32 }),
{
    utc_from_timestamp(ts.seconds, ts.nanos as u32).unwrap()
}

/// Turns a UTC instant into its wire timestamp.
pub fn convert_to_timestamp(t: UtcTime) -> (r: Timestamp)
    ensures
        r == (Timestamp { seconds: t.seconds, nanos: t.nanos as i32 }),
{
    Timestamp { seconds: t.seconds, nanos: t.nanos as i32 }
}

/// An instant turned into its wire timestamp and back is the same instant.
pub proof fn lemma_timestamp_round_trip(t: UtcTime)
    requires
        utc_representable(t.seconds, t.nanos),
    ensures
        utc_representable(t.seconds, (t.nanos as i32) as u32),
        (UtcTime { seconds: t.seconds, nanos: (t.nanos as i32) as u32 }) == t,
{
}

/// The order of instants is chronological: outside leap seconds, an instant
/// comes before another exactly when it lies fewer nanoseconds after the
/// epoch; a later second is never before an earlier one, whatever the
/// nanoseconds; and no instant comes before itself.
pub proof fn lemma_utc_before_is_chronological(a: UtcTime, b: UtcTime)
    ensures
        (a.nanos < 1_000_000_000 && b.nanos < 1_000_000_000) ==> (utc_before(a, b) <==> (
        a.seconds as int) * 1_000_000_000 + a.nanos < (b.seconds as int) * 1_000_000_000
            + b.nanos),
        a.seconds > b.seconds ==> !utc_before(a, b),
        a.seconds < b.seconds ==> utc_before(a, b),
        !utc_before(a, a),
        utc_before(a, b) ==> !utc_before(b, a),
{
}

/// Whether `y` is a leap year of the proleptic Gregorian calendar.
pub open spec fn is_leap_year(y: int) -> bool {
    y % 4 == 0 && (y % 100 != 0 || y % 400 == 0)
}

/// The number of days of month `m` of year `y`.
pub open spec fn days_in_month(y: int, m: int) -> int {
    if m == 2 {
        if is_leap_year(y) {
            29
        } else {
            28
        }
    } else if m == 4 || m == 6 || m == 9 || m == 11 {
        30
    } else {
        31
    }
}

/// The number of days from 1970-01-01 to the date `y`-`m`-`d` of the
/// proleptic Gregorian calendar (negative before it).
pub open spec fn days_from_civil(y: int, m: int, d: int) -> int {
    let yy = if m <= 2 {
        y - 1
    } else {
        y
    };
    let era = yy / 400;
    let yoe = yy - era * 400;
    let mp = if m > 2 {
        m - 3
    } else {
        m + 9
    };
    let doy = (153 * mp + 2) / 5 + d - 1;
    let doe = yoe * 365 + yoe / 4 - yoe / 100 + doy;
    era * 146097 + doe - 719468
}

/// The day count starts at the Unix epoch and goes up by one from each day
/// to the next inside a month, and from the last day of a month to the first
/// of the next.
pub proof fn lemma_days_from_civil_steps(y: int, m: int, d: int)
    requires
        1 <= m <= 12,
        1 <= d <= days_in_month(y, m),
    ensures
        days_from_civil(1970, 1, 1) == 0,
        d < days_in_month(y, m) ==> days_from_civil(y, m, d + 1) == days_from_civil(y, m, d) + 1,
        (d == days_in_month(y, m) && m < 12) ==> days_from_civil(y, m + 1, 1) == days_from_civil(
            y,
            m,
            d,
        ) + 1,
{
    assert(days_from_civil(1970, 1, 1) == 0);
}

} // verus!
