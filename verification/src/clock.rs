//! The clock, and timestamps as text.

use vstd::prelude::*;

verus! {

/// The last second of the last year that `chrono` knows.
pub const LAST_SECOND: i64 = 8_210_266_876_799;

/// The first second of the first year that `chrono` knows.
pub const FIRST_SECOND: i64 = -8_334_601_228_800;

/// `chrono::NaiveDateTime`, a moment by UTC.
#[verifier::external_type_specification]
#[verifier::external_body]
pub struct ExNaiveDateTime(chrono::NaiveDateTime);

/// The seconds that a moment lies behind the Unix epoch.
pub uninterp spec fn seconds_at(moment: chrono::NaiveDateTime) -> i64;

/// The nanoseconds of a moment beyond its seconds.
pub uninterp spec fn nanos_at(moment: chrono::NaiveDateTime) -> u32;

/// `chrono::Utc::now`: the moment that the clock shows. It lies between the Unix
/// epoch and the last second that `chrono` knows; a clock that is set before the
/// epoch shows nothing.
#[verifier::external_body]
fn utc_now() -> (r: chrono::NaiveDateTime)
    ensures
        0 <= seconds_at(r) <= LAST_SECOND,
        nanos_at(r) < 1_000_000_000,
{
    chrono::Utc::now().naive_utc()
}

/// `chrono::DateTime::timestamp` of a moment by UTC. It is named, not described.
#[verifier::external_body]
fn timestamp(moment: &chrono::NaiveDateTime) -> (r: i64)
    ensures
        r == seconds_at(*moment),
{
    moment.and_utc().timestamp()
}

/// `chrono::DateTime::timestamp_subsec_nanos` of a moment by UTC. They are named,
/// not described.
#[verifier::external_body]
fn timestamp_subsec_nanos(moment: &chrono::NaiveDateTime) -> (r: u32)
    ensures
        r == nanos_at(*moment),
{
    moment.and_utc().timestamp_subsec_nanos()
}

/// Whether this is a time of the clock: the seconds since the Unix epoch of a
/// moment that it may show, and the nanoseconds beyond them.
pub open spec fn is_clock_time(secs: i64, nanos: u32) -> bool {
    &&& 0 <= secs <= LAST_SECOND && nanos < 1_000_000_000
    &&& exists|moment: chrono::NaiveDateTime| #[trigger]
        seconds_at(moment) == secs && nanos_at(moment) == nanos
}

/// Whether these are the seconds of a time of the clock.
pub open spec fn is_clock_second(secs: i64) -> bool {
    exists|nanos: u32| #[trigger] is_clock_time(secs, nanos)
}

/// What the clock shows, as the seconds since the Unix epoch and the nanoseconds
/// beyond them.
pub(crate) fn clock_now() -> (r: (i64, u32))
    ensures
        is_clock_time(r.0, r.1),
{
    let moment = utc_now();
    let r = (timestamp(&moment), timestamp_subsec_nanos(&moment));
    assert(seconds_at(moment) == r.0 && nanos_at(moment) == r.1);
    r
}

/// The seconds since the Unix epoch.
pub(crate) fn unix_now() -> (r: i64)
    ensures
        is_clock_second(r),
        0 <= r <= LAST_SECOND,
{
    let now = clock_now();
    assert(is_clock_time(now.0, now.1));
    now.0
}

/// The Unix time that an RFC 3339 text denotes, where it is one.
pub uninterp spec fn rfc3339_time(text: Seq<char>) -> Option<i64>;

/// `chrono::DateTime::parse_from_rfc3339` and `timestamp`: the Unix time that
/// an RFC 3339 text denotes. It is named, not described.
#[verifier::external_body]
fn parse_rfc3339(text: &str) -> (r: Option<i64>)
    ensures
        r == rfc3339_time(text@),
{
    chrono::DateTime::parse_from_rfc3339(text).ok().map(|time| time.timestamp())
}

/// The RFC 3339 text of a moment.
pub uninterp spec fn rfc3339_text(secs: i64, nanos: u32) -> Seq<char>;

/// `chrono::DateTime::from_timestamp` and `to_rfc3339`: the RFC 3339 text of a
/// moment that `chrono` can represent. It is named, not described; in the years
/// from 0 to 9999 it denotes the second that it was made of.
#[verifier::external_body]
pub(crate) fn write_rfc3339(secs: i64, nanos: u32) -> (r: String)
    requires
        FIRST_SECOND <= secs <= LAST_SECOND,
        nanos < 1_000_000_000,
    ensures
        r@ == rfc3339_text(secs, nanos),
        -62_167_219_200 <= secs <= 253_402_300_799 ==> rfc3339_time(r@) == Some(secs),
{
    let moment = chrono::DateTime::from_timestamp(secs, nanos);
    moment.map(|moment| moment.to_rfc3339()).unwrap_or_default()
}

/// The Unix time of a stored timestamp, where it can be read.
pub fn parse_db_timestamp_to_unix(value: &str) -> (r: Option<i64>)
    ensures
        r == rfc3339_time(value@),
{
    parse_rfc3339(value)
}

/// A time, or a stand-in where there is none.
pub fn time_or(time: Option<i64>, otherwise: i64) -> (r: i64)
    ensures
        r == (match time {
            Some(time) => time,
            None => otherwise,
        }),
{
    match time {
        Some(time) => time,
        None => otherwise,
    }
}

} // verus!
