//! Readings of clock times and timestamps from text, through chrono.

use chrono::Timelike;
use vstd::prelude::*;

verus! {

/// What chrono reads from `s` in the format `%H:%M`, as (hour, minute).
pub uninterp spec fn clock_time_of(s: Seq<char>) -> Option<(u32, u32)>;

/// What chrono reads from `s` as an RFC 3339 timestamp, in seconds since
/// the Unix epoch.
pub uninterp spec fn rfc3339_seconds_of(s: Seq<char>) -> Option<i64>;

/// The RFC 3339 text chrono writes for the UTC instant `secs` seconds
/// after the epoch; `None` outside the range chrono represents.
pub uninterp spec fn rfc3339_text_of(secs: i64) -> Option<Seq<char>>;

/// Relies on chrono's `DateTime::from_timestamp` (`None` out of range) and
/// `DateTime::to_rfc3339`.
#[verifier::external_body]
pub(crate) fn rfc3339_text(secs: i64) -> (r: Option<String>)
    ensures
        match r {
            Some(t) => rfc3339_text_of(secs) == Some(t@),
            None => rfc3339_text_of(secs) is None,
        },
{
    chrono::DateTime::from_timestamp(secs, 0).map(|d| d.to_rfc3339())
}

/// Relies on chrono's `NaiveTime::parse_from_str` with `%H:%M`, and on
/// `Timelike::hour` (0 to 23) and `Timelike::minute` (0 to 59) of its result.
#[verifier::external_body]
pub(crate) fn parse_clock_time(s: &str) -> (r: Option<(u32, u32)>)
    ensures
        r == clock_time_of(s@),
        r matches Some((h, m)) ==> h < 24 && m < 60,
{
    chrono::NaiveTime::parse_from_str(s, "%H:%M").ok().map(|t| (t.hour(), t.minute()))
}

/// Relies on chrono's `DateTime::parse_from_rfc3339` and `DateTime::timestamp`.
#[verifier::external_body]
pub(crate) fn parse_rfc3339_seconds(s: &str) -> (r: Option<i64>)
    ensures
        r == rfc3339_seconds_of(s@),
{
    chrono::DateTime::parse_from_rfc3339(s).ok().map(|d| d.timestamp())
}

} // verus!
