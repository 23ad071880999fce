//! Text shown by the command-line client.

use crate::clock::{parse_rfc3339_seconds, rfc3339_seconds_of};
use crate::text::{decimal, push_decimal};
use vstd::prelude::*;
use vstd::string::*;

verus! {

/// A duration in seconds as text: `expired` when negative, else days and
/// hours, hours and minutes, minutes, or seconds, by the largest unit
/// that is not zero.
pub open spec fn duration_text(seconds: i64) -> Seq<char> {
    if seconds < 0 {
        "expired"@
    } else {
        let days = seconds / 86400;
        let hours = (seconds % 86400) / 3600;
        let minutes = (seconds % 3600) / 60;
        if days > 0 {
            decimal(days as nat) + "d "@ + decimal(hours as nat) + "h"@
        } else if hours > 0 {
            decimal(hours as nat) + "h "@ + decimal(minutes as nat) + "m"@
        } else if minutes > 0 {
            decimal(minutes as nat) + "m"@
        } else {
            decimal(seconds as nat) + "s"@
        }
    }
}

/// `n` limited to the range of `i64`.
pub open spec fn clamp_i64(n: int) -> i64 {
    if n < i64::MIN {
        i64::MIN
    } else if n > i64::MAX {
        i64::MAX
    } else {
        n as i64
    }
}

/// Formats a duration in a human-readable way.
pub fn format_duration(seconds: i64) -> (r: String)
    ensures
        r@ == duration_text(seconds),
{
    if seconds < 0 {
        return String::from_str("expired");
    }
    let days = seconds / 86400;
    let hours = (seconds % 86400) / 3600;
    let minutes = (seconds % 3600) / 60;
    let mut out = String::new();
    if days > 0 {
        push_decimal(&mut out, days as u64);
        out.append("d ");
        push_decimal(&mut out, hours as u64);
        out.append("h");
    } else if hours > 0 {
        push_decimal(&mut out, hours as u64);
        out.append("h ");
        push_decimal(&mut out, minutes as u64);
        out.append("m");
    } else if minutes > 0 {
        push_decimal(&mut out, minutes as u64);
        out.append("m");
    } else {
        push_decimal(&mut out, seconds as u64);
        out.append("s");
    }
    assert(out@ =~= duration_text(seconds));
    out
}

/// The time from `now` (seconds since the epoch) until an RFC 3339
/// timestamp, as text; `unknown` when the timestamp does not read.
pub fn format_time_until(iso_timestamp: &str, now: i64) -> (r: String)
    ensures
        r@ == match rfc3339_seconds_of(iso_timestamp@) {
            Some(t) => duration_text(clamp_i64(t - now)),
            None => "unknown"@,
        },
{
    match parse_rfc3339_seconds(iso_timestamp) {
        Some(t) => {
            let d: i128 = t as i128 - now as i128;
            let s: i64 = if d < i64::MIN as i128 {
                i64::MIN
            } else if d > i64::MAX as i128 {
                i64::MAX
            } else {
                d as i64
            };
            format_duration(s)
        },
        None => String::from_str("unknown"),
    }
}

} // verus!
