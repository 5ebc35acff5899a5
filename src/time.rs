//! Instants in UTC as seconds and nanoseconds since the Unix epoch, and their
//! text form `YYYY-MM-DDTHH:MM:SSZ`.
use vstd::prelude::*;

use crate::errors::BackupError;

verus! {

/// An instant in UTC: whole seconds since the Unix epoch, and nanoseconds
/// within that second.
#[derive(Debug, Clone, Copy, PartialEq, Eq, Structural)]
pub struct UtcTime {
    pub seconds: i64,
    pub nanos: u32,
}

/// Seconds in a day.
pub const SECONDS_PER_DAY: i64 = 86400;

/// Whether instant `a` lies strictly after instant `b`.
pub open spec fn later(a: UtcTime, b: UtcTime) -> bool {
    a.seconds > b.seconds || (a.seconds == b.seconds && a.nanos > b.nanos)
}

/// Whether `now` lies strictly after the whole second `seconds` plus `days` days.
pub open spec fn past_days(now: UtcTime, seconds: int, days: int) -> bool {
    now.seconds > seconds + SECONDS_PER_DAY * days || (now.seconds == seconds
        + SECONDS_PER_DAY * days && now.nanos > 0)
}

/// The whole seconds since the Unix epoch of the UTC instant that `text`
/// spells as `YYYY-MM-DDTHH:MM:SSZ`, or `None` when it does not parse.
pub uninterp spec fn parsed_utc_seconds(text: Seq<char>) -> Option<i64>;

/// The text `YYYY-MM-DDTHH:MM:SSZ` of the instant `seconds` after the Unix
/// epoch, or `None` when the instant is out of the representable range.
pub uninterp spec fn utc_text(seconds: i64) -> Option<Seq<char>>;

/// Relies on chrono's `NaiveDateTime::parse_from_str` with the pattern
/// `%Y-%m-%dT%H:%M:%SZ`, read as UTC, and `DateTime::timestamp`.
#[verifier::external_body]
fn parse_utc_seconds(text: &str) -> (r: Option<i64>)
    ensures
        r == parsed_utc_seconds(text@),
{
    match chrono::NaiveDateTime::parse_from_str(text, "%Y-%m-%dT%H:%M:%SZ") {
        Ok(t) => Some(t.and_utc().timestamp()),
        Err(_) => None,
    }
}

/// Relies on chrono's `DateTime::<Utc>::format` with the pattern
/// `%Y-%m-%dT%H:%M:%SZ`, on the instant that `DateTime::from_timestamp` makes
/// of the seconds (none when out of range).
#[verifier::external_body]
fn format_utc_seconds(seconds: i64) -> (r: Option<String>)
    ensures
        match r {
            Some(s) => utc_text(seconds) == Some(s@),
            None => utc_text(seconds) is None,
        },
{
    match chrono::DateTime::from_timestamp(seconds, 0) {
        Some(t) => Some(t.format("%Y-%m-%dT%H:%M:%SZ").to_string()),
        None => None,
    }
}

/// Whether instant `a` lies strictly after instant `b`.
pub fn is_later(a: &UtcTime, b: &UtcTime) -> (r: bool)
    ensures
        r == later(*a, *b),
{
    a.seconds > b.seconds || (a.seconds == b.seconds && a.nanos > b.nanos)
}

/// Whether `now` lies strictly after the whole second `seconds` plus `days`
/// days. Computed without overflow for every input.
pub fn is_past_days(now: &UtcTime, seconds: i64, days: u32) -> (r: bool)
    ensures
        r == past_days(*now, seconds as int, days as int),
{
    let due: i128 = seconds as i128 + (SECONDS_PER_DAY as i128) * (days as i128);
    let current: i128 = now.seconds as i128;
    current > due || (current == due && now.nanos > 0)
}

/// Reads a timestamp of the form `YYYY-MM-DDTHH:MM:SSZ` as an instant in UTC.
pub fn parse_timestamp(text: &str) -> (r: Result<UtcTime, BackupError>)
    ensures
        match parsed_utc_seconds(text@) {
            Some(s) => r == Ok::<UtcTime, BackupError>(UtcTime { seconds: s, nanos: 0 }),
            None => r == Err::<UtcTime, BackupError>(BackupError::TimeParse),
        },
{
    match parse_utc_seconds(text) {
        Some(s) => Ok(UtcTime { seconds: s, nanos: 0 }),
        None => Err(BackupError::TimeParse),
    }
}

/// Writes the whole second of an instant as `YYYY-MM-DDTHH:MM:SSZ`.
pub fn format_timestamp(t: &UtcTime) -> (r: Result<String, BackupError>)
    ensures
        match utc_text(t.seconds) {
            Some(s) => r matches Ok(v) && v@ == s,
            None => r == Err::<String, BackupError>(BackupError::TimeParse),
        },
{
    match format_utc_seconds(t.seconds) {
        Some(s) => Ok(s),
        None => Err(BackupError::TimeParse),
    }
}

/// The nanoseconds from the Unix epoch to instant `t`.
pub open spec fn epoch_nanos(t: UtcTime) -> int {
    t.seconds * 1_000_000_000 + t.nanos
}

/// The instant `secs` seconds and `nanos` nanoseconds after the Unix epoch, or
/// before it when `before` holds; `None` when its whole seconds do not fit in
/// an `i64`.
pub fn from_epoch_offset(before: bool, secs: u64, nanos: u32) -> (r: Option<UtcTime>)
    requires
        nanos < 1_000_000_000,
    ensures
        match r {
            Some(t) => t.nanos < 1_000_000_000 && epoch_nanos(t) == if before {
                -(secs * 1_000_000_000 + nanos)
            } else {
                secs * 1_000_000_000 + nanos
            },
            None => if before {
                secs > 0x8000_0000_0000_0000 || (secs == 0x8000_0000_0000_0000 && nanos > 0)
            } else {
                secs > 0x7fff_ffff_ffff_ffff
            },
        },
{
    if !before {
        if secs > 0x7fff_ffff_ffff_ffff {
            None
        } else {
            Some(UtcTime { seconds: secs as i64, nanos })
        }
    } else if nanos == 0 {
        if secs > 0x8000_0000_0000_0000 {
            None
        } else {
            let s: i128 = -(secs as i128);
            Some(UtcTime { seconds: s as i64, nanos: 0 })
        }
    } else {
        if secs >= 0x8000_0000_0000_0000 {
            None
        } else {
            Some(UtcTime { seconds: -(secs as i64) - 1, nanos: 1_000_000_000 - nanos })
        }
    }
}

} // verus!
