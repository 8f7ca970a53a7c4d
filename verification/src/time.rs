//! Calendar and clock conversions.
//!
//! The calendar itself is chrono's. This module holds the three calls that
//! the viewer makes into it, each behind a small function whose contract is
//! believed, not proved, and the arithmetic that the viewer does on what
//! comes back, which is proved.

use chrono::{NaiveDate, NaiveTime, TimeZone, Timelike, Utc};
use vstd::prelude::*;

verus! {

/// chrono's parse error, carried through unread.
#[verifier::external_type_specification]
#[verifier::external_body]
pub struct ExParseError(chrono::format::ParseError);

/// The pattern in which the time of an entry is written: `YYYY-MM-DD
/// HH:MM:SS`.
pub const TIMESTAMP_PATTERN: &'static str = "%Y-%m-%d %H:%M:%S";

/// The pattern in which a time of day is given: hour, minute and second
/// with colons between them.
pub const TIME_PATTERN: &'static str = "%H:%M:%S";

/// The pattern in which a date is given: year, month and day with colons
/// between them.
pub const DATE_PATTERN: &'static str = "%Y:%m:%d";

/// The text that chrono writes for the UTC time `seconds` after the epoch
/// under the strftime pattern `pattern`; `None` where chrono's calendar does
/// not reach that time, or cannot write it under that pattern.
pub uninterp spec fn utc_text(seconds: int, pattern: Seq<char>) -> Option<Seq<char>>;

/// What chrono reads from `input` as a time of day under the strftime
/// pattern `pattern`: the hour, minute and second of that time; `None` where
/// chrono rejects the text.
pub uninterp spec fn time_of_day(input: Seq<char>, pattern: Seq<char>) -> Option<(int, int, int)>;

/// What chrono reads from `input` as a date under the strftime pattern
/// `pattern`: the seconds from the epoch to the midnight that begins that
/// day; `None` where chrono rejects the text.
pub uninterp spec fn date_midnight(input: Seq<char>, pattern: Seq<char>) -> Option<int>;

/// Calls `Utc.timestamp_opt(seconds, 0)`, and `format(pattern)` and
/// `write_to` on the time it gives. Believed, for the one pattern that the
/// viewer writes times in: the outcome depends on `seconds` alone.
#[verifier::external_body]
pub(crate) fn format_utc(seconds: i64, pattern: &str) -> (text: Option<String>)
    requires
        pattern@ == TIMESTAMP_PATTERN@,
    ensures
        match text {
            Some(t) => utc_text(seconds as int, pattern@) == Some(t@),
            None => utc_text(seconds as int, pattern@) is None,
        },
{
    match Utc.timestamp_opt(seconds, 0).single() {
        Some(time) => {
            let mut text = String::new();
            match time.format(pattern).write_to(&mut text) {
                Ok(()) => Some(text),
                Err(_) => None,
            }
        },
        None => None,
    }
}

/// Calls `NaiveTime::parse_from_str(input, pattern)` and hands out the hour,
/// minute and second of the time it gives. Believed, for the one pattern
/// that the viewer reads times in: the outcome depends on `input` alone,
/// and the hour is below 24, the minute and the second below 60, as
/// `hour`, `minute` and `second` promise of every time.
#[verifier::external_body]
pub(crate) fn read_time_of_day(input: &str, pattern: &str) -> (r: Result<
    (u32, u32, u32),
    chrono::format::ParseError,
>)
    requires
        pattern@ == TIME_PATTERN@,
    ensures
        match r {
            Ok(t) => time_of_day(input@, pattern@) == Some((t.0 as int, t.1 as int, t.2 as int))
                && t.0 < 24 && t.1 < 60 && t.2 < 60,
            Err(_) => time_of_day(input@, pattern@) is None,
        },
{
    match NaiveTime::parse_from_str(input, pattern) {
        Ok(time) => Ok((time.hour(), time.minute(), time.second())),
        Err(error) => Err(error),
    }
}

/// Calls `NaiveDate::parse_from_str(input, pattern)` and hands out the
/// timestamp of the midnight, in UTC, that begins the date it gives.
/// Believed, for the one pattern that the viewer reads dates in: the
/// outcome depends on `input` alone.
#[verifier::external_body]
pub(crate) fn read_date(input: &str, pattern: &str) -> (r: Result<i64, chrono::format::ParseError>)
    requires
        pattern@ == DATE_PATTERN@,
    ensures
        match r {
            Ok(seconds) => date_midnight(input@, pattern@) == Some(seconds as int),
            Err(_) => date_midnight(input@, pattern@) is None,
        },
{
    match NaiveDate::parse_from_str(input, pattern) {
        Ok(date) => Ok(date.and_time(NaiveTime::MIN).and_utc().timestamp()),
        Err(error) => Err(error),
    }
}

/// The seconds from midnight to `hour:minute:second`.
pub open spec fn midnight_seconds(hour: int, minute: int, second: int) -> int {
    hour * 3600 + minute * 60 + second
}

/// The seconds in a day.
pub const DAY: u64 = 86_400;

/// The seconds from midnight to `hour:minute:second`.
pub fn seconds_from_midnight(hour: u32, minute: u32, second: u32) -> (s: u64)
    ensures
        s == midnight_seconds(hour as int, minute as int, second as int),
        hour < 24 && minute < 60 && second < 60 ==> s < DAY,
{
    (hour as u64) * 3600 + (minute as u64) * 60 + (second as u64)
}

/// A count of seconds from the epoch as an unsigned 64-bit number: the count
/// itself where it is not negative, and `2^64` more than the count where it
/// is, which is what two's complement makes of it.
pub open spec fn unsigned_seconds(seconds: int) -> int {
    if seconds >= 0 {
        seconds
    } else {
        seconds + 0x1_0000_0000_0000_0000
    }
}

/// A count of seconds from the epoch as an unsigned 64-bit number.
pub fn to_unsigned_seconds(seconds: i64) -> (u: u64)
    ensures
        u == unsigned_seconds(seconds as int),
{
    if seconds >= 0 {
        seconds as u64
    } else {
        u64::MAX - ((-(seconds + 1)) as u64)
    }
}

/// Whole seconds in `micros` microseconds, rounded toward zero.
pub open spec fn whole_seconds(micros: int) -> int {
    if micros >= 0 {
        micros / 1_000_000
    } else {
        -((-micros) / 1_000_000)
    }
}

/// Whole seconds in `micros` microseconds, rounded toward zero.
pub fn micros_to_seconds(micros: i64) -> (s: i64)
    ensures
        s == whole_seconds(micros as int),
{
    if micros >= 0 {
        micros / 1_000_000
    } else {
        let below: u64 = (-(micros + 1)) as u64 + 1;
        -((below / 1_000_000) as i64)
    }
}

} // verus!
