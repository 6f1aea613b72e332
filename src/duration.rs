//! Human-readable durations such as `8h30m` or `9 hours 15 minutes`, kept in
//! whole seconds.

use vstd::prelude::*;
use crate::time::MAX_SHIFT_SECS;

verus! {

/// Why a column's text could not be read.
#[derive(Debug)]
pub enum ValueError {
    /// The text is no date in the column's format.
    InvalidDate(String),
    /// The text is no time of day in the column's format.
    InvalidTime(String),
    /// The text is neither `HH:MM` nor `dd.mm.yyyy HH:MM`.
    InvalidDateTime(String),
    /// The text is no duration.
    InvalidDuration(String),
    /// The duration is longer than a time delta can hold.
    DurationTooLong(String),
}

/// Seconds and nanoseconds of what the `parse_duration` crate reads from a text.
pub uninterp spec fn duration_parsed(text: Seq<char>) -> Option<(u64, u32)>;

/// Relies on `parse_duration::parse`: the duration that the text spells, as
/// whole seconds and the nanoseconds below one second, or nothing where it
/// reports an error.
#[verifier::external_body]
fn parse_duration_text(text: &str) -> (r: Option<(u64, u32)>)
    ensures
        r == duration_parsed(text@),
        r matches Some(v) ==> v.1 < 1_000_000_000,
{
    parse_duration::parse(text).ok().map(|d| (d.as_secs(), d.subsec_nanos()))
}

/// Whether a duration of `secs` seconds and `nanos` nanoseconds fits a time delta.
pub open spec fn fits_time_delta(secs: u64, nanos: u32) -> bool {
    secs < MAX_SHIFT_SECS || (secs == MAX_SHIFT_SECS && nanos <= 807_000_000)
}

/// The whole seconds that a duration text stands for, if it is one that fits.
pub open spec fn duration_secs(text: Seq<char>) -> Option<i64> {
    match duration_parsed(text) {
        Some(v) => if fits_time_delta(v.0, v.1) {
            Some(v.0 as i64)
        } else {
            None
        },
        None => None,
    }
}

/// The text that an error about a column's value holds.
pub open spec fn value_error_text(e: ValueError) -> Seq<char> {
    match e {
        ValueError::InvalidDate(t) => t@,
        ValueError::InvalidTime(t) => t@,
        ValueError::InvalidDateTime(t) => t@,
        ValueError::InvalidDuration(t) => t@,
        ValueError::DurationTooLong(t) => t@,
    }
}

/// Whether `e` is the error that a duration text gives, holding that text.
pub open spec fn duration_error_matches(e: ValueError, text: Seq<char>) -> bool {
    &&& value_error_text(e) == text
    &&& if duration_parsed(text) is None {
        e is InvalidDuration
    } else {
        e is DurationTooLong
    }
}

/// The whole seconds of a duration text from what the duration parser made of
/// it (`parsed`: seconds and nanoseconds, or nothing); a fraction of a second
/// is dropped, and a duration that no time delta holds is refused.
pub fn duration_from_parts(dstr: &str, parsed: Option<(u64, u32)>) -> (r: Result<i64, ValueError>)
    ensures
        match parsed {
            None => r matches Err(e) && e is InvalidDuration && value_error_text(e) == dstr@,
            Some(v) => if fits_time_delta(v.0, v.1) {
                r == Ok::<i64, ValueError>(v.0 as i64)
            } else {
                r matches Err(e) && e is DurationTooLong && value_error_text(e) == dstr@
            },
        },
{
    match parsed {
        Some((secs, nanos)) => {
            if secs < MAX_SHIFT_SECS as u64 || (secs == MAX_SHIFT_SECS as u64 && nanos <= 807_000_000) {
                Ok(secs as i64)
            } else {
                Err(ValueError::DurationTooLong(dstr.to_owned()))
            }
        },
        None => Err(ValueError::InvalidDuration(dstr.to_owned())),
    }
}

/// Reads a duration text as whole seconds; a fraction of a second is dropped.
pub fn parse_duration(dstr: &str) -> (r: Result<i64, ValueError>)
    ensures
        r is Ok <==> duration_secs(dstr@) is Some,
        r is Ok ==> Some(r->Ok_0) == duration_secs(dstr@) && 0 <= r->Ok_0 <= MAX_SHIFT_SECS,
        r is Err ==> duration_error_matches(r->Err_0, dstr@),
{
    duration_from_parts(dstr, parse_duration_text(dstr))
}

/// Rounds a number of seconds down to whole minutes.
pub fn round_duration(secs: u64) -> (r: u64)
    ensures
        r == secs - secs % 60,
        r % 60 == 0,
        r <= secs < r + 60,
{
    (secs / 60) * 60
}

} // verus!
