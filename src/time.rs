//! Calendar dates and times of day as plain values, read and shifted by chrono.

use vstd::prelude::*;
use chrono::{Datelike, Timelike};

verus! {

/// The largest number of whole seconds that a chrono time delta can hold.
pub const MAX_SHIFT_SECS: i64 = 9_223_372_036_854_775;

/// A calendar date.
#[derive(Debug, Clone, Copy, PartialEq, Eq, Structural)]
pub struct Date {
    pub year: i32,
    pub month: u32,
    pub day: u32,
}

/// A time of day: seconds since midnight and a fraction in nanoseconds, which
/// reaches past one second only during a leap second.
#[derive(Debug, Clone, Copy, PartialEq, Eq, Structural)]
pub struct Time {
    pub secs: u32,
    pub nanos: u32,
}

/// A date together with a time of day.
#[derive(Debug, Clone, Copy, PartialEq, Eq, Structural)]
pub struct DateTime {
    pub date: Date,
    pub time: Time,
}

impl Time {
    /// Whether this is a time of day that chrono can represent.
    pub open spec fn wf(self) -> bool {
        &&& self.secs < 86_400
        &&& self.nanos < 2_000_000_000
        &&& self.nanos >= 1_000_000_000 ==> self.secs % 60 == 59
    }

    /// The time at hours, minutes and seconds past midnight.
    pub fn hms(h: u32, m: u32, s: u32) -> (r: Time)
        requires
            h < 24,
            m < 60,
            s < 60,
        ensures
            r.secs == h * 3600 + m * 60 + s,
            r.nanos == 0,
            r.wf(),
    {
        Time { secs: h * 3600 + m * 60 + s, nanos: 0 }
    }
}

/// What chrono's `NaiveDate::parse_from_str` reads from a text with a format.
pub uninterp spec fn date_parsed(text: Seq<char>, format: Seq<char>) -> Option<Date>;

/// What chrono's `NaiveTime::parse_from_str` reads from a text with a format.
pub uninterp spec fn time_parsed(text: Seq<char>, format: Seq<char>) -> Option<Time>;

/// Where chrono's `NaiveTime + TimeDelta` moves a time of day by whole seconds.
pub uninterp spec fn time_shifted(t: Time, secs: int) -> Time;

#[verifier::external_type_specification]
#[verifier::external_body]
pub struct ExChronoParseError(chrono::ParseError);

/// Relies on chrono's `NaiveDate::parse_from_str`: the date that the text
/// spells in the given strftime format, or an error.
#[verifier::external_body]
pub(crate) fn parse_date_text(text: &str, format: &str) -> (r: Result<Date, chrono::ParseError>)
    ensures
        match r {
            Ok(d) => date_parsed(text@, format@) == Some(d),
            Err(_) => date_parsed(text@, format@) is None,
        },
{
    chrono::NaiveDate::parse_from_str(text, format).map(
        |d| Date { year: d.year(), month: d.month(), day: d.day() },
    )
}

/// Relies on chrono's `NaiveTime::parse_from_str`: the time of day that the
/// text spells in the given strftime format, or an error; a `NaiveTime` is
/// always within the day, its fraction past a second only on a leap second.
#[verifier::external_body]
pub(crate) fn parse_time_text(text: &str, format: &str) -> (r: Result<Time, chrono::ParseError>)
    ensures
        match r {
            Ok(t) => time_parsed(text@, format@) == Some(t) && t.wf(),
            Err(_) => time_parsed(text@, format@) is None,
        },
{
    chrono::NaiveTime::parse_from_str(text, format).map(
        |t| Time { secs: t.num_seconds_from_midnight(), nanos: t.nanosecond() },
    )
}

/// Relies on chrono's `NaiveTime + TimeDelta`: the time wraps around midnight,
/// and away from a leap second it moves by exactly the given seconds.
#[verifier::external_body]
pub(crate) fn shift_time(t: Time, secs: i64) -> (r: Time)
    requires
        t.wf(),
        -MAX_SHIFT_SECS <= secs <= MAX_SHIFT_SECS,
    ensures
        r == time_shifted(t, secs as int),
        r.wf(),
        t.nanos < 1_000_000_000 ==> r.secs == (t.secs + secs) % 86_400 && r.nanos == t.nanos,
{
    let base = chrono::NaiveTime::from_num_seconds_from_midnight_opt(t.secs, t.nanos).unwrap();
    let moved = base + chrono::TimeDelta::seconds(secs);
    Time { secs: moved.num_seconds_from_midnight(), nanos: moved.nanosecond() }
}

/// What chrono's `NaiveDateTime::parse_from_str` reads from a text with a format.
pub uninterp spec fn datetime_parsed(text: Seq<char>, format: Seq<char>) -> Option<DateTime>;

/// Where chrono's `NaiveDateTime::checked_add_signed` moves a date and time by
/// whole seconds, or nothing where the date is none or the result out of range.
pub uninterp spec fn datetime_shifted(dt: DateTime, secs: int) -> Option<DateTime>;

/// Relies on chrono's `NaiveDateTime::parse_from_str`: the date and time that
/// the text spells in the given strftime format, or an error.
#[verifier::external_body]
pub(crate) fn parse_datetime_text(text: &str, format: &str) -> (r: Result<DateTime, chrono::ParseError>)
    ensures
        match r {
            Ok(dt) => datetime_parsed(text@, format@) == Some(dt) && dt.time.wf(),
            Err(_) => datetime_parsed(text@, format@) is None,
        },
{
    chrono::NaiveDateTime::parse_from_str(text, format).map(|dt| DateTime {
        date: Date { year: dt.year(), month: dt.month(), day: dt.day() },
        time: Time { secs: dt.num_seconds_from_midnight(), nanos: dt.nanosecond() },
    })
}

/// Relies on chrono's `NaiveDateTime::checked_add_signed`: the date and time
/// moved by the given seconds across days, or nothing out of range.
#[verifier::external_body]
pub(crate) fn shift_datetime(dt: DateTime, secs: i64) -> (r: Option<DateTime>)
    requires
        -MAX_SHIFT_SECS <= secs <= MAX_SHIFT_SECS,
    ensures
        r == datetime_shifted(dt, secs as int),
        r matches Some(m) ==> m.time.wf(),
{
    let date = chrono::NaiveDate::from_ymd_opt(dt.date.year, dt.date.month, dt.date.day)?;
    let time = chrono::NaiveTime::from_num_seconds_from_midnight_opt(dt.time.secs, dt.time.nanos)?;
    let moved = chrono::NaiveDateTime::new(date, time).checked_add_signed(chrono::TimeDelta::seconds(secs))?;
    Some(DateTime {
        date: Date { year: moved.year(), month: moved.month(), day: moved.day() },
        time: Time { secs: moved.num_seconds_from_midnight(), nanos: moved.nanosecond() },
    })
}

} // verus!
