//! One entry from the values of a single invocation: explicit values first,
//! then configured defaults, then the current time.

use vstd::prelude::*;
use crate::duration::{duration_secs, parse_duration, ValueError};
use crate::entry::{row_result_matches, Entry, EntryError, ResolutionError};
use crate::text::{chars_of, find_char, find_in};
use crate::time::{
    datetime_parsed, datetime_shifted, parse_datetime_text, parse_time_text, shift_datetime,
    time_parsed, Date, DateTime,
};

verus! {

pub open spec fn full_datetime_format() -> Seq<char> {
    seq!['%', 'd', '.', '%', 'm', '.', '%', 'Y', ' ', '%', 'H', ':', '%', 'M']
}

pub open spec fn clock_format() -> Seq<char> {
    seq!['%', 'H', ':', '%', 'M']
}

/// What a date-and-time text stands for: `dd.mm.yyyy HH:MM` where it holds a
/// space, else `HH:MM` on `today`.
pub open spec fn datetime_spec(text: Seq<char>, today: Date) -> Option<DateTime> {
    if find_char(text, ' ') is Some {
        datetime_parsed(text, full_datetime_format())
    } else {
        match time_parsed(text, clock_format()) {
            Some(t) => Some(DateTime { date: today, time: t }),
            None => None,
        }
    }
}

/// Reads a date and time, or a time of day on `today`.
pub fn parse_datetime(text: &str, today: Date) -> (r: Result<DateTime, ValueError>)
    ensures
        match r {
            Ok(dt) => datetime_spec(text@, today) == Some(dt) && dt.time.wf(),
            Err(e) => datetime_spec(text@, today) is None && e is InvalidDateTime,
        },
{
    let cs = chars_of(text);
    proof {
        reveal_strlit("%d.%m.%Y %H:%M");
        reveal_strlit("%H:%M");
        assert("%d.%m.%Y %H:%M"@ == full_datetime_format());
        assert("%H:%M"@ == clock_format());
    }
    if find_in(&cs, ' ').is_some() {
        match parse_datetime_text(text, "%d.%m.%Y %H:%M") {
            Ok(dt) => Ok(dt),
            Err(_) => Err(ValueError::InvalidDateTime(text.to_owned())),
        }
    } else {
        match parse_time_text(text, "%H:%M") {
            Ok(t) => Ok(DateTime { date: today, time: t }),
            Err(_) => Err(ValueError::InvalidDateTime(text.to_owned())),
        }
    }
}

/// The first of two optional texts that is present.
pub open spec fn first_present(a: Option<Seq<char>>, b: Option<Seq<char>>) -> Option<Seq<char>> {
    match a {
        Some(x) => Some(x),
        None => b,
    }
}

pub open spec fn opt_view(t: Option<&str>) -> Option<Seq<char>> {
    match t {
        Some(s) => Some(s@),
        None => None,
    }
}

/// The entry of one invocation, or nothing where a given text does not read.
/// The start is the explicit one or else the default; with a duration the end
/// is the start plus it; else the explicit end, or `now`, less the pause
/// (explicit or default).
pub open spec fn single_spec(
    start: Option<Seq<char>>,
    end: Option<Seq<char>>,
    time: Option<Seq<char>>,
    pause: Option<Seq<char>>,
    now: DateTime,
) -> Option<Result<Entry, ResolutionError>> {
    match start {
        None => Some(Err(ResolutionError::MissingStart)),
        Some(st) => match datetime_spec(st, now.date) {
            None => None,
            Some(s) => {
                let worked: Option<Option<i64>> = match time {
                    Some(t) => match duration_secs(t) {
                        Some(d) => Some(Some(d)),
                        None => None,
                    },
                    None => Some(None),
                };
                let paused: Option<Option<i64>> = match pause {
                    Some(p) => match duration_secs(p) {
                        Some(d) => Some(Some(d)),
                        None => None,
                    },
                    None => Some(None),
                };
                match (worked, paused) {
                    (Some(w), Some(p)) => {
                        let finish = match w {
                            Some(d) => Some(datetime_shifted(s, d as int)),
                            None => {
                                let base = match end {
                                    Some(e) => datetime_spec(e, now.date),
                                    None => Some(now),
                                };
                                let off: int = match p {
                                    Some(x) => x as int,
                                    None => 0,
                                };
                                match base {
                                    Some(b) => Some(datetime_shifted(b, -off)),
                                    None => None,
                                }
                            },
                        };
                        match finish {
                            None => None,
                            Some(None) => Some(Err(ResolutionError::EndOutOfRange)),
                            Some(Some(f)) => Some(Ok(Entry { start: s, end: f })),
                        }
                    },
                    _ => None,
                }
            },
        },
    }
}

/// Resolves the entry of one invocation from its explicit values, the
/// configured defaults for start and pause, and the current time `now`.
pub fn resolve_single(
    start: Option<&str>,
    end: Option<&str>,
    time: Option<&str>,
    pause: Option<&str>,
    default_start: Option<&str>,
    default_pause: Option<&str>,
    now: DateTime,
) -> (r: Result<Entry, EntryError>)
    ensures
        row_result_matches(r, single_spec(
            first_present(opt_view(start), opt_view(default_start)),
            opt_view(end),
            opt_view(time),
            first_present(opt_view(pause), opt_view(default_pause)),
            now,
        )),
{
    let start_text = match start {
        Some(s) => s,
        None => match default_start {
            Some(s) => s,
            None => {
                return Err(EntryError::Resolution(ResolutionError::MissingStart));
            },
        },
    };
    let s = match parse_datetime(start_text, now.date) {
        Ok(dt) => dt,
        Err(e) => {
            return Err(EntryError::Value(e));
        },
    };
    let worked = match time {
        Some(t) => match parse_duration(t) {
            Ok(d) => Some(d),
            Err(e) => {
                return Err(EntryError::Value(e));
            },
        },
        None => None,
    };
    let pause_text = match pause {
        Some(p) => Some(p),
        None => default_pause,
    };
    let paused = match pause_text {
        Some(p) => match parse_duration(p) {
            Ok(d) => Some(d),
            Err(e) => {
                return Err(EntryError::Value(e));
            },
        },
        None => None,
    };
    let finish = match worked {
        Some(d) => shift_datetime(s, d),
        None => {
            let base = match end {
                Some(e) => match parse_datetime(e, now.date) {
                    Ok(dt) => dt,
                    Err(e) => {
                        return Err(EntryError::Value(e));
                    },
                },
                None => now,
            };
            let off: i64 = match paused {
                Some(x) => x,
                None => 0,
            };
            shift_datetime(base, -off)
        },
    };
    match finish {
        Some(f) => Ok(Entry { start: s, end: f }),
        None => Err(EntryError::Resolution(ResolutionError::EndOutOfRange)),
    }
}

} // verus!
