//! Resolution of a work-time entry from the fields of a row or an invocation.

use vstd::prelude::*;
use crate::duration::{duration_error_matches, duration_secs, parse_duration, value_error_text, ValueError};
use crate::format::{fields_view, Field, FieldModel};
use crate::text::{chars_of, split_chars, split_on, text_of};
use crate::time::{
    date_parsed, parse_date_text, parse_time_text, shift_time, time_parsed, time_shifted, Date,
    DateTime, Time, MAX_SHIFT_SECS,
};

verus! {

/// The values that one row or invocation gives; each may be missing.
#[derive(Debug, Clone, Copy, PartialEq, Eq, Structural)]
pub struct ParsedFields {
    pub date: Option<Date>,
    pub start_time: Option<Time>,
    pub end_time: Option<Time>,
    /// Worked time in whole seconds, pauses already taken off.
    pub duration: Option<i64>,
    /// Break time in whole seconds.
    pub pause: Option<i64>,
}

/// A resolved work-time interval; the end may lie before the start.
#[derive(Debug, Clone, Copy, PartialEq, Eq, Structural)]
pub struct Entry {
    pub start: DateTime,
    pub end: DateTime,
}

/// Why no entry could be resolved.
#[derive(Debug, Clone, Copy, PartialEq, Eq, Structural)]
pub enum ResolutionError {
    MissingStart,
    MissingEnd,
    ColumnCountMismatch,
    /// The end lies beyond the dates that can be represented.
    EndOutOfRange,
}

/// Why a row gave no entry.
#[derive(Debug)]
pub enum EntryError {
    Value(ValueError),
    Resolution(ResolutionError),
}

pub open spec fn within_shift(d: i64) -> bool {
    -MAX_SHIFT_SECS <= d <= MAX_SHIFT_SECS
}

impl ParsedFields {
    /// Times within the day and durations that chrono can add.
    pub open spec fn wf(self) -> bool {
        &&& (self.start_time matches Some(t) ==> t.wf())
        &&& (self.end_time matches Some(t) ==> t.wf())
        &&& (self.duration matches Some(d) ==> within_shift(d))
        &&& (self.pause matches Some(d) ==> within_shift(d))
    }

    /// No value given.
    pub fn new() -> (r: ParsedFields)
        ensures
            r == (ParsedFields {
                date: None,
                start_time: None,
                end_time: None,
                duration: None,
                pause: None,
            }),
    {
        ParsedFields { date: None, start_time: None, end_time: None, duration: None, pause: None }
    }
}

/// The entry that the fields give: the date or else `today`; the start time
/// or else the default; the end time less the pause, or else the start plus
/// the duration.
pub open spec fn resolve_spec(fields: ParsedFields, default_start_time: Option<Time>, today: Date) -> Result<Entry, ResolutionError> {
    let date = match fields.date {
        Some(d) => d,
        None => today,
    };
    let start = match fields.start_time {
        Some(t) => Some(t),
        None => default_start_time,
    };
    match start {
        None => Err(ResolutionError::MissingStart),
        Some(st) => match fields.end_time {
            Some(et) => {
                let pause: int = match fields.pause {
                    Some(p) => p as int,
                    None => 0,
                };
                Ok(Entry {
                    start: DateTime { date, time: st },
                    end: DateTime { date, time: time_shifted(et, -pause) },
                })
            },
            None => match fields.duration {
                Some(d) => Ok(Entry {
                    start: DateTime { date, time: st },
                    end: DateTime { date, time: time_shifted(st, d as int) },
                }),
                None => Err(ResolutionError::MissingEnd),
            },
        },
    }
}

/// A time of day moved by whole seconds on a 24-hour clock.
pub open spec fn clock_shift(t: Time, secs: int) -> Time {
    Time { secs: ((t.secs + secs) % 86_400) as u32, nanos: t.nanos }
}

/// Resolves the fields of one row into an entry.
pub fn resolve(fields: ParsedFields, default_start_time: Option<Time>, today: Date) -> (r: Result<Entry, ResolutionError>)
    requires
        fields.wf(),
        default_start_time matches Some(t) ==> t.wf(),
    ensures
        r == resolve_spec(fields, default_start_time, today),
        r matches Ok(e) ==> match fields.end_time {
            Some(et) => et.nanos < 1_000_000_000 ==> e.end.time == clock_shift(
                et,
                -(match fields.pause {
                    Some(p) => p as int,
                    None => 0,
                }),
            ),
            None => e.start.time.nanos < 1_000_000_000 ==> e.end.time == clock_shift(
                e.start.time,
                fields.duration->Some_0 as int,
            ),
        },
{
    let date = match fields.date {
        Some(d) => d,
        None => today,
    };
    let start = match fields.start_time {
        Some(t) => t,
        None => match default_start_time {
            Some(t) => t,
            None => {
                return Err(ResolutionError::MissingStart);
            },
        },
    };
    let end = match fields.end_time {
        Some(et) => {
            let pause: i64 = match fields.pause {
                Some(p) => p,
                None => 0,
            };
            shift_time(et, -pause)
        },
        None => match fields.duration {
            Some(d) => shift_time(start, d),
            None => {
                return Err(ResolutionError::MissingEnd);
            },
        },
    };
    Ok(Entry { start: DateTime { date, time: start }, end: DateTime { date, time: end } })
}

/// The descriptors of a layout as their models.
pub open spec fn layout_view(format: Seq<Field>) -> Seq<FieldModel> {
    fields_view(format)
}

/// The fields after one more column is read by its descriptor, or nothing
/// where the column's text does not read.
pub open spec fn apply_column(p: ParsedFields, f: FieldModel, col: Seq<char>) -> Option<ParsedFields> {
    match f {
        FieldModel::Date(fmt) => match date_parsed(col, fmt) {
            Some(d) => Some(ParsedFields { date: Some(d), ..p }),
            None => None,
        },
        FieldModel::StartTime(fmt) => match time_parsed(col, fmt) {
            Some(t) => Some(ParsedFields { start_time: Some(t), ..p }),
            None => None,
        },
        FieldModel::EndTime(fmt) => match time_parsed(col, fmt) {
            Some(t) => Some(ParsedFields { end_time: Some(t), ..p }),
            None => None,
        },
        FieldModel::Duration => match duration_secs(col) {
            Some(d) => Some(ParsedFields { duration: Some(d), ..p }),
            None => None,
        },
        FieldModel::Pause => match duration_secs(col) {
            Some(d) => Some(ParsedFields { pause: Some(d), ..p }),
            None => None,
        },
        FieldModel::Empty => Some(p),
    }
}

/// The fields that the first `n` columns give, read in order, or the
/// position of the first of them that does not read.
pub open spec fn apply_columns(format: Seq<FieldModel>, cols: Seq<Seq<char>>, n: nat) -> Result<ParsedFields, int>
    decreases n,
{
    if n == 0 {
        Ok(ParsedFields { date: None, start_time: None, end_time: None, duration: None, pause: None })
    } else {
        match apply_columns(format, cols, (n - 1) as nat) {
            Ok(p) => match apply_column(p, format[n - 1], cols[n - 1]) {
                Some(q) => Ok(q),
                None => Err(n - 1),
            },
            Err(k) => Err(k),
        }
    }
}

proof fn lemma_unreadable_stays(format: Seq<FieldModel>, cols: Seq<Seq<char>>, m: nat, n: nat, k: int)
    requires
        m <= n,
        apply_columns(format, cols, m) == Err::<ParsedFields, int>(k),
    ensures
        apply_columns(format, cols, n) == Err::<ParsedFields, int>(k),
    decreases n,
{
    if n > m {
        lemma_unreadable_stays(format, cols, m, (n - 1) as nat, k);
    }
}

/// Whether `e` is the error that a column's text gives under its descriptor,
/// holding that text.
pub open spec fn column_error_matches(e: ValueError, f: FieldModel, col: Seq<char>) -> bool {
    match f {
        FieldModel::Date(_) => e is InvalidDate && value_error_text(e) == col,
        FieldModel::StartTime(_) => e is InvalidTime && value_error_text(e) == col,
        FieldModel::EndTime(_) => e is InvalidTime && value_error_text(e) == col,
        FieldModel::Duration => duration_error_matches(e, col),
        FieldModel::Pause => duration_error_matches(e, col),
        FieldModel::Empty => false,
    }
}

/// What a row gives under a layout: nothing where a column does not read,
/// else the resolved entry or why none resolves.
pub open spec fn row_entry(format: Seq<FieldModel>, line: Seq<char>, default_start_time: Option<Time>, today: Date) -> Option<Result<Entry, ResolutionError>> {
    let cols = split_on(line, ',');
    if cols.len() != format.len() {
        Some(Err(ResolutionError::ColumnCountMismatch))
    } else {
        match apply_columns(format, cols, format.len()) {
            Ok(p) => Some(resolve_spec(p, default_start_time, today)),
            Err(_) => None,
        }
    }
}

/// Whether a result is what `row_entry` says of a row.
pub open spec fn row_result_matches(r: Result<Entry, EntryError>, expected: Option<Result<Entry, ResolutionError>>) -> bool {
    match expected {
        None => r matches Err(EntryError::Value(_)),
        Some(Ok(e)) => r matches Ok(x) && x == e,
        Some(Err(re)) => r matches Err(EntryError::Resolution(x)) && x == re,
    }
}

impl Entry {
    /// Reads one row: cuts it at commas, reads each column by its descriptor
    /// and resolves the fields.
    pub fn read(format: &[Field], line: &str, default_start_time: Option<Time>, today: Date) -> (r: Result<Entry, EntryError>)
        requires
            default_start_time matches Some(t) ==> t.wf(),
        ensures
            row_result_matches(r, row_entry(layout_view(format@), line@, default_start_time, today)),
            split_on(line@, ',').len() == format@.len() ==> (apply_columns(
                layout_view(format@),
                split_on(line@, ','),
                format@.len() as nat,
            ) matches Err(k) ==> r matches Err(EntryError::Value(e)) && column_error_matches(
                e,
                layout_view(format@)[k],
                split_on(line@, ',')[k],
            )),
    {
        let ghost fv = layout_view(format@);
        let ghost cols = split_on(line@, ',');
        let cs = chars_of(line);
        let pieces = split_chars(&cs, ',');
        if pieces.len() != format.len() {
            return Err(EntryError::Resolution(ResolutionError::ColumnCountMismatch));
        }
        let mut fields = ParsedFields::new();
        let mut i: usize = 0;
        while i < format.len()
            invariant
                i <= format@.len(),
                pieces@.len() == format@.len(),
                cols.len() == format@.len(),
                cols == split_on(line@, ','),
                fv == layout_view(format@),
                fv.len() == format@.len(),
                forall|k: int| 0 <= k < pieces@.len() ==> #[trigger] pieces@[k]@ == cols[k],
                apply_columns(fv, cols, i as nat) == Ok::<ParsedFields, int>(fields),
                fields.wf(),
            decreases format@.len() - i,
        {
            let col = text_of(pieces[i].as_slice());
            assert(fv[i as int] == format@[i as int]@);
            assert(col@ == cols[i as int]);
            assert(apply_columns(fv, cols, (i + 1) as nat) == (match apply_column(fields, fv[i as int], cols[i as int]) {
                Some(q) => Ok::<ParsedFields, int>(q),
                None => Err(i as int),
            }));
            match &format[i] {
                Field::Date(fmt) => match parse_date_text(col.as_str(), fmt.as_str()) {
                    Ok(d) => fields.date = Some(d),
                    Err(_) => {
                        proof { lemma_unreadable_stays(fv, cols, (i + 1) as nat, fv.len(), i as int); }
                        return Err(EntryError::Value(ValueError::InvalidDate(col)));
                    },
                },
                Field::StartTime(fmt) => match parse_time_text(col.as_str(), fmt.as_str()) {
                    Ok(t) => fields.start_time = Some(t),
                    Err(_) => {
                        proof { lemma_unreadable_stays(fv, cols, (i + 1) as nat, fv.len(), i as int); }
                        return Err(EntryError::Value(ValueError::InvalidTime(col)));
                    },
                },
                Field::EndTime(fmt) => match parse_time_text(col.as_str(), fmt.as_str()) {
                    Ok(t) => fields.end_time = Some(t),
                    Err(_) => {
                        proof { lemma_unreadable_stays(fv, cols, (i + 1) as nat, fv.len(), i as int); }
                        return Err(EntryError::Value(ValueError::InvalidTime(col)));
                    },
                },
                Field::Duration => match parse_duration(col.as_str()) {
                    Ok(d) => fields.duration = Some(d),
                    Err(e) => {
                        proof { lemma_unreadable_stays(fv, cols, (i + 1) as nat, fv.len(), i as int); }
                        return Err(EntryError::Value(e));
                    },
                },
                Field::Pause => match parse_duration(col.as_str()) {
                    Ok(d) => fields.pause = Some(d),
                    Err(e) => {
                        proof { lemma_unreadable_stays(fv, cols, (i + 1) as nat, fv.len(), i as int); }
                        return Err(EntryError::Value(e));
                    },
                },
                Field::Empty => {},
            }
            i = i + 1;
        }
        match resolve(fields, default_start_time, today) {
            Ok(e) => Ok(e),
            Err(e) => Err(EntryError::Resolution(e)),
        }
    }
}

/// A row with more or fewer columns than the layout has descriptors gives
/// no entry: it is refused for its column count.
pub proof fn lemma_column_count_mismatch(format: Seq<FieldModel>, line: Seq<char>, default_start_time: Option<Time>, today: Date)
    requires
        split_on(line, ',').len() != format.len(),
    ensures
        row_entry(format, line, default_start_time, today) == Some(
            Err::<Entry, ResolutionError>(ResolutionError::ColumnCountMismatch),
        ),
{
}

} // verus!
