//! Configured values and the batch command, as plain data.

use vstd::prelude::*;
use crate::batch::{read_entries, row_resolves, rows_after_skip, RowError};
use crate::duration::{value_error_text, ValueError};
use crate::entry::{layout_view, row_entry, row_result_matches, Entry, ResolutionError};
use crate::format::{first_unknown, layout_columns, layout_model, layout_parses, parse_format, FormatError};
use crate::text::trimmed_of;
use crate::time::{parse_time_text, time_parsed, Date, Time};

verus! {

/// The login session handed to the sink as it is.
#[derive(Debug)]
pub struct Session {
    pub key: String,
    pub value: String,
}

/// Configured defaults for batches.
#[derive(Debug)]
pub struct CsvDefaults {
    pub format: String,
}

/// Configured fallbacks, below the values given on the command line.
#[derive(Debug)]
pub struct Defaults {
    /// Start time as `HH:MM`.
    pub start_time: Option<String>,
    /// Break time as a duration text.
    pub pause: Option<String>,
    pub csv: Option<CsvDefaults>,
}

/// Where entries go, with what session, and the defaults.
#[derive(Debug)]
pub struct Config {
    pub endpoint: String,
    pub session: Session,
    pub defaults: Option<Defaults>,
}

/// Logs every row of a delimited file in one session.
#[derive(Debug)]
pub struct Csv {
    /// The layout of the columns; else the configured one.
    pub format: Option<String>,
    /// Lines at the top of the file to pass over.
    pub skip_lines: usize,
    /// The file.
    pub file: String,
}

/// The commands of the tool.
#[derive(Debug)]
pub enum Commands {
    Csv(Csv),
}

/// Why a batch gave no entries.
#[derive(Debug)]
pub enum BatchError {
    /// No layout was given or configured.
    NoFormat,
    Format(FormatError),
    /// The configured start time is no `HH:MM`.
    DefaultStartTime(ValueError),
    Row(RowError),
}

impl Config {
    /// The configured start time text, if any.
    pub open spec fn start_time_text(&self) -> Option<Seq<char>> {
        match self.defaults {
            Some(d) => match d.start_time {
                Some(t) => Some(t@),
                None => None,
            },
            None => None,
        }
    }

    /// The configured start time, where it reads as `HH:MM`.
    pub open spec fn start_default(&self) -> Option<Time> {
        match self.start_time_text() {
            Some(t) => time_parsed(t, seq!['%', 'H', ':', '%', 'M']),
            None => None,
        }
    }

    /// Whether the configured start time is absent or reads as `HH:MM`.
    pub open spec fn start_readable(&self) -> bool {
        match self.start_time_text() {
            Some(t) => time_parsed(t, seq!['%', 'H', ':', '%', 'M']) is Some,
            None => true,
        }
    }

    /// The configured pause text, if any.
    pub fn default_pause(&self) -> (r: Option<&str>)
        ensures
            r matches Some(p) ==> self.defaults matches Some(d) && d.pause matches Some(q) && p@ == q@,
            r is None ==> !(self.defaults matches Some(d) && d.pause is Some),
    {
        match &self.defaults {
            Some(d) => match &d.pause {
                Some(p) => Some(p.as_str()),
                None => None,
            },
            None => None,
        }
    }

    /// The configured start time text, if any.
    pub fn default_start(&self) -> (r: Option<&str>)
        ensures
            r matches Some(p) ==> self.start_time_text() == Some(p@),
            r is None ==> self.start_time_text() is None,
    {
        match &self.defaults {
            Some(d) => match &d.start_time {
                Some(p) => Some(p.as_str()),
                None => None,
            },
            None => None,
        }
    }

    /// The configured start time, read as `HH:MM`.
    pub fn default_start_time(&self) -> (r: Result<Option<Time>, ValueError>)
        ensures
            match self.start_time_text() {
                None => r matches Ok(None),
                Some(t) => match time_parsed(t, seq!['%', 'H', ':', '%', 'M']) {
                    Some(v) => r matches Ok(Some(x)) && x == v && x.wf(),
                    None => r matches Err(e) && e is InvalidTime && value_error_text(e) == t,
                },
            },
    {
        proof {
            reveal_strlit("%H:%M");
            assert("%H:%M"@ == seq!['%', 'H', ':', '%', 'M']);
        }
        match self.default_start() {
            Some(t) => match parse_time_text(t, "%H:%M") {
                Ok(v) => Ok(Some(v)),
                Err(_) => Err(ValueError::InvalidTime(t.to_owned())),
            },
            None => Ok(None),
        }
    }
}

impl Csv {
    /// The layout text in force: the given one, else the configured one.
    pub open spec fn layout_text(&self, config: &Config) -> Option<Seq<char>> {
        match self.format {
            Some(f) => Some(f@),
            None => match config.defaults {
                Some(d) => match d.csv {
                    Some(c) => Some(c.format@),
                    None => None,
                },
                None => None,
            },
        }
    }

    /// Whether the batch row `line` resolves under the layout text `layout`.
    pub open spec fn batch_row_resolves(layout: Seq<char>, line: Seq<char>, config: &Config, today: Date) -> bool {
        row_entry(layout_model(layout), line, config.start_default(), today) matches Some(Ok(_))
    }

    /// Whether every row after the skipped lines resolves under `layout`.
    pub open spec fn all_rows_resolve(&self, layout: Seq<char>, lines: Seq<String>, config: &Config, today: Date) -> bool {
        forall|i: int| 0 <= i < rows_after_skip(lines.len() as int, self.skip_lines as int)
            ==> #[trigger] Csv::batch_row_resolves(layout, lines[self.skip_lines + i]@, config, today)
    }

    /// Reads all entries of a batch from its lines, before any is submitted:
    /// the layout is parsed once, then every line after the skipped ones is
    /// resolved in order, with `today` for rows without a date.
    pub fn entries(&self, config: &Config, lines: &[String], today: Date) -> (r: Result<Vec<Entry>, BatchError>)
        ensures
            (r matches Err(BatchError::NoFormat)) <==> self.layout_text(config) is None,
            (r matches Err(BatchError::Format(_))) <==> (self.layout_text(config) is Some
                && !layout_parses(self.layout_text(config)->Some_0)),
            r matches Err(BatchError::Format(e)) ==> {
                let layout = self.layout_text(config)->Some_0;
                &&& (e is Empty <==> trimmed_of(layout).len() == 0)
                &&& (e is TooFewFields <==> (trimmed_of(layout).len() != 0 && layout_columns(layout).len() < 2))
                &&& (e is UnknownField ==> exists|k: int| first_unknown(layout_columns(layout), k)
                    && e->UnknownField_0@ == #[trigger] layout_columns(layout)[k])
            },
            (r matches Err(BatchError::DefaultStartTime(_))) <==> (self.layout_text(config) is Some
                && layout_parses(self.layout_text(config)->Some_0) && !config.start_readable()),
            r matches Err(BatchError::DefaultStartTime(e)) ==> e is InvalidTime
                && value_error_text(e) == config.start_time_text()->Some_0,
            r is Ok <==> (self.layout_text(config) is Some && layout_parses(self.layout_text(config)->Some_0)
                && config.start_readable()
                && self.all_rows_resolve(self.layout_text(config)->Some_0, lines@, config, today)),
            r is Ok ==> r->Ok_0@.len() == rows_after_skip(lines@.len() as int, self.skip_lines as int),
            r is Ok ==> forall|i: int| 0 <= i < r->Ok_0@.len()
                ==> row_entry(layout_model(self.layout_text(config)->Some_0), lines@[self.skip_lines + i]@,
                    config.start_default(), today) == Some(Ok::<Entry, ResolutionError>(#[trigger] r->Ok_0@[i])),
            r matches Err(BatchError::Row(e)) ==> {
                let layout = self.layout_text(config)->Some_0;
                &&& layout_parses(layout)
                &&& config.start_readable()
                &&& e.row < rows_after_skip(lines@.len() as int, self.skip_lines as int)
                &&& !Csv::batch_row_resolves(layout, lines@[self.skip_lines + e.row]@, config, today)
                &&& row_result_matches(Err(e.error), row_entry(layout_model(layout),
                    lines@[self.skip_lines + e.row]@, config.start_default(), today))
                &&& forall|j: int| 0 <= j < e.row
                    ==> #[trigger] Csv::batch_row_resolves(layout, lines@[self.skip_lines + j]@, config, today)
            },
    {
        let text: &str = match &self.format {
            Some(f) => f.as_str(),
            None => match &config.defaults {
                Some(d) => match &d.csv {
                    Some(c) => c.format.as_str(),
                    None => {
                        return Err(BatchError::NoFormat);
                    },
                },
                None => {
                    return Err(BatchError::NoFormat);
                },
            },
        };
        let ghost layout = self.layout_text(config)->Some_0;
        assert(text@ == layout);
        let format = match parse_format(text) {
            Ok(f) => f,
            Err(e) => {
                return Err(BatchError::Format(e));
            },
        };
        let start = match config.default_start_time() {
            Ok(s) => s,
            Err(e) => {
                return Err(BatchError::DefaultStartTime(e));
            },
        };
        assert(start == config.start_default());
        assert(layout_view(format@) == layout_model(layout));
        match read_entries(format.as_slice(), lines, self.skip_lines, start, today) {
            Ok(v) => {
                assert forall|i: int| 0 <= i < rows_after_skip(lines@.len() as int, self.skip_lines as int)
                    implies #[trigger] Csv::batch_row_resolves(layout, lines@[self.skip_lines + i]@, config, today) by {
                    assert(row_resolves(format@, lines@[self.skip_lines + i]@, start, today));
                }
                Ok(v)
            },
            Err(e) => {
                assert forall|j: int| 0 <= j < e.row
                    implies #[trigger] Csv::batch_row_resolves(layout, lines@[self.skip_lines + j]@, config, today) by {
                    assert(row_resolves(format@, lines@[self.skip_lines + j]@, start, today));
                }
                assert(!self.all_rows_resolve(layout, lines@, config, today)) by {
                    assert(!Csv::batch_row_resolves(layout, lines@[self.skip_lines + e.row as int]@, config, today));
                }
                Err(BatchError::Row(e))
            },
        }
    }
}

} // verus!
