use hqcli::duration::ValueError;
use hqcli::entry::{Entry, EntryError, ParsedFields, ResolutionError, resolve};
use hqcli::format::parse_format;
use hqcli::single::{parse_datetime, resolve_single};
use hqcli::time::{Date, DateTime, Time};

fn day(year: i32, month: u32, day: u32) -> Date {
    Date { year, month, day }
}

fn at(d: Date, h: u32, m: u32) -> DateTime {
    DateTime { date: d, time: Time::hms(h, m, 0) }
}

#[test]
fn end_time_less_pause() {
    let format = parse_format("date,start_time,end_time,pause").unwrap();
    let e = Entry::read(&format, "01.01.2024,09:00,17:00,30m", None, day(2030, 5, 5)).unwrap();
    assert_eq!(e.start, at(day(2024, 1, 1), 9, 0));
    assert_eq!(e.end, at(day(2024, 1, 1), 16, 30));
}

#[test]
fn start_plus_duration_without_pause() {
    let format = parse_format("date,start_time,duration").unwrap();
    let e = Entry::read(&format, "01.01.2024,09:00,8h", None, day(2030, 5, 5)).unwrap();
    assert_eq!(e.start, at(day(2024, 1, 1), 9, 0));
    assert_eq!(e.end, at(day(2024, 1, 1), 17, 0));
}

#[test]
fn end_time_wins_over_duration() {
    let format = parse_format("start_time,end_time,duration,pause").unwrap();
    let e = Entry::read(&format, "08:00,12:00,1h,15m", None, day(2024, 3, 4)).unwrap();
    assert_eq!(e.start, at(day(2024, 3, 4), 8, 0));
    assert_eq!(e.end, at(day(2024, 3, 4), 11, 45));
}

#[test]
fn column_count_mismatch() {
    let format = parse_format("date,start_time,end_time").unwrap();
    for line in ["01.01.2024,09:00", "01.01.2024,09:00,17:00,x", ""] {
        let r = Entry::read(&format, line, None, day(2024, 1, 1));
        assert!(matches!(r, Err(EntryError::Resolution(ResolutionError::ColumnCountMismatch))));
    }
}

#[test]
fn missing_start_and_missing_end() {
    let format = parse_format("date,end_time").unwrap();
    let r = Entry::read(&format, "01.01.2024,17:00", None, day(2024, 1, 1));
    assert!(matches!(r, Err(EntryError::Resolution(ResolutionError::MissingStart))));
    let format = parse_format("date,start_time").unwrap();
    let r = Entry::read(&format, "01.01.2024,09:00", None, day(2024, 1, 1));
    assert!(matches!(r, Err(EntryError::Resolution(ResolutionError::MissingEnd))));
}

#[test]
fn default_start_time_and_today() {
    let format = parse_format("end_time,").unwrap();
    let e = Entry::read(&format, "17:00,ignored", Some(Time::hms(9, 0, 0)), day(2024, 2, 29)).unwrap();
    assert_eq!(e.start, at(day(2024, 2, 29), 9, 0));
    assert_eq!(e.end, at(day(2024, 2, 29), 17, 0));
}

#[test]
fn unreadable_columns() {
    let format = parse_format("date,start_time,duration").unwrap();
    assert!(matches!(
        Entry::read(&format, "2024-01-01,09:00,8h", None, day(2024, 1, 1)),
        Err(EntryError::Value(_))
    ));
    assert!(matches!(
        Entry::read(&format, "01.01.2024,9am,8h", None, day(2024, 1, 1)),
        Err(EntryError::Value(_))
    ));
    assert!(matches!(
        Entry::read(&format, "01.01.2024,09:00,lots", None, day(2024, 1, 1)),
        Err(EntryError::Value(_))
    ));
}

#[test]
fn end_wraps_around_midnight() {
    let fields = ParsedFields {
        date: None,
        start_time: Some(Time::hms(22, 0, 0)),
        end_time: None,
        duration: Some(3 * 3600),
        pause: None,
    };
    let e = resolve(fields, None, day(2024, 1, 1)).unwrap();
    assert_eq!(e.end, at(day(2024, 1, 1), 1, 0));
}

#[test]
fn end_before_start_is_kept() {
    let fields = ParsedFields {
        date: Some(day(2024, 1, 1)),
        start_time: Some(Time::hms(9, 0, 0)),
        end_time: Some(Time::hms(9, 10, 0)),
        duration: None,
        pause: Some(3600),
    };
    let e = resolve(fields, None, day(2024, 1, 1)).unwrap();
    assert_eq!(e.end, at(day(2024, 1, 1), 8, 10));
}

#[test]
fn datetime_texts() {
    let today = day(2024, 6, 1);
    assert_eq!(parse_datetime("31.12.2023 08:15", today).unwrap(), at(day(2023, 12, 31), 8, 15));
    assert_eq!(parse_datetime("08:15", today).unwrap(), at(today, 8, 15));
    assert!(parse_datetime("8 o'clock", today).is_err());
}

#[test]
fn single_entry_with_duration_ignores_pause() {
    let now = at(day(2024, 6, 1), 18, 0);
    let e = resolve_single(Some("09:00"), Some("17:00"), Some("8h"), Some("1h"), None, None, now).unwrap();
    assert_eq!(e.start, at(day(2024, 6, 1), 9, 0));
    assert_eq!(e.end, at(day(2024, 6, 1), 17, 0));
}

#[test]
fn single_entry_end_less_default_pause() {
    let now = at(day(2024, 6, 1), 18, 0);
    let e = resolve_single(None, Some("17:00"), None, None, Some("08:30"), Some("30m"), now).unwrap();
    assert_eq!(e.start, at(day(2024, 6, 1), 8, 30));
    assert_eq!(e.end, at(day(2024, 6, 1), 16, 30));
}

#[test]
fn single_entry_ends_now_less_pause() {
    let now = at(day(2024, 6, 1), 18, 0);
    let e = resolve_single(Some("09:00"), None, None, Some("45m"), None, Some("1h"), now).unwrap();
    assert_eq!(e.end, at(day(2024, 6, 1), 17, 15));
}

#[test]
fn single_entry_duration_crosses_midnight() {
    let now = at(day(2024, 6, 1), 18, 0);
    let e = resolve_single(Some("31.12.2023 22:00"), None, Some("3h"), None, None, None, now).unwrap();
    assert_eq!(e.end, at(day(2024, 1, 1), 1, 0));
}

#[test]
fn single_entry_without_start() {
    let now = at(day(2024, 6, 1), 18, 0);
    let r = resolve_single(None, Some("17:00"), None, None, None, None, now);
    assert!(matches!(r, Err(EntryError::Resolution(ResolutionError::MissingStart))));
}

#[test]
fn clock_style_pause_is_no_duration() {
    let format = parse_format("date,start_time,end_time,pause").unwrap();
    let r = Entry::read(&format, "01.01.2024,09:00,17:00,00:30", None, day(2024, 1, 1));
    assert!(matches!(r, Err(EntryError::Value(_))));
}

#[test]
fn value_error_names_the_first_bad_column() {
    let format = parse_format("date,start_time,end_time,pause").unwrap();
    let r = Entry::read(&format, "01.01.2024,9am,5pm,1h", None, day(2024, 1, 1));
    assert!(matches!(r, Err(EntryError::Value(ValueError::InvalidTime(t))) if t == "9am"));
    let r = Entry::read(&format, "1/1/2024,09:00,17:00,1h", None, day(2024, 1, 1));
    assert!(matches!(r, Err(EntryError::Value(ValueError::InvalidDate(t))) if t == "1/1/2024"));
    let r = Entry::read(&format, "01.01.2024,09:00,17:00,later", None, day(2024, 1, 1));
    assert!(matches!(r, Err(EntryError::Value(ValueError::InvalidDuration(t))) if t == "later"));
}
