use hqcli::batch::{read_entries, Submission, SubmitAction};
use hqcli::config::{BatchError, Config, Csv, CsvDefaults, Defaults, Session};
use hqcli::entry::{EntryError, ResolutionError};
use hqcli::format::parse_format;
use hqcli::time::{Date, Time};

fn lines(v: &[&str]) -> Vec<String> {
    v.iter().map(|s| s.to_string()).collect()
}

fn today() -> Date {
    Date { year: 2024, month: 1, day: 1 }
}

#[test]
fn skipped_lines_are_not_read() {
    let format = parse_format("start_time,end_time").unwrap();
    let rows = lines(&["header,line,with,junk", "09:00,17:00", "10:00,12:00"]);
    let v = read_entries(&format, &rows, 1, None, today()).unwrap();
    assert_eq!(v.len(), 2);
    assert_eq!(v[1].start.time, Time::hms(10, 0, 0));
    assert!(read_entries(&format, &rows, 3, None, today()).unwrap().is_empty());
    assert!(read_entries(&format, &rows, 10, None, today()).unwrap().is_empty());
}

#[test]
fn one_bad_row_gives_no_entries() {
    let format = parse_format("start_time,end_time").unwrap();
    let rows = lines(&["09:00,17:00", "09:00", "10:00,12:00"]);
    match read_entries(&format, &rows, 0, None, today()) {
        Err(e) => {
            assert_eq!(e.row, 1);
            assert!(matches!(e.error, EntryError::Resolution(ResolutionError::ColumnCountMismatch)));
        }
        Ok(v) => panic!("expected a failure, got {} entries", v.len()),
    }
}

#[test]
fn submission_stops_at_first_refusal() {
    let answers = [true, true, false, true];
    let mut s = Submission::new(4);
    let mut accepted = 0;
    loop {
        match s.next_action() {
            SubmitAction::Submit(i) => {
                if answers[i] {
                    accepted += 1;
                }
                s.record(answers[i]);
            }
            SubmitAction::Done => panic!("the batch cannot finish"),
            SubmitAction::Failed(j) => {
                assert_eq!(j, 2);
                break;
            }
        }
    }
    assert_eq!(accepted, 2);
    assert_eq!(s.submitted, 2);
}

#[test]
fn submission_of_all_entries() {
    let mut s = Submission::new(3);
    while let SubmitAction::Submit(_) = s.next_action() {
        s.record(true);
    }
    assert_eq!(s.next_action(), SubmitAction::Done);
    assert_eq!(s.submitted, 3);
}

fn config(format: Option<&str>, start: Option<&str>) -> Config {
    Config {
        endpoint: "https://example.invalid".to_string(),
        session: Session { key: "k".to_string(), value: "v".to_string() },
        defaults: Some(Defaults {
            start_time: start.map(|s| s.to_string()),
            pause: None,
            csv: format.map(|f| CsvDefaults { format: f.to_string() }),
        }),
    }
}

#[test]
fn batch_uses_configured_layout_and_start() {
    let csv = Csv { format: None, skip_lines: 0, file: "x.csv".to_string() };
    let cfg = config(Some("date,duration"), Some("08:00"));
    let v = csv.entries(&cfg, &lines(&["02.01.2024,4h"]), today()).unwrap();
    assert_eq!(v[0].start.time, Time::hms(8, 0, 0));
    assert_eq!(v[0].end.time, Time::hms(12, 0, 0));
    assert_eq!(v[0].end.date, Date { year: 2024, month: 1, day: 2 });
}

#[test]
fn batch_errors() {
    let csv = Csv { format: None, skip_lines: 0, file: "x.csv".to_string() };
    assert!(matches!(csv.entries(&config(None, None), &[], today()), Err(BatchError::NoFormat)));
    assert!(matches!(csv.entries(&config(Some("date"), None), &[], today()), Err(BatchError::Format(_))));
    assert!(matches!(
        csv.entries(&config(Some("date,duration"), Some("eight")), &[], today()),
        Err(BatchError::DefaultStartTime(_))
    ));
    let given = Csv { format: Some("start_time,end_time".to_string()), skip_lines: 0, file: String::new() };
    assert!(matches!(
        given.entries(&config(None, None), &lines(&["09:00,x"]), today()),
        Err(BatchError::Row(_))
    ));
}

#[test]
fn skipped_lines_are_never_validated() {
    let csv = Csv { format: Some("start_time,end_time".to_string()), skip_lines: 2, file: String::new() };
    let a = csv.entries(&config(None, None), &lines(&["junk", "more,junk,here", "09:00,17:00"]), today()).unwrap();
    let b = csv.entries(&config(None, None), &lines(&["a,b", "c,d", "09:00,17:00"]), today()).unwrap();
    assert_eq!(a, b);
    assert_eq!(a.len(), 1);
}

#[test]
fn batch_error_kinds() {
    let csv = Csv { format: None, skip_lines: 0, file: String::new() };
    match csv.entries(&config(Some("date,lunch"), None), &[], today()) {
        Err(BatchError::Format(hqcli::format::FormatError::UnknownField(f))) => assert_eq!(f, "lunch"),
        other => panic!("unexpected {other:?}"),
    }
    match csv.entries(&config(Some("date,duration"), Some("8 o'clock")), &[], today()) {
        Err(BatchError::DefaultStartTime(hqcli::duration::ValueError::InvalidTime(t))) => assert_eq!(t, "8 o'clock"),
        other => panic!("unexpected {other:?}"),
    }
}
