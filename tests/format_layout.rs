use hqcli::format::{parse_columns, parse_format, parse_format_field, Field, FormatError};

fn kinds(fields: &[Field]) -> Vec<String> {
    fields
        .iter()
        .map(|f| match f {
            Field::Date(fmt) => format!("date:{fmt}"),
            Field::StartTime(fmt) => format!("start_time:{fmt}"),
            Field::EndTime(fmt) => format!("end_time:{fmt}"),
            Field::Duration => "duration".to_string(),
            Field::Pause => "pause".to_string(),
            Field::Empty => "empty".to_string(),
        })
        .collect()
}

#[test]
fn layout_keeps_column_count_and_order() {
    let fields = parse_format("date:%Y-%m-%d, start_time ,END_TIME:%H.%M,pause,,duration").unwrap();
    assert_eq!(
        kinds(&fields),
        vec![
            "date:%Y-%m-%d",
            "start_time:%H:%M",
            "end_time:%H.%M",
            "pause",
            "empty",
            "duration"
        ]
    );
}

#[test]
fn empty_layout_is_refused() {
    assert!(matches!(parse_format(""), Err(FormatError::Empty)));
    assert!(matches!(parse_format("   "), Err(FormatError::Empty)));
}

#[test]
fn single_column_layout_is_refused() {
    assert!(matches!(parse_format("date"), Err(FormatError::TooFewFields)));
}

#[test]
fn two_column_layout_is_accepted() {
    let fields = parse_format("date,start_time").unwrap();
    assert_eq!(kinds(&fields), vec!["date:%d.%m.%Y", "start_time:%H:%M"]);
}

#[test]
fn unknown_field_name_is_refused() {
    match parse_format("date,lunch:%H") {
        Err(FormatError::UnknownField(f)) => assert_eq!(f, "lunch:%H"),
        other => panic!("unexpected {other:?}"),
    }
}

#[test]
fn field_name_is_case_insensitive() {
    assert!(matches!(parse_format_field("DaTe"), Ok(Field::Date(f)) if f == "%d.%m.%Y"));
    assert!(matches!(parse_format_field("Pause"), Ok(Field::Pause)));
    assert!(matches!(parse_format_field(""), Ok(Field::Empty)));
    assert!(matches!(parse_format_field("start_time:%H:%M:%S"), Ok(Field::StartTime(f)) if f == "%H:%M:%S"));
}

#[test]
fn parsing_a_layout_twice_gives_the_same_descriptors() {
    let spec = "date,start_time:%H%M,end_time,pause,duration,";
    let a = kinds(&parse_format(spec).unwrap());
    let b = kinds(&parse_format(spec).unwrap());
    assert_eq!(a, b);
    assert_eq!(a.len(), 6);
}

#[test]
fn unknown_field_error_names_the_first_unknown_column() {
    match parse_format(" date , lunch , nap ") {
        Err(FormatError::UnknownField(f)) => assert_eq!(f, "lunch"),
        other => panic!("unexpected {other:?}"),
    }
}

#[test]
fn columns_already_trimmed() {
    let cols = vec!["date".to_string(), "START_TIME:%H%M".to_string(), "".to_string()];
    assert_eq!(kinds(&parse_columns(&cols).unwrap()), vec!["date:%d.%m.%Y", "start_time:%H%M", "empty"]);
    assert!(matches!(parse_columns(&vec!["date".to_string()]), Err(FormatError::TooFewFields)));
    match parse_columns(&vec!["date".to_string(), "x".to_string(), "y".to_string()]) {
        Err(FormatError::UnknownField(f)) => assert_eq!(f, "x"),
        other => panic!("unexpected {other:?}"),
    }
}

#[test]
fn padded_layout_parses_like_the_bare_one() {
    let a = kinds(&parse_format("date,start_time,end_time").unwrap());
    let b = kinds(&parse_format("  date ,\tstart_time ,  end_time  ").unwrap());
    assert_eq!(a, b);
}
