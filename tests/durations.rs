use hqcli::duration::{duration_from_parts, parse_duration, round_duration, ValueError};

#[test]
fn compact_duration() {
    assert_eq!(parse_duration("8h30m").unwrap(), 8 * 3600 + 30 * 60);
}

#[test]
fn verbose_duration() {
    assert_eq!(parse_duration("9 hours 15 minutes").unwrap(), 9 * 3600 + 15 * 60);
}

#[test]
fn text_that_is_no_duration() {
    assert!(matches!(parse_duration("not a duration"), Err(ValueError::InvalidDuration(_))));
}

#[test]
fn fraction_of_a_second_is_dropped() {
    assert_eq!(parse_duration("1500ms").unwrap(), 1);
}

#[test]
fn rounding_to_minutes() {
    assert_eq!(round_duration(0), 0);
    assert_eq!(round_duration(59), 0);
    assert_eq!(round_duration(3601), 3600);
    assert_eq!(round_duration(7199), 7140);
}

#[test]
fn duration_from_parser_result() {
    assert_eq!(duration_from_parts("x", Some((90, 999_999_999))).unwrap(), 90);
    assert!(matches!(duration_from_parts("x", None), Err(ValueError::InvalidDuration(t)) if t == "x"));
    assert_eq!(duration_from_parts("x", Some((9_223_372_036_854_775, 807_000_000))).unwrap(), 9_223_372_036_854_775);
    assert!(matches!(
        duration_from_parts("big", Some((9_223_372_036_854_775, 807_000_001))),
        Err(ValueError::DurationTooLong(t)) if t == "big"
    ));
}

#[test]
fn duration_error_holds_the_text() {
    assert!(matches!(parse_duration("soon"), Err(ValueError::InvalidDuration(t)) if t == "soon"));
}
