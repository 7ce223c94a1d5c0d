use pomolife::cli::{duration_ok, parse_duration, DurationError};

#[test]
fn parses_duration_units() {
    assert_eq!(parse_duration("90s").unwrap(), 90);
    assert_eq!(parse_duration("10m").unwrap(), 600);
    assert_eq!(parse_duration("2h").unwrap(), 7200);
}

#[test]
fn duration_errors() {
    assert_eq!(parse_duration("10x"), Err(DurationError::BadUnit));
    assert_eq!(parse_duration("xm"), Err(DurationError::NotANumber));
    assert_eq!(parse_duration("s"), Err(DurationError::NotANumber));
    assert_eq!(parse_duration("+5s"), Ok(5));
    // one trailing space: the split falls at the end, so the unit is empty
    assert_eq!(parse_duration("5s "), Err(DurationError::NotANumber));
    assert_eq!(parse_duration("5 "), Err(DurationError::BadUnit));
}

#[test]
fn duration_panicking_inputs_are_flagged() {
    assert!(duration_ok("90s"));
    // two bytes of white space put the split past the trimmed text
    assert!(!duration_ok("  90s"));
    // a last character of two bytes puts the split inside it
    assert!(!duration_ok("5é"));
    // too many minutes for a u64 of seconds
    assert!(!duration_ok("18446744073709551615m"));
    assert!(duration_ok("18446744073709551615s"));
}

#[test]
fn number_and_unit_laws_on_values() {
    assert_eq!(parse_duration("25m"), Ok(1500));
    assert_eq!(parse_duration("120h"), Ok(432000));
    assert_eq!(parse_duration("0s"), Ok(0));
    assert_eq!(parse_duration("007m"), Ok(420));
    assert!(duration_ok("99999999999999999999s"));
    assert_eq!(parse_duration("99999999999999999999s"), Err(DurationError::NotANumber));
    assert!(!duration_ok("  10m  "));
    assert_eq!(DurationError::BadUnit.message(), "duration must end in s, m, or h");
}
