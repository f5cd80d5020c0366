use kadium::errors::ParseError;
use kadium::time_codec::{parse_absolute_duration, parse_datetime};

#[test]
fn duration_hours_minutes_seconds() {
    assert_eq!(parse_absolute_duration("PT1H2M3S"), Ok(3723000));
}

#[test]
fn duration_with_year_is_rejected() {
    assert_eq!(parse_absolute_duration("P1Y"), Err(ParseError::CalendarDuration));
}

#[test]
fn duration_with_month_is_rejected() {
    assert_eq!(parse_absolute_duration("P2M"), Err(ParseError::CalendarDuration));
    assert_eq!(parse_absolute_duration("P1Y2M3DT4H5M6S"), Err(ParseError::CalendarDuration));
}

#[test]
fn duration_with_zero_year_is_still_rejected() {
    assert_eq!(parse_absolute_duration("P0Y"), Err(ParseError::CalendarDuration));
}

#[test]
fn duration_ten_minutes() {
    assert_eq!(parse_absolute_duration("PT10M"), Ok(600000));
}

#[test]
fn duration_days_and_weeks() {
    assert_eq!(parse_absolute_duration("P1D"), Ok(86400000));
    assert_eq!(parse_absolute_duration("P1DT2H"), Ok(93600000));
    assert_eq!(parse_absolute_duration("P2W"), Ok(1209600000));
    assert_eq!(parse_absolute_duration("PT0S"), Ok(0));
}

#[test]
fn duration_grammar_rejections() {
    assert_eq!(parse_absolute_duration(""), Err(ParseError::InvalidDuration));
    assert_eq!(parse_absolute_duration("P"), Err(ParseError::InvalidDuration));
    assert_eq!(parse_absolute_duration("PT"), Err(ParseError::InvalidDuration));
    assert_eq!(parse_absolute_duration("10M"), Err(ParseError::InvalidDuration));
    assert_eq!(parse_absolute_duration("PT1H2M3"), Err(ParseError::InvalidDuration));
    assert_eq!(parse_absolute_duration("P12WT12H"), Err(ParseError::InvalidDuration));
    assert_eq!(parse_absolute_duration("PT0.5S"), Err(ParseError::InvalidDuration));
    assert_eq!(parse_absolute_duration("PT-1S"), Err(ParseError::InvalidDuration));
    assert_eq!(parse_absolute_duration("PT1S "), Err(ParseError::InvalidDuration));
}

#[test]
fn duration_components_must_stay_in_order() {
    assert_eq!(parse_absolute_duration("PT1M2H"), Err(ParseError::InvalidDuration));
    assert_eq!(parse_absolute_duration("P1DT"), Ok(86400000));
}

#[test]
fn duration_saturates_instead_of_overflowing() {
    assert_eq!(parse_absolute_duration("PT99999999999999999999S"), Ok(i64::MAX));
    assert_eq!(parse_absolute_duration("P99999999999999999999999999D"), Ok(i64::MAX));
}

#[test]
fn duration_agrees_with_a_float_based_decoder_on_integer_inputs() {
    for input in ["PT1H2M3S", "P1D", "P2W", "PT10M", "PT0S", "P3DT4H5M6S"] {
        let ours = parse_absolute_duration(input).unwrap();
        let theirs = iso8601_duration::Duration::parse(input).unwrap();
        let theirs_ms = (theirs.num_seconds().unwrap() as f64 * 1000.0).round() as i64;
        assert_eq!(ours, theirs_ms, "mismatch on {}", input);
    }
}

#[test]
fn timestamp_utc() {
    assert_eq!(parse_datetime("2021-10-08T14:00:00Z"), Ok(1633701600000));
}

#[test]
fn timestamp_with_offset() {
    assert_eq!(parse_datetime("2023-01-02T03:04:05+02:00"), Ok(1672621445000));
}

#[test]
fn timestamp_with_fractional_seconds() {
    assert_eq!(parse_datetime("2020-06-01T00:00:00.500Z"), Ok(1590969600500));
}

#[test]
fn timestamp_rejections() {
    assert_eq!(parse_datetime(""), Err(ParseError::InvalidTimestamp));
    assert_eq!(parse_datetime("2021-10-08"), Err(ParseError::InvalidTimestamp));
    assert_eq!(parse_datetime("2021-10-08T14:00:00"), Err(ParseError::InvalidTimestamp));
    assert_eq!(parse_datetime("not a date"), Err(ParseError::InvalidTimestamp));
    assert_eq!(parse_datetime("2021-13-40T99:00:00Z"), Err(ParseError::InvalidTimestamp));
}

#[test]
fn timestamp_agrees_with_the_transport_library() {
    let s = "2019-03-05T07:45:30+01:00";
    let expected = chrono::DateTime::parse_from_rfc3339(s).unwrap().timestamp_millis();
    assert_eq!(parse_datetime(s), Ok(expected));
}
