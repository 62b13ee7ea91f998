use std::time::Duration;

use bbm::duration::{duration_in_range, format_duration, parse_duration, DurationError};

fn parse(s: &str) -> Result<Duration, DurationError> {
    parse_duration(s).map(Duration::from_secs)
}

#[test]
fn parse_seconds() {
    assert_eq!(parse("45s").unwrap(), Duration::from_secs(45));
}

#[test]
fn parse_minutes() {
    assert_eq!(parse("30m").unwrap(), Duration::from_secs(1800));
}

#[test]
fn parse_hours() {
    assert_eq!(parse("2h").unwrap(), Duration::from_secs(7200));
}

#[test]
fn parse_days() {
    assert_eq!(parse("1d").unwrap(), Duration::from_secs(86400));
}

#[test]
fn parse_combined() {
    assert_eq!(parse("1h30m").unwrap(), Duration::from_secs(5400));
    assert_eq!(parse("2h30m45s").unwrap(), Duration::from_secs(9045));
}

#[test]
fn parse_invalid() {
    assert!(parse("").is_err());
    assert!(parse("30").is_err());
    assert!(parse("abc").is_err());
    assert!(parse("0m").is_err());
    assert!(parse("30x").is_err());
}

#[test]
fn format_roundtrip() {
    assert_eq!(format_duration(Duration::from_secs(45).as_secs()), "45s");
    assert_eq!(format_duration(Duration::from_secs(1800).as_secs()), "30m");
    assert_eq!(format_duration(Duration::from_secs(5400).as_secs()), "1h30m");
    assert_eq!(format_duration(Duration::from_secs(90061).as_secs()), "1d1h1m1s");
}

#[test]
fn each_error_kind_is_reported() {
    assert_eq!(parse_duration("m"), Err(DurationError::MissingNumber('m')));
    assert_eq!(parse_duration("30x"), Err(DurationError::UnknownUnit('x')));
    assert_eq!(parse_duration("30"), Err(DurationError::MissingUnit));
    assert_eq!(parse_duration("0m"), Err(DurationError::Zero));
    assert_eq!(parse_duration(""), Err(DurationError::Zero));
    assert_eq!(parse_duration("99999999999999999999s"), Err(DurationError::NumberTooLarge));
    // A total past 64 bits is outside what parse_duration takes.
    assert!(!duration_in_range("18446744073709551615d"));
    assert!(duration_in_range("99999999999999999999s"));
    assert!(duration_in_range("30m"));
}

#[test]
fn error_messages_name_the_input() {
    assert_eq!(
        DurationError::UnknownUnit('x').message("30x"),
        "invalid duration '30x': unknown unit 'x' (use s, m, h, d)"
    );
    assert_eq!(
        DurationError::MissingUnit.message("30"),
        "invalid duration '30': number without unit (use s, m, h, d)"
    );
    assert_eq!(
        DurationError::Zero.message("0m"),
        "invalid duration '0m': duration must be greater than zero"
    );
}

#[test]
fn formatted_durations_parse_back() {
    // The law: what format_duration writes, parse_duration reads back.
    for secs in [1u64, 59, 60, 61, 3599, 3600, 86399, 86400, 90061, 1_000_000] {
        let text = format_duration(secs);
        assert_eq!(parse_duration(&text), Ok(secs), "{text}");
    }
}

#[test]
fn repeated_units_add_up() {
    assert_eq!(parse_duration("1m1m"), Ok(120));
    assert_eq!(parse_duration("90s"), Ok(90));
    assert_eq!(format_duration(0), "0s");
}

#[test]
fn written_parts_add_up() {
    // The law: a followed by b reads as the sum of both.
    for (a, b) in [("1h", "30m"), ("2d", "1s"), ("90s", "90s"), ("1h30m", "45s")] {
        let joined = format!("{a}{b}");
        assert_eq!(parse_duration(&joined), Ok(parse_duration(a).unwrap() + parse_duration(b).unwrap()));
    }
}
