use humantime::parse_duration;
use jrb::when::{duration_iso8601, u64_to_dec};

#[test]
fn fmt_duration_ok() {
    assert_eq!(duration_iso8601(300), "P5M");
    assert_eq!(duration_iso8601(parse_duration("2h 37min").unwrap().as_secs()), "P2H37M");
    assert_eq!(duration_iso8601(parse_duration("30 minutes").unwrap().as_secs()), "P30M");
    assert_eq!(duration_iso8601(parse_duration("70 minutes").unwrap().as_secs()), "P1H10M");
}

#[test]
fn iso8601_zero_is_bare_p() {
    assert_eq!(duration_iso8601(0), "P");
}

#[test]
fn iso8601_seconds_only_has_no_time_separator() {
    assert_eq!(duration_iso8601(45), "P45S");
}

#[test]
fn iso8601_week_and_hour_keeps_time_separator() {
    assert_eq!(duration_iso8601(604800 + 3600), "P1WT1H");
}

#[test]
fn iso8601_days_and_weeks() {
    assert_eq!(duration_iso8601(86400), "P1D");
    assert_eq!(duration_iso8601(604800), "P1W");
    assert_eq!(duration_iso8601(604800 + 86400 + 61), "P1W1DT1M1S");
}

#[test]
fn iso8601_largest_duration() {
    assert_eq!(duration_iso8601(u64::MAX), "P30500568904943WT7H15S");
}

#[test]
fn decimal_rendering() {
    assert_eq!(u64_to_dec(0), "0");
    assert_eq!(u64_to_dec(7), "7");
    assert_eq!(u64_to_dec(1234567890), "1234567890");
    assert_eq!(u64_to_dec(u64::MAX), "18446744073709551615");
}
