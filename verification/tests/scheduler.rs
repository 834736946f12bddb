use std::time::Duration;
use wtch::scheduler::{interval_overflows, parse_interval, parse_interval_secs};

#[test]
fn test_parse_interval_seconds() {
    assert_eq!(parse_interval("30s"), Some(Duration::from_secs(30)));
}

#[test]
fn test_parse_interval_minutes() {
    assert_eq!(parse_interval("5m"), Some(Duration::from_secs(300)));
}

#[test]
fn test_parse_interval_hours() {
    assert_eq!(parse_interval("1h"), Some(Duration::from_secs(3600)));
}

#[test]
fn test_parse_interval_60s() {
    assert_eq!(parse_interval("60s"), Some(Duration::from_secs(60)));
}

#[test]
fn test_parse_interval_2h() {
    assert_eq!(parse_interval("2h"), Some(Duration::from_secs(7200)));
}

#[test]
fn test_parse_interval_whitespace_trimmed() {
    assert_eq!(parse_interval("  10s  "), Some(Duration::from_secs(10)));
}

#[test]
fn test_parse_interval_empty_string_returns_none() {
    assert_eq!(parse_interval(""), None);
}

#[test]
fn test_parse_interval_no_suffix_returns_none() {
    assert_eq!(parse_interval("60"), None);
}

#[test]
fn test_parse_interval_invalid_number_returns_none() {
    assert_eq!(parse_interval("abcs"), None);
}

#[test]
fn test_parse_interval_unknown_suffix_returns_none() {
    assert_eq!(parse_interval("30d"), None);
}

#[test]
fn test_parse_interval_zero_seconds() {
    assert_eq!(parse_interval("0s"), Some(Duration::from_secs(0)));
}

#[test]
fn interval_accepts_plus_sign_and_inner_spaces() {
    assert_eq!(parse_interval_secs("+5m"), Some(300));
    assert_eq!(parse_interval_secs("5 m"), Some(300));
    assert_eq!(parse_interval_secs("-5m"), None);
    assert_eq!(parse_interval_secs("+m"), None);
    assert_eq!(parse_interval_secs("s"), None);
}

#[test]
fn interval_overflow_is_detected() {
    assert!(interval_overflows("18446744073709551615h"));
    assert!(!interval_overflows("18446744073709551615s"));
    assert_eq!(parse_interval_secs("18446744073709551615s"), Some(u64::MAX));
    assert_eq!(parse_interval_secs("18446744073709551616s"), None);
    assert!(!interval_overflows("junk"));
}
