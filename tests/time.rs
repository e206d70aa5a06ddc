use gml::time::{expiry_after, MAX_STORED_INSTANT};
use gml::time::{parse_timeout_duration, parse_timestamp, time_remaining, timestamp_text, TimeRemaining};

#[test]
fn durations_in_seconds() {
    assert_eq!(parse_timeout_duration("1h"), Some(3600));
    assert_eq!(parse_timeout_duration("30m"), Some(1800));
    assert_eq!(parse_timeout_duration("1h30m"), Some(5400));
    assert_eq!(parse_timeout_duration("2h 30m"), Some(9000));
    assert_eq!(parse_timeout_duration("90s"), Some(90));
    assert_eq!(parse_timeout_duration("0"), Some(0));
    assert_eq!(parse_timeout_duration("soon"), None);
    assert_eq!(parse_timeout_duration(""), None);
}

#[test]
fn long_duration_texts_are_refused_without_panic() {
    assert_eq!(parse_timeout_duration("18446744073709551615s 1000ms"), None);
    assert_eq!(parse_timeout_duration("99999999999s"), Some(99_999_999_999));
    assert_eq!(parse_timeout_duration("999999999999s"), None);
}

#[test]
fn expiry_stays_within_year_9999() {
    assert_eq!(expiry_after(0, MAX_STORED_INSTANT), Some(MAX_STORED_INSTANT));
    assert_eq!(expiry_after(1, MAX_STORED_INSTANT), None);
    assert_eq!(timestamp_text(MAX_STORED_INSTANT).unwrap(), "9999-12-31T23:59:59+00:00");
}

#[test]
fn rfc3339_text_and_back() {
    assert_eq!(timestamp_text(0).unwrap(), "1970-01-01T00:00:00+00:00");
    assert_eq!(timestamp_text(1_704_067_200).unwrap(), "2024-01-01T00:00:00+00:00");
    assert_eq!(timestamp_text(i64::MAX), None);
    assert_eq!(parse_timestamp("2024-01-01T00:00:00Z"), Some(1_704_067_200));
    assert_eq!(parse_timestamp("2024-01-01T02:00:00+02:00"), Some(1_704_067_200));
    assert_eq!(parse_timestamp("not a date"), None);
}

#[test]
fn remaining_time_in_hours_and_minutes() {
    assert_eq!(time_remaining(None, 100), TimeRemaining::Never);
    assert_eq!(time_remaining(Some(100), 100), TimeRemaining::Expired);
    assert_eq!(time_remaining(Some(50), 100), TimeRemaining::Expired);
    assert_eq!(time_remaining(Some(100 + 9000 + 59), 100), TimeRemaining::Left { hours: 2, minutes: 30 });
    assert_eq!(time_remaining(Some(130), 100), TimeRemaining::Left { hours: 0, minutes: 0 });
    assert_eq!(
        time_remaining(Some(i64::MAX), i64::MIN),
        TimeRemaining::Left { hours: 5_124_095_576_030_431, minutes: 0 }
    );
}
