use rsmgclient::value::{
    c_string_to_string, date_to_mg_date, datetime_at_offset, days_as_seconds, duration_to_mg_duration,
    hours_as_seconds, local_date_time_to_mg_local_date_time, local_time_to_mg_local_time,
    mg_value_date, mg_value_datetime_zone_id, mg_value_duration, mg_value_local_date_time,
    mg_value_local_time, minutes_as_seconds, string_to_wire,
};
use rsmgclient::{Date, DateTime, Duration, LocalDateTime, LocalTime, MgError};

/// A value's text as the client shows it, in single quotes.
fn quoted(s: String) -> String {
    rsmgclient::format::quoted(&s)
}

#[test]
fn from_c_mg_value_date1() {
    let value = mg_value_date(100).unwrap();
    assert_eq!(Date::new(1970, 4, 11).unwrap(), value);
    assert_eq!(quoted(value.to_string()), "'1970-04-11'");
}

#[test]
fn from_c_mg_value_date2() {
    let value = mg_value_date(365).unwrap();
    assert_eq!(Date::new(1971, 1, 1).unwrap(), value);
    assert_eq!(quoted(value.to_string()), "'1971-01-01'");
}

#[test]
fn from_c_mg_value_date3() {
    let value = mg_value_date(-365).unwrap();
    assert_eq!(Date::new(1969, 1, 1).unwrap(), value);
    assert_eq!(quoted(value.to_string()), "'1969-01-01'");
}

#[test]
fn from_c_mg_value_local_time() {
    let value = mg_value_local_time(52835851241000).unwrap();
    assert_eq!(LocalTime::new(14, 40, 35, 851241000).unwrap(), value);
    assert_eq!(quoted(value.to_string()), "'14:40:35.851241'");
}

#[test]
fn from_c_mg_value_local_date_time1() {
    let value = mg_value_local_date_time(500 * 24 * 60 * 60 + 52835, 851241 * 1000).unwrap();
    assert_eq!(
        LocalDateTime::new(1971, 5, 16, 14, 40, 35, 851241000).unwrap(),
        value
    );
    assert_eq!(quoted(value.to_string()), "'1971-05-16 14:40:35.851241'");
}

#[test]
fn from_c_mg_value_local_date_time2() {
    let value = mg_value_local_date_time(-500 * 24 * 60 * 60 + 52835, 851241 * 1000).unwrap();
    assert_eq!(
        LocalDateTime::new(1968, 8, 19, 14, 40, 35, 851241000).unwrap(),
        value
    );
    assert_eq!(quoted(value.to_string()), "'1968-08-19 14:40:35.851241'");
}

#[test]
fn from_c_mg_value_local_date_time3() {
    let value = mg_value_local_date_time(-1, 0).unwrap();
    assert_eq!(
        LocalDateTime::new(1969, 12, 31, 23, 59, 59, 0).unwrap(),
        value
    );
    assert_eq!(quoted(value.to_string()), "'1969-12-31 23:59:59'");
}

#[test]
fn from_c_mg_value_duration() {
    let value = mg_value_duration(10, 100, 1000);
    assert_eq!(
        Duration::days(10) + Duration::seconds(100) + Duration::nanoseconds(1000),
        value
    );
    assert_eq!(quoted(value.to_string()), "'PT864100.000001S'");
}

#[test]
fn from_c_mg_value_string() {
    let bytes = "ṰⱻⱾᵀ".as_bytes();
    let value = c_string_to_string(bytes);
    assert_eq!(value, String::from("ṰⱻⱾᵀ"));
    assert_eq!(quoted(value), "\'ṰⱻⱾᵀ\'");
}

#[test]
fn c_string_invalid_utf8_is_replaced() {
    assert_eq!(c_string_to_string(&[0x66, 0xff, 0x6f]), "f\u{FFFD}o");
    assert_eq!(c_string_to_string(&[0xe1, 0xb9]), "\u{FFFD}");
    assert_eq!(c_string_to_string(b"test"), "test");
    assert_eq!(c_string_to_string(b""), "");
}

#[test]
fn from_naive_date_param_to_mg_value() {
    let date = Date::new(1971, 1, 1).unwrap();
    let days = date_to_mg_date(&date);
    assert_eq!(days, 365);
    let value = mg_value_date(days).unwrap();
    assert_eq!(quoted(value.to_string()), "'1971-01-01'");
    assert_eq!(value.year(), 1971);
    assert_eq!(value.month(), 1);
    assert_eq!(value.day(), 1);
}

#[test]
fn from_naive_local_time_param_to_mg_value() {
    let time = LocalTime::new(2, 3, 4, 1234).unwrap();
    let ns = local_time_to_mg_local_time(&time);
    assert_eq!(ns, (2 * 3600 + 3 * 60 + 4) * 1_000_000_000 + 1234);
    let value = mg_value_local_time(ns).unwrap();
    assert_eq!(quoted(value.to_string()), "'02:03:04.000001234'");
    assert_eq!(value.hour(), 2);
    assert_eq!(value.minute(), 3);
    assert_eq!(value.second(), 4);
    assert_eq!(value.nanosecond(), 1234);
}

#[test]
fn from_naive_local_date_time_param_to_mg_value() {
    let dt = LocalDateTime::new(1960, 1, 1, 2, 3, 4, 1234).unwrap();
    let (secs, nanos) = local_date_time_to_mg_local_date_time(&dt);
    let value = mg_value_local_date_time(secs, nanos).unwrap();
    assert_eq!(quoted(value.to_string()), "'1960-01-01 02:03:04.000001234'");
    assert_eq!(value.year(), 1960);
    assert_eq!(value.month(), 1);
    assert_eq!(value.day(), 1);
    assert_eq!(value.hour(), 2);
    assert_eq!(value.minute(), 3);
    assert_eq!(value.second(), 4);
    assert_eq!(value.nanosecond(), 1234);
    assert_eq!(value, dt);
}

#[test]
fn from_duration_to_mg_value_1() {
    let d = Duration::nanoseconds(86403000000000);
    let (months, days, seconds, nanos) = duration_to_mg_duration(&d);
    assert_eq!((months, days, seconds, nanos), (0, 1, 3, 0));
    let value = mg_value_duration(days, seconds, nanos);
    assert_eq!(quoted(value.to_string()), "'PT86403S'");
    assert_eq!(value.num_weeks(), 0);
    assert_eq!(value.num_hours(), 24);
    assert_eq!(value.num_days(), 1);
    assert_eq!(value.num_seconds(), 86403);
    assert_eq!(value.num_nanoseconds(), 86403000000000);
}

#[test]
fn from_duration_to_mg_value_2() {
    let d = Duration::nanoseconds(123456789);
    let (_months, days, seconds, nanos) = duration_to_mg_duration(&d);
    let value = mg_value_duration(days, seconds, nanos);
    assert_eq!(quoted(value.to_string()), "'PT0.123456789S'");
    assert_eq!(value.num_weeks(), 0);
    assert_eq!(value.num_hours(), 0);
    assert_eq!(value.num_days(), 0);
    assert_eq!(value.num_seconds(), 0);
    assert_eq!(value.num_nanoseconds(), 123456789);
}

#[test]
fn negative_durations() {
    let d = Duration::nanoseconds(-1_500_000_000);
    assert_eq!(d.num_seconds(), -1);
    assert_eq!(d.to_string(), "-PT1.5S");
    let half = Duration::nanoseconds(-500_000_000);
    assert_eq!(half.num_seconds(), 0);
    assert_eq!(half.to_string(), "-PT0.5S");
    assert_ne!(half.to_string(), Duration::nanoseconds(500_000_000).to_string());
    assert_eq!(Duration::seconds(-2).to_string(), "-PT2S");
    assert_eq!(Duration::seconds(i64::MIN).to_string(), "-PT9223372036854775808S");
    assert_eq!(Duration::seconds(0).to_string(), "PT0S");
    assert_eq!(Duration::days(-15).num_weeks(), -2);
    assert_eq!(Duration::seconds(-7199).num_hours(), -1);
    assert_eq!(duration_to_mg_duration(&Duration::seconds(-90_000)), (0, -1, -3600, 0));
    let sum = Duration::seconds(2) + Duration::nanoseconds(-999_999_999);
    assert_eq!(sum, Duration::nanoseconds(1_000_000_001));
    assert_eq!(sum.to_string(), "PT1.000000001S");
}

#[test]
fn duration_round_trip() {
    let d = Duration::nanoseconds(-3_000_000_000_000_123);
    let (_m, days, seconds, nanos) = duration_to_mg_duration(&d);
    assert_eq!(mg_value_duration(days, seconds, nanos), d);
}

#[test]
fn date_round_trip_and_range() {
    for (y, m, d) in [(-9999, 1, 1), (2024, 2, 29), (1970, 1, 1), (9999, 12, 31), (-1, 3, 1)] {
        let date = Date::new(y, m, d).unwrap();
        let days = date_to_mg_date(&date);
        assert_eq!(mg_value_date(days).unwrap(), date);
    }
    assert_eq!(date_to_mg_date(&Date::new(-9999, 1, 1).unwrap()), -4371587);
    assert_eq!(date_to_mg_date(&Date::new(9999, 12, 31).unwrap()), 2932896);
    match mg_value_date(2932897) {
        Err(MgError::InvalidParameter { parameter, .. }) => assert_eq!(parameter, "date"),
        _ => panic!("expected an invalid date"),
    }
    for days in [7_304_485, -7_304_485, i64::MAX, i64::MIN] {
        match mg_value_date(days) {
            Err(MgError::InvalidParameter { parameter, reason }) => {
                assert_eq!(parameter, "date");
                assert!(!reason.is_empty());
            }
            _ => panic!("a day count beyond any span is refused"),
        }
    }
}

#[test]
fn date_text_negative_year() {
    assert_eq!(Date::new(-5, 3, 7).unwrap().to_string(), "-000005-03-07");
}

#[test]
fn invalid_components_are_refused() {
    match Date::new(2023, 2, 29) {
        Err(MgError::InvalidParameter { parameter, reason }) => {
            assert_eq!(parameter, "date");
            assert!(!reason.is_empty());
        }
        _ => panic!("2023-02-29 is not a date"),
    }
    match LocalTime::new(24, 0, 0, 0) {
        Err(MgError::InvalidParameter { parameter, .. }) => assert_eq!(parameter, "local_time"),
        _ => panic!("24:00 is not a time"),
    }
    match LocalDateTime::new(2024, 1, 1, 0, 60, 0, 0) {
        Err(MgError::InvalidParameter { parameter, .. }) => {
            assert_eq!(parameter, "local_date_time")
        }
        _ => panic!("minute 60 is not valid"),
    }
}

#[test]
fn local_time_from_wire_edges() {
    assert!(mg_value_local_time(-1).is_err());
    assert!(mg_value_local_time(86_400 * 1_000_000_000).is_err());
    // 256 hours narrow to hour 0.
    let t = mg_value_local_time(256 * 3600 * 1_000_000_000).unwrap();
    assert_eq!(t, LocalTime::new(0, 0, 0, 0).unwrap());
}

#[test]
fn local_date_time_from_wire_errors() {
    match mg_value_local_date_time(0, 2_000_000_000) {
        Err(MgError::InvalidTimestamp) => {}
        _ => panic!("nanoseconds beyond one second are refused"),
    }
    match mg_value_local_date_time(i64::MAX, 0) {
        Err(MgError::InvalidTimestamp) => {}
        _ => panic!("seconds beyond the range are refused"),
    }
    let dt = mg_value_local_date_time(1, -500_000_000).unwrap();
    assert_eq!(dt.to_string(), "1970-01-01 00:00:00.5");
}

#[test]
fn local_date_time_out_of_timestamp_range_is_sent_as_epoch() {
    let dt = LocalDateTime::new(-9999, 1, 1, 0, 0, 0, 0).unwrap();
    assert_eq!(local_date_time_to_mg_local_date_time(&dt), (0, 0));
    let before_epoch = LocalDateTime::new(1969, 12, 31, 23, 59, 59, 500_000_000).unwrap();
    assert_eq!(
        local_date_time_to_mg_local_date_time(&before_epoch),
        (0, -500_000_000)
    );
    // Half a second into the second before the first timestamp: still before it.
    let before_first = LocalDateTime::new(-9999, 1, 2, 1, 59, 58, 500_000_000).unwrap();
    assert_eq!(local_date_time_to_mg_local_date_time(&before_first), (0, 0));
    // Half a second into the first second of timestamps.
    let first = LocalDateTime::new(-9999, 1, 2, 1, 59, 59, 500_000_000).unwrap();
    assert_eq!(
        local_date_time_to_mg_local_date_time(&first),
        (-377705023200, -500_000_000)
    );
    assert_eq!(
        mg_value_local_date_time(-377705023200, -500_000_000).unwrap(),
        first
    );
}

#[test]
fn unit_conversions() {
    assert_eq!(days_as_seconds(2), 172_800);
    assert_eq!(hours_as_seconds(-3), -10_800);
    assert_eq!(minutes_as_seconds(5), 300);
}

#[test]
fn datetime_with_zone() {
    let dt = mg_value_datetime_zone_id(1713708900, 0, None).unwrap();
    assert_eq!(dt.time_zone_id, Some("UTC".to_string()));
    assert_eq!(dt.time_zone_offset_seconds, 0);
    assert_eq!(
        (dt.year, dt.month, dt.day, dt.hour, dt.minute, dt.second, dt.nanosecond),
        (2024, 4, 21, 14, 15, 0, 0)
    );
    assert_eq!(dt.to_string(), "2024-04-21 14:15:00.000000000 +00:00");
    let unknown = mg_value_datetime_zone_id(0, 5, Some("No/Such_Zone".to_string())).unwrap();
    assert_eq!(unknown.time_zone_id, Some("No/Such_Zone".to_string()));
    assert_eq!(unknown.time_zone_offset_seconds, 0);
    assert_eq!(unknown.nanosecond, 5);
    match mg_value_datetime_zone_id(0, 1_000_000_000, None) {
        Err(MgError::InvalidTimestamp) => {}
        _ => panic!("nanoseconds beyond one second are refused"),
    }
}

#[test]
fn datetime_at_offset_uses_the_offset_found() {
    let utc = datetime_at_offset(1713708900, 0, "Etc/UTC".to_string(), None).unwrap();
    assert_eq!(
        utc,
        DateTime {
            year: 2024,
            month: 4,
            day: 21,
            hour: 14,
            minute: 15,
            second: 0,
            nanosecond: 0,
            time_zone_offset_seconds: 0,
            time_zone_id: Some("Etc/UTC".to_string()),
        }
    );
    let zagreb = datetime_at_offset(1713708900, 0, "Europe/Zagreb".to_string(), Some(7200)).unwrap();
    assert_eq!((zagreb.day, zagreb.hour, zagreb.minute), (21, 16, 15));
    assert_eq!(zagreb.time_zone_offset_seconds, 7200);
    let west = datetime_at_offset(0, 0, "X".to_string(), Some(-3600)).unwrap();
    assert_eq!((west.year, west.month, west.day, west.hour), (1969, 12, 31, 23));
    match datetime_at_offset(0, -1_000_000_000, "UTC".to_string(), None) {
        Err(MgError::InvalidTimestamp) => {}
        _ => panic!("nanoseconds beyond one second are refused"),
    }
}

#[test]
fn datetime_text_forms() {
    let dt = DateTime {
        year: -5,
        month: 1,
        day: 2,
        hour: 3,
        minute: 4,
        second: 5,
        nanosecond: 6,
        time_zone_offset_seconds: -(5 * 3600 + 30 * 60),
        time_zone_id: None,
    };
    assert_eq!(dt.to_string(), "-005-01-02 03:04:05.000000006 -05:30");
}

#[test]
fn error_texts() {
    assert_eq!(
        MgError::invalid_parameter("date", "bad").to_string(),
        "Invalid parameter 'date': bad"
    );
    assert_eq!(MgError::null_byte("name").to_string(), "Parameter 'name' contains null byte");
    assert_eq!(MgError::InvalidTimestamp.to_string(), "Invalid timestamp values");
    assert_eq!(
        MgError::invalid_state("commit", "executing").to_string(),
        "Invalid connection state: commit cannot be called while executing"
    );
    assert_eq!(MgError::ffi("x").to_string(), "FFI error: x");
    assert_eq!(MgError::query("q").to_string(), "Query execution error: q");
    assert_eq!(MgError::connection("c").to_string(), "Connection error: c");
    assert_eq!(MgError::new("n".to_string()).to_string(), "Connection error: n");
}

#[test]
fn string_wire_form() {
    assert_eq!(string_to_wire("ṰⱻⱾᵀ").unwrap(), "ṰⱻⱾᵀ".as_bytes().to_vec());
    assert_eq!(c_string_to_string(&string_to_wire("ṰⱻⱾᵀ").unwrap()), "ṰⱻⱾᵀ");
    assert_eq!(string_to_wire(""), Some(Vec::new()));
    assert_eq!(string_to_wire("a\0b"), None);
}
