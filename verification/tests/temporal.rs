use pydantic_core::datetime::{
    bytes_as_date, bytes_as_datetime, bytes_as_time, bytes_as_timedelta, date_as_datetime,
    int_as_datetime, int_as_duration, int_as_time, timedelta_parts_as_duration, RawDate,
    RawDuration, RawTime, TzInfo,
};
use pydantic_core::errors::{ErrorKind, ValError};

fn single_kind(e: ValError) -> ErrorKind {
    match e {
        ValError::LineErrors(v) => {
            assert_eq!(v.len(), 1);
            let e = v.into_iter().next().unwrap();
            assert!(e.location.is_empty());
            e.kind
        }
        ValError::Internal(m) => panic!("unexpected internal error: {m}"),
    }
}

#[test]
fn date_from_bytes() {
    let d = bytes_as_date(b"2022-06-07").unwrap();
    assert_eq!(d, RawDate { year: 2022, month: 6, day: 7 });
}

#[test]
fn date_from_bad_bytes() {
    match single_kind(bytes_as_date(b"123").unwrap_err()) {
        ErrorKind::DateParsing { error } => assert_eq!(error, "input is too short"),
        k => panic!("wrong kind: {k:?}"),
    }
}

#[test]
fn time_from_bytes() {
    let t = bytes_as_time(b"12:13:14").unwrap();
    assert_eq!(t, RawTime { hour: 12, minute: 13, second: 14, microsecond: 0 });
}

#[test]
fn datetime_from_bytes_with_zone() {
    let dt = bytes_as_datetime(b"2022-06-07T16:28:40.000123Z").unwrap();
    assert_eq!(dt.date, RawDate { year: 2022, month: 6, day: 7 });
    assert_eq!(dt.time, RawTime { hour: 16, minute: 28, second: 40, microsecond: 123 });
    assert_eq!(dt.offset, Some(0));
}

#[test]
fn datetime_naive_offset_absent() {
    let dt = bytes_as_datetime(b"2000-01-01T00:00:00").unwrap();
    assert_eq!(dt.offset, None);
}

#[test]
fn timedelta_from_bytes() {
    let d = bytes_as_timedelta(b"P1DT2S").unwrap();
    assert_eq!(d, RawDuration { positive: true, day: 1, second: 2, microsecond: 0 });
}

#[test]
fn timedelta_from_bad_bytes() {
    match single_kind(bytes_as_timedelta(b"x").unwrap_err()) {
        ErrorKind::TimeDeltaParsing { .. } => {}
        k => panic!("wrong kind: {k:?}"),
    }
}

#[test]
fn datetime_from_timestamp() {
    let dt = int_as_datetime(1_654_619_320, 123).unwrap();
    assert_eq!(dt.date, RawDate { year: 2022, month: 6, day: 7 });
    assert_eq!(dt.time, RawTime { hour: 16, minute: 28, second: 40, microsecond: 123 });
    assert_eq!(dt.offset, None);
}

#[test]
fn datetime_from_split_float_timestamp() {
    // 2.0000005 seconds split by the caller into whole seconds and a rounded
    // microsecond remainder: whole 2, microseconds 1 (rounded, not truncated)
    let whole = 2.0000005_f64.floor() as i64;
    let micro = (2.0000005_f64.fract().abs() * 1_000_000.0).round() as u32;
    assert_eq!(whole, 2);
    assert_eq!(micro, 1);
    let dt = int_as_datetime(whole, micro).unwrap();
    assert_eq!(dt.date, RawDate { year: 1970, month: 1, day: 1 });
    assert_eq!(dt.time, RawTime { hour: 0, minute: 0, second: 2, microsecond: 1 });
}

#[test]
fn negative_time_rejected() {
    match single_kind(int_as_time(-1, 0).unwrap_err()) {
        ErrorKind::TimeParsing { error } => assert_eq!(error, "time in seconds must be positive"),
        k => panic!("wrong kind: {k:?}"),
    }
}

#[test]
fn last_microsecond_of_day() {
    let t = int_as_time(86_399, 999_999).unwrap();
    assert_eq!(t, RawTime { hour: 23, minute: 59, second: 59, microsecond: 999_999 });
}

#[test]
fn oversized_time_clamped_to_range_error() {
    match single_kind(int_as_time(86_400, 0).unwrap_err()) {
        ErrorKind::TimeParsing { error } => assert_eq!(error, "numeric times may not exceed 86,399 seconds"),
        k => panic!("wrong kind: {k:?}"),
    }
    match single_kind(int_as_time(i64::MAX, 0).unwrap_err()) {
        ErrorKind::TimeParsing { .. } => {}
        k => panic!("wrong kind: {k:?}"),
    }
}

#[test]
fn duration_round_trip_magnitude() {
    let d = int_as_duration(100, 123_456).unwrap();
    assert_eq!(d, RawDuration { positive: true, day: 0, second: 100, microsecond: 123_456 });
    let total = (d.day as i128 * 86_400 + d.second as i128) * 1_000_000 + d.microsecond as i128;
    assert_eq!(total, 100 * 1_000_000 + 123_456);

    let d = int_as_duration(-86_400, -123_000).unwrap();
    assert_eq!(d, RawDuration { positive: false, day: 1, second: 0, microsecond: 123_000 });
    let total = (d.day as i128 * 86_400 + d.second as i128) * 1_000_000 + d.microsecond as i128;
    assert_eq!(total, 86_400_i128 * 1_000_000 + 123_000);
}

#[test]
fn duration_mismatched_signs_fail() {
    match int_as_duration(1, -1).unwrap_err() {
        ErrorKind::TimeDeltaParsing { error } => assert_eq!(error, "input is too short"),
        k => panic!("wrong kind: {k:?}"),
    }
    match int_as_duration(-1, 1).unwrap_err() {
        ErrorKind::TimeDeltaParsing { error } => assert_eq!(error, "input is too short"),
        k => panic!("wrong kind: {k:?}"),
    }
}

#[test]
fn duration_zero_seconds_sign_is_positive() {
    // with zero seconds the sign is taken as non-negative, whatever the
    // sign of the microseconds
    let d = int_as_duration(0, -5).unwrap();
    assert_eq!(d, RawDuration { positive: true, day: 0, second: 0, microsecond: 5 });
    let d = int_as_duration(0, 0).unwrap();
    assert!(d.positive);
}

#[test]
fn duration_too_large_fails() {
    match int_as_duration(i64::MAX, 0).unwrap_err() {
        ErrorKind::TimeDeltaParsing { error } => {
            assert_eq!(error, "numeric times may not exceed 86,399 seconds")
        }
        k => panic!("wrong kind: {k:?}"),
    }
}

#[test]
fn host_timedelta_fields_normalize() {
    // a whole negative day, and a positive day with remainders
    let d = timedelta_parts_as_duration(-1, 0, 0);
    assert_eq!(d, RawDuration { positive: false, day: 1, second: 0, microsecond: 0 });
    let d = timedelta_parts_as_duration(1, 2, 3);
    assert_eq!(d, RawDuration { positive: true, day: 1, second: 2, microsecond: 3 });
}

#[test]
fn date_to_midnight_datetime() {
    let d = RawDate { year: 2022, month: 6, day: 7 };
    let dt = date_as_datetime(&d);
    assert_eq!(dt.date, d);
    assert_eq!(dt.time, RawTime { hour: 0, minute: 0, second: 0, microsecond: 0 });
    assert_eq!(dt.offset, None);
}

#[test]
fn tzinfo_strings() {
    assert_eq!(TzInfo::new(0).offset_string(), "UTC");
    assert_eq!(TzInfo::new(3600).offset_string(), "+01:00");
    assert_eq!(TzInfo::new(-23_400).offset_string(), "-06:30");
    assert_eq!(TzInfo::new(3600).tzname(), "+01:00");
    assert!(TzInfo::new(3600).dst().is_none());
}

#[test]
fn tzinfo_utcoffset() {
    let off = TzInfo::new(3600).utcoffset();
    assert_eq!(off, RawDuration { positive: true, day: 0, second: 3600, microsecond: 0 });
    let off = TzInfo::new(-60).utcoffset();
    assert_eq!(off, RawDuration { positive: false, day: 0, second: 60, microsecond: 0 });
}
