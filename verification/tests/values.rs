use pydantic_core::datetime::RawDuration;
use pydantic_core::errors::{ErrorKind, ValError};
use pydantic_core::datetime::{bytes_as_datetime, int_as_datetime};
use pydantic_core::value::{int_to_string, key_to_string, Value};

#[test]
fn integers_render_in_decimal() {
    assert_eq!(int_to_string(0), "0");
    assert_eq!(int_to_string(7), "7");
    assert_eq!(int_to_string(120), "120");
    assert_eq!(int_to_string(-42), "-42");
    assert_eq!(int_to_string(i64::MAX), "9223372036854775807");
    assert_eq!(int_to_string(i64::MIN), "-9223372036854775808");
}

#[test]
fn keys_render_to_text() {
    assert_eq!(key_to_string(&Value::Null).unwrap(), "null");
    assert_eq!(key_to_string(&Value::Bool(true)).unwrap(), "true");
    assert_eq!(key_to_string(&Value::Bool(false)).unwrap(), "false");
    assert_eq!(key_to_string(&Value::Int(-3)).unwrap(), "-3");
    assert_eq!(key_to_string(&Value::Str("k".to_string())).unwrap(), "k");
    let d = RawDuration { positive: true, day: 0, second: 2, microsecond: 100_000 };
    assert_eq!(key_to_string(&Value::Duration(d)).unwrap(), "PT2.1S");
    assert!(key_to_string(&Value::Mapping(vec![])).is_none());
}

#[test]
fn deep_equality_is_structural() {
    let a = Value::Mapping(vec![
        (Value::Str("k".to_string()), Value::Int(1)),
        (Value::Int(2), Value::Mapping(vec![(Value::Null, Value::Bool(true))])),
    ]);
    let b = a.clone();
    assert!(a.deep_eq(&b));

    let c = Value::Mapping(vec![
        (Value::Str("k".to_string()), Value::Int(1)),
        (Value::Int(2), Value::Mapping(vec![(Value::Null, Value::Bool(false))])),
    ]);
    assert!(!a.deep_eq(&c));
    assert!(!a.deep_eq(&Value::Int(1)));
    assert!(!Value::Mapping(vec![]).deep_eq(&a));
}

#[test]
fn datetime_parse_failures_carry_their_kind() {
    match bytes_as_datetime(b"xxx").unwrap_err() {
        ValError::LineErrors(v) => {
            assert_eq!(v.len(), 1);
            assert!(matches!(v[0].kind, ErrorKind::DateTimeParsing { .. }));
        }
        other => panic!("unexpected error: {other:?}"),
    }
    // before the externally supported range
    match int_as_datetime(-20_000_000_000, 0).unwrap_err() {
        ValError::LineErrors(v) => {
            assert!(matches!(v[0].kind, ErrorKind::DateTimeParsing { .. }));
        }
        other => panic!("unexpected error: {other:?}"),
    }
}
