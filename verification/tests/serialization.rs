use pydantic_core::datetime::RawDuration;
use pydantic_core::errors::ValError;
use pydantic_core::serializers::{
    CombinedSerializer, Extra, SerFieldSchema, SerMode, SerSchema,
};
use pydantic_core::value::Value;

fn key(s: &str) -> Value {
    Value::Str(s.to_string())
}

fn extra(mode: SerMode) -> Extra {
    Extra { mode, by_alias: false, exclude_none: false, exclude_defaults: false }
}

fn field(name: &str, schema: SerSchema, alias: Option<&str>, exclude: bool) -> SerFieldSchema {
    SerFieldSchema {
        key: name.to_string(),
        schema: Box::new(schema),
        serialization_alias: alias.map(|a| a.to_string()),
        serialization_exclude: exclude,
    }
}

fn typed_dict(fields: Vec<SerFieldSchema>, allow_extra: bool) -> CombinedSerializer {
    CombinedSerializer::build(&SerSchema::TypedDict { extra_behavior_allow: allow_extra, fields })
}

fn mapping_keys(v: &Value) -> Vec<String> {
    match v {
        Value::Mapping(pairs) => pairs
            .iter()
            .map(|(k, _)| match k {
                Value::Str(s) => s.clone(),
                other => panic!("non-string key: {other:?}"),
            })
            .collect(),
        other => panic!("not a mapping: {other:?}"),
    }
}

#[test]
fn alias_used_only_with_by_alias() {
    let s = typed_dict(vec![field("field_name", SerSchema::Any, Some("x"), false)], false);
    let input = Value::Mapping(vec![(key("field_name"), Value::Int(1))]);
    let mut warnings: Vec<String> = Vec::new();

    let mut e = extra(SerMode::Python);
    e.by_alias = true;
    let out = s.to_python(&input, None, None, &e, &mut warnings);
    assert_eq!(mapping_keys(&out), vec!["x"]);

    e.by_alias = false;
    let out = s.to_python(&input, None, None, &e, &mut warnings);
    assert_eq!(mapping_keys(&out), vec!["field_name"]);
    assert!(warnings.is_empty());
}

#[test]
fn default_suppression() {
    let with_default = SerSchema::WithDefault {
        default: Value::Int(5),
        inner: Box::new(SerSchema::Any),
    };
    let s = typed_dict(vec![field("a", with_default, None, false)], false);
    let mut warnings: Vec<String> = Vec::new();

    let mut e = extra(SerMode::Python);
    e.exclude_defaults = true;
    let input = Value::Mapping(vec![(key("a"), Value::Int(5))]);
    let out = s.to_python(&input, None, None, &e, &mut warnings);
    assert_eq!(mapping_keys(&out).len(), 0);

    let input = Value::Mapping(vec![(key("a"), Value::Int(6))]);
    let out = s.to_python(&input, None, None, &e, &mut warnings);
    assert_eq!(mapping_keys(&out), vec!["a"]);

    e.exclude_defaults = false;
    let input = Value::Mapping(vec![(key("a"), Value::Int(5))]);
    let out = s.to_python(&input, None, None, &e, &mut warnings);
    assert_eq!(mapping_keys(&out), vec!["a"]);
}

#[test]
fn extra_field_policy() {
    let input = Value::Mapping(vec![
        (key("declared"), Value::Int(1)),
        (key("undeclared"), Value::Int(2)),
    ]);
    let mut warnings: Vec<String> = Vec::new();
    let e = extra(SerMode::Python);

    let s = typed_dict(vec![field("declared", SerSchema::Any, None, false)], false);
    let out = s.to_python(&input, None, None, &e, &mut warnings);
    assert_eq!(mapping_keys(&out), vec!["declared"]);

    let s = typed_dict(vec![field("declared", SerSchema::Any, None, false)], true);
    let out = s.to_python(&input, None, None, &e, &mut warnings);
    assert_eq!(mapping_keys(&out), vec!["declared", "undeclared"]);
}

#[test]
fn exclude_none_skips_null_values() {
    let s = typed_dict(vec![field("a", SerSchema::Any, None, false)], true);
    let input = Value::Mapping(vec![(key("a"), Value::Null), (key("b"), Value::Int(1))]);
    let mut warnings: Vec<String> = Vec::new();
    let mut e = extra(SerMode::Python);
    e.exclude_none = true;
    let out = s.to_python(&input, None, None, &e, &mut warnings);
    assert_eq!(mapping_keys(&out), vec!["b"]);
}

#[test]
fn schema_level_exclusion_and_caller_sets() {
    let s = typed_dict(
        vec![
            field("a", SerSchema::Any, None, false),
            field("secret", SerSchema::Any, None, true),
        ],
        false,
    );
    let input = Value::Mapping(vec![
        (key("a"), Value::Int(1)),
        (key("secret"), Value::Int(2)),
    ]);
    let mut warnings: Vec<String> = Vec::new();
    let e = extra(SerMode::Python);

    let out = s.to_python(&input, None, None, &e, &mut warnings);
    assert_eq!(mapping_keys(&out), vec!["a"]);

    // an explicit include set overrides the schema-level exclusion
    let incl = vec!["secret".to_string()];
    let out = s.to_python(&input, Some(&incl), None, &e, &mut warnings);
    assert_eq!(mapping_keys(&out), vec!["secret"]);

    // a caller exclude set always wins
    let excl = vec!["a".to_string()];
    let out = s.to_python(&input, None, Some(&excl), &e, &mut warnings);
    assert_eq!(mapping_keys(&out).len(), 0);
}

#[test]
fn timedelta_json_mode_formats_iso() {
    let s = CombinedSerializer::build(&SerSchema::TimeDelta);
    let d = RawDuration { positive: true, day: 1, second: 2, microsecond: 0 };
    let mut warnings: Vec<String> = Vec::new();

    let out = s.to_python(&Value::Duration(d), None, None, &extra(SerMode::Json), &mut warnings);
    match out {
        Value::Str(text) => assert_eq!(text, "P1DT2S"),
        other => panic!("not a string: {other:?}"),
    }
    assert!(warnings.is_empty());

    // native mode hands the duration through unchanged
    let out = s.to_python(&Value::Duration(d), None, None, &extra(SerMode::Python), &mut warnings);
    assert!(out.deep_eq(&Value::Duration(d)));
    assert!(warnings.is_empty());
}

#[test]
fn timedelta_fallback_records_warning() {
    let s = CombinedSerializer::build(&SerSchema::TimeDelta);
    let mut warnings: Vec<String> = Vec::new();
    let out = s.to_python(&Value::Int(3), None, None, &extra(SerMode::Json), &mut warnings);
    assert!(out.deep_eq(&Value::Int(3)));
    assert_eq!(warnings, vec!["timedelta".to_string()]);
}

#[test]
fn typed_dict_fallback_records_warning() {
    let s = typed_dict(vec![], false);
    let mut warnings: Vec<String> = Vec::new();
    let out = s.to_python(&Value::Int(3), None, None, &extra(SerMode::Python), &mut warnings);
    assert!(out.deep_eq(&Value::Int(3)));
    assert_eq!(warnings, vec!["typed-dict".to_string()]);
}

#[test]
fn json_stream_renders_extra_keys_as_text() {
    let s = typed_dict(vec![field("a", SerSchema::Any, None, false)], true);
    let input = Value::Mapping(vec![
        (key("a"), Value::Int(1)),
        (Value::Int(2), Value::Int(3)),
        (Value::Bool(true), Value::Null),
    ]);
    let mut warnings: Vec<String> = Vec::new();
    let out = s
        .serde_serialize(&input, None, None, &extra(SerMode::Json), &mut warnings)
        .unwrap();
    assert_eq!(mapping_keys(&out), vec!["a", "2", "true"]);
}

#[test]
fn json_stream_rejects_mapping_key() {
    let s = typed_dict(vec![], true);
    let input = Value::Mapping(vec![(Value::Mapping(vec![]), Value::Int(1))]);
    let mut warnings: Vec<String> = Vec::new();
    match s.serde_serialize(&input, None, None, &extra(SerMode::Json), &mut warnings) {
        Err(ValError::Internal(_)) => {}
        other => panic!("expected a fatal error, got {other:?}"),
    }
}

#[test]
fn duration_as_json_key() {
    let s = CombinedSerializer::build(&SerSchema::TimeDelta);
    let d = RawDuration { positive: false, day: 0, second: 90, microsecond: 0 };
    let mut warnings: Vec<String> = Vec::new();
    let k = s.json_key(&Value::Duration(d), &mut warnings).unwrap();
    assert_eq!(k, "-PT90S");
    assert!(warnings.is_empty());

    let k = s.json_key(&Value::Int(9), &mut warnings).unwrap();
    assert_eq!(k, "9");
    assert_eq!(warnings, vec!["timedelta".to_string()]);

    assert!(s.json_key(&Value::Mapping(vec![]), &mut warnings).is_err());
}

#[test]
fn nested_serializers_compose() {
    let inner = SerSchema::TypedDict {
        extra_behavior_allow: false,
        fields: vec![field("x", SerSchema::TimeDelta, None, false)],
    };
    let s = typed_dict(vec![field("child", inner, None, false)], false);
    let d = RawDuration { positive: true, day: 0, second: 1, microsecond: 500_000 };
    let input = Value::Mapping(vec![(
        key("child"),
        Value::Mapping(vec![(key("x"), Value::Duration(d))]),
    )]);
    let mut warnings: Vec<String> = Vec::new();
    let out = s.to_python(&input, None, None, &extra(SerMode::Json), &mut warnings);
    match out {
        Value::Mapping(pairs) => match &pairs[0].1 {
            Value::Mapping(inner_pairs) => match &inner_pairs[0].1 {
                Value::Str(text) => assert_eq!(text, "PT1.5S"),
                other => panic!("not a string: {other:?}"),
            },
            other => panic!("not a mapping: {other:?}"),
        },
        other => panic!("not a mapping: {other:?}"),
    }
}
