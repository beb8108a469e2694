use pydantic_core::errors::{ErrorKind, LocItem, ValError, ValLineError};
use pydantic_core::validators::{CombinedValidator, RecursionGuard, Schema};
use pydantic_core::value::Value;

fn key(s: &str) -> Value {
    Value::Str(s.to_string())
}

fn dict_schema(
    keys: Option<Schema>,
    values: Option<Schema>,
    min_items: Option<usize>,
    max_items: Option<usize>,
) -> Schema {
    Schema::Dict {
        strict: false,
        keys_schema: keys.map(Box::new),
        values_schema: values.map(Box::new),
        min_items,
        max_items,
    }
}

fn run(v: &CombinedValidator, input: Value) -> Result<Value, ValError> {
    let slots: Vec<CombinedValidator> = Vec::new();
    let mut guard = RecursionGuard::new();
    v.validate(&slots, &mut guard, &input)
}

fn line_errors(e: ValError) -> Vec<ValLineError> {
    match e {
        ValError::LineErrors(v) => v,
        ValError::Internal(m) => panic!("unexpected internal error: {m}"),
    }
}

#[test]
fn valid_mapping_preserves_order() {
    let v = CombinedValidator::build(&dict_schema(Some(Schema::Str), Some(Schema::Int), None, None), 0).unwrap();
    let input = Value::Mapping(vec![
        (key("b"), Value::Int(2)),
        (key("a"), Value::Int(1)),
        (key("c"), Value::Int(3)),
    ]);
    let out = run(&v, input).unwrap();
    match out {
        Value::Mapping(pairs) => {
            let keys: Vec<&str> = pairs
                .iter()
                .map(|(k, _)| match k {
                    Value::Str(s) => s.as_str(),
                    _ => panic!("non-string key"),
                })
                .collect();
            assert_eq!(keys, vec!["b", "a", "c"]);
        }
        other => panic!("not a mapping: {other:?}"),
    }
}

#[test]
fn errors_collected_for_every_bad_entry() {
    let v = CombinedValidator::build(&dict_schema(Some(Schema::Str), Some(Schema::Int), None, None), 0).unwrap();
    let input = Value::Mapping(vec![
        (key("a"), Value::Int(1)),
        (key("b"), Value::Str("nope".to_string())),
        (Value::Int(2), Value::Int(3)),
        (key("c"), Value::Bool(true)),
    ]);
    let errs = line_errors(run(&v, input).unwrap_err());
    assert_eq!(errs.len(), 3);

    // the value under "b" was not an integer
    assert!(matches!(errs[0].kind, ErrorKind::IntType));
    assert_eq!(errs[0].clone().path(), vec![LocItem::Key("b".to_string())]);

    // the key 2 was not a string: tagged with the key itself and the marker
    assert!(matches!(errs[1].kind, ErrorKind::StrType));
    assert_eq!(
        errs[1].clone().path(),
        vec![LocItem::Index(2), LocItem::Key("[key]".to_string())]
    );

    // the value under "c" was not an integer
    assert!(matches!(errs[2].kind, ErrorKind::IntType));
    assert_eq!(errs[2].clone().path(), vec![LocItem::Key("c".to_string())]);
}

#[test]
fn too_short_reported_before_entries() {
    let v = CombinedValidator::build(&dict_schema(Some(Schema::Str), Some(Schema::Int), Some(2), None), 0).unwrap();
    // the single entry is invalid too, but the length bound wins with one error
    let input = Value::Mapping(vec![(key("a"), Value::Str("bad".to_string()))]);
    let errs = line_errors(run(&v, input).unwrap_err());
    assert_eq!(errs.len(), 1);
    assert!(matches!(errs[0].kind, ErrorKind::TooShort { min_length: 2 }));
}

#[test]
fn too_long_reported_before_entries() {
    let v = CombinedValidator::build(&dict_schema(None, None, None, Some(1)), 0).unwrap();
    let input = Value::Mapping(vec![(key("a"), Value::Int(1)), (key("b"), Value::Int(2))]);
    let errs = line_errors(run(&v, input).unwrap_err());
    assert_eq!(errs.len(), 1);
    assert!(matches!(errs[0].kind, ErrorKind::TooLong { max_length: 1 }));
}

#[test]
fn non_mapping_rejected() {
    let v = CombinedValidator::build(&dict_schema(None, None, None, None), 0).unwrap();
    let errs = line_errors(run(&v, Value::Int(7)).unwrap_err());
    assert_eq!(errs.len(), 1);
    assert!(matches!(errs[0].kind, ErrorKind::DictType));
}

#[test]
fn any_validator_accepts_everything() {
    let v = CombinedValidator::build(&Schema::Any, 0).unwrap();
    let out = run(&v, Value::Bool(true)).unwrap();
    assert!(out.deep_eq(&Value::Bool(true)));
}

#[test]
fn strict_entry_point_runs_same_algorithm() {
    let v = CombinedValidator::build(&dict_schema(Some(Schema::Str), Some(Schema::Int), None, None), 0).unwrap();
    let slots: Vec<CombinedValidator> = Vec::new();
    let mut guard = RecursionGuard::new();
    let input = Value::Mapping(vec![(key("a"), Value::Int(1))]);
    let out = v.validate_strict(&slots, &mut guard, &input).unwrap();
    assert!(out.deep_eq(&Value::Mapping(vec![(key("a"), Value::Int(1))])));
}

#[test]
fn self_referential_slot_reports_recursion() {
    // a definition that resolves straight back to itself makes no progress:
    // the guard reports it instead of overflowing the stack
    let slots = vec![CombinedValidator::build(&Schema::Ref(0), 1).unwrap()];
    let v = CombinedValidator::build(&Schema::Ref(0), 1).unwrap();
    let mut guard = RecursionGuard::new();
    let errs = line_errors(v.validate(&slots, &mut guard, &Value::Int(1)).unwrap_err());
    assert_eq!(errs.len(), 1);
    assert!(matches!(errs[0].kind, ErrorKind::RecursionLoop));
}

#[test]
fn nested_self_reference_descends_into_values() {
    // slot 0: a mapping whose values are validated by slot 0 again;
    // descent into strictly smaller values does not trip the guard,
    // and a leaf that is not a mapping fails under its key path
    let schema = dict_schema(Some(Schema::Str), Some(Schema::Ref(0)), None, None);
    let slots = vec![CombinedValidator::build(&schema, 1).unwrap()];
    let v = CombinedValidator::build(&Schema::Ref(0), 1).unwrap();
    let mut guard = RecursionGuard::new();

    let inner_ok = Value::Mapping(vec![]);
    let input = Value::Mapping(vec![(key("child"), inner_ok)]);
    let out = v.validate(&slots, &mut guard, &input).unwrap();
    assert!(out.deep_eq(&Value::Mapping(vec![(key("child"), Value::Mapping(vec![]))])));

    let input = Value::Mapping(vec![(key("child"), Value::Int(3))]);
    let errs = line_errors(v.validate(&slots, &mut guard, &input).unwrap_err());
    assert_eq!(errs.len(), 1);
    assert!(matches!(errs[0].kind, ErrorKind::DictType));
    assert_eq!(errs[0].clone().path(), vec![LocItem::Key("child".to_string())]);
}

#[test]
fn build_rejects_out_of_range_reference() {
    assert!(CombinedValidator::build(&Schema::Ref(5), 1).is_err());
    assert!(CombinedValidator::build(
        &dict_schema(Some(Schema::Ref(2)), None, None, None), 1).is_err());
}

#[test]
fn validator_names_nest() {
    let v = CombinedValidator::build(&dict_schema(Some(Schema::Str), Some(Schema::Int), None, None), 0).unwrap();
    assert_eq!(v.get_name(), "dict[str, int]");
    let v = CombinedValidator::build(&dict_schema(None, None, None, None), 0).unwrap();
    assert_eq!(v.get_name(), "dict[any, any]");
}

#[test]
fn guard_scoping() {
    let mut g = RecursionGuard::new();
    let v = Value::Int(1);
    assert!(!g.contains(0, &v));
    g.enter(0, &v);
    assert!(g.contains(0, &v));
    assert!(!g.contains(1, &v));
    assert!(!g.contains(0, &Value::Int(2)));
    g.exit();
    assert!(!g.contains(0, &v));
}

#[test]
fn error_path_reads_outside_in() {
    let e = ValLineError::new(ErrorKind::IntType)
        .with_outer_location(LocItem::Key("[key]".to_string()))
        .with_outer_location(LocItem::Key("x".to_string()));
    assert_eq!(
        e.path(),
        vec![LocItem::Key("x".to_string()), LocItem::Key("[key]".to_string())]
    );
}
