use rhai_learning::value::{lookup, TypeMismatch, Value, ValueKind};

#[test]
fn coercions_succeed_on_their_kind() {
    assert_eq!(Value::Bool(false).as_bool(), Ok(false));
    assert_eq!(Value::Int(12).as_int(), Ok(12));
    assert_eq!(Value::Str("s".to_string()).as_str(), Ok("s"));
    assert_eq!(Value::Array(vec![Value::Unit]).as_array().unwrap().len(), 1);
    assert_eq!(Value::Object(vec![]).as_object().unwrap().len(), 0);
}

#[test]
fn coercions_report_type_mismatch() {
    assert_eq!(
        Value::Int(1).as_bool(),
        Err(TypeMismatch { expected: ValueKind::Bool, found: ValueKind::Int })
    );
    assert_eq!(
        Value::Unit.as_int(),
        Err(TypeMismatch { expected: ValueKind::Int, found: ValueKind::Unit })
    );
    assert_eq!(
        Value::Other("1.5".to_string()).as_str(),
        Err(TypeMismatch { expected: ValueKind::Str, found: ValueKind::Other })
    );
    assert!(Value::Str("m".to_string()).get("k").is_err());
}

#[test]
fn lookup_first_entry_under_key() {
    let entries = vec![
        ("a".to_string(), Value::Int(1)),
        ("b".to_string(), Value::Int(2)),
        ("a".to_string(), Value::Int(3)),
    ];
    assert_eq!(lookup(&entries, "a").unwrap().as_int(), Ok(1));
    assert_eq!(lookup(&entries, "b").unwrap().as_int(), Ok(2));
    assert!(lookup(&entries, "c").is_none());
}

#[test]
fn kinds_of_values() {
    assert_eq!(Value::Array(vec![]).kind(), ValueKind::Array);
    assert_eq!(Value::Other("p".to_string()).kind(), ValueKind::Other);
}
