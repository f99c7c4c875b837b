use ezdb::errors::PersistenceError;
use ezdb::values::BindValue;
use ezdb::values::SqlValue;
use ezdb::values::WireValue;
use ezdb::values::bridge_params;
use ezdb::values::bridge_value;

#[test]
fn null_bridges_to_null() {
    assert!(matches!(bridge_value(WireValue::Null), Some(BindValue::Null)));
}

#[test]
fn booleans_normalise_to_integers() {
    assert!(matches!(bridge_value(WireValue::Bool(true)), Some(BindValue::Integer(1))));
    assert!(matches!(bridge_value(WireValue::Bool(false)), Some(BindValue::Integer(0))));
}

#[test]
fn integers_pass_through() {
    assert!(matches!(bridge_value(WireValue::Integer(-42)), Some(BindValue::Integer(-42))));
}

#[test]
fn text_passes_through() {
    match bridge_value(WireValue::Text("hi".to_string())) {
        Some(BindValue::Text(s)) => assert_eq!(s, "hi"),
        other => panic!("unexpected bridge result: {:?}", other),
    }
}

#[test]
fn floats_pass_through_opaquely() {
    let v = rusqlite::types::Value::Real(2.5);
    match bridge_value(WireValue::Float(v)) {
        Some(BindValue::Real(r)) => assert_eq!(r, rusqlite::types::Value::Real(2.5)),
        other => panic!("unexpected bridge result: {:?}", other),
    }
}

#[test]
fn composites_are_rejected() {
    assert!(bridge_value(WireValue::Composite).is_none());
}

#[test]
fn parameter_lists_keep_names_and_order() {
    let params = vec![
        ("a".to_string(), WireValue::Integer(1)),
        ("b".to_string(), WireValue::Bool(true)),
        ("c".to_string(), WireValue::Null),
    ];
    let bound = bridge_params(params).unwrap();
    assert_eq!(bound.len(), 3);
    assert_eq!(bound[0].0, "a");
    assert!(matches!(bound[0].1, BindValue::Integer(1)));
    assert_eq!(bound[1].0, "b");
    assert!(matches!(bound[1].1, BindValue::Integer(1)));
    assert_eq!(bound[2].0, "c");
    assert!(matches!(bound[2].1, BindValue::Null));
}

#[test]
fn parameter_list_with_composite_reports_shape() {
    let params = vec![
        ("a".to_string(), WireValue::Integer(1)),
        ("b".to_string(), WireValue::Composite),
    ];
    match bridge_params(params) {
        Err(PersistenceError::Unknown(m)) => assert_eq!(m, "unsupported parameter shape"),
        other => panic!("unexpected bridge result: {:?}", other),
    }
}

#[test]
fn sql_values_compare_by_content() {
    assert_eq!(SqlValue::Integer(3), SqlValue::Integer(3));
    assert_ne!(SqlValue::Integer(3), SqlValue::Null);
    assert_eq!(SqlValue::Float((2.5f64).to_bits()), SqlValue::Float((2.5f64).to_bits()));
}
