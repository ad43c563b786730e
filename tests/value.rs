use rusqlite::types::Value;
use rusqlite::Connection;
use sqlite_ledger::error::Error;
use sqlite_ledger::value::{
    bind_value, create_parameters, from_column, row_from_columns, DynamicValue, Parameter, SqlValue,
};

fn param(name: &str, value: DynamicValue, text: &str) -> Parameter {
    Parameter { name: name.to_string(), value, text: text.to_string() }
}

fn bind(name: &str, value: &DynamicValue) -> Result<SqlValue, Error> {
    bind_value(&name.to_string(), value, &"value".to_string())
}

fn to_native(v: &SqlValue) -> Value {
    match v {
        SqlValue::Null => Value::Null,
        SqlValue::Integer(i) => Value::Integer(*i),
        SqlValue::Real(bits) => Value::Real(f64::from_bits(*bits)),
        SqlValue::Text(s) => Value::Text(s.clone()),
        SqlValue::Blob(b) => Value::Blob(b.clone()),
    }
}

fn from_native(v: Value) -> SqlValue {
    match v {
        Value::Null => SqlValue::Null,
        Value::Integer(i) => SqlValue::Integer(i),
        Value::Real(f) => SqlValue::Real(f.to_bits()),
        Value::Text(s) => SqlValue::Text(s),
        Value::Blob(b) => SqlValue::Blob(b),
    }
}

fn same(a: &DynamicValue, b: &DynamicValue) -> bool {
    match (a, b) {
        (DynamicValue::Null, DynamicValue::Null) => true,
        (DynamicValue::Integer(x), DynamicValue::Integer(y)) => x == y,
        (DynamicValue::Real(x), DynamicValue::Real(y)) => x == y,
        (DynamicValue::Text(x), DynamicValue::Text(y)) => x == y,
        (DynamicValue::Array(x), DynamicValue::Array(y)) => {
            x.len() == y.len() && x.iter().zip(y.iter()).all(|(p, q)| same(p, q))
        }
        _ => false,
    }
}

fn bytes(values: &[i64]) -> DynamicValue {
    DynamicValue::Array(values.iter().map(|v| DynamicValue::Integer(*v)).collect())
}

fn shapes() -> Vec<DynamicValue> {
    vec![
        DynamicValue::Null,
        DynamicValue::Integer(42),
        DynamicValue::Real(1.5f64.to_bits()),
        DynamicValue::Text("x".to_string()),
        bytes(&[1, 2, 3]),
    ]
}

#[test]
fn every_shape_round_trips_through_sqlite() {
    let connection = Connection::open_in_memory().unwrap();
    connection.execute_batch("CREATE TABLE v (x)").unwrap();
    for value in shapes() {
        let bound = bind(":x", &value).unwrap();
        connection.execute("DELETE FROM v", []).unwrap();
        connection
            .execute("INSERT INTO v (x) VALUES (?1)", [to_native(&bound)])
            .unwrap();
        let stored: Value = connection.query_row("SELECT x FROM v", [], |r| r.get(0)).unwrap();
        let back = from_column(&from_native(stored)).unwrap();
        assert!(same(&value, &back), "{:?} came back as {:?}", value, back);
    }
}

#[test]
fn blob_is_bound_as_bytes_in_order() {
    match bind(":b", &bytes(&[0, 7, 255])) {
        Ok(SqlValue::Blob(b)) => assert_eq!(b, vec![0u8, 7, 255]),
        other => panic!("unexpected result: {:?}", other),
    }
    match from_column(&SqlValue::Blob(vec![9, 8])) {
        Ok(DynamicValue::Array(a)) => {
            assert!(same(&DynamicValue::Array(a), &bytes(&[9, 8])))
        }
        other => panic!("unexpected result: {:?}", other),
    }
}

#[test]
fn boolean_parameter_is_rejected_by_name() {
    let params = vec![param(":flag", DynamicValue::Bool(true), "true")];
    match create_parameters(&params) {
        Err(e) => {
            assert_eq!(e, Error::Marshalling("(:flag: true)".to_string()));
            assert_eq!(e.message(), "Marshalling error: (:flag: true)");
        }
        other => panic!("unexpected result: {:?}", other),
    }
}

#[test]
fn object_parameter_is_rejected_by_name() {
    let object = DynamicValue::Object(vec![("a".to_string(), DynamicValue::Integer(1))]);
    let params = vec![
        param(":ok", DynamicValue::Integer(1), "1"),
        param(":obj", object, "{\"a\":1}"),
        param(":flag", DynamicValue::Bool(false), "false"),
    ];
    match create_parameters(&params) {
        Err(Error::Marshalling(text)) => assert_eq!(text, "(:obj: {\"a\":1})"),
        other => panic!("unexpected result: {:?}", other),
    }
}

#[test]
fn array_with_non_byte_is_rejected() {
    let result = bind_value(&":b".to_string(), &bytes(&[1, 256]), &"[1,256]".to_string());
    assert_eq!(result.unwrap_err(), Error::Marshalling("(:b: [1,256])".to_string()));
    let result = bind(":b", &bytes(&[-1]));
    assert!(matches!(result, Err(Error::Marshalling(_))));
    let nested = DynamicValue::Array(vec![DynamicValue::Text("1".to_string())]);
    assert!(matches!(
        bind(":b", &nested),
        Err(Error::Marshalling(_))
    ));
    assert!(matches!(
        bind(":u", &DynamicValue::Unsigned(u64::MAX)),
        Err(Error::Marshalling(_))
    ));
}

#[test]
fn parameters_keep_names_and_order() {
    let params = vec![
        param(":a", DynamicValue::Text("t".to_string()), "\"t\""),
        param(":b", DynamicValue::Null, "null"),
        param(":c", DynamicValue::Integer(-5), "-5"),
    ];
    let out = create_parameters(&params).unwrap();
    assert_eq!(out.len(), 3);
    assert_eq!(out[0].0, ":a");
    assert!(matches!(&out[0].1, SqlValue::Text(s) if s == "t"));
    assert_eq!(out[1].0, ":b");
    assert!(matches!(out[1].1, SqlValue::Null));
    assert_eq!(out[2].0, ":c");
    assert!(matches!(out[2].1, SqlValue::Integer(-5)));
    assert_eq!(create_parameters(&Vec::new()).unwrap().len(), 0);
}

#[test]
fn non_finite_real_cannot_be_read_back() {
    for f in [f64::NAN, f64::INFINITY, f64::NEG_INFINITY] {
        match from_column(&SqlValue::Real(f.to_bits())) {
            Err(Error::Marshalling(text)) => assert_eq!(text, "non-finite real value"),
            other => panic!("unexpected result: {:?}", other),
        }
    }
    assert!(matches!(
        from_column(&SqlValue::Real(1.1f64.to_bits())),
        Ok(DynamicValue::Real(b)) if b == 1.1f64.to_bits()
    ));
}

#[test]
fn duplicate_column_names_keep_the_last_value() {
    let names = vec!["b".to_string(), "a".to_string(), "b".to_string(), "c".to_string()];
    let columns = vec![
        SqlValue::Integer(1),
        SqlValue::Null,
        SqlValue::Integer(3),
        SqlValue::Text("z".to_string()),
    ];
    let row = row_from_columns(&names, &columns).unwrap();
    assert_eq!(row.len(), 3);
    assert_eq!(row[0].0, "b");
    assert!(matches!(row[0].1, DynamicValue::Integer(3)));
    assert_eq!(row[1].0, "a");
    assert!(matches!(row[1].1, DynamicValue::Null));
    assert_eq!(row[2].0, "c");
    assert!(matches!(&row[2].1, DynamicValue::Text(s) if s == "z"));
}

#[test]
fn row_with_non_finite_real_fails() {
    let names = vec!["x".to_string()];
    let columns = vec![SqlValue::Real(f64::NAN.to_bits())];
    assert!(matches!(
        row_from_columns(&names, &columns),
        Err(Error::Marshalling(_))
    ));
}
