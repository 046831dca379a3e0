use gowe_bridge::transport::{
    binary_value_from_decoded, transport_to_value, transport_values_to_values, value_fits_base64,
    value_to_transport, TransportValue, Value,
};

fn s(text: &str) -> String {
    text.to_string()
}

fn err_text(r: Result<Value, gowe_bridge::error::BridgeError>) -> String {
    r.unwrap_err().to_string()
}

#[test]
fn scalars_convert() {
    assert_eq!(transport_to_value(&TransportValue::Null).unwrap(), Value::Null);
    assert_eq!(transport_to_value(&TransportValue::Bool(true)).unwrap(), Value::Bool(true));
    assert_eq!(transport_to_value(&TransportValue::I64(s("-42"))).unwrap(), Value::I64(-42));
    assert_eq!(
        transport_to_value(&TransportValue::U64(s("18446744073709551615"))).unwrap(),
        Value::U64(u64::MAX)
    );
    assert_eq!(
        transport_to_value(&TransportValue::String(s("héllo"))).unwrap(),
        Value::String(s("héllo"))
    );
    let bits = 1.5f64.to_bits();
    assert_eq!(transport_to_value(&TransportValue::F64(bits)).unwrap(), Value::F64(bits));
}

#[test]
fn invalid_integers_are_rejected() {
    assert_eq!(err_text(transport_to_value(&TransportValue::I64(s("1.5")))), "invalid i64 value");
    assert_eq!(
        err_text(transport_to_value(&TransportValue::I64(s("9223372036854775808")))),
        "invalid i64 value"
    );
    assert_eq!(err_text(transport_to_value(&TransportValue::U64(s("-1")))), "invalid u64 value");
    assert_eq!(err_text(transport_to_value(&TransportValue::U64(s("")))), "invalid u64 value");
}

#[test]
fn binary_is_base64_decoded() {
    assert_eq!(
        transport_to_value(&TransportValue::Binary(s("aGVsbG8="))).unwrap(),
        Value::Binary(b"hello".to_vec())
    );
    assert_eq!(
        transport_to_value(&TransportValue::Binary(s(""))).unwrap(),
        Value::Binary(Vec::new())
    );
    assert_eq!(
        err_text(transport_to_value(&TransportValue::Binary(s("not base64!")))),
        "invalid base64 binary payload"
    );
    assert_eq!(
        err_text(transport_to_value(&TransportValue::Binary(s("aGVsbG8")))),
        "invalid base64 binary payload"
    );
}

#[test]
fn decoded_binary_outcome() {
    assert_eq!(
        binary_value_from_decoded(Some(vec![1, 2, 3])).unwrap(),
        Value::Binary(vec![1, 2, 3])
    );
    assert_eq!(
        binary_value_from_decoded(None).unwrap_err().to_string(),
        "invalid base64 binary payload"
    );
}

#[test]
fn nested_values_convert_in_order() {
    let t = TransportValue::Array(vec![
        TransportValue::I64(s("1")),
        TransportValue::Entries(vec![
            (s("a"), TransportValue::U64(s("2"))),
            (s("b"), TransportValue::Binary(s("AAE="))),
        ]),
    ]);
    let v = Value::Array(vec![
        Value::I64(1),
        Value::Entries(vec![(s("a"), Value::U64(2)), (s("b"), Value::Binary(vec![0, 1]))]),
    ]);
    assert_eq!(transport_to_value(&t).unwrap(), v);
}

#[test]
fn first_error_wins() {
    let t = TransportValue::Array(vec![
        TransportValue::Null,
        TransportValue::U64(s("x")),
        TransportValue::I64(s("y")),
    ]);
    assert_eq!(err_text(transport_to_value(&t)), "invalid u64 value");
    let t = TransportValue::Entries(vec![
        (s("k"), TransportValue::Array(vec![TransportValue::Binary(s("%"))])),
        (s("j"), TransportValue::I64(s("y"))),
    ]);
    assert_eq!(err_text(transport_to_value(&t)), "invalid base64 binary payload");
}

#[test]
fn batches_convert_in_order() {
    let ok = vec![TransportValue::Bool(false), TransportValue::I64(s("-3"))];
    assert_eq!(transport_values_to_values(&ok).unwrap(), vec![Value::Bool(false), Value::I64(-3)]);
    let bad = vec![TransportValue::Null, TransportValue::I64(s("--3")), TransportValue::U64(s("q"))];
    assert_eq!(transport_values_to_values(&bad).unwrap_err().to_string(), "invalid i64 value");
    assert_eq!(transport_values_to_values(&Vec::new()).unwrap(), Vec::<Value>::new());
}

#[test]
fn values_to_transport_form() {
    assert_eq!(value_to_transport(&Value::I64(i64::MIN)), TransportValue::I64(s("-9223372036854775808")));
    assert_eq!(value_to_transport(&Value::U64(7)), TransportValue::U64(s("7")));
    assert_eq!(value_to_transport(&Value::Binary(b"hello".to_vec())), TransportValue::Binary(s("aGVsbG8=")));
    assert_eq!(
        value_to_transport(&Value::Binary(vec![0xFF, 0xEC, 0x20, 0x55, 0])),
        TransportValue::Binary(s("/+wgVQA="))
    );
    assert_eq!(value_to_transport(&Value::String(s("x"))), TransportValue::String(s("x")));
    let bits = (-0.0f64).to_bits();
    assert_eq!(value_to_transport(&Value::F64(bits)), TransportValue::F64(bits));
}

#[test]
fn value_round_trips_through_transport() {
    let v = Value::Entries(vec![
        (s("n"), Value::Null),
        (s("i"), Value::I64(-17)),
        (s("u"), Value::U64(u64::MAX)),
        (s("f"), Value::F64(2.25f64.to_bits())),
        (s("b"), Value::Binary(vec![0, 255, 128, 7])),
        (s("a"), Value::Array(vec![Value::Bool(true), Value::String(s("z"))])),
    ]);
    assert!(value_fits_base64(&v));
    let t = value_to_transport(&v);
    assert_eq!(transport_to_value(&t).unwrap(), v);
}

#[test]
fn small_payloads_fit_base64() {
    assert!(value_fits_base64(&Value::Binary(vec![1; 100])));
    assert!(value_fits_base64(&Value::Array(vec![Value::Null, Value::Binary(vec![])])));
}
