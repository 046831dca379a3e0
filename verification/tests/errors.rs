use gowe_bridge::error::BridgeError;

#[test]
fn error_carries_its_message() {
    let e = BridgeError::new("invalid i64 value");
    assert_eq!(e.to_string(), "invalid i64 value");
    assert_eq!(e, BridgeError::new("invalid i64 value"));
}

#[test]
fn json_payload_error_message() {
    let e = BridgeError::json_payload("EOF while parsing a value at line 1 column 0");
    assert_eq!(
        e.to_string(),
        "invalid json payload: EOF while parsing a value at line 1 column 0"
    );
}
