use gowe_bridge::schema::{
    transport_field_to_field, transport_schema_to_schema, I64Like, TransportSchema,
    TransportSchemaField, U64Like,
};
use gowe_bridge::transport::{TransportValue, Value};

fn s(text: &str) -> String {
    text.to_string()
}

fn field(number: U64Like) -> TransportSchemaField {
    TransportSchemaField {
        number,
        name: s("id"),
        logical_type: s("u64"),
        required: true,
        default_value: None,
        min: None,
        max: None,
        enum_values: Vec::new(),
    }
}

#[test]
fn u64_like_reads_numbers_and_text() {
    assert_eq!(U64Like::Number(5).parse("schemaId").unwrap(), 5);
    assert_eq!(U64Like::String(s("12")).parse("schemaId").unwrap(), 12);
    assert_eq!(
        U64Like::String(s("x")).parse("schemaId").unwrap_err().to_string(),
        "invalid schemaId: expected u64"
    );
}

#[test]
fn i64_like_reads_numbers_and_text() {
    assert_eq!(I64Like::Number(-5).parse("field.min").unwrap(), -5);
    assert_eq!(I64Like::String(s("-3")).parse("field.min").unwrap(), -3);
    assert_eq!(
        I64Like::String(s("abc")).parse("field.max").unwrap_err().to_string(),
        "invalid field.max: expected i64"
    );
}

#[test]
fn schema_converts() {
    let schema = TransportSchema {
        schema_id: U64Like::String(s("77")),
        name: s("user"),
        fields: vec![
            field(U64Like::Number(1)),
            TransportSchemaField {
                number: U64Like::String(s("2")),
                name: s("age"),
                logical_type: s("i64"),
                required: false,
                default_value: Some(TransportValue::I64(s("18"))),
                min: Some(I64Like::Number(0)),
                max: Some(I64Like::String(s("150"))),
                enum_values: vec![s("a"), s("b")],
            },
        ],
    };
    let out = transport_schema_to_schema(&schema).unwrap();
    assert_eq!(out.schema_id, 77);
    assert_eq!(out.name, "user");
    assert_eq!(out.fields.len(), 2);
    assert_eq!(out.fields[0].number, 1);
    assert_eq!(out.fields[0].name, "id");
    assert!(out.fields[0].required);
    assert_eq!(out.fields[1].number, 2);
    assert_eq!(out.fields[1].logical_type, "i64");
    assert!(!out.fields[1].required);
    assert_eq!(out.fields[1].default_value, Some(Value::I64(18)));
    assert_eq!(out.fields[1].min, Some(0));
    assert_eq!(out.fields[1].max, Some(150));
    assert_eq!(out.fields[1].enum_values, vec![s("a"), s("b")]);
}

#[test]
fn schema_id_is_read_first() {
    let schema = TransportSchema {
        schema_id: U64Like::String(s("-1")),
        name: s("user"),
        fields: vec![field(U64Like::String(s("bad")))],
    };
    assert_eq!(
        transport_schema_to_schema(&schema).unwrap_err().to_string(),
        "invalid schemaId: expected u64"
    );
}

#[test]
fn first_bad_field_wins() {
    let schema = TransportSchema {
        schema_id: U64Like::Number(1),
        name: s("user"),
        fields: vec![field(U64Like::Number(1)), field(U64Like::String(s("two"))), {
            let mut f = field(U64Like::Number(3));
            f.min = Some(I64Like::String(s("x")));
            f
        }],
    };
    assert_eq!(
        transport_schema_to_schema(&schema).unwrap_err().to_string(),
        "invalid field.number: expected u64"
    );
}

#[test]
fn field_parts_are_read_in_order() {
    let mut f = field(U64Like::Number(1));
    f.default_value = Some(TransportValue::U64(s("x")));
    f.min = Some(I64Like::String(s("x")));
    assert_eq!(transport_field_to_field(&f).unwrap_err().to_string(), "invalid u64 value");
    f.default_value = None;
    f.max = Some(I64Like::String(s("y")));
    assert_eq!(
        transport_field_to_field(&f).unwrap_err().to_string(),
        "invalid field.min: expected i64"
    );
    f.min = None;
    assert_eq!(
        transport_field_to_field(&f).unwrap_err().to_string(),
        "invalid field.max: expected i64"
    );
}
