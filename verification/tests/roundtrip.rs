use header_codec::from_header_map;
use header_codec::to_header_map;
use header_codec::FieldDecl;
use header_codec::FieldValue;
use header_codec::Kind;
use header_codec::Value;

fn decl(name: &str, kind: Kind, optional: bool) -> FieldDecl {
    FieldDecl { name: name.to_string(), kind, optional }
}

fn field(name: &str, value: Option<Value>) -> FieldValue {
    FieldValue { name: name.to_string(), value }
}

#[test]
fn all_decodable_kinds_round_trip() {
    let values = vec![
        (Kind::I8, Value::I8(-12)),
        (Kind::I16, Value::I16(-3000)),
        (Kind::I32, Value::I32(70000)),
        (Kind::I64, Value::I64(-9223372036854775808)),
        (Kind::I128, Value::I128(i128::MAX)),
        (Kind::U8, Value::U8(255)),
        (Kind::U16, Value::U16(65535)),
        (Kind::U32, Value::U32(0)),
        (Kind::U64, Value::U64(18446744073709551615)),
        (Kind::U128, Value::U128(u128::MAX)),
        (Kind::Char, Value::Char('é')),
        (Kind::Str, Value::Str("plain text".to_string())),
        (Kind::Bytes, Value::Bytes("raw bytes".as_bytes().to_vec())),
    ];

    let mut record: Vec<FieldValue> = Vec::new();
    let mut schema: Vec<FieldDecl> = Vec::new();
    for (i, (kind, value)) in values.iter().enumerate() {
        let name = format!("field{}", i);
        record.push(field(&name, Some(value.clone())));
        schema.push(decl(&name, *kind, false));
    }

    let h = to_header_map(&record).unwrap();
    let decoded = from_header_map(&h, &schema).unwrap();

    let expected: Vec<Option<Value>> =
        values.into_iter().map(|(_, v)| Some(v)).collect();
    assert_eq!(decoded, expected);
}

#[test]
fn optional_round_trip_keeps_absence() {
    let record = vec![
        field("content_length", Some(Value::I64(7))),
        field("content_type", None),
    ];
    let schema = vec![
        decl("content_length", Kind::I64, false),
        decl("content_type", Kind::Str, true),
    ];

    let h = to_header_map(&record).unwrap();
    assert!(!h.contains_key("content_type"));

    let decoded = from_header_map(&h, &schema).unwrap();
    assert_eq!(decoded, vec![Some(Value::I64(7)), None]);
}

#[test]
fn negative_integer_round_trip() {
    let record = vec![field("delta", Some(Value::I32(-2147483648)))];
    let schema = vec![decl("delta", Kind::I32, false)];

    let h = to_header_map(&record).unwrap();
    assert_eq!(h.get("delta").unwrap(), "-2147483648");

    let decoded = from_header_map(&h, &schema).unwrap();
    assert_eq!(decoded, vec![Some(Value::I32(-2147483648))]);
}

#[test]
fn empty_string_round_trip() {
    let record = vec![field("note", Some(Value::Str(String::new())))];
    let schema = vec![decl("note", Kind::Str, false)];

    let h = to_header_map(&record).unwrap();
    assert!(h.contains_key("note"));

    let decoded = from_header_map(&h, &schema).unwrap();
    assert_eq!(decoded, vec![Some(Value::Str(String::new()))]);
}
