use header_codec::from_header_map;
use header_codec::Deserializer;
use header_codec::Error;
use header_codec::FieldDecl;
use header_codec::Kind;
use header_codec::Value;

fn decl(name: &str, kind: Kind, optional: bool) -> FieldDecl {
    FieldDecl { name: name.to_string(), kind, optional }
}

#[test]
fn de_test() {
    let mut h = http::header::HeaderMap::new();
    h.insert("content_length", "100".parse().unwrap());
    h.insert("content_type", "ABC".parse().unwrap());

    let schema = vec![
        decl("content_length", Kind::I64, false),
        decl("content_type", Kind::Str, true),
    ];
    let t = from_header_map(&h, &schema).unwrap();

    println!("{:?}", &t);
    assert_eq!(
        t,
        vec![
            Some(Value::I64(100)),
            Some(Value::Str("ABC".to_string()))
        ]
    );
}

#[test]
fn test_from_header_map() {
    let mut h = http::header::HeaderMap::new();
    h.insert("content_length", "100".parse().unwrap());
    h.insert("content_length1", "1020".parse().unwrap());

    let schema = vec![
        decl("content_length", Kind::I64, false),
        decl("content_length1", Kind::I64, false),
    ];
    let t = from_header_map(&h, &schema).unwrap();

    println!("{:?}", &t);
    assert_eq!(t, vec![Some(Value::I64(100)), Some(Value::I64(1020))]);
}

#[test]
fn required_string_field() {
    let mut h = http::header::HeaderMap::new();
    h.insert("content_length", "100".parse().unwrap());
    h.insert("content_type", "ABC".parse().unwrap());

    let schema = vec![
        decl("content_length", Kind::I64, false),
        decl("content_type", Kind::Str, false),
    ];
    let t = from_header_map(&h, &schema).unwrap();

    assert_eq!(
        t,
        vec![
            Some(Value::I64(100)),
            Some(Value::Str("ABC".to_string()))
        ]
    );
}

#[test]
fn optional_absent_is_none() {
    let h = http::header::HeaderMap::new();

    let schema = vec![decl("content_type", Kind::Str, true)];
    let t = from_header_map(&h, &schema).unwrap();

    assert_eq!(t, vec![None]);
}

#[test]
fn optional_present_empty_string() {
    let mut h = http::header::HeaderMap::new();
    h.insert("content_type", "".parse().unwrap());

    let schema = vec![decl("content_type", Kind::Str, true)];
    let t = from_header_map(&h, &schema).unwrap();

    assert_eq!(t, vec![Some(Value::Str(String::new()))]);
}

#[test]
fn char_arity_rejected() {
    let mut h = http::header::HeaderMap::new();
    h.insert("test_char", "ab".parse().unwrap());

    let schema = vec![decl("test_char", Kind::Char, false)];
    let e = from_header_map(&h, &schema).unwrap_err();

    assert_eq!(
        e,
        Error::InvalidValue("ab".to_string(), "a char".to_string())
    );
}

#[test]
fn char_empty_rejected() {
    let mut h = http::header::HeaderMap::new();
    h.insert("test_char", "".parse().unwrap());

    let schema = vec![decl("test_char", Kind::Char, false)];
    let e = from_header_map(&h, &schema).unwrap_err();

    assert_eq!(e, Error::InvalidValue("".to_string(), "a char".to_string()));
}

#[test]
fn i8_overflow_rejected() {
    let mut h = http::header::HeaderMap::new();
    h.insert("test_i8", "999".parse().unwrap());

    let schema = vec![decl("test_i8", Kind::I8, false)];
    let e = from_header_map(&h, &schema).unwrap_err();

    assert_eq!(
        e,
        Error::InvalidValue("999".to_string(), "digit only".to_string())
    );
}

#[test]
fn non_numeric_rejected() {
    let mut h = http::header::HeaderMap::new();
    h.insert("n", "12a3".parse().unwrap());

    let schema = vec![decl("n", Kind::U32, false)];
    let e = from_header_map(&h, &schema).unwrap_err();

    assert_eq!(
        e,
        Error::InvalidValue("12a3".to_string(), "digit only".to_string())
    );
}

#[test]
fn missing_required_field_stops_decode() {
    let mut h = http::header::HeaderMap::new();
    h.insert("a", "1".parse().unwrap());
    h.insert("c", "not a number".parse().unwrap());

    let schema = vec![
        decl("a", Kind::I64, false),
        decl("b", Kind::I64, false),
        decl("c", Kind::I64, false),
    ];
    let e = from_header_map(&h, &schema).unwrap_err();

    assert_eq!(e, Error::MissingField("b".to_string()));
}

#[test]
fn invalid_utf8_guard() {
    let mut h = http::header::HeaderMap::new();
    let raw = http::HeaderValue::from_bytes(&[0xff, 0xfe]).unwrap();
    h.insert("data", raw);

    for kind in [Kind::Str, Kind::Bytes, Kind::I64, Kind::Char] {
        let schema = vec![decl("data", kind, false)];
        let e = from_header_map(&h, &schema).unwrap_err();
        assert_eq!(e, Error::InvalidUtf8);
    }
}

#[test]
fn bool_decode_unsupported() {
    let mut h = http::header::HeaderMap::new();
    h.insert("flag", "true".parse().unwrap());

    let schema = vec![decl("flag", Kind::Bool, false)];
    let e = from_header_map(&h, &schema).unwrap_err();

    assert_eq!(e, Error::Unsupported("bool".to_string()));
}

#[test]
fn next_value_past_schema_end() {
    let h = http::header::HeaderMap::new();
    let schema: Vec<FieldDecl> = Vec::new();

    let mut d = Deserializer::from_header_map(&h);
    let e = d.next_value(&schema).unwrap_err();

    assert_eq!(e, Error::InvalidLength(0, 0));
}

#[test]
fn name_lookup_folds_case() {
    let mut h = http::header::HeaderMap::new();
    h.insert("content-type", "ABC".parse().unwrap());

    let schema = vec![decl("Content-Type", Kind::Str, false)];
    let t = from_header_map(&h, &schema).unwrap();

    assert_eq!(t, vec![Some(Value::Str("ABC".to_string()))]);
}

#[test]
fn bytes_field_returns_utf8_bytes() {
    let mut h = http::header::HeaderMap::new();
    h.insert("data", "hé".parse().unwrap());

    let schema = vec![decl("data", Kind::Bytes, false)];
    let t = from_header_map(&h, &schema).unwrap();

    assert_eq!(t, vec![Some(Value::Bytes("hé".as_bytes().to_vec()))]);
}

#[test]
fn plus_sign_and_widths() {
    let mut h = http::header::HeaderMap::new();
    h.insert("a", "+5".parse().unwrap());
    h.insert("b", "-128".parse().unwrap());
    h.insert("c", "340282366920938463463374607431768211455".parse().unwrap());

    let schema = vec![
        decl("a", Kind::U8, false),
        decl("b", Kind::I8, false),
        decl("c", Kind::U128, false),
    ];
    let t = from_header_map(&h, &schema).unwrap();

    assert_eq!(
        t,
        vec![
            Some(Value::U8(5)),
            Some(Value::I8(-128)),
            Some(Value::U128(u128::MAX))
        ]
    );
}
