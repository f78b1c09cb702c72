use header_codec::to_header_map;
use header_codec::Error;
use header_codec::FieldValue;
use header_codec::Value;

fn field(name: &str, value: Option<Value>) -> FieldValue {
    FieldValue { name: name.to_string(), value }
}

#[test]
fn test_to_header_map() {
    let v = vec![
        field("content_length", Some(Value::I64(100))),
        field("content_length1", Some(Value::I64(200))),
    ];

    let t = to_header_map(&v).unwrap();

    println!("{:?}", &t);
    assert_eq!(t.len(), 2);
    assert_eq!(t.get("content_length").unwrap(), "100");
    assert_eq!(t.get("content_length1").unwrap(), "200");
    let keys: Vec<&str> = t.keys().map(|k| k.as_str()).collect();
    assert_eq!(keys, vec!["content_length", "content_length1"]);
}

#[test]
fn ser_test() {
    let v = vec![
        field("content_length", Some(Value::I64(100))),
        field("x", Some(Value::Bool(true))),
        field("test", Some(Value::U64(123))),
    ];

    let t = to_header_map(&v);

    println!("{:?}", &t.unwrap());
}

#[test]
fn absent_optional_key_is_omitted() {
    let v = vec![field("content_type", None)];

    let t = to_header_map(&v).unwrap();

    assert_eq!(t.len(), 0);
    assert!(!t.contains_key("content_type"));
}

#[test]
fn booleans_and_chars() {
    let v = vec![
        field("yes", Some(Value::Bool(true))),
        field("no", Some(Value::Bool(false))),
        field("sep", Some(Value::Char(';'))),
    ];

    let t = to_header_map(&v).unwrap();

    assert_eq!(t.get("yes").unwrap(), "true");
    assert_eq!(t.get("no").unwrap(), "false");
    assert_eq!(t.get("sep").unwrap(), ";");
}

#[test]
fn negative_and_extreme_integers() {
    let v = vec![
        field("a", Some(Value::I64(-42))),
        field("b", Some(Value::I128(i128::MIN))),
        field("c", Some(Value::U128(u128::MAX))),
        field("d", Some(Value::I8(0))),
    ];

    let t = to_header_map(&v).unwrap();

    assert_eq!(t.get("a").unwrap(), "-42");
    assert_eq!(
        t.get("b").unwrap(),
        "-170141183460469231731687303715884105728"
    );
    assert_eq!(
        t.get("c").unwrap(),
        "340282366920938463463374607431768211455"
    );
    assert_eq!(t.get("d").unwrap(), "0");
}

#[test]
fn bytes_must_be_utf8() {
    let v = vec![field("data", Some(Value::Bytes(vec![0xff, 0xfe])))];

    let e = to_header_map(&v).unwrap_err();

    assert_eq!(e, Error::InvalidUtf8);
}

#[test]
fn bytes_valid_utf8_inserted_as_text() {
    let v = vec![field("data", Some(Value::Bytes("hé".as_bytes().to_vec())))];

    let t = to_header_map(&v).unwrap();

    assert_eq!(t.get("data").unwrap(), "hé");
}

#[test]
fn invalid_name_rejected() {
    let v = vec![field("bad name", Some(Value::I64(1)))];

    let e = to_header_map(&v).unwrap_err();

    assert_eq!(e, Error::Custom("invalid header name".to_string()));
}

#[test]
fn empty_name_rejected() {
    let v = vec![field("", Some(Value::I64(1)))];

    let e = to_header_map(&v).unwrap_err();

    assert_eq!(e, Error::Custom("invalid header name".to_string()));
}

#[test]
fn invalid_value_text_rejected() {
    let v = vec![field("note", Some(Value::Str("line\nbreak".to_string())))];

    let e = to_header_map(&v).unwrap_err();

    assert_eq!(e, Error::Custom("invalid header value".to_string()));
}

#[test]
fn uppercase_name_folded_on_insert() {
    let v = vec![field("Content-Type", Some(Value::Str("ABC".to_string())))];

    let t = to_header_map(&v).unwrap();

    assert_eq!(t.get("content-type").unwrap(), "ABC");
}

#[test]
fn first_failure_aborts_encode() {
    let v = vec![
        field("ok", Some(Value::I64(1))),
        field("bad name", Some(Value::I64(2))),
        field("also_ok", Some(Value::I64(3))),
    ];

    let e = to_header_map(&v).unwrap_err();

    assert_eq!(e, Error::Custom("invalid header name".to_string()));
}
