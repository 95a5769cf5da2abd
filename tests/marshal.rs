use bootrust::blob::{decode_sequence, encode_sequence};
use bootrust::marshal::{
    decode_bool, decode_bytes, decode_f32_bits, decode_f64_bits, decode_i32, decode_i64,
    decode_optional_i32, decode_optional_string, decode_string, decode_strings, decode_u8,
    encode_optional_i32, encode_optional_string, encode_strings, Entity, TableReader, TableWriter,
};
use bootrust::marshal::{decode_optional, encode_optional};
use bootrust::shape::Shape;
use bootrust::{DbError, Timestamp, Value};

#[derive(Debug, PartialEq)]
struct TestStruct {
    a: i32,
    b: String,
}

impl Entity for TestStruct {
    fn table_name() -> String {
        "test".to_string()
    }

    fn primary_key_column() -> String {
        "a".to_string()
    }

    fn to_value(&self) -> Value {
        let mut w = TableWriter::new();
        w.field("a", Value::Int(self.a));
        w.field("b", Value::Text(self.b.clone()));
        w.finish()
    }

    fn from_value(v: Value) -> Result<Self, DbError> {
        let mut r = TableReader::open(v)?;
        let a = decode_i32(r.next_value()?)?;
        let b = decode_string(r.next_value()?)?;
        r.finish()?;
        Ok(TestStruct { a, b })
    }
}

#[derive(Debug, PartialEq, Clone)]
struct Address {
    city: String,
    zip: Option<i32>,
}

#[derive(Debug, PartialEq, Clone)]
struct Customer {
    id: i64,
    name: String,
    nickname: Option<String>,
    active: bool,
    level: u8,
    score: f64,
    avatar: Vec<u8>,
    tags: Vec<String>,
    address: Address,
    joined: Timestamp,
}

impl Entity for Address {
    fn table_name() -> String {
        "addresses".to_string()
    }

    fn primary_key_column() -> String {
        "city".to_string()
    }

    fn to_value(&self) -> Value {
        let mut w = TableWriter::new();
        w.field("city", Value::Text(self.city.clone()));
        w.field("zip", encode_optional_i32(self.zip));
        w.finish()
    }

    fn from_value(v: Value) -> Result<Self, DbError> {
        let mut r = TableReader::open(v)?;
        let city = decode_string(r.next_value()?)?;
        let zip = decode_optional_i32(r.next_value()?)?;
        r.finish()?;
        Ok(Address { city, zip })
    }
}

impl Entity for Customer {
    fn table_name() -> String {
        "customers".to_string()
    }

    fn primary_key_column() -> String {
        "id".to_string()
    }

    fn to_value(&self) -> Value {
        let mut w = TableWriter::new();
        w.field("id", Value::Bigint(self.id));
        w.field("name", Value::Text(self.name.clone()));
        w.field("nickname", encode_optional_string(self.nickname.clone()));
        w.field("active", Value::Boolean(self.active));
        w.field("level", Value::Byte(self.level));
        w.field("score", Value::Double(self.score.to_bits()));
        w.field("avatar", Value::Bytes(self.avatar.clone()));
        w.field("tags", encode_strings(&self.tags));
        w.field("address", self.address.to_value());
        w.field("joined", Value::DateTime(self.joined));
        w.finish()
    }

    fn from_value(v: Value) -> Result<Self, DbError> {
        let mut r = TableReader::open(v)?;
        let id = decode_i64(r.next_value()?)?;
        let name = decode_string(r.next_value()?)?;
        let nickname = decode_optional_string(r.next_value()?)?;
        let active = decode_bool(r.next_value()?)?;
        let level = decode_u8(r.next_value()?)?;
        let score = f64::from_bits(decode_f64_bits(r.next_value()?)?);
        let avatar = decode_bytes(r.next_value()?)?;
        let tags = decode_strings(r.next_value()?)?;
        let address = Address::from_value(r.next_value()?)?;
        let joined = match r.next_value()? {
            Value::DateTime(t) => t,
            _ => return Err(DbError::ConversionError("Expected datetime value".to_string())),
        };
        r.finish()?;
        Ok(Customer { id, name, nickname, active, level, score, avatar, tags, address, joined })
    }
}

fn sample_customer() -> Customer {
    Customer {
        id: 7,
        name: "Ada".to_string(),
        nickname: None,
        active: true,
        level: 3,
        score: 2.5,
        avatar: vec![0, 255, 17],
        tags: vec!["vip".to_string(), "".to_string(), "café ☕".to_string()],
        address: Address { city: "Paris".to_string(), zip: Some(75001) },
        joined: Timestamp { seconds: -86_400, nanos: 999_999_999 },
    }
}

#[test]
fn autode_test_deserialize_i32() {
    assert_eq!(decode_i32(Value::Int(42)).unwrap(), 42);
}

#[test]
fn autode_test_deserialize_i64() {
    assert_eq!(decode_i64(Value::Bigint(1234567890)).unwrap(), 1234567890);
}

#[test]
fn autode_test_deserialize_f32() {
    let result = f32::from_bits(decode_f32_bits(Value::Float(3.14f32.to_bits())).unwrap());
    assert_eq!(result, 3.14);
}

#[test]
fn autode_test_deserialize_f64() {
    let result = f64::from_bits(decode_f64_bits(Value::Double(2.71828f64.to_bits())).unwrap());
    const F: f64 = 2.71828;
    assert_eq!(result, F);
}

#[test]
fn autode_test_deserialize_bool() {
    let result = decode_bool(Value::Boolean(true)).unwrap();
    assert!(result);
}

#[test]
fn autode_test_deserialize_string() {
    let result = decode_string(Value::Text("hello".to_string())).unwrap();
    assert_eq!(result, "hello");
}

#[test]
fn autode_test_deserialize_option_some() {
    let result = decode_optional_string(Value::Text("hello".to_string())).unwrap();
    assert_eq!(result, Some("hello".to_string()));
}

#[test]
fn autode_test_deserialize_option_none() {
    let result = decode_optional_string(Value::Null).unwrap();
    assert_eq!(result, None);
}

#[test]
fn autode_test_deserialize_struct() {
    let fields = vec![
        ("a".to_string(), Value::Int(42)),
        ("b".to_string(), Value::Text("hello".to_string())),
    ];
    let value = Value::Table(fields);
    let result = TestStruct::from_value(value).unwrap();
    assert_eq!(result, TestStruct { a: 42, b: "hello".to_string() });
}

#[test]
fn autodeser_test_deserialize_i32() {
    assert_eq!(decode_i32(Value::Int(42)).unwrap(), 42);
}

#[test]
fn autodeser_test_deserialize_i64() {
    assert_eq!(decode_i64(Value::Bigint(1234567890)).unwrap(), 1234567890);
}

#[test]
fn autodeser_test_deserialize_f32() {
    let result = f32::from_bits(decode_f32_bits(Value::Float(3.14f32.to_bits())).unwrap());
    assert_eq!(result, 3.14);
}

#[test]
fn autodeser_test_deserialize_f64() {
    let result = f64::from_bits(decode_f64_bits(Value::Double(2.71828f64.to_bits())).unwrap());
    assert_eq!(result, 2.71828);
}

#[test]
fn autodeser_test_deserialize_bool() {
    assert_eq!(decode_bool(Value::Boolean(true)).unwrap(), true);
}

#[test]
fn autodeser_test_deserialize_string() {
    assert_eq!(decode_string(Value::Text("hello".to_string())).unwrap(), "hello");
}

#[test]
fn test_deserialize_bytes() {
    let result = decode_bytes(Value::Bytes(vec![1, 2, 3])).unwrap();
    assert_eq!(result, vec![1, 2, 3]);
}

#[test]
fn autodeser_test_deserialize_option_some() {
    let result = decode_optional_string(Value::Text("hello".to_string())).unwrap();
    assert_eq!(result, Some("hello".to_string()));
}

#[test]
fn autodeser_test_deserialize_option_none() {
    let result = decode_optional_string(Value::Null).unwrap();
    assert_eq!(result, None);
}

#[test]
fn autodeser_test_deserialize_struct() {
    let fields = vec![
        ("a".to_string(), Value::Int(42)),
        ("b".to_string(), Value::Text("hello".to_string())),
    ];
    let result = TestStruct::from_value(Value::Table(fields)).unwrap();
    assert_eq!(result, TestStruct { a: 42, b: "hello".to_string() });
}

#[test]
fn test_deserialize_value() {
    let cases = vec![
        Value::Int(42),
        Value::Bigint(42),
        Value::Float(42.0f32.to_bits()),
        Value::Double(42.0f64.to_bits()),
        Value::Boolean(true),
        Value::Text("test".to_string()),
        Value::Bytes(vec![1, 2, 3]),
        Value::Null,
    ];
    for value in cases {
        let result = value.duplicate();
        assert_eq!(result, value);
    }
    assert_eq!(Value::Int(42).duplicate(), Value::Int(42));
    assert_ne!(Value::Int(42).duplicate(), Value::Bigint(42));
}

#[test]
fn test_table() {
    let fields = vec![
        ("a".to_string(), Value::Int(42)),
        ("b".to_string(), Value::Text("hello".to_string())),
    ];
    let value = Value::Table(fields.clone());
    let result = value.duplicate();
    assert_eq!(result, Value::Table(fields));
}

#[test]
fn test_serialize_struct() {
    let test_struct = TestStruct { a: 42, b: "hello".to_string() };
    let result = test_struct.to_value();
    assert_eq!(
        result,
        Value::Table(vec![
            ("a".to_string(), Value::Int(42)),
            ("b".to_string(), Value::Text("hello".to_string())),
        ])
    );
}

#[test]
fn test_serialize_bytes() {
    let bytes: Vec<Value> = vec![Value::Byte(1); 256];
    let result = encode_sequence(&bytes).unwrap();
    match &result {
        Value::Bytes(b) => assert_eq!(b.len(), 512),
        _ => panic!("expected a bytes value"),
    }
    assert_eq!(decode_sequence(result).unwrap(), bytes);
}

#[test]
fn test_bytes_serde() {
    let bytes: Vec<Value> = vec![Value::Byte(1)];
    let s = encode_sequence(&bytes).unwrap();
    assert_eq!(s, Value::Bytes(vec![2, 1]));
    let result = decode_sequence(s).unwrap();
    assert_eq!(result, vec![Value::Byte(1)]);
}

#[test]
fn record_round_trip_with_every_shape() {
    let c = sample_customer();
    let encoded = c.to_value();
    assert_eq!(Customer::from_value(encoded).unwrap(), c);
}

#[test]
fn record_round_trip_with_present_and_absent_options() {
    let mut c = sample_customer();
    c.nickname = Some("A".to_string());
    c.address.zip = None;
    c.tags = vec![];
    assert_eq!(Customer::from_value(c.to_value()).unwrap(), c);
}

#[test]
fn strings_round_trip_through_blob() {
    let tags = vec!["a".to_string(), "bb".to_string(), "ünï".to_string()];
    let blob = encode_strings(&tags);
    match &blob {
        Value::Bytes(b) => assert!(!b.is_empty()),
        _ => panic!("expected a bytes value"),
    }
    assert_eq!(decode_strings(blob).unwrap(), tags);
}

#[test]
fn sequence_blob_layout_is_tag_then_little_endian_payload() {
    let items = vec![
        Value::Null,
        Value::Boolean(true),
        Value::Int(-2),
        Value::Text("hi".to_string()),
    ];
    let blob = encode_sequence(&items).unwrap();
    assert_eq!(
        blob,
        Value::Bytes(vec![0, 1, 1, 3, 0xfe, 0xff, 0xff, 0xff, 7, 2, 0, 0, 0, 0, 0, 0, 0, b'h', b'i'])
    );
    assert_eq!(decode_sequence(blob).unwrap(), items);
}

#[test]
fn sequence_of_every_scalar_round_trips() {
    let items = vec![
        Value::Null,
        Value::Boolean(false),
        Value::Byte(200),
        Value::Int(i32::MIN),
        Value::Bigint(i64::MAX),
        Value::Float(1.5f32.to_bits()),
        Value::Double((-0.25f64).to_bits()),
        Value::Text("".to_string()),
        Value::Varchar("v".to_string()),
        Value::Bytes(vec![]),
        Value::DateTime(Timestamp { seconds: 1_700_000_000, nanos: 5 }),
    ];
    let blob = encode_sequence(&items).unwrap();
    assert_eq!(decode_sequence(blob).unwrap(), items);
}

#[test]
fn empty_sequence_is_empty_blob() {
    let blob = encode_sequence(&vec![]).unwrap();
    assert_eq!(blob, Value::Bytes(vec![]));
    assert_eq!(decode_sequence(blob).unwrap(), vec![]);
}

#[test]
fn table_cannot_be_a_sequence_element() {
    let items = vec![Value::Int(1), Value::Table(vec![])];
    assert!(matches!(encode_sequence(&items), Err(DbError::ConversionError(_))));
}

#[test]
fn malformed_blobs_are_conversion_errors() {
    assert!(matches!(decode_sequence(Value::Bytes(vec![3, 1, 2])), Err(DbError::ConversionError(_))));
    assert!(matches!(decode_sequence(Value::Bytes(vec![42])), Err(DbError::ConversionError(_))));
    assert!(matches!(
        decode_sequence(Value::Bytes(vec![7, 1, 0, 0, 0, 0, 0, 0, 0, 0xff])),
        Err(DbError::ConversionError(_))
    ));
    assert!(matches!(decode_sequence(Value::Int(1)), Err(DbError::ConversionError(_))));
}

#[test]
fn kind_mismatch_is_a_conversion_error() {
    assert_eq!(
        decode_i32(Value::Text("42".to_string())),
        Err(DbError::ConversionError("Expected i32 value, found string".to_string()))
    );
    assert!(matches!(decode_string(Value::Int(1)), Err(DbError::ConversionError(_))));
    assert!(matches!(decode_optional_i32(Value::Text("x".to_string())), Err(DbError::ConversionError(_))));
    assert!(matches!(TableReader::open(Value::Null), Err(DbError::ConversionError(_))));
}

#[test]
fn field_count_mismatch_is_a_conversion_error() {
    let short = Value::Table(vec![("a".to_string(), Value::Int(1))]);
    assert!(matches!(TestStruct::from_value(short), Err(DbError::ConversionError(_))));
    let long = Value::Table(vec![
        ("a".to_string(), Value::Int(1)),
        ("b".to_string(), Value::Text("x".to_string())),
        ("c".to_string(), Value::Null),
    ]);
    assert!(matches!(TestStruct::from_value(long), Err(DbError::ConversionError(_))));
}

#[test]
fn fields_are_read_by_position_not_name() {
    let swapped_names = Value::Table(vec![
        ("b".to_string(), Value::Int(5)),
        ("a".to_string(), Value::Text("x".to_string())),
    ]);
    assert_eq!(TestStruct::from_value(swapped_names).unwrap(), TestStruct { a: 5, b: "x".to_string() });
}

fn customer_shape() -> Shape {
    Shape::Record(vec![
        Shape::Bigint,
        Shape::Text,
        Shape::Optional(Box::new(Shape::Text)),
        Shape::Boolean,
        Shape::Byte,
        Shape::Double,
        Shape::Bytes,
        Shape::Sequence(Box::new(Shape::Text)),
        Shape::Record(vec![Shape::Text, Shape::Optional(Box::new(Shape::Int))]),
        Shape::DateTime,
    ])
}

#[test]
fn encoded_record_has_its_shape() {
    let v = sample_customer().to_value();
    assert_eq!(customer_shape().check(&v), Ok(()));
}

#[test]
fn shape_mismatch_names_expected_and_found() {
    assert_eq!(
        Shape::Int.check(&Value::Text("x".to_string())),
        Err(DbError::ConversionError("Expected i32 value, found string".to_string()))
    );
    assert_eq!(Shape::Optional(Box::new(Shape::Int)).check(&Value::Null), Ok(()));
    assert!(Shape::Optional(Box::new(Shape::Int)).check(&Value::Bigint(1)).is_err());
    let short = Value::Table(vec![("a".to_string(), Value::Int(1))]);
    assert!(matches!(
        Shape::Record(vec![Shape::Int, Shape::Text]).check(&short),
        Err(DbError::ConversionError(_))
    ));
    let ints = encode_sequence(&vec![Value::Int(1), Value::Int(2)]).unwrap();
    assert_eq!(Shape::Sequence(Box::new(Shape::Int)).check(&ints), Ok(()));
    assert!(Shape::Sequence(Box::new(Shape::Text)).check(&ints).is_err());
    assert!(Shape::Sequence(Box::new(Shape::Int)).check(&Value::Bytes(vec![99])).is_err());
}

#[test]
fn optional_of_any_shape_round_trips() {
    for inner in vec![Value::Int(4), Value::Text("t".to_string()), Value::Table(vec![]), Value::Bytes(vec![1])] {
        let o = Some(inner.clone());
        assert_eq!(decode_optional(encode_optional(o.clone())), o);
    }
    assert_eq!(encode_optional(None), Value::Null);
    assert_eq!(decode_optional(Value::Null), None);
}

#[test]
fn struct_mismatch_names_the_kinds() {
    assert_eq!(
        TableReader::open(Value::Int(3)).err(),
        Some(DbError::ConversionError("Expected struct value, found i32".to_string()))
    );
}
