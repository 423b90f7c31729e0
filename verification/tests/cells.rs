use kakapo::cells::{data_type_of_oid, decode_cell, decode_cell_of_oid, encode_param, DecodeError, EncodeError};
use kakapo::schema::{DataType, Value};

fn int_of(r: Result<Value, DecodeError>) -> Option<i64> {
    match r {
        Ok(Value::Integer(i)) => Some(i),
        _ => None,
    }
}

#[test]
fn column_types_by_oid() {
    assert_eq!(data_type_of_oid(0x17), Some(DataType::Integer));
    assert_eq!(data_type_of_oid(0x19), Some(DataType::String));
    assert_eq!(data_type_of_oid(0x10), None);
    assert!(matches!(decode_cell_of_oid(0x10, Some(vec![1])), Err(DecodeError::UnknownType(0x10))));
    assert_eq!(int_of(decode_cell_of_oid(0x17, Some(vec![0, 0, 1, 2]))), Some(258));
    assert!(matches!(decode_cell_of_oid(0x19, Some(b"hi".to_vec())), Ok(Value::String(s)) if s == "hi"));
}

#[test]
fn integer_cells() {
    assert_eq!(int_of(decode_cell(&DataType::Integer, Some(vec![0, 0, 0, 7]))), Some(7));
    assert_eq!(int_of(decode_cell(&DataType::Integer, Some(vec![255, 255, 255, 255]))), Some(-1));
    assert_eq!(int_of(decode_cell(&DataType::SmallInteger, Some(vec![255, 254]))), Some(-2));
    assert_eq!(int_of(decode_cell(&DataType::BigInteger, Some(vec![0, 0, 0, 1, 0, 0, 0, 0]))), Some(1 << 32));
    assert!(matches!(decode_cell(&DataType::Integer, Some(vec![1, 2])), Err(DecodeError::InvalidInteger)));
    assert!(matches!(decode_cell(&DataType::BigInteger, Some(vec![1, 2, 3, 4])), Err(DecodeError::InvalidInteger)));
    assert!(matches!(decode_cell(&DataType::Integer, None), Ok(Value::Null)));
}

#[test]
fn text_and_json_cells() {
    assert!(matches!(decode_cell(&DataType::String, Some("héllo".as_bytes().to_vec())), Ok(Value::String(s)) if s == "héllo"));
    assert!(matches!(decode_cell(&DataType::VarChar { length: 3 }, Some(b"abc".to_vec())), Ok(Value::String(s)) if s == "abc"));
    assert!(matches!(decode_cell(&DataType::String, Some(vec![0xff, 0xfe])), Err(DecodeError::InvalidText)));
    assert!(matches!(decode_cell(&DataType::Json, Some(b"{ \"a\" : 1 }".to_vec())), Ok(Value::Json(s)) if s == "{\"a\":1}"));
    assert!(matches!(decode_cell(&DataType::Json, Some(b"{nope".to_vec())), Err(DecodeError::InvalidJson)));
    assert!(matches!(decode_cell(&DataType::Boolean, Some(vec![1])), Err(DecodeError::UnsupportedType)));
    assert!(matches!(decode_cell(&DataType::Json, None), Ok(Value::Null)));
}

#[test]
fn parameters() {
    assert_eq!(encode_param(&Value::Null), Ok(None));
    assert_eq!(encode_param(&Value::Integer(258)), Ok(Some(vec![0, 0, 1, 2])));
    assert_eq!(encode_param(&Value::Integer(-1)), Ok(Some(vec![255, 255, 255, 255])));
    assert_eq!(encode_param(&Value::Integer(1 << 32)), Ok(Some(vec![0, 0, 0, 0])));
    assert_eq!(encode_param(&Value::String("é".to_string())), Ok(Some(vec![0xc3, 0xa9])));
    assert_eq!(encode_param(&Value::Json("[1, 2]".to_string())), Ok(Some(b"[1,2]".to_vec())));
    assert_eq!(encode_param(&Value::Json("[1,".to_string())), Err(EncodeError::InvalidJson));
}

#[test]
fn parameters_read_back() {
    for x in [0i64, 5, -5, i32::MAX as i64, i32::MIN as i64] {
        let bytes = encode_param(&Value::Integer(x)).unwrap();
        assert_eq!(int_of(decode_cell(&DataType::Integer, bytes)), Some(x));
    }
    let bytes = encode_param(&Value::String("text ü".to_string())).unwrap();
    assert!(matches!(decode_cell(&DataType::String, bytes), Ok(Value::String(s)) if s == "text ü"));
}
