use vstd::prelude::*;
use vstd::utf8::{decode_utf8, encode_utf8, valid_utf8};
use diesel::deserialize::FromSql;
use diesel::pg::Pg;
use diesel::sql_types;
use crate::schema::{DataType, Value};

verus! {

/// `256` to the power `n`.
pub open spec fn byte_power(n: nat) -> nat
    decreases n,
{
    if n == 0 {
        1
    } else {
        256 * byte_power((n - 1) as nat)
    }
}

/// The number that the bytes write, most significant first.
pub open spec fn be_unsigned(b: Seq<u8>) -> nat
    decreases b.len(),
{
    if b.len() == 0 {
        0
    } else {
        be_unsigned(b.drop_last()) * 256 + b.last() as nat
    }
}

/// The signed number that the bytes write, most significant first, in
/// two's complement.
pub open spec fn be_signed(b: Seq<u8>) -> int {
    if b.len() > 0 && b[0] >= 128 {
        be_unsigned(b) - byte_power(b.len())
    } else {
        be_unsigned(b) as int
    }
}

/// The text that the bytes write in UTF-8, when they are valid UTF-8.
pub open spec fn utf8_text(b: Seq<u8>) -> Option<Seq<char>> {
    if valid_utf8(b) {
        Some(decode_utf8(b))
    } else {
        None
    }
}

/// The text that serde_json prints for the JSON document that the bytes
/// hold, when they hold one.
pub uninterp spec fn pg_json_text(bytes: Seq<u8>) -> Option<Seq<char>>;

/// The bytes that serde_json writes for the JSON document that the text
/// holds, when it holds one.
pub uninterp spec fn json_bytes(text: Seq<char>) -> Option<Seq<u8>>;

/// `<i16 as FromSql<SmallInt, Pg>>::from_sql`: the two bytes read most
/// significant first. It asserts, in debug builds, that there are exactly
/// two bytes, which `requires` demands.
#[verifier::external_body]
fn pg_i16(bytes: &Vec<u8>) -> (r: Option<i16>)
    requires
        bytes@.len() == 2,
    ensures
        r is Some,
        r.unwrap() == be_signed(bytes@),
{
    match <i16 as FromSql<sql_types::SmallInt, Pg>>::from_sql(Some(bytes.as_slice())) {
        Ok(x) => Some(x),
        Err(_) => None,
    }
}

/// `<i32 as FromSql<Integer, Pg>>::from_sql`: the four bytes read most
/// significant first. It asserts, in debug builds, that there are exactly
/// four bytes, which `requires` demands.
#[verifier::external_body]
fn pg_i32(bytes: &Vec<u8>) -> (r: Option<i32>)
    requires
        bytes@.len() == 4,
    ensures
        r is Some,
        r.unwrap() == be_signed(bytes@),
{
    match <i32 as FromSql<sql_types::Integer, Pg>>::from_sql(Some(bytes.as_slice())) {
        Ok(x) => Some(x),
        Err(_) => None,
    }
}

/// `<i64 as FromSql<BigInt, Pg>>::from_sql`: the eight bytes read most
/// significant first. It asserts, in debug builds, that there are exactly
/// eight bytes, which `requires` demands.
#[verifier::external_body]
fn pg_i64(bytes: &Vec<u8>) -> (r: Option<i64>)
    requires
        bytes@.len() == 8,
    ensures
        r is Some,
        r.unwrap() == be_signed(bytes@),
{
    match <i64 as FromSql<sql_types::BigInt, Pg>>::from_sql(Some(bytes.as_slice())) {
        Ok(x) => Some(x),
        Err(_) => None,
    }
}

/// `<String as FromSql<Text, Pg>>::from_sql`: the text of the bytes, which
/// it reads with `str::from_utf8`; none when they are not valid UTF-8.
#[verifier::external_body]
fn pg_text(bytes: &Vec<u8>) -> (r: Option<String>)
    ensures
        match r {
            Some(s) => utf8_text(bytes@) == Some(s@),
            None => utf8_text(bytes@) is None,
        },
{
    match <String as FromSql<sql_types::Text, Pg>>::from_sql(Some(bytes.as_slice())) {
        Ok(s) => Some(s),
        Err(_) => None,
    }
}

/// `<serde_json::Value as FromSql<Json, Pg>>::from_sql`, printed with its
/// `to_string`: the text of the JSON document that the bytes hold; none when
/// they hold none.
#[verifier::external_body]
fn pg_json(bytes: &Vec<u8>) -> (r: Option<String>)
    ensures
        match r {
            Some(s) => pg_json_text(bytes@) == Some(s@),
            None => pg_json_text(bytes@) is None,
        },
{
    match <serde_json::Value as FromSql<sql_types::Json, Pg>>::from_sql(Some(bytes.as_slice())) {
        Ok(v) => Some(v.to_string()),
        Err(_) => None,
    }
}

/// `serde_json::from_str` of the text, written back with `serde_json::to_vec`:
/// the bytes of the JSON document that the text holds; none when it holds
/// none.
#[verifier::external_body]
fn write_json(text: &String) -> (r: Option<Vec<u8>>)
    ensures
        match r {
            Some(b) => json_bytes(text@) == Some(b@),
            None => json_bytes(text@) is None,
        },
{
    match serde_json::from_str::<serde_json::Value>(text) {
        Ok(v) => serde_json::to_vec(&v).ok(),
        Err(_) => None,
    }
}

/// Why a cell returned by the database cannot be read.
#[derive(Clone, Copy, Debug, PartialEq, Eq, Structural)]
pub enum DecodeError {
    /// the column's type is not one the library reads
    UnknownType(u32),
    /// an integer cell of the wrong length
    InvalidInteger,
    /// a text cell that is not UTF-8
    InvalidText,
    /// a JSON cell that holds no JSON document
    InvalidJson,
    /// a column type whose cells the library does not hold
    UnsupportedType,
}

/// Why a value cannot be handed to the database.
#[derive(Clone, Copy, Debug, PartialEq, Eq, Structural)]
pub enum EncodeError {
    /// a JSON value whose text holds no JSON document
    InvalidJson,
}

/// The column type that the database names by `oid`: integer (`0x17`) or
/// text (`0x19`); no other is read.
pub fn data_type_of_oid(oid: u32) -> (r: Option<DataType>)
    ensures
        r == if oid == 0x17 {
            Some(DataType::Integer)
        } else if oid == 0x19 {
            Some(DataType::String)
        } else {
            None::<DataType>
        },
{
    if oid == 0x17 {
        Some(DataType::Integer)
    } else if oid == 0x19 {
        Some(DataType::String)
    } else {
        None
    }
}

/// The value that a cell of a column of type `data_type` holds; a null
/// cell (`None`) is null. Integers of two, four and eight bytes are read
/// most significant first, texts as UTF-8, and JSON documents as their
/// text.
pub fn decode_cell(data_type: &DataType, bytes: Option<Vec<u8>>) -> (r: Result<Value, DecodeError>)
    ensures
        match bytes {
            None => r == Ok::<Value, DecodeError>(Value::Null),
            Some(b) => match *data_type {
                DataType::SmallInteger => if b@.len() == 2 {
                    r == Ok::<Value, DecodeError>(Value::Integer(be_signed(b@) as i64))
                } else {
                    r == Err::<Value, DecodeError>(DecodeError::InvalidInteger)
                },
                DataType::Integer => if b@.len() == 4 {
                    r == Ok::<Value, DecodeError>(Value::Integer(be_signed(b@) as i64))
                } else {
                    r == Err::<Value, DecodeError>(DecodeError::InvalidInteger)
                },
                DataType::BigInteger => if b@.len() == 8 {
                    r == Ok::<Value, DecodeError>(Value::Integer(be_signed(b@) as i64))
                } else {
                    r == Err::<Value, DecodeError>(DecodeError::InvalidInteger)
                },
                DataType::String | DataType::VarChar { .. } => match utf8_text(b@) {
                    Some(t) => r matches Ok(Value::String(s)) && s@ == t,
                    None => r == Err::<Value, DecodeError>(DecodeError::InvalidText),
                },
                DataType::Json => match pg_json_text(b@) {
                    Some(t) => r matches Ok(Value::Json(s)) && s@ == t,
                    None => r == Err::<Value, DecodeError>(DecodeError::InvalidJson),
                },
                _ => r == Err::<Value, DecodeError>(DecodeError::UnsupportedType),
            },
        },
{
    let b = match bytes {
        None => {
            return Ok(Value::Null);
        },
        Some(b) => b,
    };
    match data_type {
        DataType::SmallInteger => {
            if b.len() != 2 {
                return Err(DecodeError::InvalidInteger);
            }
            match pg_i16(&b) {
                Some(x) => Ok(Value::Integer(x as i64)),
                None => Err(DecodeError::InvalidInteger),
            }
        },
        DataType::Integer => {
            if b.len() != 4 {
                return Err(DecodeError::InvalidInteger);
            }
            match pg_i32(&b) {
                Some(x) => Ok(Value::Integer(x as i64)),
                None => Err(DecodeError::InvalidInteger),
            }
        },
        DataType::BigInteger => {
            if b.len() != 8 {
                return Err(DecodeError::InvalidInteger);
            }
            match pg_i64(&b) {
                Some(x) => Ok(Value::Integer(x)),
                None => Err(DecodeError::InvalidInteger),
            }
        },
        DataType::String | DataType::VarChar { .. } => match pg_text(&b) {
            Some(s) => Ok(Value::String(s)),
            None => Err(DecodeError::InvalidText),
        },
        DataType::Json => match pg_json(&b) {
            Some(s) => Ok(Value::Json(s)),
            None => Err(DecodeError::InvalidJson),
        },
        _ => Err(DecodeError::UnsupportedType),
    }
}

/// The value of a cell of a column whose type the database names by
/// `oid`; an error for a type the library does not read.
pub fn decode_cell_of_oid(oid: u32, bytes: Option<Vec<u8>>) -> (r: Result<Value, DecodeError>)
    ensures
        oid != 0x17 && oid != 0x19 ==> r == Err::<Value, DecodeError>(DecodeError::UnknownType(oid)),
        oid == 0x17 ==> match bytes {
            None => r == Ok::<Value, DecodeError>(Value::Null),
            Some(b) => if b@.len() == 4 {
                r == Ok::<Value, DecodeError>(Value::Integer(be_signed(b@) as i64))
            } else {
                r == Err::<Value, DecodeError>(DecodeError::InvalidInteger)
            },
        },
        oid == 0x19 ==> match bytes {
            None => r == Ok::<Value, DecodeError>(Value::Null),
            Some(b) => match utf8_text(b@) {
                Some(t) => r matches Ok(Value::String(s)) && s@ == t,
                None => r == Err::<Value, DecodeError>(DecodeError::InvalidText),
            },
        },
{
    match data_type_of_oid(oid) {
        Some(t) => decode_cell(&t, bytes),
        None => Err(DecodeError::UnknownType(oid)),
    }
}

/// The four bytes of `y`, most significant first.
pub open spec fn be_bytes_u32(y: u32) -> Seq<u8> {
    seq![(y >> 24) as u8, ((y >> 16) & 0xff) as u8, ((y >> 8) & 0xff) as u8, (y & 0xff) as u8]
}

/// The bytes that hand a value to the database as a parameter, none for
/// null: an integer as the four bytes of its low 32 bits, most significant
/// first; a text as its UTF-8 bytes; a JSON value as the bytes serde_json
/// writes for its document.
pub fn encode_param(value: &Value) -> (r: Result<Option<Vec<u8>>, EncodeError>)
    ensures
        match *value {
            Value::Null => r == Ok::<Option<Vec<u8>>, EncodeError>(None),
            Value::Integer(x) => r matches Ok(Some(b)) && b@ == be_bytes_u32(x as i32 as u32),
            Value::String(s) => r matches Ok(Some(b)) && b@ == encode_utf8(s@),
            Value::Json(t) => match json_bytes(t@) {
                Some(jb) => r matches Ok(Some(b)) && b@ == jb,
                None => r == Err::<Option<Vec<u8>>, EncodeError>(EncodeError::InvalidJson),
            },
        },
{
    match value {
        Value::Null => Ok(None),
        Value::Integer(x) => {
            let y: u32 = *x as i32 as u32;
            let mut b: Vec<u8> = Vec::new();
            b.push((y >> 24) as u8);
            b.push(((y >> 16) & 0xff) as u8);
            b.push(((y >> 8) & 0xff) as u8);
            b.push((y & 0xff) as u8);
            assert(b@ =~= be_bytes_u32(y));
            Ok(Some(b))
        },
        Value::String(s) => Ok(Some(s.as_str().as_bytes_vec())),
        Value::Json(t) => match write_json(t) {
            Some(b) => Ok(Some(b)),
            None => Err(EncodeError::InvalidJson),
        },
    }
}

/// A text parameter reads back as the same text.
pub proof fn law_text_round_trip(text: Seq<char>)
    ensures
        utf8_text(encode_utf8(text)) == Some(text),
{
    vstd::utf8::encode_utf8_valid_utf8(text);
    vstd::utf8::encode_utf8_decode_utf8(text);
}

/// An integer parameter reads back, as a four-byte integer, as its low 32
/// bits taken as a signed number.
pub proof fn law_integer_round_trip(x: i32)
    ensures
        be_signed(be_bytes_u32(x as u32)) == x,
{
    let y = x as u32;
    let b = be_bytes_u32(y);
    let b0 = (y >> 24) as u8;
    let b1 = ((y >> 16) & 0xff) as u8;
    let b2 = ((y >> 8) & 0xff) as u8;
    let b3 = (y & 0xff) as u8;
    assert(b.drop_last().drop_last().drop_last().drop_last() =~= Seq::<u8>::empty());
    assert(b.drop_last().drop_last().drop_last() =~= seq![b0]);
    assert(b.drop_last().drop_last() =~= seq![b0, b1]);
    assert(b.drop_last() =~= seq![b0, b1, b2]);
    reveal_with_fuel(be_unsigned, 5);
    reveal_with_fuel(byte_power, 5);
    assert(be_unsigned(seq![b0]) == b0 as nat) by {
        assert(seq![b0].drop_last() =~= Seq::<u8>::empty());
    }
    assert(be_unsigned(seq![b0, b1]) == b0 as nat * 256 + b1) by {
        assert(seq![b0, b1].drop_last() =~= seq![b0]);
    }
    assert(be_unsigned(seq![b0, b1, b2]) == (b0 as nat * 256 + b1) * 256 + b2) by {
        assert(seq![b0, b1, b2].drop_last() =~= seq![b0, b1]);
    }
    assert(be_unsigned(b) == ((b0 as nat * 256 + b1) * 256 + b2) * 256 + b3);
    assert(((b0 as u32 * 256 + b1 as u32) * 256 + b2 as u32) * 256 + b3 as u32 == y
        && (b0 >= 128 <==> y >= 0x8000_0000)) by (bit_vector)
        requires
            b0 == (y >> 24) as u8,
            b1 == ((y >> 16) & 0xff) as u8,
            b2 == ((y >> 8) & 0xff) as u8,
            b3 == (y & 0xff) as u8,
    ;
    assert((x < 0 ==> y as int == x + 0x1_0000_0000) && (x >= 0 ==> y as int == x)) by (bit_vector)
        requires
            y == x as u32,
    ;
}

} // verus!
