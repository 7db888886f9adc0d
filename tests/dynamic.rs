use scylla_values::cql::{CqlDate, CqlDecimal, CqlDuration, CqlTime, CqlTimestamp, CqlVarint};
use scylla_values::dynamic::{serialize_cql_value, CqlValue, InetAddr};
use scylla_values::timeuuid::CqlTimeuuid;
use scylla_values::value::{serialize_map, Counter, Value};

fn encode<V: Value>(v: &V) -> Vec<u8> {
    let mut buf = Vec::new();
    v.serialize(&mut buf).unwrap();
    buf
}

#[test]
fn dynamic_scalars_encode_like_typed_values() {
    assert_eq!(encode(&CqlValue::Int(-1)), encode(&-1i32));
    assert_eq!(encode(&CqlValue::BigInt(7)), encode(&7i64));
    assert_eq!(encode(&CqlValue::SmallInt(7)), encode(&7i16));
    assert_eq!(encode(&CqlValue::TinyInt(7)), encode(&7i8));
    assert_eq!(encode(&CqlValue::Boolean(true)), encode(&true));
    assert_eq!(encode(&CqlValue::Text(String::from("ab"))), encode(&"ab"));
    assert_eq!(encode(&CqlValue::Ascii(String::from("ab"))), encode(&"ab"));
    assert_eq!(encode(&CqlValue::Blob(vec![1, 2])), encode(&vec![1u8, 2u8]));
    assert_eq!(encode(&CqlValue::Counter(Counter(3))), encode(&3i64));
    assert_eq!(encode(&CqlValue::Date(CqlDate(1u32 << 31))), vec![0, 0, 0, 4, 0x80, 0, 0, 0]);
    assert_eq!(encode(&CqlValue::Timestamp(CqlTimestamp(9))), encode(&CqlTimestamp(9)));
    assert_eq!(encode(&CqlValue::Time(CqlTime(9))), encode(&CqlTime(9)));
    let d = CqlDuration { months: 1, days: 2, nanoseconds: 3 };
    assert_eq!(encode(&CqlValue::Duration(d)), encode(&d));
    let dec = CqlDecimal::from_signed_be_bytes_and_exponent(vec![5], 1);
    assert_eq!(encode(&CqlValue::Decimal(dec.clone())), encode(&dec));
    let v = CqlVarint::from_signed_bytes_be(vec![0, 5]);
    assert_eq!(encode(&CqlValue::Varint(v.clone())), encode(&v));
    let bytes = [7u8; 16];
    assert_eq!(encode(&CqlValue::Timeuuid(CqlTimeuuid::from_bytes(bytes))), encode(&CqlTimeuuid::from_bytes(bytes)));
    let mut uuid = vec![0, 0, 0, 16];
    uuid.extend_from_slice(&bytes);
    assert_eq!(encode(&CqlValue::Uuid(bytes)), uuid);
    assert_eq!(encode(&CqlValue::Empty), vec![0, 0, 0, 0]);
    assert_eq!(encode(&CqlValue::Inet(InetAddr::V4([127, 0, 0, 1]))), vec![0, 0, 0, 4, 127, 0, 0, 1]);
    let mut v6 = vec![0, 0, 0, 16];
    v6.extend_from_slice(&[0u8; 15]);
    v6.push(1);
    let mut octets = [0u8; 16];
    octets[15] = 1;
    assert_eq!(encode(&CqlValue::Inet(InetAddr::V6(octets))), v6);
}

#[test]
fn dynamic_floats_encode_their_bits() {
    let mut expected = vec![0, 0, 0, 8];
    expected.extend_from_slice(&1.5f64.to_be_bytes());
    assert_eq!(encode(&CqlValue::Double(1.5f64.to_bits())), expected);
    let mut expected = vec![0, 0, 0, 4];
    expected.extend_from_slice(&(-2.0f32).to_be_bytes());
    assert_eq!(encode(&CqlValue::Float((-2.0f32).to_bits())), expected);
}

#[test]
fn dynamic_collections_encode_like_typed_collections() {
    let list = CqlValue::List(vec![CqlValue::Int(1), CqlValue::Int(2)]);
    assert_eq!(encode(&list), encode(&vec![1i32, 2i32]));
    let set = CqlValue::SetElements(vec![CqlValue::Int(1), CqlValue::Int(2)]);
    assert_eq!(encode(&set), encode(&vec![1i32, 2i32]));
    let map = CqlValue::MapEntries(vec![(CqlValue::Int(1), CqlValue::Boolean(true))]);
    let mut expected = Vec::new();
    serialize_map(&[(1i32, true)], &mut expected).unwrap();
    assert_eq!(encode(&map), expected);
    let tuple = CqlValue::Tuple(vec![Some(CqlValue::Int(1)), None]);
    assert_eq!(encode(&tuple), encode(&(Some(1i32), None::<i32>)));
    let udt = CqlValue::UserDefinedType {
        keyspace: String::from("ks"),
        udt_name: String::from("point"),
        fields: vec![
            (String::from("x"), Some(CqlValue::Int(3))),
            (String::from("y"), None),
        ],
    };
    assert_eq!(encode(&udt), encode(&(3i32, None::<i32>)));
    let nested = CqlValue::List(vec![CqlValue::List(vec![CqlValue::Text(String::from("a"))])]);
    assert_eq!(encode(&nested), encode(&vec![vec![String::from("a")]]));
    assert_eq!(encode(&CqlValue::List(vec![])), vec![0, 0, 0, 4, 0, 0, 0, 0]);
}

#[test]
fn dynamic_value_appends_after_existing_bytes() {
    let mut buf = vec![0xEE];
    serialize_cql_value(&CqlValue::Int(2), &mut buf).unwrap();
    assert_eq!(buf, vec![0xEE, 0, 0, 0, 4, 0, 0, 0, 2]);
}
