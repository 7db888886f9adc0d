use scylla_values::cql::{CqlDate, CqlDecimal, CqlDuration, CqlTime, CqlTimestamp, CqlVarint};
use scylla_values::timeuuid::CqlTimeuuid;
use scylla_values::value::{
    serialize_empty, serialize_list_or_set, serialize_map, serialize_tuple, Counter, MaybeUnset,
    Unset, Value, ValueOverflow,
};
use std::cmp::Ordering;
use std::collections::hash_map::DefaultHasher;
use std::hash::{Hash, Hasher};

fn encode<V: Value>(v: &V) -> Vec<u8> {
    let mut buf = Vec::new();
    v.serialize(&mut buf).unwrap();
    buf
}

fn hash_of<V: Hash>(v: &V) -> u64 {
    let mut h = DefaultHasher::new();
    v.hash(&mut h);
    h.finish()
}

#[test]
fn int_minus_one_encoding() {
    assert_eq!(encode(&-1i32), vec![0x00, 0x00, 0x00, 0x04, 0xFF, 0xFF, 0xFF, 0xFF]);
}

#[test]
fn none_encodes_as_null() {
    assert_eq!(encode(&None::<i32>), vec![0xFF, 0xFF, 0xFF, 0xFF]);
    assert_eq!(encode(&None::<String>), vec![0xFF, 0xFF, 0xFF, 0xFF]);
    assert_eq!(encode(&None::<Vec<i64>>), vec![0xFF, 0xFF, 0xFF, 0xFF]);
}

#[test]
fn unset_encodes_as_unset() {
    assert_eq!(encode(&Unset), vec![0xFF, 0xFF, 0xFF, 0xFE]);
    assert_eq!(encode(&MaybeUnset::<i32>::Unset), vec![0xFF, 0xFF, 0xFF, 0xFE]);
    assert_eq!(encode(&MaybeUnset::Bound(7i32)), encode(&7i32));
}

#[test]
fn date_epoch_encoding() {
    assert_eq!(encode(&CqlDate(1u32 << 31)), vec![0, 0, 0, 4, 0x80, 0x00, 0x00, 0x00]);
}

#[test]
fn varint_leading_zero_equal_but_encoded_raw() {
    let a = CqlVarint::from_signed_bytes_be(vec![0x00, 0x01]);
    let b = CqlVarint::from_signed_bytes_be(vec![0x01]);
    assert_eq!(a, b);
    assert_eq!(encode(&a), vec![0x00, 0x00, 0x00, 0x02, 0x00, 0x01]);
    assert_eq!(encode(&b), vec![0x00, 0x00, 0x00, 0x01, 0x01]);
}

#[test]
fn varint_normalization_cases() {
    let v = |b: &[u8]| CqlVarint::from_signed_bytes_be_slice(b);
    assert_eq!(v(&[]), v(&[0x00]));
    assert_eq!(v(&[0x00, 0x00, 0x00]), v(&[0x00]));
    assert_eq!(v(&[0x00, 0x00, 0x80]), v(&[0x00, 0x80]));
    assert_ne!(v(&[0x80]), v(&[0x00, 0x80]));
    assert_ne!(v(&[0x01]), v(&[0x02]));
    assert_eq!(v(&[0xFF, 0x00]), v(&[0xFF, 0x00]));
}

#[test]
fn varint_equal_to_its_normalized_form_with_same_hash() {
    let cases: Vec<(Vec<u8>, Vec<u8>)> = vec![
        (vec![0x00, 0x00, 0x05], vec![0x05]),
        (vec![0x00, 0x00, 0x90], vec![0x00, 0x90]),
        (vec![], vec![0x00]),
        (vec![0x00, 0x00], vec![0x00]),
        (vec![0xFF, 0x10], vec![0xFF, 0x10]),
    ];
    for (raw, normal) in cases {
        let a = CqlVarint::from_signed_bytes_be(raw);
        let b = CqlVarint::from_signed_bytes_be(normal);
        assert_eq!(a, b);
        assert_eq!(hash_of(&a), hash_of(&b));
    }
}

#[test]
fn varint_bytes_kept_as_given() {
    let a = CqlVarint::from_signed_bytes_be(vec![0x00, 0x00, 0x07]);
    assert_eq!(a.as_signed_bytes_be_slice(), &[0x00, 0x00, 0x07]);
    assert_eq!(a.clone().into_signed_bytes_be(), vec![0x00, 0x00, 0x07]);
}

#[test]
fn decimal_encoding_and_equality() {
    let d = CqlDecimal::from_signed_be_bytes_and_exponent(vec![0x01], 2);
    assert_eq!(encode(&d), vec![0, 0, 0, 5, 0, 0, 0, 2, 0x01]);
    let e = CqlDecimal::from_signed_be_bytes_slice_and_exponent(&[0x00, 0x01], 2);
    assert_eq!(d, e);
    let f = CqlDecimal::from_signed_be_bytes_slice_and_exponent(&[0x01], 3);
    assert_ne!(d, f);
    let (bytes, scale) = e.as_signed_be_bytes_slice_and_exponent();
    assert_eq!(bytes, &[0x00, 0x01]);
    assert_eq!(scale, 2);
    assert_eq!(f.into_signed_be_bytes_and_exponent(), (vec![0x01], 3));
}

#[test]
fn fixed_width_scalars() {
    assert_eq!(encode(&-2i8), vec![0, 0, 0, 1, 0xFE]);
    assert_eq!(encode(&0x0102i16), vec![0, 0, 0, 2, 0x01, 0x02]);
    assert_eq!(encode(&1i64), vec![0, 0, 0, 8, 0, 0, 0, 0, 0, 0, 0, 1]);
    assert_eq!(encode(&true), vec![0, 0, 0, 1, 1]);
    assert_eq!(encode(&false), vec![0, 0, 0, 1, 0]);
    assert_eq!(encode(&Counter(1)), encode(&1i64));
    assert_eq!(encode(&CqlTimestamp(-1)), vec![0, 0, 0, 8, 0xFF, 0xFF, 0xFF, 0xFF, 0xFF, 0xFF, 0xFF, 0xFF]);
    assert_eq!(encode(&CqlTime(256)), vec![0, 0, 0, 8, 0, 0, 0, 0, 0, 0, 1, 0]);
    assert_eq!(encode(&Some(5i32)), encode(&5i32));
    assert_eq!(encode(&Box::new(5i32)), encode(&5i32));
    assert_eq!(encode(&&5i32), encode(&5i32));
}

#[test]
fn text_and_blob_encodings() {
    assert_eq!(encode(&"ab"), vec![0, 0, 0, 2, b'a', b'b']);
    assert_eq!(encode(&String::from("é")), vec![0, 0, 0, 2, 0xC3, 0xA9]);
    assert_eq!(encode(&vec![1u8, 2, 3]), vec![0, 0, 0, 3, 1, 2, 3]);
    let slice: &[u8] = &[9u8];
    assert_eq!(encode(&slice), vec![0, 0, 0, 1, 9]);
    assert_eq!(encode(&String::new()), vec![0, 0, 0, 0]);
}

#[test]
fn list_encoding() {
    assert_eq!(
        encode(&vec![1i32, 2i32]),
        vec![0, 0, 0, 20, 0, 0, 0, 2, 0, 0, 0, 4, 0, 0, 0, 1, 0, 0, 0, 4, 0, 0, 0, 2]
    );
    assert_eq!(encode(&Vec::<i32>::new()), vec![0, 0, 0, 4, 0, 0, 0, 0]);
    let mut buf = vec![0xAA];
    serialize_list_or_set(&[true], &mut buf).unwrap();
    assert_eq!(buf, vec![0xAA, 0, 0, 0, 9, 0, 0, 0, 1, 0, 0, 0, 1, 1]);
}

#[test]
fn map_tuple_and_empty_encodings() {
    let mut buf = Vec::new();
    serialize_map(&[(1i32, true)], &mut buf).unwrap();
    assert_eq!(buf, vec![0, 0, 0, 17, 0, 0, 0, 1, 0, 0, 0, 4, 0, 0, 0, 1, 0, 0, 0, 1, 1]);

    let mut buf = Vec::new();
    serialize_tuple(&[1i8, 2i8], &mut buf).unwrap();
    assert_eq!(buf, vec![0, 0, 0, 10, 0, 0, 0, 1, 1, 0, 0, 0, 1, 2]);

    let mut buf = Vec::new();
    serialize_empty(&mut buf).unwrap();
    assert_eq!(buf, vec![0, 0, 0, 0]);

    assert_eq!(
        encode(&(1i32, "a")),
        vec![0, 0, 0, 13, 0, 0, 0, 4, 0, 0, 0, 1, 0, 0, 0, 1, b'a']
    );
    assert_eq!(encode(&(None::<i32>,)), vec![0, 0, 0, 4, 0xFF, 0xFF, 0xFF, 0xFF]);
    let sixteen = (1i8, 2i8, 3i8, 4i8, 5i8, 6i8, 7i8, 8i8, 9i8, 10i8, 11i8, 12i8, 13i8, 14i8, 15i8, 16i8);
    let bytes = encode(&sixteen);
    assert_eq!(bytes.len(), 4 + 16 * 5);
    assert_eq!(&bytes[0..4], &[0, 0, 0, 80]);
    assert_eq!(&bytes[79..84], &[0, 0, 0, 1, 16]);
}

#[test]
fn duration_encoding() {
    let d = CqlDuration { months: 1, days: 2, nanoseconds: 3 };
    assert_eq!(encode(&d), vec![0, 0, 0, 3, 2, 4, 6]);
    let d = CqlDuration { months: -1, days: 0, nanoseconds: 1_000_000 };
    assert_eq!(encode(&d), vec![0, 0, 0, 5, 1, 0, 0xDE, 0x84, 0x80]);
    let d = CqlDuration { months: 0, days: 0, nanoseconds: i64::MAX };
    assert_eq!(
        encode(&d),
        vec![0, 0, 0, 11, 0, 0, 0xFF, 0xFF, 0xFF, 0xFF, 0xFF, 0xFF, 0xFF, 0xFF, 0xFE]
    );
    let d = CqlDuration { months: 64, days: -65, nanoseconds: 0 };
    assert_eq!(encode(&d), vec![0, 0, 0, 5, 0x80, 0x80, 0x80, 0x81, 0]);
}

#[test]
fn serializing_twice_is_identical() {
    let values = (1i32, "x", vec![3i64], CqlVarint::from_signed_bytes_be(vec![0, 9]));
    let mut first = Vec::new();
    let mut second = Vec::new();
    values.serialize(&mut first).unwrap();
    values.serialize(&mut second).unwrap();
    assert_eq!(first, second);
    let d = CqlDuration { months: 3, days: -4, nanoseconds: 99 };
    assert_eq!(encode(&d), encode(&d));
}

fn uuid_bytes(version_nibble: u8) -> [u8; 16] {
    [
        0x12, 0x34, 0x56, 0x78, 0x9a, 0xbc, (version_nibble << 4) | 0x0d, 0xef, 0x80, 0x01, 0x02, 0x03,
        0x04, 0x05, 0x06, 0x07,
    ]
}

#[test]
fn timeuuid_order_ignores_version() {
    let v1 = CqlTimeuuid::from_bytes(uuid_bytes(1));
    let v4 = CqlTimeuuid::from_bytes(uuid_bytes(4));
    assert_eq!(v1.cmp(&v4), Ordering::Equal);
    assert_eq!(v1, v4);
    assert_eq!(hash_of(&v1), hash_of(&v4));
    let mut other = uuid_bytes(1);
    other[6] = 0x1e;
    let later = CqlTimeuuid::from_bytes(other);
    assert_eq!(v1.cmp(&later), Ordering::Less);
    assert_eq!(v4.cmp(&later), Ordering::Less);
    assert_eq!(later.cmp(&v4), Ordering::Greater);
    assert!(v4 < later);
}

#[test]
fn timeuuid_time_fields_compare_before_node() {
    // time_hi outranks time_low in the rebuilt time half.
    let mut a = [0u8; 16];
    let mut b = [0u8; 16];
    a[0] = 0xFF;
    b[7] = 0x01;
    let a = CqlTimeuuid::from_bytes(a);
    let b = CqlTimeuuid::from_bytes(b);
    assert_eq!(a.cmp(&b), Ordering::Less);
}

#[test]
fn timeuuid_low_half_compares_signed() {
    let mut neg = [0u8; 16];
    neg[8] = 0x80;
    let pos = [0u8; 16];
    let neg = CqlTimeuuid::from_bytes(neg);
    let pos = CqlTimeuuid::from_bytes(pos);
    assert_eq!(neg.cmp(&pos), Ordering::Less);
    assert_eq!(pos.partial_cmp(&neg), Some(Ordering::Greater));
    assert_ne!(neg, pos);
}

#[test]
fn timeuuid_constructors_and_accessors() {
    let bytes = uuid_bytes(1);
    let u = CqlTimeuuid::from_slice(&bytes).unwrap();
    assert_eq!(u.as_bytes(), &bytes);
    assert!(CqlTimeuuid::from_slice(&bytes[..15]).is_err());
    assert!(CqlTimeuuid::from_slice_le(&[0u8; 17]).is_err());
    let le = CqlTimeuuid::from_slice_le(&bytes).unwrap();
    assert_eq!(
        le.as_bytes(),
        &[0x78, 0x56, 0x34, 0x12, 0xbc, 0x9a, 0xef, 0x1d, 0x80, 0x01, 0x02, 0x03, 0x04, 0x05, 0x06, 0x07]
    );
    assert_eq!(CqlTimeuuid::from_bytes_le(bytes).as_bytes(), le.as_bytes());
    let n: u128 = 0x0011_2233_4455_6677_8899_aabb_ccdd_eeff;
    let from_n = CqlTimeuuid::from_u128(n);
    assert_eq!(from_n.as_u128(), n);
    assert_eq!(from_n.as_bytes()[0], 0x00);
    assert_eq!(from_n.as_bytes()[15], 0xff);
    assert_eq!(CqlTimeuuid::from_u128_le(n).as_bytes()[0], 0xff);
    assert_eq!(from_n.as_u64_pair(), (0x0011_2233_4455_6677, 0x8899_aabb_ccdd_eeff));
    assert_eq!(
        CqlTimeuuid::from_u64_pair(0x0011_2233_4455_6677, 0x8899_aabb_ccdd_eeff).as_bytes(),
        from_n.as_bytes()
    );
    let (d1, d2, d3, d4) = from_n.as_fields();
    assert_eq!((d1, d2, d3), (0x0011_2233, 0x4455, 0x6677));
    assert_eq!(CqlTimeuuid::from_fields(d1, d2, d3, &d4).as_bytes(), from_n.as_bytes());
    let le_fields = CqlTimeuuid::from_fields_le(d1, d2, d3, &d4);
    assert_eq!(&le_fields.as_bytes()[0..8], &[0x33, 0x22, 0x11, 0x00, 0x55, 0x44, 0x77, 0x66]);
}

#[test]
fn timeuuid_text_round_trip() {
    let text = "12345678-9abc-1def-8001-020304050607";
    let u = CqlTimeuuid::parse_str(text).unwrap();
    assert_eq!(u.as_bytes(), &uuid_bytes(1));
    assert_eq!(u.to_string(), text);
    assert!(CqlTimeuuid::parse_str("not a uuid").is_err());
}

#[test]
fn timeuuid_encoding() {
    let u = CqlTimeuuid::from_bytes(uuid_bytes(1));
    let mut expected = vec![0, 0, 0, 16];
    expected.extend_from_slice(&uuid_bytes(1));
    assert_eq!(encode(&u), expected);
}

#[test]
fn date_from_days_since_epoch() {
    assert_eq!(CqlDate::from_days_since_epoch(0), Ok(CqlDate(1u32 << 31)));
    assert_eq!(CqlDate::from_days_since_epoch(-1), Ok(CqlDate((1u32 << 31) - 1)));
    assert_eq!(CqlDate::from_days_since_epoch(-(1i64 << 31)), Ok(CqlDate(0)));
    assert_eq!(CqlDate::from_days_since_epoch((1i64 << 31) - 1), Ok(CqlDate(u32::MAX)));
    assert_eq!(CqlDate::from_days_since_epoch(1i64 << 31), Err(ValueOverflow));
    assert_eq!(CqlDate::from_days_since_epoch(-(1i64 << 31) - 1), Err(ValueOverflow));
    assert_eq!(CqlDate(0).days_since_epoch(), -(1i64 << 31));
    assert_eq!(CqlDate(u32::MAX).days_since_epoch(), (1i64 << 31) - 1);
    assert_eq!(CqlDate(19_000 + (1u32 << 31)).days_since_epoch(), 19_000);
}

#[test]
fn time_range_and_parts() {
    assert_eq!(CqlTime::from_nanos_since_midnight(0), Ok(CqlTime(0)));
    assert_eq!(
        CqlTime::from_nanos_since_midnight(86_399_999_999_999),
        Ok(CqlTime(86_399_999_999_999))
    );
    assert_eq!(CqlTime::from_nanos_since_midnight(86_400_000_000_000), Err(ValueOverflow));
    assert_eq!(CqlTime::from_nanos_since_midnight(-1), Err(ValueOverflow));
    let t = CqlTime(((13 * 60 + 5) * 60 + 9) * 1_000_000_000 + 42);
    assert_eq!(t.as_hms_nano(), Ok((13, 5, 9, 42)));
    assert_eq!(t.as_seconds_and_nanos(), Ok((47_109, 42)));
    assert_eq!(CqlTime(-5).as_hms_nano(), Err(ValueOverflow));
    assert_eq!(CqlTime(-5).as_seconds_and_nanos(), Err(ValueOverflow));
    assert_eq!(CqlTime(86_400_000_000_000).as_hms_nano(), Err(ValueOverflow));
    assert_eq!(CqlTime(86_400_000_000_000).as_seconds_and_nanos(), Ok((86_400, 0)));
    assert_eq!(CqlTime(i64::MAX).as_seconds_and_nanos(), Err(ValueOverflow));
}

#[test]
fn byte_array_encoding() {
    assert_eq!(encode(&[1u8, 2u8, 3u8]), vec![0, 0, 0, 3, 1, 2, 3]);
    let empty: [u8; 0] = [];
    assert_eq!(encode(&empty), vec![0, 0, 0, 0]);
}

#[test]
fn time_and_timestamp_from_parts() {
    assert_eq!(CqlTime::from_hms_nano(13, 5, 9, 42), Ok(CqlTime(((13 * 60 + 5) * 60 + 9) * 1_000_000_000 + 42)));
    assert_eq!(CqlTime::from_hms_nano(23, 59, 59, 999_999_999), Ok(CqlTime(86_399_999_999_999)));
    assert_eq!(CqlTime::from_hms_nano(24, 0, 0, 0), Err(ValueOverflow));
    assert_eq!(CqlTime::from_hms_nano(0, 0, 0, 0), Ok(CqlTime(0)));
    assert_eq!(CqlTimestamp::from_unix_seconds_and_millis(2, 5), Ok(CqlTimestamp(2005)));
    assert_eq!(CqlTimestamp::from_unix_seconds_and_millis(-1, 999), Ok(CqlTimestamp(-1)));
    assert_eq!(CqlTimestamp::from_unix_seconds_and_millis(i64::MAX / 1000 + 1, 0), Err(ValueOverflow));
    assert_eq!(CqlTimestamp::from_unix_seconds_and_millis(i64::MIN / 1000, 0), Ok(CqlTimestamp(i64::MIN / 1000 * 1000)));
}
