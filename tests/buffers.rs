use scylla_values::batch::{
    LegacyBatchValues, LegacyBatchValuesFirstSerialized, LegacyBatchValuesFromIter,
    LegacyBatchValuesIterator, LegacyBatchValuesIteratorFromIterator, SerializedValues, ValueList,
    serialize_named_values, serialize_values,
};
use scylla_values::serialized::{LegacySerializedValues, ParseError, SerializeValuesError};
use scylla_values::value::{Unset, Value, ValueTooBig};
use scylla_values::wire::RawValue;

fn frame_of(v: &LegacySerializedValues) -> Vec<u8> {
    let mut buf = Vec::new();
    v.write_to_request(&mut buf);
    buf
}

#[test]
fn empty_buffer() {
    let v = LegacySerializedValues::new();
    assert!(v.is_empty());
    assert_eq!(v.len(), 0);
    assert_eq!(v.size(), 0);
    assert!(!v.has_names());
    assert_eq!(frame_of(&v), vec![0, 0]);
    let d = LegacySerializedValues::default();
    assert_eq!(d, v);
    assert_eq!(LegacySerializedValues::with_capacity(64), v);
}

#[test]
fn positional_values_append_in_order() {
    let mut v = LegacySerializedValues::new();
    v.add_value(&1i32).unwrap();
    v.add_value(&None::<i32>).unwrap();
    v.add_value(&Unset).unwrap();
    v.add_value(&"hi").unwrap();
    assert_eq!(v.len(), 4);
    assert_eq!(v.size(), 8 + 4 + 4 + 6);
    assert_eq!(
        v.iter(),
        vec![
            RawValue::Value(vec![0, 0, 0, 1]),
            RawValue::Null,
            RawValue::Unset,
            RawValue::Value(vec![b'h', b'i']),
        ]
    );
    let pairs = v.iter_name_value_pairs();
    assert!(pairs.iter().all(|(name, _)| name.is_none()));
    let frame = frame_of(&v);
    assert_eq!(&frame[0..2], &[0, 4]);
    assert_eq!(&frame[2..10], &[0, 0, 0, 4, 0, 0, 0, 1]);
}

#[test]
fn named_values_carry_names() {
    let mut v = LegacySerializedValues::new();
    v.add_named_value("a", &7i8).unwrap();
    v.add_named_value("bé", &Unset).unwrap();
    assert!(v.has_names());
    assert_eq!(frame_of(&v), vec![0, 2, 0, 1, b'a', 0, 0, 0, 1, 7, 0, 3, b'b', 0xC3, 0xA9, 0xFF, 0xFF, 0xFF, 0xFE]);
    let pairs = v.iter_name_value_pairs();
    assert_eq!(
        pairs,
        vec![
            (Some(String::from("a")), RawValue::Value(vec![7])),
            (Some(String::from("bé")), RawValue::Unset),
        ]
    );
    assert_eq!(v.iter(), vec![RawValue::Value(vec![7]), RawValue::Unset]);
}

#[test]
fn mixing_named_and_positional_fails() {
    let mut v = LegacySerializedValues::new();
    v.add_value(&1i32).unwrap();
    let before = v.clone();
    assert_eq!(v.add_named_value("x", &2i32), Err(SerializeValuesError::MixingNamedAndNotNamedValues));
    assert_eq!(v, before);

    let mut n = LegacySerializedValues::new();
    n.add_named_value("x", &2i32).unwrap();
    let before = n.clone();
    assert_eq!(n.add_value(&1i32), Err(SerializeValuesError::MixingNamedAndNotNamedValues));
    assert_eq!(n, before);
}

#[test]
fn too_many_values_fails_at_65536th() {
    let mut v = LegacySerializedValues::new();
    for _ in 0..65535 {
        v.add_value(&Unset).unwrap();
    }
    assert_eq!(v.len(), 65535);
    let size = v.size();
    assert_eq!(v.add_value(&Unset), Err(SerializeValuesError::TooManyValues));
    assert_eq!(v.len(), 65535);
    assert_eq!(v.size(), size);

    let mut n = LegacySerializedValues::new();
    for _ in 0..65535 {
        n.add_named_value("k", &Unset).unwrap();
    }
    assert_eq!(n.add_named_value("k", &Unset), Err(SerializeValuesError::TooManyValues));
}

#[test]
fn overlong_name_is_rejected() {
    let mut v = LegacySerializedValues::new();
    let name = "n".repeat(65536);
    assert_eq!(v.add_named_value(&name, &1i32), Err(SerializeValuesError::ParseError));
    assert_eq!(v.len(), 0);
    assert_eq!(v.size(), 0);
    // A failed append leaves the naming mode open.
    assert!(!v.has_names());
    v.add_value(&1i32).unwrap();
}

#[test]
fn error_kinds_are_distinct() {
    assert_ne!(SerializeValuesError::ValueTooBig(ValueTooBig), SerializeValuesError::ParseError);
    assert_ne!(SerializeValuesError::TooManyValues, SerializeValuesError::MixingNamedAndNotNamedValues);
}

#[test]
fn frame_round_trip_positional() {
    let mut v = LegacySerializedValues::new();
    v.add_value(&42i64).unwrap();
    v.add_value(&None::<String>).unwrap();
    v.add_value(&vec![1i32, 2, 3]).unwrap();
    let mut frame = frame_of(&v);
    frame.extend_from_slice(&[0xAB, 0xCD]);
    let (back, used) = LegacySerializedValues::new_from_frame(&frame, false).unwrap();
    assert_eq!(used, frame.len() - 2);
    assert_eq!(back.iter_name_value_pairs(), v.iter_name_value_pairs());
    assert_eq!(back, v);
}

#[test]
fn frame_round_trip_named() {
    let mut v = LegacySerializedValues::new();
    v.add_named_value("first", &1i32).unwrap();
    v.add_named_value("second", &"two").unwrap();
    v.add_named_value("third", &None::<i8>).unwrap();
    let frame = frame_of(&v);
    let (back, used) = LegacySerializedValues::new_from_frame(&frame, true).unwrap();
    assert_eq!(used, frame.len());
    assert!(back.has_names());
    assert_eq!(back.iter_name_value_pairs(), v.iter_name_value_pairs());
}

#[test]
fn frame_parse_failures() {
    assert_eq!(LegacySerializedValues::new_from_frame(&[], false), Err(ParseError));
    assert_eq!(LegacySerializedValues::new_from_frame(&[0], false), Err(ParseError));
    // One value announced, none present.
    assert_eq!(LegacySerializedValues::new_from_frame(&[0, 1], false), Err(ParseError));
    // A payload shorter than its length.
    assert_eq!(LegacySerializedValues::new_from_frame(&[0, 1, 0, 0, 0, 2, 9], false), Err(ParseError));
    // A negative length other than the two sentinels.
    assert_eq!(
        LegacySerializedValues::new_from_frame(&[0, 1, 0xFF, 0xFF, 0xFF, 0xFD], false),
        Err(ParseError)
    );
    // A name that is not UTF-8.
    assert_eq!(
        LegacySerializedValues::new_from_frame(&[0, 1, 0, 1, 0xFF, 0xFF, 0xFF, 0xFF, 0xFF], true),
        Err(ParseError)
    );
    // Zero values and trailing bytes.
    let (v, used) = LegacySerializedValues::new_from_frame(&[0, 0, 7, 7], false).unwrap();
    assert!(v.is_empty());
    assert_eq!(used, 2);
}

#[test]
fn frame_with_sentinels_parses() {
    let frame = [0, 2, 0xFF, 0xFF, 0xFF, 0xFF, 0xFF, 0xFF, 0xFF, 0xFE];
    let (v, used) = LegacySerializedValues::new_from_frame(&frame, false).unwrap();
    assert_eq!(used, 10);
    assert_eq!(v.iter(), vec![RawValue::Null, RawValue::Unset]);
}

#[test]
fn value_lists_build_positional_buffers() {
    let t = (1i32, "x");
    let s = t.serialized().unwrap();
    assert_eq!(s.as_values().len(), 2);
    assert!(matches!(s, SerializedValues::Owned(_)));
    let mut expected = LegacySerializedValues::new();
    expected.add_value(&1i32).unwrap();
    expected.add_value(&"x").unwrap();
    assert_eq!(s.as_values(), &expected);

    let v = vec![5i64, 6i64];
    assert_eq!(v.serialized().unwrap().as_values().len(), 2);
    assert!(().serialized().unwrap().as_values().is_empty());
    let empty: [u8; 0] = [];
    assert!(empty.serialized().unwrap().as_values().is_empty());

    let mut buf = Vec::new();
    t.write_to_request(&mut buf).unwrap();
    assert_eq!(buf, frame_of(&expected));
}

#[test]
fn buffer_is_lent_without_copy() {
    let mut v = LegacySerializedValues::new();
    v.add_value(&3i32).unwrap();
    let s = v.serialized().unwrap();
    match s {
        SerializedValues::Borrowed(b) => assert!(std::ptr::eq(b, &v)),
        SerializedValues::Owned(_) => panic!("expected a borrowed buffer"),
    }
}

#[test]
fn value_list_too_many_values() {
    let many = vec![Unset; 65536];
    assert_eq!(many.serialized().err(), Some(SerializeValuesError::TooManyValues));
    let mut buf = vec![1u8];
    assert_eq!(many.write_to_request(&mut buf), Err(SerializeValuesError::TooManyValues));
    assert_eq!(buf, vec![1u8]);
}

fn drain<'a, I: LegacyBatchValuesIterator<'a>>(mut it: I) -> Vec<Vec<u8>> {
    let mut out = Vec::new();
    while let Some(r) = it.next_serialized() {
        out.push(frame_of(r.unwrap().as_values()));
    }
    out
}

#[test]
fn batch_traversal_restarts_identically() {
    let lists = vec![vec![1i32], vec![2i32, 3i32], vec![]];
    let first = drain(lists.batch_values_iter());
    let second = drain(lists.batch_values_iter());
    assert_eq!(first, second);
    assert_eq!(first.len(), 3);
    assert_eq!(first[1], vec![0, 2, 0, 0, 0, 4, 0, 0, 0, 2, 0, 0, 0, 4, 0, 0, 0, 3]);

    let from_iter = LegacyBatchValuesFromIter::new(lists.as_slice());
    assert_eq!(drain(from_iter.batch_values_iter()), first);
    assert_eq!(drain(from_iter.batch_values_iter()), first);
    assert_eq!(from_iter.batch_values_iter().count(), 3);
}

#[test]
fn batch_iterator_write_and_skip() {
    let lists = vec![(1i8,), (2i8,)];
    let mut it = LegacyBatchValuesIteratorFromIterator::new(lists.as_slice());
    assert_eq!(it.skip_next(), Some(()));
    let mut buf = Vec::new();
    assert_eq!(it.write_next_to_request(&mut buf), Some(Ok(())));
    assert_eq!(buf, vec![0, 1, 0, 0, 0, 1, 2]);
    assert_eq!(it.write_next_to_request(&mut buf), None);
    assert_eq!(it.skip_next(), None);
    assert!(it.next_serialized().is_none());
}

#[test]
fn tuple_batches_traverse_by_position() {
    let batch = (vec![1i32], (2i32, 3i32), ());
    let frames = drain(batch.batch_values_iter());
    assert_eq!(frames.len(), 3);
    assert_eq!(frames[0], vec![0, 1, 0, 0, 0, 4, 0, 0, 0, 1]);
    assert_eq!(frames[2], vec![0, 0]);
    assert_eq!(drain(batch.batch_values_iter()), frames);
    assert_eq!(batch.batch_values_iter().count(), 3);
    let mut it = batch.batch_values_iter();
    let mut buf = Vec::new();
    assert_eq!(it.write_next_to_request(&mut buf), Some(Ok(())));
    assert_eq!(buf, frames[0]);
    assert_eq!(it.skip_next(), Some(()));
    assert_eq!(it.skip_next(), Some(()));
    assert_eq!(it.skip_next(), None);
    let single = (vec![9i8],);
    assert_eq!(drain(single.batch_values_iter()).len(), 1);
}

#[test]
fn first_serialized_replaces_first_list() {
    let lists = vec![vec![1i32], vec![2i32]];
    let mut ready = LegacySerializedValues::new();
    ready.add_value(&100i32).unwrap();
    let with_first = LegacyBatchValuesFirstSerialized::new(&lists, Some(&ready));
    match with_first.batch_values_iter().next_serialized() {
        Some(Ok(SerializedValues::Borrowed(b))) => assert!(std::ptr::eq(b, &ready)),
        _ => panic!("expected the ready buffer, borrowed"),
    }
    let frames = drain(with_first.batch_values_iter());
    assert_eq!(frames, vec![frame_of(&ready), drain(lists.batch_values_iter())[1].clone()]);
    assert_eq!(with_first.batch_values_iter().count(), 2);

    let mut it = with_first.batch_values_iter();
    let mut buf = Vec::new();
    assert_eq!(it.write_next_to_request(&mut buf), Some(Ok(())));
    assert_eq!(buf, frame_of(&ready));

    let without = LegacyBatchValuesFirstSerialized::new(&lists, None);
    assert_eq!(drain(without.batch_values_iter()), drain(lists.batch_values_iter()));
    assert_eq!(without.batch_values_iter().count(), 2);
}

#[test]
fn value_trait_objects_compose() {
    let mut buf = Vec::new();
    let v: Vec<Option<i32>> = vec![Some(1), None];
    v.serialize(&mut buf).unwrap();
    assert_eq!(buf, vec![0, 0, 0, 16, 0, 0, 0, 2, 0, 0, 0, 4, 0, 0, 0, 1, 0xFF, 0xFF, 0xFF, 0xFF]);
}

#[test]
fn named_values_from_entries() {
    let entries = [("a", 1i32), ("b", 2i32)];
    let v = serialize_named_values(&entries).unwrap();
    assert!(v.has_names());
    let mut expected = LegacySerializedValues::new();
    expected.add_named_value("a", &1i32).unwrap();
    expected.add_named_value("b", &2i32).unwrap();
    assert_eq!(v, expected);
    let empty: [(&str, i32); 0] = [];
    let e = serialize_named_values(&empty).unwrap();
    assert!(e.is_empty());
    assert!(!e.has_names());
    let long = "z".repeat(70_000);
    let bad = [("ok", 1i8), (long.as_str(), 2i8)];
    assert_eq!(serialize_named_values(&bad), Err(SerializeValuesError::ParseError));
}

#[test]
fn positional_values_from_slice() {
    let v = serialize_values(&[Unset, Unset]).unwrap();
    assert_eq!(v.len(), 2);
    assert!(!v.has_names());
    assert_eq!(frame_of(&v), vec![0, 2, 0xFF, 0xFF, 0xFF, 0xFE, 0xFF, 0xFF, 0xFF, 0xFE]);
}
