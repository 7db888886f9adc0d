//! The capability of a value to write itself as one length-prefixed element,
//! and its instances for the scalar and composite types of the protocol.

use vstd::prelude::*;
use vstd::utf8::encode_utf8;
use crate::wire::{
    be_i32, be_i64, is_framed, lemma_sentinel_framed, lemma_with_length_framed, patch_i32,
    put_i32, put_i64, put_slice, put_uint, be_uint, with_length, NULL_LENGTH, UNSET_LENGTH,
};

verus! {

/// An encoded value, or an element count, does not fit the protocol's
/// signed 32-bit length field.
#[derive(Debug, Clone, Copy, PartialEq, Eq, PartialOrd, Ord)]
pub struct ValueTooBig;

/// A typed conversion left the range of the target representation.
#[derive(Debug, Clone, Copy, PartialEq, Eq, PartialOrd, Ord)]
pub struct ValueOverflow;

/// The marker for a bound parameter that is deliberately left unset.
#[derive(Debug, Clone, Copy, PartialEq, Eq, PartialOrd, Ord)]
pub struct Unset;

/// A counter delta.
#[derive(Debug, Clone, Copy, PartialEq, Eq, PartialOrd, Ord)]
pub struct Counter(pub i64);

/// A value that may be deliberately left unset.
#[derive(Clone, Copy)]
pub enum MaybeUnset<V> {
    Unset,
    Bound(V),
}

/// Every value bound to a statement implements this: it appends its
/// length-prefixed encoding to a buffer, or, where that cannot be done,
/// leaves the buffer as it was.
pub trait Value {
    /// The bytes this value is written as, or `None` where a length or a
    /// count does not fit its 32-bit field.
    spec fn encoded(&self) -> Option<Seq<u8>>;

    fn serialize(&self, buf: &mut Vec<u8>) -> (r: Result<(), ValueTooBig>)
        ensures
            r is Ok <==> self.encoded() is Some,
            r is Ok ==> final(buf)@ == old(buf)@ + self.encoded()->0,
            r is Ok ==> is_framed(self.encoded()->0),
            r is Err ==> final(buf)@ == old(buf)@,
    ;
}

/// What serializing `v` into an empty buffer leaves there: its encoding,
/// or nothing where it has none.
pub open spec fn written_alone<V: Value>(v: &V) -> Seq<u8> {
    match v.encoded() {
        Some(e) => e,
        None => Seq::empty(),
    }
}

/// Serializing one value into two empty buffers gives the same outcome and
/// leaves the same bytes in both: `first` and `second` are what two calls of
/// `serialize` may leave, by its contract, with outcomes `r1` and `r2`.
pub proof fn lemma_serialize_idempotent<V: Value>(
    v: &V,
    r1: Result<(), ValueTooBig>,
    first: Seq<u8>,
    r2: Result<(), ValueTooBig>,
    second: Seq<u8>,
)
    requires
        r1 is Ok <==> v.encoded() is Some,
        r1 is Ok ==> first == Seq::<u8>::empty() + v.encoded().unwrap(),
        r1 is Err ==> first == Seq::<u8>::empty(),
        r2 is Ok <==> v.encoded() is Some,
        r2 is Ok ==> second == Seq::<u8>::empty() + v.encoded().unwrap(),
        r2 is Err ==> second == Seq::<u8>::empty(),
    ensures
        r1 is Ok <==> r2 is Ok,
        first == second,
        first == written_alone(v),
{
    if v.encoded() is Some {
        assert(Seq::<u8>::empty() + v.encoded().unwrap() =~= v.encoded().unwrap());
    }
}

/// The encodings of `s`, one after another, or `None` where one of them has none.
pub open spec fn concat_encoded<T: Value>(s: Seq<T>) -> Option<Seq<u8>>
    decreases s.len(),
{
    if s.len() == 0 {
        Some(Seq::empty())
    } else {
        match (concat_encoded(s.drop_last()), s.last().encoded()) {
            (Some(a), Some(b)) => Some(a + b),
            _ => None,
        }
    }
}

/// A list or set: total length, element count, then the elements.
pub open spec fn counted_encoding(count: int, body: Option<Seq<u8>>) -> Option<Seq<u8>> {
    if count > i32::MAX {
        None
    } else {
        match body {
            Some(b) => with_length(be_i32(count as i32) + b),
            None => None,
        }
    }
}

/// A payload of fixed width behind its length.
pub open spec fn fixed(payload: Seq<u8>) -> Option<Seq<u8>> {
    Some(be_i32(payload.len() as i32) + payload)
}

impl Value for i8 {
    open spec fn encoded(&self) -> Option<Seq<u8>> {
        fixed(be_uint(*self as u8 as u64, 1))
    }

    fn serialize(&self, buf: &mut Vec<u8>) -> (r: Result<(), ValueTooBig>) {
        put_i32(buf, 1);
        put_uint(buf, *self as u8 as u64, 1);
        proof {
            lemma_with_length_framed(be_uint(*self as u8 as u64, 1));
        }
        Ok(())
    }
}

impl Value for i16 {
    open spec fn encoded(&self) -> Option<Seq<u8>> {
        fixed(be_uint(*self as u16 as u64, 2))
    }

    fn serialize(&self, buf: &mut Vec<u8>) -> (r: Result<(), ValueTooBig>) {
        put_i32(buf, 2);
        put_uint(buf, *self as u16 as u64, 2);
        proof {
            lemma_with_length_framed(be_uint(*self as u16 as u64, 2));
        }
        Ok(())
    }
}

impl Value for i32 {
    open spec fn encoded(&self) -> Option<Seq<u8>> {
        fixed(be_i32(*self))
    }

    fn serialize(&self, buf: &mut Vec<u8>) -> (r: Result<(), ValueTooBig>) {
        put_i32(buf, 4);
        put_i32(buf, *self);
        proof {
            lemma_with_length_framed(be_i32(*self));
        }
        Ok(())
    }
}

impl Value for i64 {
    open spec fn encoded(&self) -> Option<Seq<u8>> {
        fixed(be_i64(*self))
    }

    fn serialize(&self, buf: &mut Vec<u8>) -> (r: Result<(), ValueTooBig>) {
        put_i32(buf, 8);
        put_i64(buf, *self);
        proof {
            lemma_with_length_framed(be_i64(*self));
        }
        Ok(())
    }
}

impl Value for bool {
    open spec fn encoded(&self) -> Option<Seq<u8>> {
        fixed(seq![if *self { 1u8 } else { 0u8 }])
    }

    fn serialize(&self, buf: &mut Vec<u8>) -> (r: Result<(), ValueTooBig>) {
        put_i32(buf, 1);
        if *self {
            buf.push(1u8);
        } else {
            buf.push(0u8);
        }
        proof {
            lemma_with_length_framed(seq![if *self { 1u8 } else { 0u8 }]);
        }
        Ok(())
    }
}

impl Value for Counter {
    open spec fn encoded(&self) -> Option<Seq<u8>> {
        self.0.encoded()
    }

    fn serialize(&self, buf: &mut Vec<u8>) -> (r: Result<(), ValueTooBig>) {
        self.0.serialize(buf)
    }
}

impl Value for Unset {
    open spec fn encoded(&self) -> Option<Seq<u8>> {
        Some(be_i32(UNSET_LENGTH))
    }

    fn serialize(&self, buf: &mut Vec<u8>) -> (r: Result<(), ValueTooBig>) {
        put_i32(buf, UNSET_LENGTH);
        proof {
            lemma_sentinel_framed(UNSET_LENGTH);
        }
        Ok(())
    }
}

impl<V: Value> Value for MaybeUnset<V> {
    open spec fn encoded(&self) -> Option<Seq<u8>> {
        match self {
            MaybeUnset::Bound(v) => v.encoded(),
            MaybeUnset::Unset => Some(be_i32(UNSET_LENGTH)),
        }
    }

    fn serialize(&self, buf: &mut Vec<u8>) -> (r: Result<(), ValueTooBig>) {
        match self {
            MaybeUnset::Bound(v) => v.serialize(buf),
            MaybeUnset::Unset => Unset.serialize(buf),
        }
    }
}

/// Writes `bytes` as one value: its length, then the bytes themselves.
pub fn serialize_bytes(bytes: &[u8], buf: &mut Vec<u8>) -> (r: Result<(), ValueTooBig>)
    ensures
        r is Ok <==> with_length(bytes@) is Some,
        r is Ok ==> final(buf)@ == old(buf)@ + with_length(bytes@)->0,
        r is Ok ==> is_framed(with_length(bytes@)->0),
        r is Err ==> final(buf)@ == old(buf)@,
{
    if bytes.len() > i32::MAX as usize {
        return Err(ValueTooBig);
    }
    put_i32(buf, bytes.len() as i32);
    put_slice(buf, bytes);
    proof {
        lemma_with_length_framed(bytes@);
    }
    Ok(())
}

impl Value for Vec<u8> {
    open spec fn encoded(&self) -> Option<Seq<u8>> {
        with_length(self@)
    }

    fn serialize(&self, buf: &mut Vec<u8>) -> (r: Result<(), ValueTooBig>) {
        let r = serialize_bytes(self.as_slice(), buf);
        r
    }
}

impl Value for &[u8] {
    open spec fn encoded(&self) -> Option<Seq<u8>> {
        with_length(self@)
    }

    fn serialize(&self, buf: &mut Vec<u8>) -> (r: Result<(), ValueTooBig>) {
        let r = serialize_bytes(*self, buf);
        r
    }
}

impl<const N: usize> Value for [u8; N] {
    open spec fn encoded(&self) -> Option<Seq<u8>> {
        with_length(self@)
    }

    fn serialize(&self, buf: &mut Vec<u8>) -> (r: Result<(), ValueTooBig>) {
        let r = serialize_bytes(self.as_slice(), buf);
        r
    }
}

impl Value for &str {
    open spec fn encoded(&self) -> Option<Seq<u8>> {
        with_length(encode_utf8(self@))
    }

    fn serialize(&self, buf: &mut Vec<u8>) -> (r: Result<(), ValueTooBig>) {
        let r = serialize_bytes(self.as_bytes(), buf);
        r
    }
}

impl Value for String {
    open spec fn encoded(&self) -> Option<Seq<u8>> {
        with_length(encode_utf8(self@))
    }

    fn serialize(&self, buf: &mut Vec<u8>) -> (r: Result<(), ValueTooBig>) {
        let r = serialize_bytes(self.as_str().as_bytes(), buf);
        r
    }
}

impl<T: Value> Value for &T {
    open spec fn encoded(&self) -> Option<Seq<u8>> {
        (**self).encoded()
    }

    fn serialize(&self, buf: &mut Vec<u8>) -> (r: Result<(), ValueTooBig>) {
        (**self).serialize(buf)
    }
}

impl<T: Value> Value for Box<T> {
    open spec fn encoded(&self) -> Option<Seq<u8>> {
        (**self).encoded()
    }

    fn serialize(&self, buf: &mut Vec<u8>) -> (r: Result<(), ValueTooBig>) {
        (**self).serialize(buf)
    }
}

impl<T: Value> Value for &[T] {
    open spec fn encoded(&self) -> Option<Seq<u8>> {
        counted_encoding(self@.len() as int, concat_encoded(self@))
    }

    fn serialize(&self, buf: &mut Vec<u8>) -> (r: Result<(), ValueTooBig>) {
        serialize_list_or_set(*self, buf)
    }
}

impl<T: Value> Value for Option<T> {
    open spec fn encoded(&self) -> Option<Seq<u8>> {
        match self {
            Some(v) => v.encoded(),
            None => Some(be_i32(NULL_LENGTH)),
        }
    }

    fn serialize(&self, buf: &mut Vec<u8>) -> (r: Result<(), ValueTooBig>) {
        match self {
            Some(v) => v.serialize(buf),
            None => {
                put_i32(buf, NULL_LENGTH);
                proof {
                    lemma_sentinel_framed(NULL_LENGTH);
                }
                Ok(())
            },
        }
    }
}

impl<T: Value> Value for Vec<T> {
    open spec fn encoded(&self) -> Option<Seq<u8>> {
        counted_encoding(self@.len() as int, concat_encoded(self@))
    }

    fn serialize(&self, buf: &mut Vec<u8>) -> (r: Result<(), ValueTooBig>) {
        serialize_list_or_set(self.as_slice(), buf)
    }
}

/// Drops what was written after the first `len` bytes.
pub(crate) fn rewind(buf: &mut Vec<u8>, len: usize, Ghost(start): Ghost<Seq<u8>>)
    requires
        len == start.len(),
        len <= old(buf)@.len(),
        old(buf)@.subrange(0, len as int) == start,
    ensures
        final(buf)@ == start,
{
    buf.truncate(len);
}

/// Writes `elements` as a list or set: a back-patched total length, the
/// element count, then each element's own encoding.
pub fn serialize_list_or_set<V: Value>(elements: &[V], buf: &mut Vec<u8>) -> (r: Result<(), ValueTooBig>)
    ensures
        r is Ok <==> counted_encoding(elements@.len() as int, concat_encoded(elements@)) is Some,
        r is Ok ==> final(buf)@ == old(buf)@ + counted_encoding(elements@.len() as int, concat_encoded(elements@))->0,
        r is Ok ==> is_framed(counted_encoding(elements@.len() as int, concat_encoded(elements@))->0),
        r is Err ==> final(buf)@ == old(buf)@,
{
    let ghost start = buf@;
    let pos = buf.len();
    put_i32(buf, 0);
    if elements.len() > i32::MAX as usize {
        assert(buf@.subrange(0, start.len() as int) =~= start);
        rewind(buf, pos, Ghost(start));
        return Err(ValueTooBig);
    }
    let count = elements.len() as i32;
    put_i32(buf, count);
    let mut i: usize = 0;
    while i < elements.len()
        invariant
            i <= elements@.len(),
            pos == start.len(),
            start == old(buf)@,
            count == elements@.len(),
            concat_encoded(elements@.take(i as int)) is Some,
            buf@ == start + be_i32(0) + be_i32(count) + concat_encoded(elements@.take(i as int))->0,
        decreases elements@.len() - i,
    {
        let ghost before = buf@;
        match elements[i].serialize(buf) {
            Ok(()) => {},
            Err(e) => {
                assert(before.subrange(0, start.len() as int) =~= start);
                assert(buf@.subrange(0, start.len() as int) =~= buf@.subrange(
                    0,
                    before.len() as int,
                ).subrange(0, start.len() as int));
                proof {
                    lemma_concat_prefix_fails(elements@, i as int);
                }
                rewind(buf, pos, Ghost(start));
                return Err(e);
            },
        }
        i += 1;
        assert(elements@.take(i as int).drop_last() =~= elements@.take((i - 1) as int));
    }
    assert(elements@.take(elements@.len() as int) =~= elements@);
    let written = buf.len() - pos - 4;
    if written > i32::MAX as usize {
        assert(buf@.subrange(0, start.len() as int) =~= start);
        rewind(buf, pos, Ghost(start));
        return Err(ValueTooBig);
    }
    patch_i32(buf, pos, written as i32);
    proof {
        let body = be_i32(count) + concat_encoded(elements@)->0;
        assert(buf@ =~= start + with_length(body)->0);
        lemma_with_length_framed(body);
    }
    Ok(())
}

/// The parts one after another, or `None` where one of them is `None`.
pub open spec fn concat_parts(s: Seq<Option<Seq<u8>>>) -> Option<Seq<u8>>
    decreases s.len(),
{
    if s.len() == 0 {
        Some(Seq::empty())
    } else {
        match (concat_parts(s.drop_last()), s.last()) {
            (Some(a), Some(b)) => Some(a + b),
            _ => None,
        }
    }
}

/// A fixed-arity composite (tuple, user type): total length, then the
/// fields' encodings with no count.
pub open spec fn composite(parts: Seq<Option<Seq<u8>>>) -> Option<Seq<u8>> {
    match concat_parts(parts) {
        Some(b) => with_length(b),
        None => None,
    }
}

/// Appends the next field of a composite whose length placeholder stands at
/// the end of `start`.
fn append_part<T: Value>(
    v: &T,
    buf: &mut Vec<u8>,
    Ghost(start): Ghost<Seq<u8>>,
    Ghost(prev): Ghost<Seq<Option<Seq<u8>>>>,
) -> (r: Result<(), ValueTooBig>)
    requires
        concat_parts(prev) is Some,
        old(buf)@ == start + be_i32(0) + concat_parts(prev)->0,
    ensures
        r is Ok <==> concat_parts(prev.push(v.encoded())) is Some,
        r is Ok ==> final(buf)@ == start + be_i32(0) + concat_parts(prev.push(v.encoded()))->0,
        r is Err ==> start.len() <= final(buf)@.len(),
        r is Err ==> final(buf)@.subrange(0, start.len() as int) == start,
{
    let ghost before = buf@;
    let r = v.serialize(buf);
    proof {
        assert(prev.push(v.encoded()).drop_last() =~= prev);
        if r is Err {
            assert(before.subrange(0, start.len() as int) =~= start);
            assert(buf@.subrange(0, start.len() as int) =~= buf@.subrange(
                0,
                before.len() as int,
            ).subrange(0, start.len() as int));
        }
    }
    r
}

/// Back-patches the length placeholder at `pos` with the number of bytes
/// written after it.
pub(crate) fn finish_composite(
    buf: &mut Vec<u8>,
    pos: usize,
    Ghost(start): Ghost<Seq<u8>>,
    Ghost(body): Ghost<Seq<u8>>,
) -> (r: Result<(), ValueTooBig>)
    requires
        pos == start.len(),
        old(buf)@ == start + be_i32(0) + body,
    ensures
        r is Ok <==> with_length(body) is Some,
        r is Ok ==> final(buf)@ == start + with_length(body)->0,
        r is Ok ==> is_framed(with_length(body)->0),
        r is Err ==> final(buf)@ == old(buf)@,
{
    let written = buf.len() - pos - 4;
    if written > i32::MAX as usize {
        return Err(ValueTooBig);
    }
    patch_i32(buf, pos, written as i32);
    proof {
        assert(buf@ =~= start + with_length(body)->0);
        lemma_with_length_framed(body);
    }
    Ok(())
}

/// Writes an empty value: a zero length and no payload.
pub fn serialize_empty(buf: &mut Vec<u8>) -> (r: Result<(), ValueTooBig>)
    ensures
        r is Ok,
        final(buf)@ == old(buf)@ + with_length(Seq::empty())->0,
{
    put_i32(buf, 0);
    assert(be_i32(0) + Seq::<u8>::empty() =~= be_i32(0));
    Ok(())
}

/// Writes `elements` as a composite of fixed arity: total length, then each
/// element's encoding, with no count.
pub fn serialize_tuple<V: Value>(elements: &[V], buf: &mut Vec<u8>) -> (r: Result<(), ValueTooBig>)
    ensures
        r is Ok <==> concat_encoded(elements@) is Some && with_length(concat_encoded(elements@)->0) is Some,
        r is Ok ==> final(buf)@ == old(buf)@ + with_length(concat_encoded(elements@)->0)->0,
        r is Ok ==> is_framed(with_length(concat_encoded(elements@)->0)->0),
        r is Err ==> final(buf)@ == old(buf)@,
{
    let ghost start = buf@;
    let pos = buf.len();
    put_i32(buf, 0);
    let mut i: usize = 0;
    while i < elements.len()
        invariant
            i <= elements@.len(),
            pos == start.len(),
            start == old(buf)@,
            concat_encoded(elements@.take(i as int)) is Some,
            buf@ == start + be_i32(0) + concat_encoded(elements@.take(i as int))->0,
        decreases elements@.len() - i,
    {
        let ghost before = buf@;
        match elements[i].serialize(buf) {
            Ok(()) => {},
            Err(e) => {
                assert(before.subrange(0, start.len() as int) =~= start);
                assert(buf@.subrange(0, start.len() as int) =~= buf@.subrange(
                    0,
                    before.len() as int,
                ).subrange(0, start.len() as int));
                proof {
                    lemma_concat_prefix_fails(elements@, i as int);
                }
                rewind(buf, pos, Ghost(start));
                return Err(e);
            },
        }
        i += 1;
        assert(elements@.take(i as int).drop_last() =~= elements@.take((i - 1) as int));
    }
    assert(elements@.take(elements@.len() as int) =~= elements@);
    let r = finish_composite(buf, pos, Ghost(start), Ghost(concat_encoded(elements@)->0));
    assert(r is Err ==> buf@.subrange(0, start.len() as int) =~= start);
    if r.is_err() {
        rewind(buf, pos, Ghost(start));
    }
    r
}

/// The key and value encodings of each pair, one after another.
pub open spec fn concat_pairs<K: Value, V: Value>(s: Seq<(K, V)>) -> Option<Seq<u8>>
    decreases s.len(),
{
    if s.len() == 0 {
        Some(Seq::empty())
    } else {
        match (concat_pairs(s.drop_last()), s.last().0.encoded(), s.last().1.encoded()) {
            (Some(a), Some(k), Some(v)) => Some(a + k + v),
            _ => None,
        }
    }
}

proof fn lemma_pairs_prefix_fails<K: Value, V: Value>(s: Seq<(K, V)>, i: int)
    requires
        0 <= i < s.len(),
        s[i].0.encoded() is None || s[i].1.encoded() is None,
    ensures
        concat_pairs(s) is None,
    decreases s.len(),
{
    if i < s.len() - 1 {
        lemma_pairs_prefix_fails(s.drop_last(), i);
    }
}

/// Writes `entries` as a map: total length, entry count, then each key's
/// encoding followed by its value's.
pub fn serialize_map<K: Value, V: Value>(entries: &[(K, V)], buf: &mut Vec<u8>) -> (r: Result<
    (),
    ValueTooBig,
>)
    ensures
        r is Ok <==> counted_encoding(entries@.len() as int, concat_pairs(entries@)) is Some,
        r is Ok ==> final(buf)@ == old(buf)@ + counted_encoding(entries@.len() as int, concat_pairs(entries@))->0,
        r is Ok ==> is_framed(counted_encoding(entries@.len() as int, concat_pairs(entries@))->0),
        r is Err ==> final(buf)@ == old(buf)@,
{
    let ghost start = buf@;
    let pos = buf.len();
    put_i32(buf, 0);
    if entries.len() > i32::MAX as usize {
        assert(buf@.subrange(0, start.len() as int) =~= start);
        rewind(buf, pos, Ghost(start));
        return Err(ValueTooBig);
    }
    let count = entries.len() as i32;
    put_i32(buf, count);
    let mut i: usize = 0;
    while i < entries.len()
        invariant
            i <= entries@.len(),
            pos == start.len(),
            start == old(buf)@,
            count == entries@.len(),
            concat_pairs(entries@.take(i as int)) is Some,
            buf@ == start + be_i32(0) + be_i32(count) + concat_pairs(entries@.take(i as int))->0,
        decreases entries@.len() - i,
    {
        let ghost before = buf@;
        let entry = &entries[i];
        let rk = entry.0.serialize(buf);
        let ghost mid = buf@;
        let rv = if rk.is_ok() {
            entry.1.serialize(buf)
        } else {
            rk
        };
        if rv.is_err() {
            proof {
                assert(before.subrange(0, start.len() as int) =~= start);
                if rk is Ok {
                    assert(mid.subrange(0, start.len() as int) =~= start);
                    assert(buf@.subrange(0, start.len() as int) =~= buf@.subrange(
                        0,
                        mid.len() as int,
                    ).subrange(0, start.len() as int));
                } else {
                    assert(buf@.subrange(0, start.len() as int) =~= buf@.subrange(
                        0,
                        before.len() as int,
                    ).subrange(0, start.len() as int));
                }
                lemma_pairs_prefix_fails(entries@, i as int);
            }
            rewind(buf, pos, Ghost(start));
            return rv;
        }
        i += 1;
        assert(entries@.take(i as int).drop_last() =~= entries@.take((i - 1) as int));
    }
    assert(entries@.take(entries@.len() as int) =~= entries@);
    let written = buf.len() - pos - 4;
    if written > i32::MAX as usize {
        assert(buf@.subrange(0, start.len() as int) =~= start);
        rewind(buf, pos, Ghost(start));
        return Err(ValueTooBig);
    }
    patch_i32(buf, pos, written as i32);
    proof {
        let body = be_i32(count) + concat_pairs(entries@)->0;
        assert(buf@ =~= start + with_length(body)->0);
        lemma_with_length_framed(body);
    }
    Ok(())
}

/// Once an element has no encoding, neither has any longer prefix.
pub proof fn lemma_concat_prefix_fails<T: Value>(s: Seq<T>, i: int)
    requires
        0 <= i < s.len(),
        s[i].encoded() is None,
    ensures
        concat_encoded(s) is None,
    decreases s.len(),
{
    if i < s.len() - 1 {
        lemma_concat_prefix_fails(s.drop_last(), i);
    }
}


proof fn lemma_parts_prefix_fails(s: Seq<Option<Seq<u8>>>, i: int)
    requires
        0 <= i < s.len(),
        concat_parts(s.take(i + 1)) is None,
    ensures
        concat_parts(s) is None,
    decreases s.len(),
{
    if i < s.len() - 1 {
        assert(s.drop_last().take(i + 1) =~= s.take(i + 1));
        lemma_parts_prefix_fails(s.drop_last(), i);
    } else {
        assert(s.take(i + 1) =~= s);
    }
}

impl<T0: Value> Value for (T0,) {
    open spec fn encoded(&self) -> Option<Seq<u8>> {
        composite(seq![self.0.encoded()])
    }

    fn serialize(&self, buf: &mut Vec<u8>) -> (r: Result<(), ValueTooBig>) {
        let ghost start = buf@;
        let ghost parts = seq![self.0.encoded()];
        let pos = buf.len();
        put_i32(buf, 0);
        assert(parts.take(0) =~= Seq::empty());
        if append_part(&self.0, buf, Ghost(start), Ghost(parts.take(0))).is_err() {
            assert(parts.take(0).push(self.0.encoded()) =~= parts.take(1));
            proof {
                lemma_parts_prefix_fails(parts, 0);
            }
            rewind(buf, pos, Ghost(start));
            return Err(ValueTooBig);
        }
        assert(parts.take(0).push(self.0.encoded()) =~= parts.take(1));
        assert(parts.take(1) =~= parts);
        let r = finish_composite(buf, pos, Ghost(start), Ghost(concat_parts(parts)->0));
        assert(r is Err ==> buf@.subrange(0, start.len() as int) =~= start);
        if r.is_err() {
            rewind(buf, pos, Ghost(start));
        }
        r
    }
}

impl<T0: Value, T1: Value> Value for (T0, T1) {
    open spec fn encoded(&self) -> Option<Seq<u8>> {
        composite(seq![self.0.encoded(), self.1.encoded()])
    }

    fn serialize(&self, buf: &mut Vec<u8>) -> (r: Result<(), ValueTooBig>) {
        let ghost start = buf@;
        let ghost parts = seq![self.0.encoded(), self.1.encoded()];
        let pos = buf.len();
        put_i32(buf, 0);
        assert(parts.take(0) =~= Seq::empty());
        if append_part(&self.0, buf, Ghost(start), Ghost(parts.take(0))).is_err() {
            assert(parts.take(0).push(self.0.encoded()) =~= parts.take(1));
            proof {
                lemma_parts_prefix_fails(parts, 0);
            }
            rewind(buf, pos, Ghost(start));
            return Err(ValueTooBig);
        }
        assert(parts.take(0).push(self.0.encoded()) =~= parts.take(1));
        if append_part(&self.1, buf, Ghost(start), Ghost(parts.take(1))).is_err() {
            assert(parts.take(1).push(self.1.encoded()) =~= parts.take(2));
            proof {
                lemma_parts_prefix_fails(parts, 1);
            }
            rewind(buf, pos, Ghost(start));
            return Err(ValueTooBig);
        }
        assert(parts.take(1).push(self.1.encoded()) =~= parts.take(2));
        assert(parts.take(2) =~= parts);
        let r = finish_composite(buf, pos, Ghost(start), Ghost(concat_parts(parts)->0));
        assert(r is Err ==> buf@.subrange(0, start.len() as int) =~= start);
        if r.is_err() {
            rewind(buf, pos, Ghost(start));
        }
        r
    }
}

impl<T0: Value, T1: Value, T2: Value> Value for (T0, T1, T2) {
    open spec fn encoded(&self) -> Option<Seq<u8>> {
        composite(seq![self.0.encoded(), self.1.encoded(), self.2.encoded()])
    }

    fn serialize(&self, buf: &mut Vec<u8>) -> (r: Result<(), ValueTooBig>) {
        let ghost start = buf@;
        let ghost parts = seq![self.0.encoded(), self.1.encoded(), self.2.encoded()];
        let pos = buf.len();
        put_i32(buf, 0);
        assert(parts.take(0) =~= Seq::empty());
        if append_part(&self.0, buf, Ghost(start), Ghost(parts.take(0))).is_err() {
            assert(parts.take(0).push(self.0.encoded()) =~= parts.take(1));
            proof {
                lemma_parts_prefix_fails(parts, 0);
            }
            rewind(buf, pos, Ghost(start));
            return Err(ValueTooBig);
        }
        assert(parts.take(0).push(self.0.encoded()) =~= parts.take(1));
        if append_part(&self.1, buf, Ghost(start), Ghost(parts.take(1))).is_err() {
            assert(parts.take(1).push(self.1.encoded()) =~= parts.take(2));
            proof {
                lemma_parts_prefix_fails(parts, 1);
            }
            rewind(buf, pos, Ghost(start));
            return Err(ValueTooBig);
        }
        assert(parts.take(1).push(self.1.encoded()) =~= parts.take(2));
        if append_part(&self.2, buf, Ghost(start), Ghost(parts.take(2))).is_err() {
            assert(parts.take(2).push(self.2.encoded()) =~= parts.take(3));
            proof {
                lemma_parts_prefix_fails(parts, 2);
            }
            rewind(buf, pos, Ghost(start));
            return Err(ValueTooBig);
        }
        assert(parts.take(2).push(self.2.encoded()) =~= parts.take(3));
        assert(parts.take(3) =~= parts);
        let r = finish_composite(buf, pos, Ghost(start), Ghost(concat_parts(parts)->0));
        assert(r is Err ==> buf@.subrange(0, start.len() as int) =~= start);
        if r.is_err() {
            rewind(buf, pos, Ghost(start));
        }
        r
    }
}

impl<T0: Value, T1: Value, T2: Value, T3: Value> Value for (T0, T1, T2, T3) {
    open spec fn encoded(&self) -> Option<Seq<u8>> {
        composite(seq![self.0.encoded(), self.1.encoded(), self.2.encoded(), self.3.encoded()])
    }

    fn serialize(&self, buf: &mut Vec<u8>) -> (r: Result<(), ValueTooBig>) {
        let ghost start = buf@;
        let ghost parts = seq![self.0.encoded(), self.1.encoded(), self.2.encoded(), self.3.encoded()];
        let pos = buf.len();
        put_i32(buf, 0);
        assert(parts.take(0) =~= Seq::empty());
        if append_part(&self.0, buf, Ghost(start), Ghost(parts.take(0))).is_err() {
            assert(parts.take(0).push(self.0.encoded()) =~= parts.take(1));
            proof {
                lemma_parts_prefix_fails(parts, 0);
            }
            rewind(buf, pos, Ghost(start));
            return Err(ValueTooBig);
        }
        assert(parts.take(0).push(self.0.encoded()) =~= parts.take(1));
        if append_part(&self.1, buf, Ghost(start), Ghost(parts.take(1))).is_err() {
            assert(parts.take(1).push(self.1.encoded()) =~= parts.take(2));
            proof {
                lemma_parts_prefix_fails(parts, 1);
            }
            rewind(buf, pos, Ghost(start));
            return Err(ValueTooBig);
        }
        assert(parts.take(1).push(self.1.encoded()) =~= parts.take(2));
        if append_part(&self.2, buf, Ghost(start), Ghost(parts.take(2))).is_err() {
            assert(parts.take(2).push(self.2.encoded()) =~= parts.take(3));
            proof {
                lemma_parts_prefix_fails(parts, 2);
            }
            rewind(buf, pos, Ghost(start));
            return Err(ValueTooBig);
        }
        assert(parts.take(2).push(self.2.encoded()) =~= parts.take(3));
        if append_part(&self.3, buf, Ghost(start), Ghost(parts.take(3))).is_err() {
            assert(parts.take(3).push(self.3.encoded()) =~= parts.take(4));
            proof {
                lemma_parts_prefix_fails(parts, 3);
            }
            rewind(buf, pos, Ghost(start));
            return Err(ValueTooBig);
        }
        assert(parts.take(3).push(self.3.encoded()) =~= parts.take(4));
        assert(parts.take(4) =~= parts);
        let r = finish_composite(buf, pos, Ghost(start), Ghost(concat_parts(parts)->0));
        assert(r is Err ==> buf@.subrange(0, start.len() as int) =~= start);
        if r.is_err() {
            rewind(buf, pos, Ghost(start));
        }
        r
    }
}

impl<T0: Value, T1: Value, T2: Value, T3: Value, T4: Value> Value for (T0, T1, T2, T3, T4) {
    open spec fn encoded(&self) -> Option<Seq<u8>> {
        composite(seq![self.0.encoded(), self.1.encoded(), self.2.encoded(), self.3.encoded(), self.4.encoded()])
    }

    fn serialize(&self, buf: &mut Vec<u8>) -> (r: Result<(), ValueTooBig>) {
        let ghost start = buf@;
        let ghost parts = seq![self.0.encoded(), self.1.encoded(), self.2.encoded(), self.3.encoded(), self.4.encoded()];
        let pos = buf.len();
        put_i32(buf, 0);
        assert(parts.take(0) =~= Seq::empty());
        if append_part(&self.0, buf, Ghost(start), Ghost(parts.take(0))).is_err() {
            assert(parts.take(0).push(self.0.encoded()) =~= parts.take(1));
            proof {
                lemma_parts_prefix_fails(parts, 0);
            }
            rewind(buf, pos, Ghost(start));
            return Err(ValueTooBig);
        }
        assert(parts.take(0).push(self.0.encoded()) =~= parts.take(1));
        if append_part(&self.1, buf, Ghost(start), Ghost(parts.take(1))).is_err() {
            assert(parts.take(1).push(self.1.encoded()) =~= parts.take(2));
            proof {
                lemma_parts_prefix_fails(parts, 1);
            }
            rewind(buf, pos, Ghost(start));
            return Err(ValueTooBig);
        }
        assert(parts.take(1).push(self.1.encoded()) =~= parts.take(2));
        if append_part(&self.2, buf, Ghost(start), Ghost(parts.take(2))).is_err() {
            assert(parts.take(2).push(self.2.encoded()) =~= parts.take(3));
            proof {
                lemma_parts_prefix_fails(parts, 2);
            }
            rewind(buf, pos, Ghost(start));
            return Err(ValueTooBig);
        }
        assert(parts.take(2).push(self.2.encoded()) =~= parts.take(3));
        if append_part(&self.3, buf, Ghost(start), Ghost(parts.take(3))).is_err() {
            assert(parts.take(3).push(self.3.encoded()) =~= parts.take(4));
            proof {
                lemma_parts_prefix_fails(parts, 3);
            }
            rewind(buf, pos, Ghost(start));
            return Err(ValueTooBig);
        }
        assert(parts.take(3).push(self.3.encoded()) =~= parts.take(4));
        if append_part(&self.4, buf, Ghost(start), Ghost(parts.take(4))).is_err() {
            assert(parts.take(4).push(self.4.encoded()) =~= parts.take(5));
            proof {
                lemma_parts_prefix_fails(parts, 4);
            }
            rewind(buf, pos, Ghost(start));
            return Err(ValueTooBig);
        }
        assert(parts.take(4).push(self.4.encoded()) =~= parts.take(5));
        assert(parts.take(5) =~= parts);
        let r = finish_composite(buf, pos, Ghost(start), Ghost(concat_parts(parts)->0));
        assert(r is Err ==> buf@.subrange(0, start.len() as int) =~= start);
        if r.is_err() {
            rewind(buf, pos, Ghost(start));
        }
        r
    }
}

impl<T0: Value, T1: Value, T2: Value, T3: Value, T4: Value, T5: Value> Value for (T0, T1, T2, T3, T4, T5) {
    open spec fn encoded(&self) -> Option<Seq<u8>> {
        composite(seq![self.0.encoded(), self.1.encoded(), self.2.encoded(), self.3.encoded(), self.4.encoded(), self.5.encoded()])
    }

    fn serialize(&self, buf: &mut Vec<u8>) -> (r: Result<(), ValueTooBig>) {
        let ghost start = buf@;
        let ghost parts = seq![self.0.encoded(), self.1.encoded(), self.2.encoded(), self.3.encoded(), self.4.encoded(), self.5.encoded()];
        let pos = buf.len();
        put_i32(buf, 0);
        assert(parts.take(0) =~= Seq::empty());
        if append_part(&self.0, buf, Ghost(start), Ghost(parts.take(0))).is_err() {
            assert(parts.take(0).push(self.0.encoded()) =~= parts.take(1));
            proof {
                lemma_parts_prefix_fails(parts, 0);
            }
            rewind(buf, pos, Ghost(start));
            return Err(ValueTooBig);
        }
        assert(parts.take(0).push(self.0.encoded()) =~= parts.take(1));
        if append_part(&self.1, buf, Ghost(start), Ghost(parts.take(1))).is_err() {
            assert(parts.take(1).push(self.1.encoded()) =~= parts.take(2));
            proof {
                lemma_parts_prefix_fails(parts, 1);
            }
            rewind(buf, pos, Ghost(start));
            return Err(ValueTooBig);
        }
        assert(parts.take(1).push(self.1.encoded()) =~= parts.take(2));
        if append_part(&self.2, buf, Ghost(start), Ghost(parts.take(2))).is_err() {
            assert(parts.take(2).push(self.2.encoded()) =~= parts.take(3));
            proof {
                lemma_parts_prefix_fails(parts, 2);
            }
            rewind(buf, pos, Ghost(start));
            return Err(ValueTooBig);
        }
        assert(parts.take(2).push(self.2.encoded()) =~= parts.take(3));
        if append_part(&self.3, buf, Ghost(start), Ghost(parts.take(3))).is_err() {
            assert(parts.take(3).push(self.3.encoded()) =~= parts.take(4));
            proof {
                lemma_parts_prefix_fails(parts, 3);
            }
            rewind(buf, pos, Ghost(start));
            return Err(ValueTooBig);
        }
        assert(parts.take(3).push(self.3.encoded()) =~= parts.take(4));
        if append_part(&self.4, buf, Ghost(start), Ghost(parts.take(4))).is_err() {
            assert(parts.take(4).push(self.4.encoded()) =~= parts.take(5));
            proof {
                lemma_parts_prefix_fails(parts, 4);
            }
            rewind(buf, pos, Ghost(start));
            return Err(ValueTooBig);
        }
        assert(parts.take(4).push(self.4.encoded()) =~= parts.take(5));
        if append_part(&self.5, buf, Ghost(start), Ghost(parts.take(5))).is_err() {
            assert(parts.take(5).push(self.5.encoded()) =~= parts.take(6));
            proof {
                lemma_parts_prefix_fails(parts, 5);
            }
            rewind(buf, pos, Ghost(start));
            return Err(ValueTooBig);
        }
        assert(parts.take(5).push(self.5.encoded()) =~= parts.take(6));
        assert(parts.take(6) =~= parts);
        let r = finish_composite(buf, pos, Ghost(start), Ghost(concat_parts(parts)->0));
        assert(r is Err ==> buf@.subrange(0, start.len() as int) =~= start);
        if r.is_err() {
            rewind(buf, pos, Ghost(start));
        }
        r
    }
}

impl<T0: Value, T1: Value, T2: Value, T3: Value, T4: Value, T5: Value, T6: Value> Value for (T0, T1, T2, T3, T4, T5, T6) {
    open spec fn encoded(&self) -> Option<Seq<u8>> {
        composite(seq![self.0.encoded(), self.1.encoded(), self.2.encoded(), self.3.encoded(), self.4.encoded(), self.5.encoded(), self.6.encoded()])
    }

    fn serialize(&self, buf: &mut Vec<u8>) -> (r: Result<(), ValueTooBig>) {
        let ghost start = buf@;
        let ghost parts = seq![self.0.encoded(), self.1.encoded(), self.2.encoded(), self.3.encoded(), self.4.encoded(), self.5.encoded(), self.6.encoded()];
        let pos = buf.len();
        put_i32(buf, 0);
        assert(parts.take(0) =~= Seq::empty());
        if append_part(&self.0, buf, Ghost(start), Ghost(parts.take(0))).is_err() {
            assert(parts.take(0).push(self.0.encoded()) =~= parts.take(1));
            proof {
                lemma_parts_prefix_fails(parts, 0);
            }
            rewind(buf, pos, Ghost(start));
            return Err(ValueTooBig);
        }
        assert(parts.take(0).push(self.0.encoded()) =~= parts.take(1));
        if append_part(&self.1, buf, Ghost(start), Ghost(parts.take(1))).is_err() {
            assert(parts.take(1).push(self.1.encoded()) =~= parts.take(2));
            proof {
                lemma_parts_prefix_fails(parts, 1);
            }
            rewind(buf, pos, Ghost(start));
            return Err(ValueTooBig);
        }
        assert(parts.take(1).push(self.1.encoded()) =~= parts.take(2));
        if append_part(&self.2, buf, Ghost(start), Ghost(parts.take(2))).is_err() {
            assert(parts.take(2).push(self.2.encoded()) =~= parts.take(3));
            proof {
                lemma_parts_prefix_fails(parts, 2);
            }
            rewind(buf, pos, Ghost(start));
            return Err(ValueTooBig);
        }
        assert(parts.take(2).push(self.2.encoded()) =~= parts.take(3));
        if append_part(&self.3, buf, Ghost(start), Ghost(parts.take(3))).is_err() {
            assert(parts.take(3).push(self.3.encoded()) =~= parts.take(4));
            proof {
                lemma_parts_prefix_fails(parts, 3);
            }
            rewind(buf, pos, Ghost(start));
            return Err(ValueTooBig);
        }
        assert(parts.take(3).push(self.3.encoded()) =~= parts.take(4));
        if append_part(&self.4, buf, Ghost(start), Ghost(parts.take(4))).is_err() {
            assert(parts.take(4).push(self.4.encoded()) =~= parts.take(5));
            proof {
                lemma_parts_prefix_fails(parts, 4);
            }
            rewind(buf, pos, Ghost(start));
            return Err(ValueTooBig);
        }
        assert(parts.take(4).push(self.4.encoded()) =~= parts.take(5));
        if append_part(&self.5, buf, Ghost(start), Ghost(parts.take(5))).is_err() {
            assert(parts.take(5).push(self.5.encoded()) =~= parts.take(6));
            proof {
                lemma_parts_prefix_fails(parts, 5);
            }
            rewind(buf, pos, Ghost(start));
            return Err(ValueTooBig);
        }
        assert(parts.take(5).push(self.5.encoded()) =~= parts.take(6));
        if append_part(&self.6, buf, Ghost(start), Ghost(parts.take(6))).is_err() {
            assert(parts.take(6).push(self.6.encoded()) =~= parts.take(7));
            proof {
                lemma_parts_prefix_fails(parts, 6);
            }
            rewind(buf, pos, Ghost(start));
            return Err(ValueTooBig);
        }
        assert(parts.take(6).push(self.6.encoded()) =~= parts.take(7));
        assert(parts.take(7) =~= parts);
        let r = finish_composite(buf, pos, Ghost(start), Ghost(concat_parts(parts)->0));
        assert(r is Err ==> buf@.subrange(0, start.len() as int) =~= start);
        if r.is_err() {
            rewind(buf, pos, Ghost(start));
        }
        r
    }
}

impl<T0: Value, T1: Value, T2: Value, T3: Value, T4: Value, T5: Value, T6: Value, T7: Value> Value for (T0, T1, T2, T3, T4, T5, T6, T7) {
    open spec fn encoded(&self) -> Option<Seq<u8>> {
        composite(seq![self.0.encoded(), self.1.encoded(), self.2.encoded(), self.3.encoded(), self.4.encoded(), self.5.encoded(), self.6.encoded(), self.7.encoded()])
    }

    fn serialize(&self, buf: &mut Vec<u8>) -> (r: Result<(), ValueTooBig>) {
        let ghost start = buf@;
        let ghost parts = seq![self.0.encoded(), self.1.encoded(), self.2.encoded(), self.3.encoded(), self.4.encoded(), self.5.encoded(), self.6.encoded(), self.7.encoded()];
        let pos = buf.len();
        put_i32(buf, 0);
        assert(parts.take(0) =~= Seq::empty());
        if append_part(&self.0, buf, Ghost(start), Ghost(parts.take(0))).is_err() {
            assert(parts.take(0).push(self.0.encoded()) =~= parts.take(1));
            proof {
                lemma_parts_prefix_fails(parts, 0);
            }
            rewind(buf, pos, Ghost(start));
            return Err(ValueTooBig);
        }
        assert(parts.take(0).push(self.0.encoded()) =~= parts.take(1));
        if append_part(&self.1, buf, Ghost(start), Ghost(parts.take(1))).is_err() {
            assert(parts.take(1).push(self.1.encoded()) =~= parts.take(2));
            proof {
                lemma_parts_prefix_fails(parts, 1);
            }
            rewind(buf, pos, Ghost(start));
            return Err(ValueTooBig);
        }
        assert(parts.take(1).push(self.1.encoded()) =~= parts.take(2));
        if append_part(&self.2, buf, Ghost(start), Ghost(parts.take(2))).is_err() {
            assert(parts.take(2).push(self.2.encoded()) =~= parts.take(3));
            proof {
                lemma_parts_prefix_fails(parts, 2);
            }
            rewind(buf, pos, Ghost(start));
            return Err(ValueTooBig);
        }
        assert(parts.take(2).push(self.2.encoded()) =~= parts.take(3));
        if append_part(&self.3, buf, Ghost(start), Ghost(parts.take(3))).is_err() {
            assert(parts.take(3).push(self.3.encoded()) =~= parts.take(4));
            proof {
                lemma_parts_prefix_fails(parts, 3);
            }
            rewind(buf, pos, Ghost(start));
            return Err(ValueTooBig);
        }
        assert(parts.take(3).push(self.3.encoded()) =~= parts.take(4));
        if append_part(&self.4, buf, Ghost(start), Ghost(parts.take(4))).is_err() {
            assert(parts.take(4).push(self.4.encoded()) =~= parts.take(5));
            proof {
                lemma_parts_prefix_fails(parts, 4);
            }
            rewind(buf, pos, Ghost(start));
            return Err(ValueTooBig);
        }
        assert(parts.take(4).push(self.4.encoded()) =~= parts.take(5));
        if append_part(&self.5, buf, Ghost(start), Ghost(parts.take(5))).is_err() {
            assert(parts.take(5).push(self.5.encoded()) =~= parts.take(6));
            proof {
                lemma_parts_prefix_fails(parts, 5);
            }
            rewind(buf, pos, Ghost(start));
            return Err(ValueTooBig);
        }
        assert(parts.take(5).push(self.5.encoded()) =~= parts.take(6));
        if append_part(&self.6, buf, Ghost(start), Ghost(parts.take(6))).is_err() {
            assert(parts.take(6).push(self.6.encoded()) =~= parts.take(7));
            proof {
                lemma_parts_prefix_fails(parts, 6);
            }
            rewind(buf, pos, Ghost(start));
            return Err(ValueTooBig);
        }
        assert(parts.take(6).push(self.6.encoded()) =~= parts.take(7));
        if append_part(&self.7, buf, Ghost(start), Ghost(parts.take(7))).is_err() {
            assert(parts.take(7).push(self.7.encoded()) =~= parts.take(8));
            proof {
                lemma_parts_prefix_fails(parts, 7);
            }
            rewind(buf, pos, Ghost(start));
            return Err(ValueTooBig);
        }
        assert(parts.take(7).push(self.7.encoded()) =~= parts.take(8));
        assert(parts.take(8) =~= parts);
        let r = finish_composite(buf, pos, Ghost(start), Ghost(concat_parts(parts)->0));
        assert(r is Err ==> buf@.subrange(0, start.len() as int) =~= start);
        if r.is_err() {
            rewind(buf, pos, Ghost(start));
        }
        r
    }
}

impl<T0: Value, T1: Value, T2: Value, T3: Value, T4: Value, T5: Value, T6: Value, T7: Value, T8: Value> Value for (T0, T1, T2, T3, T4, T5, T6, T7, T8) {
    open spec fn encoded(&self) -> Option<Seq<u8>> {
        composite(seq![self.0.encoded(), self.1.encoded(), self.2.encoded(), self.3.encoded(), self.4.encoded(), self.5.encoded(), self.6.encoded(), self.7.encoded(), self.8.encoded()])
    }

    fn serialize(&self, buf: &mut Vec<u8>) -> (r: Result<(), ValueTooBig>) {
        let ghost start = buf@;
        let ghost parts = seq![self.0.encoded(), self.1.encoded(), self.2.encoded(), self.3.encoded(), self.4.encoded(), self.5.encoded(), self.6.encoded(), self.7.encoded(), self.8.encoded()];
        let pos = buf.len();
        put_i32(buf, 0);
        assert(parts.take(0) =~= Seq::empty());
        if append_part(&self.0, buf, Ghost(start), Ghost(parts.take(0))).is_err() {
            assert(parts.take(0).push(self.0.encoded()) =~= parts.take(1));
            proof {
                lemma_parts_prefix_fails(parts, 0);
            }
            rewind(buf, pos, Ghost(start));
            return Err(ValueTooBig);
        }
        assert(parts.take(0).push(self.0.encoded()) =~= parts.take(1));
        if append_part(&self.1, buf, Ghost(start), Ghost(parts.take(1))).is_err() {
            assert(parts.take(1).push(self.1.encoded()) =~= parts.take(2));
            proof {
                lemma_parts_prefix_fails(parts, 1);
            }
            rewind(buf, pos, Ghost(start));
            return Err(ValueTooBig);
        }
        assert(parts.take(1).push(self.1.encoded()) =~= parts.take(2));
        if append_part(&self.2, buf, Ghost(start), Ghost(parts.take(2))).is_err() {
            assert(parts.take(2).push(self.2.encoded()) =~= parts.take(3));
            proof {
                lemma_parts_prefix_fails(parts, 2);
            }
            rewind(buf, pos, Ghost(start));
            return Err(ValueTooBig);
        }
        assert(parts.take(2).push(self.2.encoded()) =~= parts.take(3));
        if append_part(&self.3, buf, Ghost(start), Ghost(parts.take(3))).is_err() {
            assert(parts.take(3).push(self.3.encoded()) =~= parts.take(4));
            proof {
                lemma_parts_prefix_fails(parts, 3);
            }
            rewind(buf, pos, Ghost(start));
            return Err(ValueTooBig);
        }
        assert(parts.take(3).push(self.3.encoded()) =~= parts.take(4));
        if append_part(&self.4, buf, Ghost(start), Ghost(parts.take(4))).is_err() {
            assert(parts.take(4).push(self.4.encoded()) =~= parts.take(5));
            proof {
                lemma_parts_prefix_fails(parts, 4);
            }
            rewind(buf, pos, Ghost(start));
            return Err(ValueTooBig);
        }
        assert(parts.take(4).push(self.4.encoded()) =~= parts.take(5));
        if append_part(&self.5, buf, Ghost(start), Ghost(parts.take(5))).is_err() {
            assert(parts.take(5).push(self.5.encoded()) =~= parts.take(6));
            proof {
                lemma_parts_prefix_fails(parts, 5);
            }
            rewind(buf, pos, Ghost(start));
            return Err(ValueTooBig);
        }
        assert(parts.take(5).push(self.5.encoded()) =~= parts.take(6));
        if append_part(&self.6, buf, Ghost(start), Ghost(parts.take(6))).is_err() {
            assert(parts.take(6).push(self.6.encoded()) =~= parts.take(7));
            proof {
                lemma_parts_prefix_fails(parts, 6);
            }
            rewind(buf, pos, Ghost(start));
            return Err(ValueTooBig);
        }
        assert(parts.take(6).push(self.6.encoded()) =~= parts.take(7));
        if append_part(&self.7, buf, Ghost(start), Ghost(parts.take(7))).is_err() {
            assert(parts.take(7).push(self.7.encoded()) =~= parts.take(8));
            proof {
                lemma_parts_prefix_fails(parts, 7);
            }
            rewind(buf, pos, Ghost(start));
            return Err(ValueTooBig);
        }
        assert(parts.take(7).push(self.7.encoded()) =~= parts.take(8));
        if append_part(&self.8, buf, Ghost(start), Ghost(parts.take(8))).is_err() {
            assert(parts.take(8).push(self.8.encoded()) =~= parts.take(9));
            proof {
                lemma_parts_prefix_fails(parts, 8);
            }
            rewind(buf, pos, Ghost(start));
            return Err(ValueTooBig);
        }
        assert(parts.take(8).push(self.8.encoded()) =~= parts.take(9));
        assert(parts.take(9) =~= parts);
        let r = finish_composite(buf, pos, Ghost(start), Ghost(concat_parts(parts)->0));
        assert(r is Err ==> buf@.subrange(0, start.len() as int) =~= start);
        if r.is_err() {
            rewind(buf, pos, Ghost(start));
        }
        r
    }
}

impl<T0: Value, T1: Value, T2: Value, T3: Value, T4: Value, T5: Value, T6: Value, T7: Value, T8: Value, T9: Value> Value for (T0, T1, T2, T3, T4, T5, T6, T7, T8, T9) {
    open spec fn encoded(&self) -> Option<Seq<u8>> {
        composite(seq![self.0.encoded(), self.1.encoded(), self.2.encoded(), self.3.encoded(), self.4.encoded(), self.5.encoded(), self.6.encoded(), self.7.encoded(), self.8.encoded(), self.9.encoded()])
    }

    fn serialize(&self, buf: &mut Vec<u8>) -> (r: Result<(), ValueTooBig>) {
        let ghost start = buf@;
        let ghost parts = seq![self.0.encoded(), self.1.encoded(), self.2.encoded(), self.3.encoded(), self.4.encoded(), self.5.encoded(), self.6.encoded(), self.7.encoded(), self.8.encoded(), self.9.encoded()];
        let pos = buf.len();
        put_i32(buf, 0);
        assert(parts.take(0) =~= Seq::empty());
        if append_part(&self.0, buf, Ghost(start), Ghost(parts.take(0))).is_err() {
            assert(parts.take(0).push(self.0.encoded()) =~= parts.take(1));
            proof {
                lemma_parts_prefix_fails(parts, 0);
            }
            rewind(buf, pos, Ghost(start));
            return Err(ValueTooBig);
        }
        assert(parts.take(0).push(self.0.encoded()) =~= parts.take(1));
        if append_part(&self.1, buf, Ghost(start), Ghost(parts.take(1))).is_err() {
            assert(parts.take(1).push(self.1.encoded()) =~= parts.take(2));
            proof {
                lemma_parts_prefix_fails(parts, 1);
            }
            rewind(buf, pos, Ghost(start));
            return Err(ValueTooBig);
        }
        assert(parts.take(1).push(self.1.encoded()) =~= parts.take(2));
        if append_part(&self.2, buf, Ghost(start), Ghost(parts.take(2))).is_err() {
            assert(parts.take(2).push(self.2.encoded()) =~= parts.take(3));
            proof {
                lemma_parts_prefix_fails(parts, 2);
            }
            rewind(buf, pos, Ghost(start));
            return Err(ValueTooBig);
        }
        assert(parts.take(2).push(self.2.encoded()) =~= parts.take(3));
        if append_part(&self.3, buf, Ghost(start), Ghost(parts.take(3))).is_err() {
            assert(parts.take(3).push(self.3.encoded()) =~= parts.take(4));
            proof {
                lemma_parts_prefix_fails(parts, 3);
            }
            rewind(buf, pos, Ghost(start));
            return Err(ValueTooBig);
        }
        assert(parts.take(3).push(self.3.encoded()) =~= parts.take(4));
        if append_part(&self.4, buf, Ghost(start), Ghost(parts.take(4))).is_err() {
            assert(parts.take(4).push(self.4.encoded()) =~= parts.take(5));
            proof {
                lemma_parts_prefix_fails(parts, 4);
            }
            rewind(buf, pos, Ghost(start));
            return Err(ValueTooBig);
        }
        assert(parts.take(4).push(self.4.encoded()) =~= parts.take(5));
        if append_part(&self.5, buf, Ghost(start), Ghost(parts.take(5))).is_err() {
            assert(parts.take(5).push(self.5.encoded()) =~= parts.take(6));
            proof {
                lemma_parts_prefix_fails(parts, 5);
            }
            rewind(buf, pos, Ghost(start));
            return Err(ValueTooBig);
        }
        assert(parts.take(5).push(self.5.encoded()) =~= parts.take(6));
        if append_part(&self.6, buf, Ghost(start), Ghost(parts.take(6))).is_err() {
            assert(parts.take(6).push(self.6.encoded()) =~= parts.take(7));
            proof {
                lemma_parts_prefix_fails(parts, 6);
            }
            rewind(buf, pos, Ghost(start));
            return Err(ValueTooBig);
        }
        assert(parts.take(6).push(self.6.encoded()) =~= parts.take(7));
        if append_part(&self.7, buf, Ghost(start), Ghost(parts.take(7))).is_err() {
            assert(parts.take(7).push(self.7.encoded()) =~= parts.take(8));
            proof {
                lemma_parts_prefix_fails(parts, 7);
            }
            rewind(buf, pos, Ghost(start));
            return Err(ValueTooBig);
        }
        assert(parts.take(7).push(self.7.encoded()) =~= parts.take(8));
        if append_part(&self.8, buf, Ghost(start), Ghost(parts.take(8))).is_err() {
            assert(parts.take(8).push(self.8.encoded()) =~= parts.take(9));
            proof {
                lemma_parts_prefix_fails(parts, 8);
            }
            rewind(buf, pos, Ghost(start));
            return Err(ValueTooBig);
        }
        assert(parts.take(8).push(self.8.encoded()) =~= parts.take(9));
        if append_part(&self.9, buf, Ghost(start), Ghost(parts.take(9))).is_err() {
            assert(parts.take(9).push(self.9.encoded()) =~= parts.take(10));
            proof {
                lemma_parts_prefix_fails(parts, 9);
            }
            rewind(buf, pos, Ghost(start));
            return Err(ValueTooBig);
        }
        assert(parts.take(9).push(self.9.encoded()) =~= parts.take(10));
        assert(parts.take(10) =~= parts);
        let r = finish_composite(buf, pos, Ghost(start), Ghost(concat_parts(parts)->0));
        assert(r is Err ==> buf@.subrange(0, start.len() as int) =~= start);
        if r.is_err() {
            rewind(buf, pos, Ghost(start));
        }
        r
    }
}

impl<T0: Value, T1: Value, T2: Value, T3: Value, T4: Value, T5: Value, T6: Value, T7: Value, T8: Value, T9: Value, T10: Value> Value for (T0, T1, T2, T3, T4, T5, T6, T7, T8, T9, T10) {
    open spec fn encoded(&self) -> Option<Seq<u8>> {
        composite(seq![self.0.encoded(), self.1.encoded(), self.2.encoded(), self.3.encoded(), self.4.encoded(), self.5.encoded(), self.6.encoded(), self.7.encoded(), self.8.encoded(), self.9.encoded(), self.10.encoded()])
    }

    fn serialize(&self, buf: &mut Vec<u8>) -> (r: Result<(), ValueTooBig>) {
        let ghost start = buf@;
        let ghost parts = seq![self.0.encoded(), self.1.encoded(), self.2.encoded(), self.3.encoded(), self.4.encoded(), self.5.encoded(), self.6.encoded(), self.7.encoded(), self.8.encoded(), self.9.encoded(), self.10.encoded()];
        let pos = buf.len();
        put_i32(buf, 0);
        assert(parts.take(0) =~= Seq::empty());
        if append_part(&self.0, buf, Ghost(start), Ghost(parts.take(0))).is_err() {
            assert(parts.take(0).push(self.0.encoded()) =~= parts.take(1));
            proof {
                lemma_parts_prefix_fails(parts, 0);
            }
            rewind(buf, pos, Ghost(start));
            return Err(ValueTooBig);
        }
        assert(parts.take(0).push(self.0.encoded()) =~= parts.take(1));
        if append_part(&self.1, buf, Ghost(start), Ghost(parts.take(1))).is_err() {
            assert(parts.take(1).push(self.1.encoded()) =~= parts.take(2));
            proof {
                lemma_parts_prefix_fails(parts, 1);
            }
            rewind(buf, pos, Ghost(start));
            return Err(ValueTooBig);
        }
        assert(parts.take(1).push(self.1.encoded()) =~= parts.take(2));
        if append_part(&self.2, buf, Ghost(start), Ghost(parts.take(2))).is_err() {
            assert(parts.take(2).push(self.2.encoded()) =~= parts.take(3));
            proof {
                lemma_parts_prefix_fails(parts, 2);
            }
            rewind(buf, pos, Ghost(start));
            return Err(ValueTooBig);
        }
        assert(parts.take(2).push(self.2.encoded()) =~= parts.take(3));
        if append_part(&self.3, buf, Ghost(start), Ghost(parts.take(3))).is_err() {
            assert(parts.take(3).push(self.3.encoded()) =~= parts.take(4));
            proof {
                lemma_parts_prefix_fails(parts, 3);
            }
            rewind(buf, pos, Ghost(start));
            return Err(ValueTooBig);
        }
        assert(parts.take(3).push(self.3.encoded()) =~= parts.take(4));
        if append_part(&self.4, buf, Ghost(start), Ghost(parts.take(4))).is_err() {
            assert(parts.take(4).push(self.4.encoded()) =~= parts.take(5));
            proof {
                lemma_parts_prefix_fails(parts, 4);
            }
            rewind(buf, pos, Ghost(start));
            return Err(ValueTooBig);
        }
        assert(parts.take(4).push(self.4.encoded()) =~= parts.take(5));
        if append_part(&self.5, buf, Ghost(start), Ghost(parts.take(5))).is_err() {
            assert(parts.take(5).push(self.5.encoded()) =~= parts.take(6));
            proof {
                lemma_parts_prefix_fails(parts, 5);
            }
            rewind(buf, pos, Ghost(start));
            return Err(ValueTooBig);
        }
        assert(parts.take(5).push(self.5.encoded()) =~= parts.take(6));
        if append_part(&self.6, buf, Ghost(start), Ghost(parts.take(6))).is_err() {
            assert(parts.take(6).push(self.6.encoded()) =~= parts.take(7));
            proof {
                lemma_parts_prefix_fails(parts, 6);
            }
            rewind(buf, pos, Ghost(start));
            return Err(ValueTooBig);
        }
        assert(parts.take(6).push(self.6.encoded()) =~= parts.take(7));
        if append_part(&self.7, buf, Ghost(start), Ghost(parts.take(7))).is_err() {
            assert(parts.take(7).push(self.7.encoded()) =~= parts.take(8));
            proof {
                lemma_parts_prefix_fails(parts, 7);
            }
            rewind(buf, pos, Ghost(start));
            return Err(ValueTooBig);
        }
        assert(parts.take(7).push(self.7.encoded()) =~= parts.take(8));
        if append_part(&self.8, buf, Ghost(start), Ghost(parts.take(8))).is_err() {
            assert(parts.take(8).push(self.8.encoded()) =~= parts.take(9));
            proof {
                lemma_parts_prefix_fails(parts, 8);
            }
            rewind(buf, pos, Ghost(start));
            return Err(ValueTooBig);
        }
        assert(parts.take(8).push(self.8.encoded()) =~= parts.take(9));
        if append_part(&self.9, buf, Ghost(start), Ghost(parts.take(9))).is_err() {
            assert(parts.take(9).push(self.9.encoded()) =~= parts.take(10));
            proof {
                lemma_parts_prefix_fails(parts, 9);
            }
            rewind(buf, pos, Ghost(start));
            return Err(ValueTooBig);
        }
        assert(parts.take(9).push(self.9.encoded()) =~= parts.take(10));
        if append_part(&self.10, buf, Ghost(start), Ghost(parts.take(10))).is_err() {
            assert(parts.take(10).push(self.10.encoded()) =~= parts.take(11));
            proof {
                lemma_parts_prefix_fails(parts, 10);
            }
            rewind(buf, pos, Ghost(start));
            return Err(ValueTooBig);
        }
        assert(parts.take(10).push(self.10.encoded()) =~= parts.take(11));
        assert(parts.take(11) =~= parts);
        let r = finish_composite(buf, pos, Ghost(start), Ghost(concat_parts(parts)->0));
        assert(r is Err ==> buf@.subrange(0, start.len() as int) =~= start);
        if r.is_err() {
            rewind(buf, pos, Ghost(start));
        }
        r
    }
}

impl<T0: Value, T1: Value, T2: Value, T3: Value, T4: Value, T5: Value, T6: Value, T7: Value, T8: Value, T9: Value, T10: Value, T11: Value> Value for (T0, T1, T2, T3, T4, T5, T6, T7, T8, T9, T10, T11) {
    open spec fn encoded(&self) -> Option<Seq<u8>> {
        composite(seq![self.0.encoded(), self.1.encoded(), self.2.encoded(), self.3.encoded(), self.4.encoded(), self.5.encoded(), self.6.encoded(), self.7.encoded(), self.8.encoded(), self.9.encoded(), self.10.encoded(), self.11.encoded()])
    }

    fn serialize(&self, buf: &mut Vec<u8>) -> (r: Result<(), ValueTooBig>) {
        let ghost start = buf@;
        let ghost parts = seq![self.0.encoded(), self.1.encoded(), self.2.encoded(), self.3.encoded(), self.4.encoded(), self.5.encoded(), self.6.encoded(), self.7.encoded(), self.8.encoded(), self.9.encoded(), self.10.encoded(), self.11.encoded()];
        let pos = buf.len();
        put_i32(buf, 0);
        assert(parts.take(0) =~= Seq::empty());
        if append_part(&self.0, buf, Ghost(start), Ghost(parts.take(0))).is_err() {
            assert(parts.take(0).push(self.0.encoded()) =~= parts.take(1));
            proof {
                lemma_parts_prefix_fails(parts, 0);
            }
            rewind(buf, pos, Ghost(start));
            return Err(ValueTooBig);
        }
        assert(parts.take(0).push(self.0.encoded()) =~= parts.take(1));
        if append_part(&self.1, buf, Ghost(start), Ghost(parts.take(1))).is_err() {
            assert(parts.take(1).push(self.1.encoded()) =~= parts.take(2));
            proof {
                lemma_parts_prefix_fails(parts, 1);
            }
            rewind(buf, pos, Ghost(start));
            return Err(ValueTooBig);
        }
        assert(parts.take(1).push(self.1.encoded()) =~= parts.take(2));
        if append_part(&self.2, buf, Ghost(start), Ghost(parts.take(2))).is_err() {
            assert(parts.take(2).push(self.2.encoded()) =~= parts.take(3));
            proof {
                lemma_parts_prefix_fails(parts, 2);
            }
            rewind(buf, pos, Ghost(start));
            return Err(ValueTooBig);
        }
        assert(parts.take(2).push(self.2.encoded()) =~= parts.take(3));
        if append_part(&self.3, buf, Ghost(start), Ghost(parts.take(3))).is_err() {
            assert(parts.take(3).push(self.3.encoded()) =~= parts.take(4));
            proof {
                lemma_parts_prefix_fails(parts, 3);
            }
            rewind(buf, pos, Ghost(start));
            return Err(ValueTooBig);
        }
        assert(parts.take(3).push(self.3.encoded()) =~= parts.take(4));
        if append_part(&self.4, buf, Ghost(start), Ghost(parts.take(4))).is_err() {
            assert(parts.take(4).push(self.4.encoded()) =~= parts.take(5));
            proof {
                lemma_parts_prefix_fails(parts, 4);
            }
            rewind(buf, pos, Ghost(start));
            return Err(ValueTooBig);
        }
        assert(parts.take(4).push(self.4.encoded()) =~= parts.take(5));
        if append_part(&self.5, buf, Ghost(start), Ghost(parts.take(5))).is_err() {
            assert(parts.take(5).push(self.5.encoded()) =~= parts.take(6));
            proof {
                lemma_parts_prefix_fails(parts, 5);
            }
            rewind(buf, pos, Ghost(start));
            return Err(ValueTooBig);
        }
        assert(parts.take(5).push(self.5.encoded()) =~= parts.take(6));
        if append_part(&self.6, buf, Ghost(start), Ghost(parts.take(6))).is_err() {
            assert(parts.take(6).push(self.6.encoded()) =~= parts.take(7));
            proof {
                lemma_parts_prefix_fails(parts, 6);
            }
            rewind(buf, pos, Ghost(start));
            return Err(ValueTooBig);
        }
        assert(parts.take(6).push(self.6.encoded()) =~= parts.take(7));
        if append_part(&self.7, buf, Ghost(start), Ghost(parts.take(7))).is_err() {
            assert(parts.take(7).push(self.7.encoded()) =~= parts.take(8));
            proof {
                lemma_parts_prefix_fails(parts, 7);
            }
            rewind(buf, pos, Ghost(start));
            return Err(ValueTooBig);
        }
        assert(parts.take(7).push(self.7.encoded()) =~= parts.take(8));
        if append_part(&self.8, buf, Ghost(start), Ghost(parts.take(8))).is_err() {
            assert(parts.take(8).push(self.8.encoded()) =~= parts.take(9));
            proof {
                lemma_parts_prefix_fails(parts, 8);
            }
            rewind(buf, pos, Ghost(start));
            return Err(ValueTooBig);
        }
        assert(parts.take(8).push(self.8.encoded()) =~= parts.take(9));
        if append_part(&self.9, buf, Ghost(start), Ghost(parts.take(9))).is_err() {
            assert(parts.take(9).push(self.9.encoded()) =~= parts.take(10));
            proof {
                lemma_parts_prefix_fails(parts, 9);
            }
            rewind(buf, pos, Ghost(start));
            return Err(ValueTooBig);
        }
        assert(parts.take(9).push(self.9.encoded()) =~= parts.take(10));
        if append_part(&self.10, buf, Ghost(start), Ghost(parts.take(10))).is_err() {
            assert(parts.take(10).push(self.10.encoded()) =~= parts.take(11));
            proof {
                lemma_parts_prefix_fails(parts, 10);
            }
            rewind(buf, pos, Ghost(start));
            return Err(ValueTooBig);
        }
        assert(parts.take(10).push(self.10.encoded()) =~= parts.take(11));
        if append_part(&self.11, buf, Ghost(start), Ghost(parts.take(11))).is_err() {
            assert(parts.take(11).push(self.11.encoded()) =~= parts.take(12));
            proof {
                lemma_parts_prefix_fails(parts, 11);
            }
            rewind(buf, pos, Ghost(start));
            return Err(ValueTooBig);
        }
        assert(parts.take(11).push(self.11.encoded()) =~= parts.take(12));
        assert(parts.take(12) =~= parts);
        let r = finish_composite(buf, pos, Ghost(start), Ghost(concat_parts(parts)->0));
        assert(r is Err ==> buf@.subrange(0, start.len() as int) =~= start);
        if r.is_err() {
            rewind(buf, pos, Ghost(start));
        }
        r
    }
}

impl<T0: Value, T1: Value, T2: Value, T3: Value, T4: Value, T5: Value, T6: Value, T7: Value, T8: Value, T9: Value, T10: Value, T11: Value, T12: Value> Value for (T0, T1, T2, T3, T4, T5, T6, T7, T8, T9, T10, T11, T12) {
    open spec fn encoded(&self) -> Option<Seq<u8>> {
        composite(seq![self.0.encoded(), self.1.encoded(), self.2.encoded(), self.3.encoded(), self.4.encoded(), self.5.encoded(), self.6.encoded(), self.7.encoded(), self.8.encoded(), self.9.encoded(), self.10.encoded(), self.11.encoded(), self.12.encoded()])
    }

    fn serialize(&self, buf: &mut Vec<u8>) -> (r: Result<(), ValueTooBig>) {
        let ghost start = buf@;
        let ghost parts = seq![self.0.encoded(), self.1.encoded(), self.2.encoded(), self.3.encoded(), self.4.encoded(), self.5.encoded(), self.6.encoded(), self.7.encoded(), self.8.encoded(), self.9.encoded(), self.10.encoded(), self.11.encoded(), self.12.encoded()];
        let pos = buf.len();
        put_i32(buf, 0);
        assert(parts.take(0) =~= Seq::empty());
        if append_part(&self.0, buf, Ghost(start), Ghost(parts.take(0))).is_err() {
            assert(parts.take(0).push(self.0.encoded()) =~= parts.take(1));
            proof {
                lemma_parts_prefix_fails(parts, 0);
            }
            rewind(buf, pos, Ghost(start));
            return Err(ValueTooBig);
        }
        assert(parts.take(0).push(self.0.encoded()) =~= parts.take(1));
        if append_part(&self.1, buf, Ghost(start), Ghost(parts.take(1))).is_err() {
            assert(parts.take(1).push(self.1.encoded()) =~= parts.take(2));
            proof {
                lemma_parts_prefix_fails(parts, 1);
            }
            rewind(buf, pos, Ghost(start));
            return Err(ValueTooBig);
        }
        assert(parts.take(1).push(self.1.encoded()) =~= parts.take(2));
        if append_part(&self.2, buf, Ghost(start), Ghost(parts.take(2))).is_err() {
            assert(parts.take(2).push(self.2.encoded()) =~= parts.take(3));
            proof {
                lemma_parts_prefix_fails(parts, 2);
            }
            rewind(buf, pos, Ghost(start));
            return Err(ValueTooBig);
        }
        assert(parts.take(2).push(self.2.encoded()) =~= parts.take(3));
        if append_part(&self.3, buf, Ghost(start), Ghost(parts.take(3))).is_err() {
            assert(parts.take(3).push(self.3.encoded()) =~= parts.take(4));
            proof {
                lemma_parts_prefix_fails(parts, 3);
            }
            rewind(buf, pos, Ghost(start));
            return Err(ValueTooBig);
        }
        assert(parts.take(3).push(self.3.encoded()) =~= parts.take(4));
        if append_part(&self.4, buf, Ghost(start), Ghost(parts.take(4))).is_err() {
            assert(parts.take(4).push(self.4.encoded()) =~= parts.take(5));
            proof {
                lemma_parts_prefix_fails(parts, 4);
            }
            rewind(buf, pos, Ghost(start));
            return Err(ValueTooBig);
        }
        assert(parts.take(4).push(self.4.encoded()) =~= parts.take(5));
        if append_part(&self.5, buf, Ghost(start), Ghost(parts.take(5))).is_err() {
            assert(parts.take(5).push(self.5.encoded()) =~= parts.take(6));
            proof {
                lemma_parts_prefix_fails(parts, 5);
            }
            rewind(buf, pos, Ghost(start));
            return Err(ValueTooBig);
        }
        assert(parts.take(5).push(self.5.encoded()) =~= parts.take(6));
        if append_part(&self.6, buf, Ghost(start), Ghost(parts.take(6))).is_err() {
            assert(parts.take(6).push(self.6.encoded()) =~= parts.take(7));
            proof {
                lemma_parts_prefix_fails(parts, 6);
            }
            rewind(buf, pos, Ghost(start));
            return Err(ValueTooBig);
        }
        assert(parts.take(6).push(self.6.encoded()) =~= parts.take(7));
        if append_part(&self.7, buf, Ghost(start), Ghost(parts.take(7))).is_err() {
            assert(parts.take(7).push(self.7.encoded()) =~= parts.take(8));
            proof {
                lemma_parts_prefix_fails(parts, 7);
            }
            rewind(buf, pos, Ghost(start));
            return Err(ValueTooBig);
        }
        assert(parts.take(7).push(self.7.encoded()) =~= parts.take(8));
        if append_part(&self.8, buf, Ghost(start), Ghost(parts.take(8))).is_err() {
            assert(parts.take(8).push(self.8.encoded()) =~= parts.take(9));
            proof {
                lemma_parts_prefix_fails(parts, 8);
            }
            rewind(buf, pos, Ghost(start));
            return Err(ValueTooBig);
        }
        assert(parts.take(8).push(self.8.encoded()) =~= parts.take(9));
        if append_part(&self.9, buf, Ghost(start), Ghost(parts.take(9))).is_err() {
            assert(parts.take(9).push(self.9.encoded()) =~= parts.take(10));
            proof {
                lemma_parts_prefix_fails(parts, 9);
            }
            rewind(buf, pos, Ghost(start));
            return Err(ValueTooBig);
        }
        assert(parts.take(9).push(self.9.encoded()) =~= parts.take(10));
        if append_part(&self.10, buf, Ghost(start), Ghost(parts.take(10))).is_err() {
            assert(parts.take(10).push(self.10.encoded()) =~= parts.take(11));
            proof {
                lemma_parts_prefix_fails(parts, 10);
            }
            rewind(buf, pos, Ghost(start));
            return Err(ValueTooBig);
        }
        assert(parts.take(10).push(self.10.encoded()) =~= parts.take(11));
        if append_part(&self.11, buf, Ghost(start), Ghost(parts.take(11))).is_err() {
            assert(parts.take(11).push(self.11.encoded()) =~= parts.take(12));
            proof {
                lemma_parts_prefix_fails(parts, 11);
            }
            rewind(buf, pos, Ghost(start));
            return Err(ValueTooBig);
        }
        assert(parts.take(11).push(self.11.encoded()) =~= parts.take(12));
        if append_part(&self.12, buf, Ghost(start), Ghost(parts.take(12))).is_err() {
            assert(parts.take(12).push(self.12.encoded()) =~= parts.take(13));
            proof {
                lemma_parts_prefix_fails(parts, 12);
            }
            rewind(buf, pos, Ghost(start));
            return Err(ValueTooBig);
        }
        assert(parts.take(12).push(self.12.encoded()) =~= parts.take(13));
        assert(parts.take(13) =~= parts);
        let r = finish_composite(buf, pos, Ghost(start), Ghost(concat_parts(parts)->0));
        assert(r is Err ==> buf@.subrange(0, start.len() as int) =~= start);
        if r.is_err() {
            rewind(buf, pos, Ghost(start));
        }
        r
    }
}

impl<T0: Value, T1: Value, T2: Value, T3: Value, T4: Value, T5: Value, T6: Value, T7: Value, T8: Value, T9: Value, T10: Value, T11: Value, T12: Value, T13: Value> Value for (T0, T1, T2, T3, T4, T5, T6, T7, T8, T9, T10, T11, T12, T13) {
    open spec fn encoded(&self) -> Option<Seq<u8>> {
        composite(seq![self.0.encoded(), self.1.encoded(), self.2.encoded(), self.3.encoded(), self.4.encoded(), self.5.encoded(), self.6.encoded(), self.7.encoded(), self.8.encoded(), self.9.encoded(), self.10.encoded(), self.11.encoded(), self.12.encoded(), self.13.encoded()])
    }

    fn serialize(&self, buf: &mut Vec<u8>) -> (r: Result<(), ValueTooBig>) {
        let ghost start = buf@;
        let ghost parts = seq![self.0.encoded(), self.1.encoded(), self.2.encoded(), self.3.encoded(), self.4.encoded(), self.5.encoded(), self.6.encoded(), self.7.encoded(), self.8.encoded(), self.9.encoded(), self.10.encoded(), self.11.encoded(), self.12.encoded(), self.13.encoded()];
        let pos = buf.len();
        put_i32(buf, 0);
        assert(parts.take(0) =~= Seq::empty());
        if append_part(&self.0, buf, Ghost(start), Ghost(parts.take(0))).is_err() {
            assert(parts.take(0).push(self.0.encoded()) =~= parts.take(1));
            proof {
                lemma_parts_prefix_fails(parts, 0);
            }
            rewind(buf, pos, Ghost(start));
            return Err(ValueTooBig);
        }
        assert(parts.take(0).push(self.0.encoded()) =~= parts.take(1));
        if append_part(&self.1, buf, Ghost(start), Ghost(parts.take(1))).is_err() {
            assert(parts.take(1).push(self.1.encoded()) =~= parts.take(2));
            proof {
                lemma_parts_prefix_fails(parts, 1);
            }
            rewind(buf, pos, Ghost(start));
            return Err(ValueTooBig);
        }
        assert(parts.take(1).push(self.1.encoded()) =~= parts.take(2));
        if append_part(&self.2, buf, Ghost(start), Ghost(parts.take(2))).is_err() {
            assert(parts.take(2).push(self.2.encoded()) =~= parts.take(3));
            proof {
                lemma_parts_prefix_fails(parts, 2);
            }
            rewind(buf, pos, Ghost(start));
            return Err(ValueTooBig);
        }
        assert(parts.take(2).push(self.2.encoded()) =~= parts.take(3));
        if append_part(&self.3, buf, Ghost(start), Ghost(parts.take(3))).is_err() {
            assert(parts.take(3).push(self.3.encoded()) =~= parts.take(4));
            proof {
                lemma_parts_prefix_fails(parts, 3);
            }
            rewind(buf, pos, Ghost(start));
            return Err(ValueTooBig);
        }
        assert(parts.take(3).push(self.3.encoded()) =~= parts.take(4));
        if append_part(&self.4, buf, Ghost(start), Ghost(parts.take(4))).is_err() {
            assert(parts.take(4).push(self.4.encoded()) =~= parts.take(5));
            proof {
                lemma_parts_prefix_fails(parts, 4);
            }
            rewind(buf, pos, Ghost(start));
            return Err(ValueTooBig);
        }
        assert(parts.take(4).push(self.4.encoded()) =~= parts.take(5));
        if append_part(&self.5, buf, Ghost(start), Ghost(parts.take(5))).is_err() {
            assert(parts.take(5).push(self.5.encoded()) =~= parts.take(6));
            proof {
                lemma_parts_prefix_fails(parts, 5);
            }
            rewind(buf, pos, Ghost(start));
            return Err(ValueTooBig);
        }
        assert(parts.take(5).push(self.5.encoded()) =~= parts.take(6));
        if append_part(&self.6, buf, Ghost(start), Ghost(parts.take(6))).is_err() {
            assert(parts.take(6).push(self.6.encoded()) =~= parts.take(7));
            proof {
                lemma_parts_prefix_fails(parts, 6);
            }
            rewind(buf, pos, Ghost(start));
            return Err(ValueTooBig);
        }
        assert(parts.take(6).push(self.6.encoded()) =~= parts.take(7));
        if append_part(&self.7, buf, Ghost(start), Ghost(parts.take(7))).is_err() {
            assert(parts.take(7).push(self.7.encoded()) =~= parts.take(8));
            proof {
                lemma_parts_prefix_fails(parts, 7);
            }
            rewind(buf, pos, Ghost(start));
            return Err(ValueTooBig);
        }
        assert(parts.take(7).push(self.7.encoded()) =~= parts.take(8));
        if append_part(&self.8, buf, Ghost(start), Ghost(parts.take(8))).is_err() {
            assert(parts.take(8).push(self.8.encoded()) =~= parts.take(9));
            proof {
                lemma_parts_prefix_fails(parts, 8);
            }
            rewind(buf, pos, Ghost(start));
            return Err(ValueTooBig);
        }
        assert(parts.take(8).push(self.8.encoded()) =~= parts.take(9));
        if append_part(&self.9, buf, Ghost(start), Ghost(parts.take(9))).is_err() {
            assert(parts.take(9).push(self.9.encoded()) =~= parts.take(10));
            proof {
                lemma_parts_prefix_fails(parts, 9);
            }
            rewind(buf, pos, Ghost(start));
            return Err(ValueTooBig);
        }
        assert(parts.take(9).push(self.9.encoded()) =~= parts.take(10));
        if append_part(&self.10, buf, Ghost(start), Ghost(parts.take(10))).is_err() {
            assert(parts.take(10).push(self.10.encoded()) =~= parts.take(11));
            proof {
                lemma_parts_prefix_fails(parts, 10);
            }
            rewind(buf, pos, Ghost(start));
            return Err(ValueTooBig);
        }
        assert(parts.take(10).push(self.10.encoded()) =~= parts.take(11));
        if append_part(&self.11, buf, Ghost(start), Ghost(parts.take(11))).is_err() {
            assert(parts.take(11).push(self.11.encoded()) =~= parts.take(12));
            proof {
                lemma_parts_prefix_fails(parts, 11);
            }
            rewind(buf, pos, Ghost(start));
            return Err(ValueTooBig);
        }
        assert(parts.take(11).push(self.11.encoded()) =~= parts.take(12));
        if append_part(&self.12, buf, Ghost(start), Ghost(parts.take(12))).is_err() {
            assert(parts.take(12).push(self.12.encoded()) =~= parts.take(13));
            proof {
                lemma_parts_prefix_fails(parts, 12);
            }
            rewind(buf, pos, Ghost(start));
            return Err(ValueTooBig);
        }
        assert(parts.take(12).push(self.12.encoded()) =~= parts.take(13));
        if append_part(&self.13, buf, Ghost(start), Ghost(parts.take(13))).is_err() {
            assert(parts.take(13).push(self.13.encoded()) =~= parts.take(14));
            proof {
                lemma_parts_prefix_fails(parts, 13);
            }
            rewind(buf, pos, Ghost(start));
            return Err(ValueTooBig);
        }
        assert(parts.take(13).push(self.13.encoded()) =~= parts.take(14));
        assert(parts.take(14) =~= parts);
        let r = finish_composite(buf, pos, Ghost(start), Ghost(concat_parts(parts)->0));
        assert(r is Err ==> buf@.subrange(0, start.len() as int) =~= start);
        if r.is_err() {
            rewind(buf, pos, Ghost(start));
        }
        r
    }
}

impl<T0: Value, T1: Value, T2: Value, T3: Value, T4: Value, T5: Value, T6: Value, T7: Value, T8: Value, T9: Value, T10: Value, T11: Value, T12: Value, T13: Value, T14: Value> Value for (T0, T1, T2, T3, T4, T5, T6, T7, T8, T9, T10, T11, T12, T13, T14) {
    open spec fn encoded(&self) -> Option<Seq<u8>> {
        composite(seq![self.0.encoded(), self.1.encoded(), self.2.encoded(), self.3.encoded(), self.4.encoded(), self.5.encoded(), self.6.encoded(), self.7.encoded(), self.8.encoded(), self.9.encoded(), self.10.encoded(), self.11.encoded(), self.12.encoded(), self.13.encoded(), self.14.encoded()])
    }

    fn serialize(&self, buf: &mut Vec<u8>) -> (r: Result<(), ValueTooBig>) {
        let ghost start = buf@;
        let ghost parts = seq![self.0.encoded(), self.1.encoded(), self.2.encoded(), self.3.encoded(), self.4.encoded(), self.5.encoded(), self.6.encoded(), self.7.encoded(), self.8.encoded(), self.9.encoded(), self.10.encoded(), self.11.encoded(), self.12.encoded(), self.13.encoded(), self.14.encoded()];
        let pos = buf.len();
        put_i32(buf, 0);
        assert(parts.take(0) =~= Seq::empty());
        if append_part(&self.0, buf, Ghost(start), Ghost(parts.take(0))).is_err() {
            assert(parts.take(0).push(self.0.encoded()) =~= parts.take(1));
            proof {
                lemma_parts_prefix_fails(parts, 0);
            }
            rewind(buf, pos, Ghost(start));
            return Err(ValueTooBig);
        }
        assert(parts.take(0).push(self.0.encoded()) =~= parts.take(1));
        if append_part(&self.1, buf, Ghost(start), Ghost(parts.take(1))).is_err() {
            assert(parts.take(1).push(self.1.encoded()) =~= parts.take(2));
            proof {
                lemma_parts_prefix_fails(parts, 1);
            }
            rewind(buf, pos, Ghost(start));
            return Err(ValueTooBig);
        }
        assert(parts.take(1).push(self.1.encoded()) =~= parts.take(2));
        if append_part(&self.2, buf, Ghost(start), Ghost(parts.take(2))).is_err() {
            assert(parts.take(2).push(self.2.encoded()) =~= parts.take(3));
            proof {
                lemma_parts_prefix_fails(parts, 2);
            }
            rewind(buf, pos, Ghost(start));
            return Err(ValueTooBig);
        }
        assert(parts.take(2).push(self.2.encoded()) =~= parts.take(3));
        if append_part(&self.3, buf, Ghost(start), Ghost(parts.take(3))).is_err() {
            assert(parts.take(3).push(self.3.encoded()) =~= parts.take(4));
            proof {
                lemma_parts_prefix_fails(parts, 3);
            }
            rewind(buf, pos, Ghost(start));
            return Err(ValueTooBig);
        }
        assert(parts.take(3).push(self.3.encoded()) =~= parts.take(4));
        if append_part(&self.4, buf, Ghost(start), Ghost(parts.take(4))).is_err() {
            assert(parts.take(4).push(self.4.encoded()) =~= parts.take(5));
            proof {
                lemma_parts_prefix_fails(parts, 4);
            }
            rewind(buf, pos, Ghost(start));
            return Err(ValueTooBig);
        }
        assert(parts.take(4).push(self.4.encoded()) =~= parts.take(5));
        if append_part(&self.5, buf, Ghost(start), Ghost(parts.take(5))).is_err() {
            assert(parts.take(5).push(self.5.encoded()) =~= parts.take(6));
            proof {
                lemma_parts_prefix_fails(parts, 5);
            }
            rewind(buf, pos, Ghost(start));
            return Err(ValueTooBig);
        }
        assert(parts.take(5).push(self.5.encoded()) =~= parts.take(6));
        if append_part(&self.6, buf, Ghost(start), Ghost(parts.take(6))).is_err() {
            assert(parts.take(6).push(self.6.encoded()) =~= parts.take(7));
            proof {
                lemma_parts_prefix_fails(parts, 6);
            }
            rewind(buf, pos, Ghost(start));
            return Err(ValueTooBig);
        }
        assert(parts.take(6).push(self.6.encoded()) =~= parts.take(7));
        if append_part(&self.7, buf, Ghost(start), Ghost(parts.take(7))).is_err() {
            assert(parts.take(7).push(self.7.encoded()) =~= parts.take(8));
            proof {
                lemma_parts_prefix_fails(parts, 7);
            }
            rewind(buf, pos, Ghost(start));
            return Err(ValueTooBig);
        }
        assert(parts.take(7).push(self.7.encoded()) =~= parts.take(8));
        if append_part(&self.8, buf, Ghost(start), Ghost(parts.take(8))).is_err() {
            assert(parts.take(8).push(self.8.encoded()) =~= parts.take(9));
            proof {
                lemma_parts_prefix_fails(parts, 8);
            }
            rewind(buf, pos, Ghost(start));
            return Err(ValueTooBig);
        }
        assert(parts.take(8).push(self.8.encoded()) =~= parts.take(9));
        if append_part(&self.9, buf, Ghost(start), Ghost(parts.take(9))).is_err() {
            assert(parts.take(9).push(self.9.encoded()) =~= parts.take(10));
            proof {
                lemma_parts_prefix_fails(parts, 9);
            }
            rewind(buf, pos, Ghost(start));
            return Err(ValueTooBig);
        }
        assert(parts.take(9).push(self.9.encoded()) =~= parts.take(10));
        if append_part(&self.10, buf, Ghost(start), Ghost(parts.take(10))).is_err() {
            assert(parts.take(10).push(self.10.encoded()) =~= parts.take(11));
            proof {
                lemma_parts_prefix_fails(parts, 10);
            }
            rewind(buf, pos, Ghost(start));
            return Err(ValueTooBig);
        }
        assert(parts.take(10).push(self.10.encoded()) =~= parts.take(11));
        if append_part(&self.11, buf, Ghost(start), Ghost(parts.take(11))).is_err() {
            assert(parts.take(11).push(self.11.encoded()) =~= parts.take(12));
            proof {
                lemma_parts_prefix_fails(parts, 11);
            }
            rewind(buf, pos, Ghost(start));
            return Err(ValueTooBig);
        }
        assert(parts.take(11).push(self.11.encoded()) =~= parts.take(12));
        if append_part(&self.12, buf, Ghost(start), Ghost(parts.take(12))).is_err() {
            assert(parts.take(12).push(self.12.encoded()) =~= parts.take(13));
            proof {
                lemma_parts_prefix_fails(parts, 12);
            }
            rewind(buf, pos, Ghost(start));
            return Err(ValueTooBig);
        }
        assert(parts.take(12).push(self.12.encoded()) =~= parts.take(13));
        if append_part(&self.13, buf, Ghost(start), Ghost(parts.take(13))).is_err() {
            assert(parts.take(13).push(self.13.encoded()) =~= parts.take(14));
            proof {
                lemma_parts_prefix_fails(parts, 13);
            }
            rewind(buf, pos, Ghost(start));
            return Err(ValueTooBig);
        }
        assert(parts.take(13).push(self.13.encoded()) =~= parts.take(14));
        if append_part(&self.14, buf, Ghost(start), Ghost(parts.take(14))).is_err() {
            assert(parts.take(14).push(self.14.encoded()) =~= parts.take(15));
            proof {
                lemma_parts_prefix_fails(parts, 14);
            }
            rewind(buf, pos, Ghost(start));
            return Err(ValueTooBig);
        }
        assert(parts.take(14).push(self.14.encoded()) =~= parts.take(15));
        assert(parts.take(15) =~= parts);
        let r = finish_composite(buf, pos, Ghost(start), Ghost(concat_parts(parts)->0));
        assert(r is Err ==> buf@.subrange(0, start.len() as int) =~= start);
        if r.is_err() {
            rewind(buf, pos, Ghost(start));
        }
        r
    }
}

impl<T0: Value, T1: Value, T2: Value, T3: Value, T4: Value, T5: Value, T6: Value, T7: Value, T8: Value, T9: Value, T10: Value, T11: Value, T12: Value, T13: Value, T14: Value, T15: Value> Value for (T0, T1, T2, T3, T4, T5, T6, T7, T8, T9, T10, T11, T12, T13, T14, T15) {
    open spec fn encoded(&self) -> Option<Seq<u8>> {
        composite(seq![self.0.encoded(), self.1.encoded(), self.2.encoded(), self.3.encoded(), self.4.encoded(), self.5.encoded(), self.6.encoded(), self.7.encoded(), self.8.encoded(), self.9.encoded(), self.10.encoded(), self.11.encoded(), self.12.encoded(), self.13.encoded(), self.14.encoded(), self.15.encoded()])
    }

    fn serialize(&self, buf: &mut Vec<u8>) -> (r: Result<(), ValueTooBig>) {
        let ghost start = buf@;
        let ghost parts = seq![self.0.encoded(), self.1.encoded(), self.2.encoded(), self.3.encoded(), self.4.encoded(), self.5.encoded(), self.6.encoded(), self.7.encoded(), self.8.encoded(), self.9.encoded(), self.10.encoded(), self.11.encoded(), self.12.encoded(), self.13.encoded(), self.14.encoded(), self.15.encoded()];
        let pos = buf.len();
        put_i32(buf, 0);
        assert(parts.take(0) =~= Seq::empty());
        if append_part(&self.0, buf, Ghost(start), Ghost(parts.take(0))).is_err() {
            assert(parts.take(0).push(self.0.encoded()) =~= parts.take(1));
            proof {
                lemma_parts_prefix_fails(parts, 0);
            }
            rewind(buf, pos, Ghost(start));
            return Err(ValueTooBig);
        }
        assert(parts.take(0).push(self.0.encoded()) =~= parts.take(1));
        if append_part(&self.1, buf, Ghost(start), Ghost(parts.take(1))).is_err() {
            assert(parts.take(1).push(self.1.encoded()) =~= parts.take(2));
            proof {
                lemma_parts_prefix_fails(parts, 1);
            }
            rewind(buf, pos, Ghost(start));
            return Err(ValueTooBig);
        }
        assert(parts.take(1).push(self.1.encoded()) =~= parts.take(2));
        if append_part(&self.2, buf, Ghost(start), Ghost(parts.take(2))).is_err() {
            assert(parts.take(2).push(self.2.encoded()) =~= parts.take(3));
            proof {
                lemma_parts_prefix_fails(parts, 2);
            }
            rewind(buf, pos, Ghost(start));
            return Err(ValueTooBig);
        }
        assert(parts.take(2).push(self.2.encoded()) =~= parts.take(3));
        if append_part(&self.3, buf, Ghost(start), Ghost(parts.take(3))).is_err() {
            assert(parts.take(3).push(self.3.encoded()) =~= parts.take(4));
            proof {
                lemma_parts_prefix_fails(parts, 3);
            }
            rewind(buf, pos, Ghost(start));
            return Err(ValueTooBig);
        }
        assert(parts.take(3).push(self.3.encoded()) =~= parts.take(4));
        if append_part(&self.4, buf, Ghost(start), Ghost(parts.take(4))).is_err() {
            assert(parts.take(4).push(self.4.encoded()) =~= parts.take(5));
            proof {
                lemma_parts_prefix_fails(parts, 4);
            }
            rewind(buf, pos, Ghost(start));
            return Err(ValueTooBig);
        }
        assert(parts.take(4).push(self.4.encoded()) =~= parts.take(5));
        if append_part(&self.5, buf, Ghost(start), Ghost(parts.take(5))).is_err() {
            assert(parts.take(5).push(self.5.encoded()) =~= parts.take(6));
            proof {
                lemma_parts_prefix_fails(parts, 5);
            }
            rewind(buf, pos, Ghost(start));
            return Err(ValueTooBig);
        }
        assert(parts.take(5).push(self.5.encoded()) =~= parts.take(6));
        if append_part(&self.6, buf, Ghost(start), Ghost(parts.take(6))).is_err() {
            assert(parts.take(6).push(self.6.encoded()) =~= parts.take(7));
            proof {
                lemma_parts_prefix_fails(parts, 6);
            }
            rewind(buf, pos, Ghost(start));
            return Err(ValueTooBig);
        }
        assert(parts.take(6).push(self.6.encoded()) =~= parts.take(7));
        if append_part(&self.7, buf, Ghost(start), Ghost(parts.take(7))).is_err() {
            assert(parts.take(7).push(self.7.encoded()) =~= parts.take(8));
            proof {
                lemma_parts_prefix_fails(parts, 7);
            }
            rewind(buf, pos, Ghost(start));
            return Err(ValueTooBig);
        }
        assert(parts.take(7).push(self.7.encoded()) =~= parts.take(8));
        if append_part(&self.8, buf, Ghost(start), Ghost(parts.take(8))).is_err() {
            assert(parts.take(8).push(self.8.encoded()) =~= parts.take(9));
            proof {
                lemma_parts_prefix_fails(parts, 8);
            }
            rewind(buf, pos, Ghost(start));
            return Err(ValueTooBig);
        }
        assert(parts.take(8).push(self.8.encoded()) =~= parts.take(9));
        if append_part(&self.9, buf, Ghost(start), Ghost(parts.take(9))).is_err() {
            assert(parts.take(9).push(self.9.encoded()) =~= parts.take(10));
            proof {
                lemma_parts_prefix_fails(parts, 9);
            }
            rewind(buf, pos, Ghost(start));
            return Err(ValueTooBig);
        }
        assert(parts.take(9).push(self.9.encoded()) =~= parts.take(10));
        if append_part(&self.10, buf, Ghost(start), Ghost(parts.take(10))).is_err() {
            assert(parts.take(10).push(self.10.encoded()) =~= parts.take(11));
            proof {
                lemma_parts_prefix_fails(parts, 10);
            }
            rewind(buf, pos, Ghost(start));
            return Err(ValueTooBig);
        }
        assert(parts.take(10).push(self.10.encoded()) =~= parts.take(11));
        if append_part(&self.11, buf, Ghost(start), Ghost(parts.take(11))).is_err() {
            assert(parts.take(11).push(self.11.encoded()) =~= parts.take(12));
            proof {
                lemma_parts_prefix_fails(parts, 11);
            }
            rewind(buf, pos, Ghost(start));
            return Err(ValueTooBig);
        }
        assert(parts.take(11).push(self.11.encoded()) =~= parts.take(12));
        if append_part(&self.12, buf, Ghost(start), Ghost(parts.take(12))).is_err() {
            assert(parts.take(12).push(self.12.encoded()) =~= parts.take(13));
            proof {
                lemma_parts_prefix_fails(parts, 12);
            }
            rewind(buf, pos, Ghost(start));
            return Err(ValueTooBig);
        }
        assert(parts.take(12).push(self.12.encoded()) =~= parts.take(13));
        if append_part(&self.13, buf, Ghost(start), Ghost(parts.take(13))).is_err() {
            assert(parts.take(13).push(self.13.encoded()) =~= parts.take(14));
            proof {
                lemma_parts_prefix_fails(parts, 13);
            }
            rewind(buf, pos, Ghost(start));
            return Err(ValueTooBig);
        }
        assert(parts.take(13).push(self.13.encoded()) =~= parts.take(14));
        if append_part(&self.14, buf, Ghost(start), Ghost(parts.take(14))).is_err() {
            assert(parts.take(14).push(self.14.encoded()) =~= parts.take(15));
            proof {
                lemma_parts_prefix_fails(parts, 14);
            }
            rewind(buf, pos, Ghost(start));
            return Err(ValueTooBig);
        }
        assert(parts.take(14).push(self.14.encoded()) =~= parts.take(15));
        if append_part(&self.15, buf, Ghost(start), Ghost(parts.take(15))).is_err() {
            assert(parts.take(15).push(self.15.encoded()) =~= parts.take(16));
            proof {
                lemma_parts_prefix_fails(parts, 15);
            }
            rewind(buf, pos, Ghost(start));
            return Err(ValueTooBig);
        }
        assert(parts.take(15).push(self.15.encoded()) =~= parts.take(16));
        assert(parts.take(16) =~= parts);
        let r = finish_composite(buf, pos, Ghost(start), Ghost(concat_parts(parts)->0));
        assert(r is Err ==> buf@.subrange(0, start.len() as int) =~= start);
        if r.is_err() {
            rewind(buf, pos, Ghost(start));
        }
        r
    }
}

} // verus!
