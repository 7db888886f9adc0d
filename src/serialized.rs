//! A statement's bound values, already encoded: an append-only buffer with
//! its element count and naming mode, and the walk back over it.

use vstd::prelude::*;
use vstd::utf8::{encode_utf8, valid_utf8, encode_utf8_valid_utf8};
use crate::value::{Value, ValueTooBig};
use crate::wire::{
    be_u16, i32_at, is_framed, parse_value, put_slice, put_u16, read_i32_at, read_u16_at, u16_at,
    RawValue, RawValueSpec, NULL_LENGTH, UNSET_LENGTH, lemma_u16_round_trip,
};

verus! {

/// Why a list of values could not be built.
#[derive(Debug, Clone, Copy, PartialEq, Eq, PartialOrd, Ord)]
pub enum SerializeValuesError {
    /// A buffer holds at most 65535 values.
    TooManyValues,
    /// Named and positional values cannot share one buffer.
    MixingNamedAndNotNamedValues,
    /// A value's encoding does not fit its length field.
    ValueTooBig(ValueTooBig),
    /// A value's name cannot be written as a short string.
    ParseError,
}

/// The bytes of a frame do not hold what they should.
#[derive(Debug, Clone, Copy, PartialEq, Eq, PartialOrd, Ord)]
pub struct ParseError;

/// One element of a buffer: its name in named mode, and its raw value.
pub type EntrySpec = (Option<Seq<u8>>, RawValueSpec);

/// Reads a short string (a 16-bit length, then that many UTF-8 bytes) from
/// the front of `b`: its bytes and the number of bytes it takes.
pub open spec fn parse_name(b: Seq<u8>) -> Option<(Seq<u8>, int)> {
    if b.len() < 2 {
        None
    } else {
        let n = u16_at(b, 0) as int;
        if b.len() < 2 + n {
            None
        } else if valid_utf8(b.subrange(2, 2 + n)) {
            Some((b.subrange(2, 2 + n), 2 + n))
        } else {
            None
        }
    }
}

/// Reads one element from the front of `b`.
pub open spec fn parse_entry(b: Seq<u8>, named: bool) -> Option<(EntrySpec, int)> {
    if named {
        match parse_name(b) {
            Some((nm, k)) => match parse_value(b.subrange(k, b.len() as int)) {
                Some((v, m)) => Some(((Some(nm), v), k + m)),
                None => None,
            },
            None => None,
        }
    } else {
        match parse_value(b) {
            Some((v, m)) => Some(((None, v), m)),
            None => None,
        }
    }
}

/// Reads `n` elements from the front of `b`: the elements and the number of
/// bytes they take.
pub open spec fn parse_entries(b: Seq<u8>, named: bool, n: nat) -> Option<(Seq<EntrySpec>, int)>
    decreases n,
{
    if n == 0 {
        Some((Seq::empty(), 0))
    } else {
        match parse_entries(b, named, (n - 1) as nat) {
            Some((es, k)) => match parse_entry(b.subrange(k, b.len() as int), named) {
                Some((e, m)) => Some((es.push(e), k + m)),
                None => None,
            },
            None => None,
        }
    }
}

/// The short-string form of a name: its 16-bit length, then its bytes.
pub open spec fn name_bytes(name: Seq<u8>) -> Seq<u8> {
    be_u16(name.len() as u16) + name
}

/// What a buffer holds: its naming mode, its bytes, and the elements those
/// bytes spell.
pub struct ValuesView {
    pub named: bool,
    pub bytes: Seq<u8>,
    pub entries: Seq<EntrySpec>,
}

/// Keeps a buffer of encoded values; allows appending values and walking
/// the encoded ones.
#[derive(Debug, PartialEq, Eq, PartialOrd, Ord)]
pub struct LegacySerializedValues {
    serialized_values: Vec<u8>,
    values_num: u16,
    contains_names: bool,
}

impl View for LegacySerializedValues {
    type V = ValuesView;

    closed spec fn view(&self) -> ValuesView {
        ValuesView {
            named: self.contains_names,
            bytes: self.serialized_values@,
            entries: parse_entries(self.serialized_values@, self.contains_names, self.values_num as nat).unwrap().0,
        }
    }
}

/// What a parse consumes lies within what it was given.
pub proof fn lemma_parse_entries_bounds(b: Seq<u8>, named: bool, n: nat)
    requires
        parse_entries(b, named, n) is Some,
    ensures
        0 <= parse_entries(b, named, n).unwrap().1 <= b.len(),
    decreases n,
{
    if n > 0 {
        lemma_parse_entries_bounds(b, named, (n - 1) as nat);
    }
}

/// Parsing only reads the bytes it consumes: any sequence that agrees on
/// them parses the same.
pub proof fn lemma_parse_value_agree(b: Seq<u8>, c: Seq<u8>)
    requires
        parse_value(b) is Some,
        parse_value(b).unwrap().1 <= c.len(),
        c.subrange(0, parse_value(b).unwrap().1) == b.subrange(0, parse_value(b).unwrap().1),
    ensures
        parse_value(c) == parse_value(b),
        4 <= parse_value(b).unwrap().1 <= b.len(),
{
    let m = parse_value(b).unwrap().1;
    assert(c[0] == c.subrange(0, m)[0] && c[1] == c.subrange(0, m)[1]);
    assert(c[2] == c.subrange(0, m)[2] && c[3] == c.subrange(0, m)[3]);
    let len = i32_at(b, 0);
    if len >= 0 {
        assert(c.subrange(4, 4 + len) =~= c.subrange(0, m).subrange(4, 4 + len));
        assert(b.subrange(4, 4 + len) =~= b.subrange(0, m).subrange(4, 4 + len));
    }
}

pub proof fn lemma_parse_entry_agree(b: Seq<u8>, c: Seq<u8>, named: bool)
    requires
        parse_entry(b, named) is Some,
        parse_entry(b, named).unwrap().1 <= c.len(),
        c.subrange(0, parse_entry(b, named).unwrap().1) == b.subrange(0, parse_entry(b, named).unwrap().1),
    ensures
        parse_entry(c, named) == parse_entry(b, named),
        0 <= parse_entry(b, named).unwrap().1 <= b.len(),
{
    let t = parse_entry(b, named).unwrap().1;
    if named {
        let (nm, k) = parse_name(b).unwrap();
        let bv = b.subrange(k, b.len() as int);
        let cv = c.subrange(k, c.len() as int);
        let m = parse_value(bv).unwrap().1;
        assert(m <= bv.len() && 4 <= m) by {
            lemma_parse_value_agree(bv, bv);
        }
        assert(c[0] == c.subrange(0, t)[0] && c[1] == c.subrange(0, t)[1]);
        assert(c.subrange(2, k) =~= c.subrange(0, t).subrange(2, k));
        assert(b.subrange(2, k) =~= b.subrange(0, t).subrange(2, k));
        assert(parse_name(c) == parse_name(b));
        assert(cv.subrange(0, m) =~= c.subrange(0, t).subrange(k, t));
        assert(bv.subrange(0, m) =~= b.subrange(0, t).subrange(k, t));
        lemma_parse_value_agree(bv, cv);
    } else {
        lemma_parse_value_agree(b, c);
    }
}

pub proof fn lemma_parse_entries_agree(b: Seq<u8>, c: Seq<u8>, named: bool, n: nat)
    requires
        parse_entries(b, named, n) is Some,
        parse_entries(b, named, n).unwrap().1 <= c.len(),
        c.subrange(0, parse_entries(b, named, n).unwrap().1) == b.subrange(
            0,
            parse_entries(b, named, n).unwrap().1,
        ),
    ensures
        parse_entries(c, named, n) == parse_entries(b, named, n),
        0 <= parse_entries(b, named, n).unwrap().1 <= b.len(),
    decreases n,
{
    if n > 0 {
        let t = parse_entries(b, named, n).unwrap().1;
        let (es, k) = parse_entries(b, named, (n - 1) as nat).unwrap();
        let bt = b.subrange(k, b.len() as int);
        let ct = c.subrange(k, c.len() as int);
        let m = parse_entry(bt, named).unwrap().1;
        assert(0 <= m <= bt.len()) by {
            lemma_parse_entry_agree(bt, bt, named);
        }
        assert(0 <= k <= b.len()) by {
            lemma_parse_entries_bounds(b, named, (n - 1) as nat);
        }
        assert(c.subrange(0, k) =~= c.subrange(0, t).subrange(0, k));
        assert(b.subrange(0, k) =~= b.subrange(0, t).subrange(0, k));
        lemma_parse_entries_agree(b, c, named, (n - 1) as nat);
        assert(ct.subrange(0, m) =~= c.subrange(0, t).subrange(k, t));
        assert(bt.subrange(0, m) =~= b.subrange(0, t).subrange(k, t));
        lemma_parse_entry_agree(bt, ct, named);
    }
}

pub proof fn lemma_parse_entries_prefix(b: Seq<u8>, w: Seq<u8>, named: bool, n: nat)
    requires
        parse_entries(b, named, n) is Some,
    ensures
        parse_entries(b + w, named, n) == parse_entries(b, named, n),
        0 <= parse_entries(b, named, n).unwrap().1 <= b.len(),
{
    lemma_parse_entries_bounds(b, named, n);
    let t = parse_entries(b, named, n).unwrap().1;
    assert((b + w).subrange(0, t) =~= b.subrange(0, t));
    lemma_parse_entries_agree(b, b + w, named, n);
}

/// Appending one encoded element to a well-formed buffer adds exactly that
/// element.
proof fn lemma_append_entry(b: Seq<u8>, w: Seq<u8>, named: bool, n: nat)
    requires
        parse_entries(b, named, n) is Some,
        parse_entries(b, named, n).unwrap().1 == b.len(),
        parse_entry(w, named) is Some,
        parse_entry(w, named).unwrap().1 == w.len(),
    ensures
        parse_entries(b + w, named, n + 1) == Some(
            (parse_entries(b, named, n).unwrap().0.push(parse_entry(w, named).unwrap().0), b.len() + w.len() as int),
        ),
{
    lemma_parse_entries_prefix(b, w, named, n);
    let x = b + w;
    assert(x.subrange(b.len() as int, x.len() as int) =~= w);
    assert((n + 1) as nat - 1 == n);
}

/// A framed value is one positional element.
proof fn lemma_framed_entry(w: Seq<u8>)
    requires
        is_framed(w),
    ensures
        parse_entry(w, false) == Some(((None::<Seq<u8>>, parse_value(w).unwrap().0), w.len() as int)),
{
}

/// A short-string name before a framed value is one named element.
proof fn lemma_named_entry(name: Seq<u8>, w: Seq<u8>)
    requires
        is_framed(w),
        name.len() <= u16::MAX,
        valid_utf8(name),
    ensures
        parse_entry(name_bytes(name) + w, true) == Some(
            ((Some(name), parse_value(w).unwrap().0), (name_bytes(name) + w).len() as int),
        ),
{
    let x = name_bytes(name) + w;
    lemma_u16_round_trip(name.len() as u16);
    assert(x[0] == be_u16(name.len() as u16)[0] && x[1] == be_u16(name.len() as u16)[1]);
    assert(u16_at(x, 0) == name.len());
    assert(x.subrange(2, 2 + name.len() as int) =~= name);
    assert(x.subrange(2 + name.len() as int, x.len() as int) =~= w);
}


pub proof fn lemma_entries_len(b: Seq<u8>, named: bool, n: nat)
    requires
        parse_entries(b, named, n) is Some,
    ensures
        parse_entries(b, named, n).unwrap().0.len() == n,
    decreases n,
{
    if n > 0 {
        lemma_entries_len(b, named, (n - 1) as nat);
    }
}

/// Reads a value list from the front of a frame: a 16-bit count, then that
/// many elements. Gives the elements and the number of bytes they take,
/// count included.
pub open spec fn parse_frame(b: Seq<u8>, named: bool) -> Option<(Seq<EntrySpec>, int)> {
    if b.len() < 2 {
        None
    } else {
        match parse_entries(b.subrange(2, b.len() as int), named, u16_at(b, 0) as nat) {
            Some((es, k)) => Some((es, 2 + k)),
            None => None,
        }
    }
}

/// The first `i` elements of a well-formed parse are the parse of `i` elements.
pub proof fn lemma_entries_take(b: Seq<u8>, named: bool, n: nat, i: nat)
    requires
        parse_entries(b, named, n) is Some,
        i <= n,
    ensures
        parse_entries(b, named, i) is Some,
        parse_entries(b, named, i).unwrap().0 == parse_entries(b, named, n).unwrap().0.take(i as int),
        0 <= parse_entries(b, named, i).unwrap().1 <= parse_entries(b, named, n).unwrap().1,
        i < n ==> parse_entry(
            b.subrange(parse_entries(b, named, i).unwrap().1, b.len() as int),
            named,
        ) is Some,
        i < n ==> parse_entry(
            b.subrange(parse_entries(b, named, i).unwrap().1, b.len() as int),
            named,
        ).unwrap().0 == parse_entries(b, named, n).unwrap().0[i as int],
    decreases n,
{
    lemma_entries_len(b, named, n);
    lemma_parse_entries_prefix(b, Seq::empty(), named, n);
    if i < n {
        lemma_entries_take(b, named, (n - 1) as nat, i);
        lemma_entries_len(b, named, (n - 1) as nat);
        if i == n - 1 {
            let (es, k) = parse_entries(b, named, (n - 1) as nat).unwrap();
            assert(es.push(parse_entry(b.subrange(k, b.len() as int), named).unwrap().0).take(i as int) =~= es);
        } else {
            let (es, k) = parse_entries(b, named, (n - 1) as nat).unwrap();
            let e = parse_entry(b.subrange(k, b.len() as int), named).unwrap().0;
            assert(es.push(e).take(i as int) =~= es.take(i as int));
        }
        lemma_parse_entries_prefix(b, Seq::empty(), named, (n - 1) as nat);
    } else {
        assert(parse_entries(b, named, n).unwrap().0.take(i as int) =~= parse_entries(b, named, n).unwrap().0);
    }
}

/// Relies on `String::from_utf8`: it succeeds exactly on valid UTF-8, and the
/// string it returns is made of those bytes.
#[verifier::external_body]
fn string_from_utf8(bytes: Vec<u8>) -> (r: Option<String>)
    ensures
        r is Some <==> valid_utf8(bytes@),
        r is Some ==> encode_utf8(r.unwrap()@) == bytes@,
{
    String::from_utf8(bytes).ok()
}

/// Reads the length-prefixed value that starts at `pos`.
pub fn read_value_at(b: &[u8], pos: usize) -> (r: Option<(RawValue, usize)>)
    requires
        pos <= b@.len(),
    ensures
        r is Some <==> parse_value(b@.subrange(pos as int, b@.len() as int)) is Some,
        r is Some ==> r.unwrap().0@ == parse_value(b@.subrange(pos as int, b@.len() as int)).unwrap().0,
        r is Some ==> r.unwrap().1 == parse_value(b@.subrange(pos as int, b@.len() as int)).unwrap().1,
        r is Some ==> 4 <= r.unwrap().1 <= b@.len() - pos,
{
    let ghost rest = b@.subrange(pos as int, b@.len() as int);
    if b.len() - pos < 4 {
        return None;
    }
    let len = read_i32_at(b, pos);
    assert(len == i32_at(rest, 0));
    if len == NULL_LENGTH {
        Some((RawValue::Null, 4))
    } else if len == UNSET_LENGTH {
        Some((RawValue::Unset, 4))
    } else if len < 0 || b.len() - pos - 4 < len as usize {
        None
    } else {
        let mut v: Vec<u8> = Vec::new();
        let start = pos + 4;
        let end = start + len as usize;
        let mut i: usize = start;
        while i < end
            invariant
                start <= i <= end,
                end <= b@.len(),
                v@ == b@.subrange(start as int, i as int),
            decreases end - i,
        {
            v.push(b[i]);
            i += 1;
            assert(v@ =~= b@.subrange(start as int, i as int));
        }
        assert(b@.subrange(start as int, end as int) =~= rest.subrange(4, 4 + len));
        Some((RawValue::Value(v), 4 + len as usize))
    }
}

/// Reads the short-string name that starts at `pos`, checking that it is
/// UTF-8.
fn read_name_at(b: &[u8], pos: usize) -> (r: Option<(String, usize)>)
    requires
        pos <= b@.len(),
    ensures
        r is Some <==> parse_name(b@.subrange(pos as int, b@.len() as int)) is Some,
        r is Some ==> encode_utf8(r.unwrap().0@) == parse_name(b@.subrange(pos as int, b@.len() as int)).unwrap().0,
        r is Some ==> r.unwrap().1 == parse_name(b@.subrange(pos as int, b@.len() as int)).unwrap().1,
        r is Some ==> 2 <= r.unwrap().1 <= b@.len() - pos,
{
    let ghost rest = b@.subrange(pos as int, b@.len() as int);
    if b.len() - pos < 2 {
        return None;
    }
    let n = read_u16_at(b, pos);
    assert(n == u16_at(rest, 0));
    if b.len() - pos - 2 < n as usize {
        return None;
    }
    let start = pos + 2;
    let end = start + n as usize;
    let mut v: Vec<u8> = Vec::new();
    let mut i: usize = start;
    while i < end
        invariant
            start <= i <= end,
            end <= b@.len(),
            v@ == b@.subrange(start as int, i as int),
        decreases end - i,
    {
        v.push(b[i]);
        i += 1;
        assert(v@ =~= b@.subrange(start as int, i as int));
    }
    assert(b@.subrange(start as int, end as int) =~= rest.subrange(2, 2 + n as int));
    match string_from_utf8(v) {
        Some(name) => Some((name, 2 + n as usize)),
        None => None,
    }
}

impl Clone for LegacySerializedValues {
    fn clone(&self) -> Self {
        proof {
            use_type_invariant(self);
        }
        let mut bytes: Vec<u8> = Vec::new();
        put_slice(&mut bytes, self.serialized_values.as_slice());
        assert(bytes@ =~= self.serialized_values@);
        LegacySerializedValues {
            serialized_values: bytes,
            values_num: self.values_num,
            contains_names: self.contains_names,
        }
    }
}

impl LegacySerializedValues {
    /// The bytes spell exactly `values_num` elements in the buffer's naming
    /// mode, with nothing left over.
    #[verifier::type_invariant]
    pub closed spec fn well_formed(&self) -> bool {
        &&& parse_entries(self.serialized_values@, self.contains_names, self.values_num as nat) is Some
        &&& parse_entries(self.serialized_values@, self.contains_names, self.values_num as nat).unwrap().1
            == self.serialized_values@.len()
    }

    /// An empty buffer that accepts either named or positional values.
    pub fn new() -> (r: Self)
        ensures
            r@.bytes == Seq::<u8>::empty(),
            r@.entries == Seq::<EntrySpec>::empty(),
            !r@.named,
    {
        LegacySerializedValues { serialized_values: Vec::new(), values_num: 0, contains_names: false }
    }

    pub fn with_capacity(capacity: usize) -> (r: Self)
        ensures
            r@.bytes == Seq::<u8>::empty(),
            r@.entries == Seq::<EntrySpec>::empty(),
            !r@.named,
    {
        LegacySerializedValues {
            serialized_values: Vec::with_capacity(capacity),
            values_num: 0,
            contains_names: false,
        }
    }

    pub fn has_names(&self) -> (r: bool)
        ensures
            r == self@.named,
    {
        self.contains_names
    }

    /// The number of values in the buffer.
    pub fn len(&self) -> (r: u16)
        ensures
            r == self@.entries.len(),
    {
        proof {
            use_type_invariant(self);
            lemma_entries_len(self.serialized_values@, self.contains_names, self.values_num as nat);
        }
        self.values_num
    }

    pub fn is_empty(&self) -> (r: bool)
        ensures
            r <==> self@.entries.len() == 0,
    {
        proof {
            use_type_invariant(self);
            lemma_entries_len(self.serialized_values@, self.contains_names, self.values_num as nat);
        }
        self.values_num == 0
    }

    /// The number of encoded bytes, count excluded.
    pub fn size(&self) -> (r: usize)
        ensures
            r == self@.bytes.len(),
    {
        self.serialized_values.len()
    }

    /// Encodes `val` and appends it as a positional value.
    pub fn add_value<V: Value>(&mut self, val: &V) -> (r: Result<(), SerializeValuesError>)
        ensures
            old(self)@.named ==> r == Err::<(), SerializeValuesError>(
                SerializeValuesError::MixingNamedAndNotNamedValues,
            ),
            !old(self)@.named && old(self)@.entries.len() == u16::MAX ==> r == Err::<
                (),
                SerializeValuesError,
            >(SerializeValuesError::TooManyValues),
            !old(self)@.named && old(self)@.entries.len() < u16::MAX && val.encoded() is None ==> r
                == Err::<(), SerializeValuesError>(SerializeValuesError::ValueTooBig(ValueTooBig)),
            r is Err ==> final(self)@ == old(self)@,
            !old(self)@.named && old(self)@.entries.len() < u16::MAX && val.encoded() is Some ==> {
                &&& r is Ok
                &&& final(self)@.named == old(self)@.named
                &&& final(self)@.bytes == old(self)@.bytes + val.encoded().unwrap()
                &&& final(self)@.entries == old(self)@.entries.push(
                    (None, parse_value(val.encoded().unwrap()).unwrap().0),
                )
            },
    {
        proof {
            use_type_invariant(&*self);
            lemma_entries_len(self.serialized_values@, self.contains_names, self.values_num as nat);
        }
        if self.contains_names {
            return Err(SerializeValuesError::MixingNamedAndNotNamedValues);
        }
        if self.values_num == u16::MAX {
            return Err(SerializeValuesError::TooManyValues);
        }
        let mut cur = LegacySerializedValues::new();
        std::mem::swap(self, &mut cur);
        proof {
            use_type_invariant(&cur);
        }
        let values_num = cur.values_num;
        let contains_names = cur.contains_names;
        let mut bytes = cur.serialized_values;
        let ghost old_bytes = bytes@;
        let len_before = bytes.len();
        match val.serialize(&mut bytes) {
            Ok(()) => {},
            Err(e) => {
                bytes.truncate(len_before);
                assert(bytes@ =~= old_bytes);
                *self = LegacySerializedValues { serialized_values: bytes, values_num, contains_names };
                return Err(SerializeValuesError::ValueTooBig(e));
            },
        }
        proof {
            let w = val.encoded().unwrap();
            lemma_framed_entry(w);
            lemma_append_entry(old_bytes, w, false, values_num as nat);
        }
        *self = LegacySerializedValues {
            serialized_values: bytes,
            values_num: values_num + 1,
            contains_names,
        };
        Ok(())
    }

    /// Encodes `val` and appends it under `name`; the first named value
    /// appended puts the buffer in named mode for good. A failed append
    /// leaves the buffer as it was.
    pub fn add_named_value<V: Value>(&mut self, name: &str, val: &V) -> (r: Result<(), SerializeValuesError>)
        ensures
            r is Err ==> final(self)@ == old(self)@,
            r is Ok ==> final(self)@.named,
            !old(self)@.named && old(self)@.entries.len() > 0 ==> r == Err::<(), SerializeValuesError>(
                SerializeValuesError::MixingNamedAndNotNamedValues,
            ),
            old(self)@.named || old(self)@.entries.len() == 0 ==> {
                &&& old(self)@.entries.len() == u16::MAX ==> r == Err::<(), SerializeValuesError>(
                    SerializeValuesError::TooManyValues,
                )
                &&& old(self)@.entries.len() < u16::MAX && encode_utf8(name@).len() > u16::MAX ==> r
                    == Err::<(), SerializeValuesError>(SerializeValuesError::ParseError)
                &&& old(self)@.entries.len() < u16::MAX && encode_utf8(name@).len() <= u16::MAX
                    && val.encoded() is None ==> r == Err::<(), SerializeValuesError>(
                    SerializeValuesError::ValueTooBig(ValueTooBig),
                )
                &&& old(self)@.entries.len() < u16::MAX && encode_utf8(name@).len() <= u16::MAX
                    && val.encoded() is Some ==> {
                    &&& r is Ok
                    &&& final(self)@.bytes == old(self)@.bytes + name_bytes(encode_utf8(name@))
                        + val.encoded().unwrap()
                    &&& final(self)@.entries == old(self)@.entries.push(
                        (Some(encode_utf8(name@)), parse_value(val.encoded().unwrap()).unwrap().0),
                    )
                }
            },
    {
        proof {
            use_type_invariant(&*self);
            lemma_entries_len(self.serialized_values@, self.contains_names, self.values_num as nat);
        }
        if self.values_num > 0 && !self.contains_names {
            return Err(SerializeValuesError::MixingNamedAndNotNamedValues);
        }
        if self.values_num == u16::MAX {
            return Err(SerializeValuesError::TooManyValues);
        }
        let name_raw = name.as_bytes();
        if name_raw.len() > u16::MAX as usize {
            return Err(SerializeValuesError::ParseError);
        }
        let mut cur = LegacySerializedValues::new();
        std::mem::swap(self, &mut cur);
        proof {
            use_type_invariant(&cur);
        }
        let values_num = cur.values_num;
        let contains_names = cur.contains_names;
        let mut bytes = cur.serialized_values;
        let ghost old_bytes = bytes@;
        proof {
            // With no values yet, the bytes are empty in either mode.
            if values_num == 0 {
                assert(old_bytes.len() == 0);
            }
        }
        let len_before = bytes.len();
        put_u16(&mut bytes, name_raw.len() as u16);
        put_slice(&mut bytes, name_raw);
        match val.serialize(&mut bytes) {
            Ok(()) => {},
            Err(e) => {
                bytes.truncate(len_before);
                assert(bytes@ =~= old_bytes);
                *self = LegacySerializedValues { serialized_values: bytes, values_num, contains_names };
                return Err(SerializeValuesError::ValueTooBig(e));
            },
        }
        proof {
            let nm = encode_utf8(name@);
            let w = val.encoded().unwrap();
            encode_utf8_valid_utf8(name@);
            lemma_named_entry(nm, w);
            assert(bytes@ =~= old_bytes + (name_bytes(nm) + w));
            lemma_append_entry(old_bytes, name_bytes(nm) + w, true, values_num as nat);
            assert(old_bytes + name_bytes(nm) + w =~= old_bytes + (name_bytes(nm) + w));
        }
        *self = LegacySerializedValues {
            serialized_values: bytes,
            values_num: values_num + 1,
            contains_names: true,
        };
        Ok(())
    }

    /// The encoded values, in order.
    pub fn iter(&self) -> (r: Vec<RawValue>)
        ensures
            r@.len() == self@.entries.len(),
            forall|i: int| 0 <= i < r@.len() ==> (#[trigger] r@[i])@ == self@.entries[i].1,
    {
        let pairs = self.iter_name_value_pairs();
        let mut out: Vec<RawValue> = Vec::new();
        let mut i: usize = 0;
        while i < pairs.len()
            invariant
                i <= pairs@.len(),
                pairs@.len() == self@.entries.len(),
                forall|j: int| 0 <= j < pairs@.len() ==> (#[trigger] pairs@[j]).1@ == self@.entries[j].1,
                out@.len() == i,
                forall|j: int| 0 <= j < i ==> (#[trigger] out@[j])@ == self@.entries[j].1,
            decreases pairs@.len() - i,
        {
            let v = match &pairs[i].1 {
                RawValue::Null => RawValue::Null,
                RawValue::Unset => RawValue::Unset,
                RawValue::Value(b) => {
                    let mut c: Vec<u8> = Vec::new();
                    put_slice(&mut c, b.as_slice());
                    RawValue::Value(c)
                },
            };
            out.push(v);
            i += 1;
        }
        out
    }

    /// The elements, in order, each with its name in named mode.
    pub fn iter_name_value_pairs(&self) -> (r: Vec<(Option<String>, RawValue)>)
        ensures
            r@.len() == self@.entries.len(),
            forall|i: int| 0 <= i < r@.len() ==> ((#[trigger] r@[i]).0 is Some <==> self@.entries[i].0 is Some),
            forall|i: int| 0 <= i < r@.len() ==> (#[trigger] r@[i]).0 is Some ==> encode_utf8(r@[i].0.unwrap()@) == self@.entries[i].0.unwrap(),
            forall|i: int| 0 <= i < r@.len() ==> (#[trigger] r@[i]).1@ == self@.entries[i].1,
    {
        proof {
            use_type_invariant(self);
            lemma_entries_len(self.serialized_values@, self.contains_names, self.values_num as nat);
        }
        let ghost b = self.serialized_values@;
        let ghost named = self.contains_names;
        let ghost n = self.values_num as nat;
        let bytes = self.serialized_values.as_slice();
        let blen = bytes.len();
        let mut out: Vec<(Option<String>, RawValue)> = Vec::new();
        let mut pos: usize = 0;
        let mut i: u16 = 0;
        while i < self.values_num
            invariant
                bytes@ == b,
                blen == b.len(),
                named == self.contains_names,
                n == self.values_num,
                parse_entries(b, named, n) is Some,
                parse_entries(b, named, n).unwrap().1 == b.len(),
                parse_entries(b, named, n).unwrap().0 == self@.entries,
                self@.entries.len() == n,
                i <= n,
                parse_entries(b, named, i as nat) is Some,
                pos == parse_entries(b, named, i as nat).unwrap().1,
                pos <= b.len(),
                out@.len() == i,
                forall|j: int| 0 <= j < i ==> ((#[trigger] out@[j]).0 is Some <==> self@.entries[j].0 is Some),
                forall|j: int| 0 <= j < i ==> (#[trigger] out@[j]).0 is Some ==> encode_utf8(out@[j].0.unwrap()@) == self@.entries[j].0.unwrap(),
                forall|j: int| 0 <= j < i ==> (#[trigger] out@[j]).1@ == self@.entries[j].1,
            decreases n - i,
        {
            proof {
                lemma_entries_take(b, named, n, i as nat);
                lemma_entries_take(b, named, n, (i + 1) as nat);
            }
            let ghost rest = b.subrange(pos as int, b.len() as int);
            let mut at = pos;
            let name = if self.contains_names {
                match read_name_at(bytes, pos) {
                    Some((nm, k)) => {
                        at = pos + k;
                        Some(nm)
                    },
                    None => {
                        proof {
                            assert(false);
                        }
                        None
                    },
                }
            } else {
                None
            };
            proof {
                if named {
                    assert(b.subrange(at as int, b.len() as int) =~= rest.subrange(
                        parse_name(rest).unwrap().1,
                        rest.len() as int,
                    ));
                }
            }
            let value = match read_value_at(bytes, at) {
                Some((v, k)) => {
                    at = at + k;
                    v
                },
                None => {
                    proof {
                        assert(false);
                    }
                    RawValue::Null
                },
            };
            out.push((name, value));
            pos = at;
            i += 1;
        }
        out
    }

    /// Writes the wire form: the 16-bit count, then the encoded values as
    /// they stand.
    pub fn write_to_request(&self, buf: &mut Vec<u8>)
        ensures
            final(buf)@ == old(buf)@ + be_u16(self@.entries.len() as u16) + self@.bytes,
    {
        let n = self.len();
        put_u16(buf, n);
        put_slice(buf, self.serialized_values.as_slice());
    }

    /// Reads a value list from the front of `buf`, expecting names or not:
    /// the list, whose bytes are those of the frame unchanged, and the number
    /// of bytes it took.
    pub fn new_from_frame(buf: &[u8], contains_names: bool) -> (r: Result<(Self, usize), ParseError>)
        ensures
            r is Ok <==> parse_frame(buf@, contains_names) is Some,
            r is Ok ==> {
                let (v, used) = r.unwrap();
                let (es, k) = parse_frame(buf@, contains_names).unwrap();
                &&& used == k
                &&& v@.named == contains_names
                &&& v@.bytes == buf@.subrange(2, k)
                &&& v@.entries == es
            },
    {
        if buf.len() < 2 {
            return Err(ParseError);
        }
        let values_num = read_u16_at(buf, 0);
        let blen = buf.len();
        let ghost b = buf@.subrange(2, buf@.len() as int);
        let ghost n = values_num as nat;
        let mut pos: usize = 2;
        let mut i: u16 = 0;
        while i < values_num
            invariant
                2 <= pos <= buf@.len(),
                blen == buf@.len(),
                b == buf@.subrange(2, buf@.len() as int),
                n == values_num,
                values_num == u16_at(buf@, 0),
                i <= n,
                parse_entries(b, contains_names, i as nat) is Some,
                pos == 2 + parse_entries(b, contains_names, i as nat).unwrap().1,
            decreases n - i,
        {
            let ghost k = parse_entries(b, contains_names, i as nat).unwrap().1;
            let ghost rest = b.subrange(k, b.len() as int);
            assert(rest =~= buf@.subrange(pos as int, buf@.len() as int));
            let mut at = pos;
            if contains_names {
                match read_name_at(buf, pos) {
                    Some((_, used)) => {
                        at = pos + used;
                    },
                    None => {
                        proof {
                            lemma_parse_none_stops(b, contains_names, n, i as nat);
                        }
                        return Err(ParseError);
                    },
                }
                assert(buf@.subrange(at as int, buf@.len() as int) =~= rest.subrange(
                    parse_name(rest).unwrap().1,
                    rest.len() as int,
                ));
            }
            match read_value_at(buf, at) {
                Some((_, used)) => {
                    at = at + used;
                },
                None => {
                    proof {
                        lemma_parse_none_stops(b, contains_names, n, i as nat);
                    }
                    return Err(ParseError);
                },
            }
            pos = at;
            i += 1;
            assert((i as nat - 1) as nat == (i - 1) as nat);
        }
        let mut bytes: Vec<u8> = Vec::new();
        let mut j: usize = 2;
        while j < pos
            invariant
                2 <= j <= pos <= buf@.len(),
                bytes@ == buf@.subrange(2, j as int),
            decreases pos - j,
        {
            bytes.push(buf[j]);
            j += 1;
            assert(bytes@ =~= buf@.subrange(2, j as int));
        }
        proof {
            let k = parse_entries(b, contains_names, n).unwrap().1;
            lemma_parse_entries_bounds(b, contains_names, n);
            assert(bytes@ =~= b.subrange(0, k));
            assert(bytes@.subrange(0, k) =~= b.subrange(0, k));
            lemma_parse_entries_agree(b, bytes@, contains_names, n);
        }
        let v = LegacySerializedValues { serialized_values: bytes, values_num, contains_names };
        Ok((v, pos))
    }
}

impl Default for LegacySerializedValues {
    fn default() -> (r: Self)
        ensures
            r@.bytes == Seq::<u8>::empty(),
            r@.entries == Seq::<EntrySpec>::empty(),
            !r@.named,
    {
        Self::new()
    }
}

/// Once one element cannot be read, no longer list can.
pub proof fn lemma_parse_none_stops(b: Seq<u8>, named: bool, n: nat, i: nat)
    requires
        i < n,
        parse_entries(b, named, i) is Some,
        parse_entry(b.subrange(parse_entries(b, named, i).unwrap().1, b.len() as int), named) is None,
    ensures
        parse_entries(b, named, n) is None,
    decreases n,
{
    if n - 1 > i {
        lemma_parse_none_stops(b, named, (n - 1) as nat, i);
    }
}

/// A buffer written to a frame reads back, in the same naming mode, as the
/// same elements, taking exactly the bytes written.
pub proof fn lemma_frame_round_trip(v: LegacySerializedValues)
    requires
        v.well_formed(),
    ensures
        parse_frame(be_u16(v@.entries.len() as u16) + v@.bytes, v@.named) == Some(
            (v@.entries, 2 + v@.bytes.len() as int),
        ),
{
    let n = v.values_num;
    lemma_entries_len(v.serialized_values@, v.contains_names, n as nat);
    lemma_u16_round_trip(n);
    let f = be_u16(n) + v@.bytes;
    assert(f[0] == be_u16(n)[0] && f[1] == be_u16(n)[1]);
    assert(f.subrange(2, f.len() as int) =~= v@.bytes);
}

} // verus!
