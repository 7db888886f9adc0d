//! A value whose type is known only at run time, tagged by its CQL type,
//! encoded exactly as the typed value of that kind is.

use vstd::prelude::*;
use crate::cql::{CqlDate, CqlDecimal, CqlDuration, CqlTime, CqlTimestamp, CqlVarint};
use crate::timeuuid::CqlTimeuuid;
use crate::value::{counted_encoding, finish_composite, rewind, Counter, Value, ValueTooBig};
use crate::wire::{
    be_i32, be_u32, be_uint, is_framed, lemma_with_length_framed, put_i32, put_u32, put_uint,
    with_length, NULL_LENGTH,
};

verus! {

/// A network address, as its octets.
#[derive(Debug, Clone, Copy, PartialEq, Eq)]
pub enum InetAddr {
    V4([u8; 4]),
    V6([u8; 16]),
}

impl Value for InetAddr {
    /// The 4 or 16 octets behind their length.
    open spec fn encoded(&self) -> Option<Seq<u8>> {
        match self {
            InetAddr::V4(o) => with_length(o@),
            InetAddr::V6(o) => with_length(o@),
        }
    }

    fn serialize(&self, buf: &mut Vec<u8>) -> (r: Result<(), ValueTooBig>) {
        match self {
            InetAddr::V4(o) => o.serialize(buf),
            InetAddr::V6(o) => o.serialize(buf),
        }
    }
}

/// A value of any CQL type.
#[derive(Debug)]
pub enum CqlValue {
    Ascii(String),
    Boolean(bool),
    Blob(Vec<u8>),
    Counter(Counter),
    Decimal(CqlDecimal),
    Date(CqlDate),
    /// A 64-bit float, as its IEEE 754 bits.
    Double(u64),
    Duration(CqlDuration),
    Empty,
    /// A 32-bit float, as its IEEE 754 bits.
    Float(u32),
    Int(i32),
    BigInt(i64),
    Text(String),
    Timestamp(CqlTimestamp),
    Inet(InetAddr),
    List(Vec<CqlValue>),
    /// A map, as its entries in order.
    MapEntries(Vec<(CqlValue, CqlValue)>),
    /// A set, as its elements in order.
    SetElements(Vec<CqlValue>),
    UserDefinedType { keyspace: String, udt_name: String, fields: Vec<(String, Option<CqlValue>)> },
    SmallInt(i16),
    TinyInt(i8),
    Time(CqlTime),
    Timeuuid(CqlTimeuuid),
    Tuple(Vec<Option<CqlValue>>),
    /// A UUID, as its 16 bytes.
    Uuid([u8; 16]),
    Varint(CqlVarint),
}

/// What a possibly absent value is written as.
pub open spec fn opt_encoded(v: Option<CqlValue>) -> Option<Seq<u8>>
    decreases v,
{
    match v {
        Some(x) => cql_encoded(x),
        None => Some(be_i32(NULL_LENGTH)),
    }
}

/// What a dynamic value is written as: the encoding of the typed value of
/// its kind. Lists and sets share one shape, tuples and user types another.
pub open spec fn cql_encoded(v: CqlValue) -> Option<Seq<u8>>
    decreases v,
{
    match v {
        CqlValue::Ascii(s) => s.encoded(),
        CqlValue::Text(s) => s.encoded(),
        CqlValue::Boolean(b) => b.encoded(),
        CqlValue::Blob(b) => b.encoded(),
        CqlValue::Counter(c) => c.encoded(),
        CqlValue::Decimal(d) => d.encoded(),
        CqlValue::Date(d) => d.encoded(),
        CqlValue::Double(bits) => Some(be_i32(8) + be_uint(bits, 8)),
        CqlValue::Float(bits) => Some(be_i32(4) + be_u32(bits)),
        CqlValue::Duration(d) => d.encoded(),
        CqlValue::Empty => Some(be_i32(0)),
        CqlValue::Int(i) => i.encoded(),
        CqlValue::BigInt(i) => i.encoded(),
        CqlValue::Timestamp(t) => t.encoded(),
        CqlValue::Inet(a) => a.encoded(),
        CqlValue::List(l) => counted_encoding(l@.len() as int, list_encoded(l, l@.len() as int)),
        CqlValue::SetElements(l) => counted_encoding(l@.len() as int, list_encoded(l, l@.len() as int)),
        CqlValue::MapEntries(m) => counted_encoding(m@.len() as int, pairs_encoded(m, m@.len() as int)),
        CqlValue::UserDefinedType { fields, .. } => match fields_encoded(fields, fields@.len() as int) {
            Some(b) => with_length(b),
            None => None,
        },
        CqlValue::SmallInt(i) => i.encoded(),
        CqlValue::TinyInt(i) => i.encoded(),
        CqlValue::Time(t) => t.encoded(),
        CqlValue::Timeuuid(t) => t.encoded(),
        CqlValue::Tuple(t) => match opts_encoded(t, t@.len() as int) {
            Some(b) => with_length(b),
            None => None,
        },
        CqlValue::Uuid(b) => with_length(b@),
        CqlValue::Varint(v) => v.encoded(),
    }
}

/// The encodings of the first `i` elements, one after another.
pub open spec fn list_encoded(l: Vec<CqlValue>, i: int) -> Option<Seq<u8>>
    decreases l, i,
{
    if i <= 0 || i > l@.len() {
        Some(Seq::empty())
    } else {
        match (list_encoded(l, i - 1), cql_encoded(l@[i - 1])) {
            (Some(a), Some(b)) => Some(a + b),
            _ => None,
        }
    }
}

proof fn lemma_list_encoded_none(l: Vec<CqlValue>, i: int, n: int)
    requires
        0 <= i <= n <= l@.len(),
        list_encoded(l, i) is None,
    ensures
        list_encoded(l, n) is None,
    decreases n - i,
{
    if i < n {
        lemma_list_encoded_none(l, i + 1, n);
    }
}

fn list_body(l: &Vec<CqlValue>, buf: &mut Vec<u8>) -> (r: Result<(), ValueTooBig>)
    ensures
        r is Ok <==> list_encoded(*l, l@.len() as int) is Some,
        r is Ok ==> final(buf)@ == old(buf)@ + list_encoded(*l, l@.len() as int).unwrap(),
        r is Err ==> old(buf)@.len() <= final(buf)@.len(),
        r is Err ==> final(buf)@.subrange(0, old(buf)@.len() as int) == old(buf)@,
    decreases l, 0int,
{
    let ghost base = buf@;
    let mut i: usize = 0;
    assert(buf@ =~= base + Seq::<u8>::empty());
    while i < l.len()
        invariant
            i <= l@.len(),
            base == old(buf)@,
            list_encoded(*l, i as int) is Some,
            buf@ == base + list_encoded(*l, i as int).unwrap(),
        decreases l@.len() - i,
    {
        proof {
            vstd::std_specs::vec::axiom_vec_index_decreases(*l, i as int);
        }
        let ghost before = buf@;
        let r = serialize_cql_value(&l[i], buf);
        if r.is_err() {
            proof {
                assert(before.subrange(0, base.len() as int) =~= base);
                assert(buf@.subrange(0, base.len() as int) =~= buf@.subrange(
                    0,
                    before.len() as int,
                ).subrange(0, base.len() as int));
                lemma_list_encoded_none(*l, i + 1, l@.len() as int);
            }
            return r;
        }
        i += 1;
        assert(buf@ =~= base + list_encoded(*l, i as int).unwrap());
    }
    Ok(())
}
/// The encodings of the first `i` entries, each key then its value.
pub open spec fn pairs_encoded(l: Vec<(CqlValue, CqlValue)>, i: int) -> Option<Seq<u8>>
    decreases l, i,
{
    if i <= 0 || i > l@.len() {
        Some(Seq::empty())
    } else {
        match (pairs_encoded(l, i - 1), cql_encoded(l@[i - 1].0), cql_encoded(l@[i - 1].1)) {
            (Some(a), Some(k), Some(v)) => Some(a + k + v),
            _ => None,
        }
    }
}

proof fn lemma_pairs_encoded_none(l: Vec<(CqlValue, CqlValue)>, i: int, n: int)
    requires
        0 <= i <= n <= l@.len(),
        pairs_encoded(l, i) is None,
    ensures
        pairs_encoded(l, n) is None,
    decreases n - i,
{
    if i < n {
        lemma_pairs_encoded_none(l, i + 1, n);
    }
}

fn pairs_body(l: &Vec<(CqlValue, CqlValue)>, buf: &mut Vec<u8>) -> (r: Result<(), ValueTooBig>)
    ensures
        r is Ok <==> pairs_encoded(*l, l@.len() as int) is Some,
        r is Ok ==> final(buf)@ == old(buf)@ + pairs_encoded(*l, l@.len() as int).unwrap(),
        r is Err ==> old(buf)@.len() <= final(buf)@.len(),
        r is Err ==> final(buf)@.subrange(0, old(buf)@.len() as int) == old(buf)@,
    decreases l,
{
    let ghost base = buf@;
    let mut i: usize = 0;
    assert(buf@ =~= base + Seq::<u8>::empty());
    while i < l.len()
        invariant
            i <= l@.len(),
            base == old(buf)@,
            pairs_encoded(*l, i as int) is Some,
            buf@ == base + pairs_encoded(*l, i as int).unwrap(),
        decreases l@.len() - i,
    {
        proof {
            vstd::std_specs::vec::axiom_vec_index_decreases(*l, i as int);
        }
        let ghost before = buf@;
        let rk = serialize_cql_value(&l[i].0, buf);
        let ghost mid = buf@;
        let rv = if rk.is_ok() {
            serialize_cql_value(&l[i].1, buf)
        } else {
            rk
        };
        if rv.is_err() {
            proof {
                assert(before.subrange(0, base.len() as int) =~= base);
                if rk is Ok {
                    assert(mid.subrange(0, base.len() as int) =~= base);
                    assert(buf@.subrange(0, base.len() as int) =~= buf@.subrange(
                        0,
                        mid.len() as int,
                    ).subrange(0, base.len() as int));
                } else {
                    assert(buf@.subrange(0, base.len() as int) =~= buf@.subrange(
                        0,
                        before.len() as int,
                    ).subrange(0, base.len() as int));
                }
                lemma_pairs_encoded_none(*l, i + 1, l@.len() as int);
            }
            return rv;
        }
        i += 1;
        assert(buf@ =~= base + pairs_encoded(*l, i as int).unwrap());
    }
    Ok(())
}
/// The encodings of the first `i` elements, one after another.
pub open spec fn opts_encoded(l: Vec<Option<CqlValue>>, i: int) -> Option<Seq<u8>>
    decreases l, i,
{
    if i <= 0 || i > l@.len() {
        Some(Seq::empty())
    } else {
        match (opts_encoded(l, i - 1), opt_encoded(l@[i - 1])) {
            (Some(a), Some(b)) => Some(a + b),
            _ => None,
        }
    }
}

proof fn lemma_opts_encoded_none(l: Vec<Option<CqlValue>>, i: int, n: int)
    requires
        0 <= i <= n <= l@.len(),
        opts_encoded(l, i) is None,
    ensures
        opts_encoded(l, n) is None,
    decreases n - i,
{
    if i < n {
        lemma_opts_encoded_none(l, i + 1, n);
    }
}

fn opts_body(l: &Vec<Option<CqlValue>>, buf: &mut Vec<u8>) -> (r: Result<(), ValueTooBig>)
    ensures
        r is Ok <==> opts_encoded(*l, l@.len() as int) is Some,
        r is Ok ==> final(buf)@ == old(buf)@ + opts_encoded(*l, l@.len() as int).unwrap(),
        r is Err ==> old(buf)@.len() <= final(buf)@.len(),
        r is Err ==> final(buf)@.subrange(0, old(buf)@.len() as int) == old(buf)@,
    decreases l,
{
    let ghost base = buf@;
    let mut i: usize = 0;
    assert(buf@ =~= base + Seq::<u8>::empty());
    while i < l.len()
        invariant
            i <= l@.len(),
            base == old(buf)@,
            opts_encoded(*l, i as int) is Some,
            buf@ == base + opts_encoded(*l, i as int).unwrap(),
        decreases l@.len() - i,
    {
        proof {
            vstd::std_specs::vec::axiom_vec_index_decreases(*l, i as int);
        }
        let ghost before = buf@;
        let r = serialize_opt(&l[i], buf);
        if r.is_err() {
            proof {
                assert(before.subrange(0, base.len() as int) =~= base);
                assert(buf@.subrange(0, base.len() as int) =~= buf@.subrange(
                    0,
                    before.len() as int,
                ).subrange(0, base.len() as int));
                lemma_opts_encoded_none(*l, i + 1, l@.len() as int);
            }
            return r;
        }
        i += 1;
        assert(buf@ =~= base + opts_encoded(*l, i as int).unwrap());
    }
    Ok(())
}
/// The encodings of the first `i` elements, one after another.
pub open spec fn fields_encoded(l: Vec<(String, Option<CqlValue>)>, i: int) -> Option<Seq<u8>>
    decreases l, i,
{
    if i <= 0 || i > l@.len() {
        Some(Seq::empty())
    } else {
        match (fields_encoded(l, i - 1), opt_encoded(l@[i - 1].1)) {
            (Some(a), Some(b)) => Some(a + b),
            _ => None,
        }
    }
}

proof fn lemma_fields_encoded_none(l: Vec<(String, Option<CqlValue>)>, i: int, n: int)
    requires
        0 <= i <= n <= l@.len(),
        fields_encoded(l, i) is None,
    ensures
        fields_encoded(l, n) is None,
    decreases n - i,
{
    if i < n {
        lemma_fields_encoded_none(l, i + 1, n);
    }
}

fn fields_body(l: &Vec<(String, Option<CqlValue>)>, buf: &mut Vec<u8>) -> (r: Result<(), ValueTooBig>)
    ensures
        r is Ok <==> fields_encoded(*l, l@.len() as int) is Some,
        r is Ok ==> final(buf)@ == old(buf)@ + fields_encoded(*l, l@.len() as int).unwrap(),
        r is Err ==> old(buf)@.len() <= final(buf)@.len(),
        r is Err ==> final(buf)@.subrange(0, old(buf)@.len() as int) == old(buf)@,
    decreases l,
{
    let ghost base = buf@;
    let mut i: usize = 0;
    assert(buf@ =~= base + Seq::<u8>::empty());
    while i < l.len()
        invariant
            i <= l@.len(),
            base == old(buf)@,
            fields_encoded(*l, i as int) is Some,
            buf@ == base + fields_encoded(*l, i as int).unwrap(),
        decreases l@.len() - i,
    {
        proof {
            vstd::std_specs::vec::axiom_vec_index_decreases(*l, i as int);
        }
        let ghost before = buf@;
        let r = serialize_opt(&l[i].1, buf);
        if r.is_err() {
            proof {
                assert(before.subrange(0, base.len() as int) =~= base);
                assert(buf@.subrange(0, base.len() as int) =~= buf@.subrange(
                    0,
                    before.len() as int,
                ).subrange(0, base.len() as int));
                lemma_fields_encoded_none(*l, i + 1, l@.len() as int);
            }
            return r;
        }
        i += 1;
        assert(buf@ =~= base + fields_encoded(*l, i as int).unwrap());
    }
    Ok(())
}

fn serialize_opt(v: &Option<CqlValue>, buf: &mut Vec<u8>) -> (r: Result<(), ValueTooBig>)
    ensures
        r is Ok <==> opt_encoded(*v) is Some,
        r is Ok ==> final(buf)@ == old(buf)@ + opt_encoded(*v).unwrap(),
        r is Err ==> final(buf)@ == old(buf)@,
    decreases v,
{
    match v {
        Some(x) => serialize_cql_value(x, buf),
        None => {
            put_i32(buf, NULL_LENGTH);
            Ok(())
        },
    }
}

/// Writes a dynamic value exactly as the typed value of its kind.
pub fn serialize_cql_value(v: &CqlValue, buf: &mut Vec<u8>) -> (r: Result<(), ValueTooBig>)
    ensures
        r is Ok <==> cql_encoded(*v) is Some,
        r is Ok ==> final(buf)@ == old(buf)@ + cql_encoded(*v).unwrap(),
        r is Ok ==> is_framed(cql_encoded(*v).unwrap()),
        r is Err ==> final(buf)@ == old(buf)@,
    decreases v,
{
    match v {
        CqlValue::Ascii(s) => s.serialize(buf),
        CqlValue::Text(s) => s.serialize(buf),
        CqlValue::Boolean(b) => b.serialize(buf),
        CqlValue::Blob(b) => b.serialize(buf),
        CqlValue::Counter(c) => c.serialize(buf),
        CqlValue::Decimal(d) => d.serialize(buf),
        CqlValue::Date(d) => d.serialize(buf),
        CqlValue::Double(bits) => {
            put_i32(buf, 8);
            put_uint(buf, *bits, 8);
            proof {
                lemma_with_length_framed(be_uint(*bits, 8));
            }
            Ok(())
        },
        CqlValue::Float(bits) => {
            put_i32(buf, 4);
            put_u32(buf, *bits);
            proof {
                lemma_with_length_framed(be_u32(*bits));
            }
            Ok(())
        },
        CqlValue::Duration(d) => d.serialize(buf),
        CqlValue::Empty => {
            put_i32(buf, 0);
            proof {
                lemma_with_length_framed(Seq::empty());
                assert(with_length(Seq::empty()).unwrap() =~= be_i32(0));
            }
            Ok(())
        },
        CqlValue::Int(i) => i.serialize(buf),
        CqlValue::BigInt(i) => i.serialize(buf),
        CqlValue::Timestamp(t) => t.serialize(buf),
        CqlValue::Inet(a) => a.serialize(buf),
        CqlValue::List(l) => serialize_counted(l, buf),
        CqlValue::SetElements(l) => serialize_counted(l, buf),
        CqlValue::MapEntries(m) => {
            let ghost start = buf@;
            let pos = buf.len();
            put_i32(buf, 0);
            if m.len() > i32::MAX as usize {
                assert(buf@.subrange(0, start.len() as int) =~= start);
                rewind(buf, pos, Ghost(start));
                return Err(ValueTooBig);
            }
            put_i32(buf, m.len() as i32);
            let ghost counted = buf@;
            let r = pairs_body(m, buf);
            if r.is_err() {
                assert(counted.subrange(0, start.len() as int) =~= start);
                assert(buf@.subrange(0, start.len() as int) =~= buf@.subrange(
                    0,
                    counted.len() as int,
                ).subrange(0, start.len() as int));
                rewind(buf, pos, Ghost(start));
                return r;
            }
            let ghost body = be_i32(m.len() as i32) + pairs_encoded(*m, m@.len() as int).unwrap();
            assert(buf@ =~= start + be_i32(0) + body);
            let r = finish_composite(buf, pos, Ghost(start), Ghost(body));
            assert(r is Err ==> buf@.subrange(0, start.len() as int) =~= start);
            if r.is_err() {
                rewind(buf, pos, Ghost(start));
            }
            r
        },
        CqlValue::UserDefinedType { fields, .. } => {
            let ghost start = buf@;
            let pos = buf.len();
            put_i32(buf, 0);
            let ghost placed = buf@;
            let r = fields_body(fields, buf);
            if r.is_err() {
                assert(placed.subrange(0, start.len() as int) =~= start);
                assert(buf@.subrange(0, start.len() as int) =~= buf@.subrange(
                    0,
                    placed.len() as int,
                ).subrange(0, start.len() as int));
                rewind(buf, pos, Ghost(start));
                return r;
            }
            let r = finish_composite(buf, pos, Ghost(start), Ghost(fields_encoded(*fields, fields@.len() as int).unwrap()));
            assert(r is Err ==> buf@.subrange(0, start.len() as int) =~= start);
            if r.is_err() {
                rewind(buf, pos, Ghost(start));
            }
            r
        },
        CqlValue::SmallInt(i) => i.serialize(buf),
        CqlValue::TinyInt(i) => i.serialize(buf),
        CqlValue::Time(t) => t.serialize(buf),
        CqlValue::Timeuuid(t) => t.serialize(buf),
        CqlValue::Tuple(t) => {
            let ghost start = buf@;
            let pos = buf.len();
            put_i32(buf, 0);
            let ghost placed = buf@;
            let r = opts_body(t, buf);
            if r.is_err() {
                assert(placed.subrange(0, start.len() as int) =~= start);
                assert(buf@.subrange(0, start.len() as int) =~= buf@.subrange(
                    0,
                    placed.len() as int,
                ).subrange(0, start.len() as int));
                rewind(buf, pos, Ghost(start));
                return r;
            }
            let r = finish_composite(buf, pos, Ghost(start), Ghost(opts_encoded(*t, t@.len() as int).unwrap()));
            assert(r is Err ==> buf@.subrange(0, start.len() as int) =~= start);
            if r.is_err() {
                rewind(buf, pos, Ghost(start));
            }
            r
        },
        CqlValue::Uuid(b) => crate::value::serialize_bytes(b.as_slice(), buf),
        CqlValue::Varint(v) => v.serialize(buf),
    }
}

/// Writes a list or set of dynamic values: total length, count, elements.
fn serialize_counted(l: &Vec<CqlValue>, buf: &mut Vec<u8>) -> (r: Result<(), ValueTooBig>)
    ensures
        r is Ok <==> counted_encoding(l@.len() as int, list_encoded(*l, l@.len() as int)) is Some,
        r is Ok ==> final(buf)@ == old(buf)@ + counted_encoding(l@.len() as int, list_encoded(*l, l@.len() as int)).unwrap(),
        r is Ok ==> is_framed(counted_encoding(l@.len() as int, list_encoded(*l, l@.len() as int)).unwrap()),
        r is Err ==> final(buf)@ == old(buf)@,
    decreases l, 1int,
{
    let ghost start = buf@;
    let pos = buf.len();
    put_i32(buf, 0);
    if l.len() > i32::MAX as usize {
        assert(buf@.subrange(0, start.len() as int) =~= start);
        rewind(buf, pos, Ghost(start));
        return Err(ValueTooBig);
    }
    put_i32(buf, l.len() as i32);
    let ghost counted = buf@;
    let r = list_body(l, buf);
    if r.is_err() {
        assert(counted.subrange(0, start.len() as int) =~= start);
        assert(buf@.subrange(0, start.len() as int) =~= buf@.subrange(
            0,
            counted.len() as int,
        ).subrange(0, start.len() as int));
        rewind(buf, pos, Ghost(start));
        return r;
    }
    let ghost body = be_i32(l.len() as i32) + list_encoded(*l, l@.len() as int).unwrap();
    assert(buf@ =~= start + be_i32(0) + body);
    let r = finish_composite(buf, pos, Ghost(start), Ghost(body));
    assert(r is Err ==> buf@.subrange(0, start.len() as int) =~= start);
    if r.is_err() {
        rewind(buf, pos, Ghost(start));
    }
    r
}

impl Value for CqlValue {
    open spec fn encoded(&self) -> Option<Seq<u8>> {
        cql_encoded(*self)
    }

    fn serialize(&self, buf: &mut Vec<u8>) -> (r: Result<(), ValueTooBig>) {
        serialize_cql_value(self, buf)
    }
}

} // verus!
