//! Big-endian integer layouts and the framing of a single value on the wire.

use vstd::prelude::*;

verus! {

/// The `k` low-order bytes of `x`, most significant first.
pub open spec fn be_uint(x: u64, k: nat) -> Seq<u8> {
    Seq::new(k, |i: int| ((x >> ((8 * (k - 1 - i)) as u64)) & 0xff) as u8)
}

pub open spec fn be_u16(x: u16) -> Seq<u8> {
    be_uint(x as u64, 2)
}

pub open spec fn be_u32(x: u32) -> Seq<u8> {
    be_uint(x as u64, 4)
}

/// A 32-bit signed integer in two's complement, most significant byte first.
pub open spec fn be_i32(x: i32) -> Seq<u8> {
    be_uint(x as u32 as u64, 4)
}

pub open spec fn be_i64(x: i64) -> Seq<u8> {
    be_uint(x as u64, 8)
}

/// The unsigned 16-bit integer held by two bytes, most significant first.
pub open spec fn u16_from(b0: u8, b1: u8) -> u16 {
    ((b0 as u16) << 8u16) | (b1 as u16)
}

/// The signed 32-bit integer held by four bytes, most significant first.
pub open spec fn i32_from(b0: u8, b1: u8, b2: u8, b3: u8) -> i32 {
    (((b0 as u32) << 24u32) | ((b1 as u32) << 16u32) | ((b2 as u32) << 8u32) | (b3 as u32)) as i32
}

pub open spec fn i32_at(b: Seq<u8>, i: int) -> i32 {
    i32_from(b[i], b[i + 1], b[i + 2], b[i + 3])
}

pub open spec fn u16_at(b: Seq<u8>, i: int) -> u16 {
    u16_from(b[i], b[i + 1])
}

/// The length written in front of a value that is absent (NULL).
pub const NULL_LENGTH: i32 = -1;

/// The length written in front of a value that is left unbound (UNSET).
pub const UNSET_LENGTH: i32 = -2;

/// A value exactly as it stands in a frame: absent, unbound, or present with
/// its payload bytes.
#[derive(Debug, Clone, PartialEq, Eq)]
pub enum RawValue {
    Null,
    Unset,
    Value(Vec<u8>),
}

/// The mathematical content of a [`RawValue`].
pub enum RawValueSpec {
    Null,
    Unset,
    Value(Seq<u8>),
}

impl View for RawValue {
    type V = RawValueSpec;

    open spec fn view(&self) -> RawValueSpec {
        match self {
            RawValue::Null => RawValueSpec::Null,
            RawValue::Unset => RawValueSpec::Unset,
            RawValue::Value(v) => RawValueSpec::Value(v@),
        }
    }
}

/// Reads one length-prefixed value from the front of `b`: the value and the
/// number of bytes it takes, or `None` where `b` does not begin with one.
pub open spec fn parse_value(b: Seq<u8>) -> Option<(RawValueSpec, int)> {
    if b.len() < 4 {
        None
    } else {
        let len = i32_at(b, 0);
        if len == NULL_LENGTH {
            Some((RawValueSpec::Null, 4))
        } else if len == UNSET_LENGTH {
            Some((RawValueSpec::Unset, 4))
        } else if len < 0 || b.len() < 4 + len {
            None
        } else {
            Some((RawValueSpec::Value(b.subrange(4, 4 + len)), 4 + len))
        }
    }
}

/// `w` is exactly one length-prefixed value.
pub open spec fn is_framed(w: Seq<u8>) -> bool {
    match parse_value(w) {
        Some((_, n)) => n == w.len(),
        None => false,
    }
}

/// A payload behind its 4-byte length, where the length fits the field.
pub open spec fn with_length(payload: Seq<u8>) -> Option<Seq<u8>> {
    if payload.len() <= i32::MAX {
        Some(be_i32(payload.len() as i32) + payload)
    } else {
        None
    }
}

pub proof fn lemma_u16_round_trip(x: u16)
    ensures
        u16_at(be_u16(x), 0) == x,
        be_u16(x).len() == 2,
{
    let b = be_u16(x);
    let y = x as u64;
    assert(b[0] == ((y >> 8u64) & 0xff) as u8);
    assert(b[1] == ((y >> 0u64) & 0xff) as u8);
    assert(u16_from(((y >> 8u64) & 0xff) as u8, ((y >> 0u64) & 0xff) as u8) == x) by (bit_vector)
        requires
            y == x as u64,
    ;
}

pub proof fn lemma_i32_round_trip(x: i32)
    ensures
        i32_at(be_i32(x), 0) == x,
        be_i32(x).len() == 4,
{
    let b = be_i32(x);
    let y = x as u32 as u64;
    assert(b[0] == ((y >> 24u64) & 0xff) as u8);
    assert(b[1] == ((y >> 16u64) & 0xff) as u8);
    assert(b[2] == ((y >> 8u64) & 0xff) as u8);
    assert(b[3] == ((y >> 0u64) & 0xff) as u8);
    assert(i32_from(
        ((y >> 24u64) & 0xff) as u8,
        ((y >> 16u64) & 0xff) as u8,
        ((y >> 8u64) & 0xff) as u8,
        ((y >> 0u64) & 0xff) as u8,
    ) == x) by (bit_vector)
        requires
            y == x as u32 as u64,
    ;
}

/// A payload behind its length is one framed value, and reads back as itself.
pub proof fn lemma_with_length_framed(payload: Seq<u8>)
    requires
        payload.len() <= i32::MAX,
    ensures
        is_framed(with_length(payload)->0),
        parse_value(with_length(payload)->0) == Some(
            (RawValueSpec::Value(payload), 4 + payload.len() as int),
        ),
{
    let w = with_length(payload)->0;
    lemma_i32_round_trip(payload.len() as i32);
    assert(w.subrange(0, 4) =~= be_i32(payload.len() as i32));
    assert(i32_at(w, 0) == i32_at(be_i32(payload.len() as i32), 0));
    assert(w.subrange(4, 4 + payload.len() as int) =~= payload);
}

/// A sentinel length alone is one framed value.
pub proof fn lemma_sentinel_framed(len: i32)
    requires
        len == NULL_LENGTH || len == UNSET_LENGTH,
    ensures
        is_framed(be_i32(len)),
        parse_value(be_i32(len)) == Some(
            (if len == NULL_LENGTH { RawValueSpec::Null } else { RawValueSpec::Unset }, 4int),
        ),
{
    lemma_i32_round_trip(len);
}

/// Appends the `k` low-order bytes of `x`, most significant first.
pub fn put_uint(buf: &mut Vec<u8>, x: u64, k: usize)
    requires
        1 <= k <= 8,
    ensures
        final(buf)@ == old(buf)@ + be_uint(x, k as nat),
{
    let ghost start = buf@;
    let mut i: usize = 0;
    while i < k
        invariant
            1 <= k <= 8,
            i <= k,
            buf@ == start + be_uint(x, k as nat).take(i as int),
        decreases k - i,
    {
        let shift: u64 = (8 * (k - 1 - i)) as u64;
        buf.push(((x >> shift) & 0xff) as u8);
        i += 1;
        assert(be_uint(x, k as nat).take(i as int) =~= be_uint(x, k as nat).take((i - 1) as int).push(
            ((x >> shift) & 0xff) as u8,
        ));
    }
    assert(be_uint(x, k as nat).take(k as int) =~= be_uint(x, k as nat));
}

pub fn put_u16(buf: &mut Vec<u8>, x: u16)
    ensures
        final(buf)@ == old(buf)@ + be_u16(x),
{
    put_uint(buf, x as u64, 2);
}

pub fn put_u32(buf: &mut Vec<u8>, x: u32)
    ensures
        final(buf)@ == old(buf)@ + be_u32(x),
{
    put_uint(buf, x as u64, 4);
}

pub fn put_i32(buf: &mut Vec<u8>, x: i32)
    ensures
        final(buf)@ == old(buf)@ + be_i32(x),
{
    put_uint(buf, x as u32 as u64, 4);
}

pub fn put_i64(buf: &mut Vec<u8>, x: i64)
    ensures
        final(buf)@ == old(buf)@ + be_i64(x),
{
    put_uint(buf, x as u64, 8);
}

/// Appends every byte of `src`.
pub fn put_slice(buf: &mut Vec<u8>, src: &[u8])
    ensures
        final(buf)@ == old(buf)@ + src@,
{
    let ghost start = buf@;
    let mut i: usize = 0;
    while i < src.len()
        invariant
            i <= src@.len(),
            buf@ == start + src@.take(i as int),
        decreases src@.len() - i,
    {
        buf.push(src[i]);
        i += 1;
        assert(src@.take(i as int) =~= src@.take((i - 1) as int).push(src@[i - 1]));
    }
    assert(src@.take(src@.len() as int) =~= src@);
}

/// Writes `x` over the four bytes of `buf` that start at `pos`.
pub fn patch_i32(buf: &mut Vec<u8>, pos: usize, x: i32)
    requires
        pos + 4 <= old(buf)@.len(),
    ensures
        final(buf)@ == old(buf)@.subrange(0, pos as int) + be_i32(x) + old(buf)@.subrange(
            pos + 4,
            old(buf)@.len() as int,
        ),
{
    let ghost start = buf@;
    let n = buf.len();
    assert(pos + 4 <= n);
    let y: u64 = x as u32 as u64;
    buf.set(pos, ((y >> 24u64) & 0xff) as u8);
    buf.set(pos + 1, ((y >> 16u64) & 0xff) as u8);
    buf.set(pos + 2, ((y >> 8u64) & 0xff) as u8);
    buf.set(pos + 3, ((y >> 0u64) & 0xff) as u8);
    assert(buf@ =~= start.subrange(0, pos as int) + be_i32(x) + start.subrange(
        pos + 4,
        start.len() as int,
    ));
}

/// The 32-bit signed integer at `pos`.
pub fn read_i32_at(b: &[u8], pos: usize) -> (r: i32)
    requires
        pos + 4 <= b@.len(),
    ensures
        r == i32_at(b@, pos as int),
{
    (((b[pos] as u32) << 24u32) | ((b[pos + 1] as u32) << 16u32) | ((b[pos + 2] as u32) << 8u32) | (
    b[pos + 3] as u32)) as i32
}

/// The 16-bit unsigned integer at `pos`.
pub fn read_u16_at(b: &[u8], pos: usize) -> (r: u16)
    requires
        pos + 2 <= b@.len(),
    ensures
        r == u16_at(b@, pos as int),
{
    ((b[pos] as u16) << 8u16) | (b[pos + 1] as u16)
}

/// The zigzag form of a signed integer: small magnitudes become small
/// unsigned numbers (0, -1, 1, -2, ... become 0, 1, 2, 3, ...).
pub open spec fn zigzag(v: i64) -> u64 {
    ((v as u64) << 1u64) ^ (if v < 0 { 0xffff_ffff_ffff_ffffu64 } else { 0u64 })
}

/// The number of bytes of the variable-length form of `x`: one byte per
/// seven bits, and nine bytes beyond 56 bits.
pub open spec fn vint_size(x: u64) -> nat {
    if x < 0x80 {
        1
    } else if x < 0x4000 {
        2
    } else if x < 0x20_0000 {
        3
    } else if x < 0x1000_0000 {
        4
    } else if x < 0x8_0000_0000 {
        5
    } else if x < 0x400_0000_0000 {
        6
    } else if x < 0x2_0000_0000_0000 {
        7
    } else if x < 0x100_0000_0000_0000 {
        8
    } else {
        9
    }
}

/// The high `extra` bits of a byte set, the rest clear.
pub open spec fn length_mark(extra: u64) -> u64 {
    (0xff00u64 >> extra) & 0xff
}

/// The variable-length form of `x`: as many leading one bits in the first
/// byte as there are bytes after it, then `x` in big-endian order; beyond
/// 56 bits, a first byte of 0xff and the eight bytes of `x`.
pub open spec fn unsigned_vint(x: u64) -> Seq<u8> {
    let k = vint_size(x);
    if k == 9 {
        seq![0xffu8] + be_uint(x, 8)
    } else {
        be_uint(x | (length_mark((k - 1) as u64) << ((8 * (k - 1)) as u64)), k)
    }
}

/// The variable-length form of a signed integer.
pub open spec fn vint(v: i64) -> Seq<u8> {
    unsigned_vint(zigzag(v))
}

fn vint_size_of(x: u64) -> (k: usize)
    ensures
        k == vint_size(x),
{
    if x < 0x80 {
        1
    } else if x < 0x4000 {
        2
    } else if x < 0x20_0000 {
        3
    } else if x < 0x1000_0000 {
        4
    } else if x < 0x8_0000_0000 {
        5
    } else if x < 0x400_0000_0000 {
        6
    } else if x < 0x2_0000_0000_0000 {
        7
    } else if x < 0x100_0000_0000_0000 {
        8
    } else {
        9
    }
}

/// Appends the variable-length form of `x`.
pub fn unsigned_vint_encode(x: u64, buf: &mut Vec<u8>)
    ensures
        final(buf)@ == old(buf)@ + unsigned_vint(x),
{
    let k = vint_size_of(x);
    if k == 9 {
        buf.push(0xffu8);
        let ghost mid = buf@;
        put_uint(buf, x, 8);
        assert(buf@ =~= old(buf)@ + unsigned_vint(x));
    } else {
        let extra: u64 = (k - 1) as u64;
        let mark: u64 = (0xff00u64 >> extra) & 0xff;
        let shift: u64 = 8 * extra;
        put_uint(buf, x | (mark << shift), k);
    }
}

/// Appends the variable-length form of the zigzag form of `v`.
pub fn vint_encode(v: i64, buf: &mut Vec<u8>)
    ensures
        final(buf)@ == old(buf)@ + vint(v),
{
    let u = v as u64;
    let z: u64 = (u << 1u64) ^ (if v < 0 { 0xffff_ffff_ffff_ffffu64 } else { 0u64 });
    unsigned_vint_encode(z, buf);
}

} // verus!
