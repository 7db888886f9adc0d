//! Time-ordered 128-bit identifiers, compared the way the server's legacy
//! ordering does.

use vstd::prelude::*;
use core::cmp::Ordering;
use crate::value::{serialize_bytes, Value, ValueTooBig};
use crate::wire::{be_u16, be_u32, be_uint, put_slice, put_u16, put_u32, put_uint, with_length};

verus! {

#[verifier::external_type_specification]
#[verifier::external_body]
pub struct ExUuidError(uuid::Error);

/// The 64-bit unsigned integer held by the eight bytes at `i`, most
/// significant first.
pub open spec fn u64_at(b: Seq<u8>, i: int) -> u64 {
    (b[i] as u64) << 56u64 | (b[i + 1] as u64) << 48u64 | (b[i + 2] as u64) << 40u64 | (b[i + 3] as u64)
        << 32u64 | (b[i + 4] as u64) << 24u64 | (b[i + 5] as u64) << 16u64 | (b[i + 6] as u64) << 8u64
        | (b[i + 7] as u64)
}

/// The `k` low-order bytes of `x`, least significant first.
pub open spec fn le_uint(x: u64, k: nat) -> Seq<u8> {
    Seq::new(k, |i: int| ((x >> ((8 * i) as u64)) & 0xff) as u8)
}

/// The time-bearing half of a timeuuid, rebuilt as the server reads it:
/// `time_hi` with its version nibble masked off, then `time_mid`, then
/// `time_low`.
pub open spec fn msb_of(b: Seq<u8>) -> u64 {
    ((b[6] & 0x0f) as u64) << 56u64 | (b[7] as u64) << 48u64 | (b[4] as u64) << 40u64 | (b[5] as u64)
        << 32u64 | (b[0] as u64) << 24u64 | (b[1] as u64) << 16u64 | (b[2] as u64) << 8u64 | (
    b[3] as u64)
}

/// The low half with the sign bit of every byte flipped, so that unsigned
/// comparison orders it as the server's signed comparison does.
pub open spec fn lsb_signed_of(b: Seq<u8>) -> u64 {
    u64_at(b, 8) ^ 0x8080_8080_8080_8080u64
}

/// The legacy order: the rebuilt time half first, then the sign-flipped low
/// half.
pub open spec fn timeuuid_order(a: Seq<u8>, b: Seq<u8>) -> Ordering {
    if msb_of(a) < msb_of(b) {
        Ordering::Less
    } else if msb_of(a) > msb_of(b) {
        Ordering::Greater
    } else if lsb_signed_of(a) < lsb_signed_of(b) {
        Ordering::Less
    } else if lsb_signed_of(a) > lsb_signed_of(b) {
        Ordering::Greater
    } else {
        Ordering::Equal
    }
}

/// The lower-case hexadecimal digit for `n`, below 16.
pub open spec fn hex_digit(n: u8) -> char {
    if n < 10 {
        (48 + n) as char
    } else {
        (87 + n) as char
    }
}

/// Two lower-case hexadecimal digits per byte, high nibble first.
pub open spec fn hex_of(b: Seq<u8>) -> Seq<char>
    decreases b.len(),
{
    if b.len() == 0 {
        Seq::empty()
    } else {
        hex_of(b.drop_last()) + seq![hex_digit(b.last() / 16), hex_digit(b.last() % 16)]
    }
}

/// The hyphenated text form of a UUID: its bytes in hexadecimal, in groups
/// of 4, 2, 2, 2 and 6 bytes joined by hyphens.
pub open spec fn uuid_text(b: Seq<u8>) -> Seq<char> {
    hex_of(b.subrange(0, 4)) + seq!['-'] + hex_of(b.subrange(4, 6)) + seq!['-'] + hex_of(
        b.subrange(6, 8),
    ) + seq!['-'] + hex_of(b.subrange(8, 10)) + seq!['-'] + hex_of(b.subrange(10, 16))
}

/// The bytes of the identifier that a text spells, where it spells one.
pub uninterp spec fn uuid_parsed(s: Seq<char>) -> Option<Seq<u8>>;

/// Relies on `uuid::Uuid::from_slice`: it fails exactly when the slice is
/// not 16 bytes long, and otherwise keeps the bytes as they are.
#[verifier::external_body]
fn uuid_from_slice(b: &[u8]) -> (r: Result<[u8; 16], uuid::Error>)
    ensures
        r is Ok <==> b@.len() == 16,
        r is Ok ==> r.unwrap()@ == b@,
{
    match uuid::Uuid::from_slice(b) {
        Ok(u) => Ok(*u.as_bytes()),
        Err(e) => Err(e),
    }
}

/// Relies on `uuid::Uuid::from_slice_le`: it fails exactly when the slice is
/// not 16 bytes long, and otherwise reverses the byte order of the first
/// three fields (4, 2 and 2 bytes).
#[verifier::external_body]
fn uuid_from_slice_le(b: &[u8]) -> (r: Result<[u8; 16], uuid::Error>)
    ensures
        r is Ok <==> b@.len() == 16,
        r is Ok ==> r.unwrap()@ == swap_fields(b@),
{
    match uuid::Uuid::from_slice_le(b) {
        Ok(u) => Ok(*u.as_bytes()),
        Err(e) => Err(e),
    }
}

/// Relies on `uuid::Uuid::parse_str`: its result depends on the text alone.
#[verifier::external_body]
fn uuid_parse_str(s: &str) -> (r: Result<[u8; 16], uuid::Error>)
    ensures
        r is Ok <==> uuid_parsed(s@) is Some,
        r is Ok ==> r.unwrap()@ == uuid_parsed(s@).unwrap(),
{
    match uuid::Uuid::parse_str(s) {
        Ok(u) => Ok(*u.as_bytes()),
        Err(e) => Err(e),
    }
}

/// Relies on the `Display` of `uuid::Uuid`: the hyphenated lower-case
/// hexadecimal form of the bytes.
#[verifier::external_body]
fn uuid_to_text(b: [u8; 16]) -> (r: String)
    ensures
        r@ == uuid_text(b@),
{
    format!("{}", uuid::Uuid::from_bytes(b))
}

/// The first three fields of a UUID (4, 2 and 2 bytes) with their byte order
/// reversed; the last eight bytes kept.
pub open spec fn swap_fields(b: Seq<u8>) -> Seq<u8> {
    seq![b[3], b[2], b[1], b[0], b[5], b[4], b[7], b[6]] + b.subrange(8, 16)
}

/// Relies on std's `Hash` for `u64`, which feeds the hasher; nothing is
/// claimed of the state it leaves.
pub assume_specification<Hs: std::hash::Hasher>[ <u64 as std::hash::Hash>::hash::<Hs> ](
    data: &u64,
    state: &mut Hs,
);

/// A time-based UUID. Equality, order and hash follow the server's legacy
/// ordering, not the raw bytes.
#[derive(Debug, Clone, Copy)]
pub struct CqlTimeuuid([u8; 16]);

impl View for CqlTimeuuid {
    type V = Seq<u8>;

    closed spec fn view(&self) -> Seq<u8> {
        self.0@
    }
}

fn array16(v: &Vec<u8>) -> (r: [u8; 16])
    requires
        v@.len() == 16,
    ensures
        r@ == v@,
{
    let mut a = [0u8; 16];
    let mut i: usize = 0;
    while i < 16
        invariant
            v@.len() == 16,
            a@.len() == 16,
            i <= 16,
            forall|j: int| 0 <= j < i ==> a@[j] == v@[j],
        decreases 16 - i,
    {
        a.set(i, v[i]);
        i += 1;
    }
    assert(a@ =~= v@);
    a
}

fn put_uint_le(buf: &mut Vec<u8>, x: u64, k: usize)
    requires
        k <= 8,
    ensures
        final(buf)@ == old(buf)@ + le_uint(x, k as nat),
{
    let ghost start = buf@;
    let mut i: usize = 0;
    while i < k
        invariant
            k <= 8,
            i <= k,
            buf@ == start + le_uint(x, k as nat).take(i as int),
        decreases k - i,
    {
        let shift: u64 = (8 * i) as u64;
        buf.push(((x >> shift) & 0xff) as u8);
        i += 1;
        assert(le_uint(x, k as nat).take(i as int) =~= le_uint(x, k as nat).take((i - 1) as int).push(
            ((x >> shift) & 0xff) as u8,
        ));
    }
    assert(le_uint(x, k as nat).take(k as int) =~= le_uint(x, k as nat));
}

fn read_u64_at(b: &[u8], i: usize) -> (r: u64)
    requires
        i + 8 <= b@.len(),
    ensures
        r == u64_at(b@, i as int),
{
    (b[i] as u64) << 56u64 | (b[i + 1] as u64) << 48u64 | (b[i + 2] as u64) << 40u64 | (b[i + 3] as u64)
        << 32u64 | (b[i + 4] as u64) << 24u64 | (b[i + 5] as u64) << 16u64 | (b[i + 6] as u64) << 8u64
        | (b[i + 7] as u64)
}

impl CqlTimeuuid {
    pub fn as_bytes(&self) -> (r: &[u8; 16])
        ensures
            r@ == self@,
    {
        &self.0
    }

    /// The 16 bytes as one big-endian integer.
    pub fn as_u128(&self) -> (r: u128)
        ensures
            r == ((u64_at(self@, 0) as u128) << 64u128) | (u64_at(self@, 8) as u128),
    {
        let (hi, lo) = self.as_u64_pair();
        ((hi as u128) << 64u128) | (lo as u128)
    }

    /// The fields: `time_low`, `time_mid`, `time_hi_and_version` read
    /// big-endian, and the last eight bytes.
    pub fn as_fields(&self) -> (r: (u32, u16, u16, [u8; 8]))
        ensures
            be_u32(r.0) + be_u16(r.1) + be_u16(r.2) + r.3@ == self@,
    {
        let b = self.0.as_slice();
        let d1: u32 = (b[0] as u32) << 24u32 | (b[1] as u32) << 16u32 | (b[2] as u32) << 8u32 | (b[3] as u32);
        let d2: u16 = (b[4] as u16) << 8u16 | (b[5] as u16);
        let d3: u16 = (b[6] as u16) << 8u16 | (b[7] as u16);
        let mut d4 = [0u8; 8];
        let mut i: usize = 0;
        while i < 8
            invariant
                b@ == self@,
                b@.len() == 16,
                d4@.len() == 8,
                i <= 8,
                forall|j: int| 0 <= j < i ==> d4@[j] == b@[j + 8],
            decreases 8 - i,
        {
            d4.set(i, b[i + 8]);
            i += 1;
        }
        proof {
            let (b0, b1, b2, b3, b4, b5, b6, b7) = (b@[0], b@[1], b@[2], b@[3], b@[4], b@[5], b@[6], b@[7]);
            assert(be_u32(d1) =~= seq![b0, b1, b2, b3]) by {
                assert(((((d1 as u64) >> 24u64) & 0xff) as u8) == b0 && ((((d1 as u64) >> 16u64) & 0xff) as u8)
                    == b1 && ((((d1 as u64) >> 8u64) & 0xff) as u8) == b2 && ((((d1 as u64) >> 0u64) & 0xff)
                    as u8) == b3) by (bit_vector)
                    requires
                        d1 == (b0 as u32) << 24u32 | (b1 as u32) << 16u32 | (b2 as u32) << 8u32 | (b3 as u32),
                ;
            }
            assert(be_u16(d2) =~= seq![b4, b5]) by {
                assert(((((d2 as u64) >> 8u64) & 0xff) as u8) == b4 && ((((d2 as u64) >> 0u64) & 0xff) as u8)
                    == b5) by (bit_vector)
                    requires
                        d2 == (b4 as u16) << 8u16 | (b5 as u16),
                ;
            }
            assert(be_u16(d3) =~= seq![b6, b7]) by {
                assert(((((d3 as u64) >> 8u64) & 0xff) as u8) == b6 && ((((d3 as u64) >> 0u64) & 0xff) as u8)
                    == b7) by (bit_vector)
                    requires
                        d3 == (b6 as u16) << 8u16 | (b7 as u16),
                ;
            }
            assert(be_u32(d1) + be_u16(d2) + be_u16(d3) + d4@ =~= self@);
        }
        (d1, d2, d3, d4)
    }

    /// The two halves, each read big-endian.
    pub fn as_u64_pair(&self) -> (r: (u64, u64))
        ensures
            r == (u64_at(self@, 0), u64_at(self@, 8)),
    {
        let b = self.0.as_slice();
        (read_u64_at(b, 0), read_u64_at(b, 8))
    }

    /// Takes the bytes as they are; fails unless there are exactly 16.
    pub fn from_slice(b: &[u8]) -> (r: Result<Self, uuid::Error>)
        ensures
            r is Ok <==> b@.len() == 16,
            r is Ok ==> r.unwrap()@ == b@,
    {
        match uuid_from_slice(b) {
            Ok(bytes) => Ok(CqlTimeuuid(bytes)),
            Err(e) => Err(e),
        }
    }

    /// Takes the bytes with the first three fields little-endian; fails
    /// unless there are exactly 16.
    pub fn from_slice_le(b: &[u8]) -> (r: Result<Self, uuid::Error>)
        ensures
            r is Ok <==> b@.len() == 16,
            r is Ok ==> r.unwrap()@ == swap_fields(b@),
    {
        match uuid_from_slice_le(b) {
            Ok(bytes) => Ok(CqlTimeuuid(bytes)),
            Err(e) => Err(e),
        }
    }

    pub fn from_bytes(bytes: [u8; 16]) -> (r: Self)
        ensures
            r@ == bytes@,
    {
        CqlTimeuuid(bytes)
    }

    /// Takes the bytes with the first three fields little-endian.
    pub fn from_bytes_le(b: [u8; 16]) -> (r: Self)
        ensures
            r@ == swap_fields(b@),
    {
        let order: [usize; 16] = [3, 2, 1, 0, 5, 4, 7, 6, 8, 9, 10, 11, 12, 13, 14, 15];
        let mut v: Vec<u8> = Vec::new();
        let mut i: usize = 0;
        while i < 16
            invariant
                i <= 16,
                b@.len() == 16,
                order@ == seq![3usize, 2, 1, 0, 5, 4, 7, 6, 8, 9, 10, 11, 12, 13, 14, 15],
                v@ == swap_fields(b@).take(i as int),
            decreases 16 - i,
        {
            v.push(b[order[i]]);
            i += 1;
            assert(v@ =~= swap_fields(b@).take(i as int));
        }
        assert(swap_fields(b@).take(16) =~= swap_fields(b@));
        CqlTimeuuid(array16(&v))
    }

    /// Builds from the fields, each written big-endian.
    pub fn from_fields(d1: u32, d2: u16, d3: u16, d4: &[u8; 8]) -> (r: Self)
        ensures
            r@ == be_u32(d1) + be_u16(d2) + be_u16(d3) + d4@,
    {
        let mut v: Vec<u8> = Vec::new();
        put_u32(&mut v, d1);
        put_u16(&mut v, d2);
        put_u16(&mut v, d3);
        put_slice(&mut v, d4.as_slice());
        CqlTimeuuid(array16(&v))
    }

    /// Builds from the fields, the first three written little-endian.
    pub fn from_fields_le(d1: u32, d2: u16, d3: u16, d4: &[u8; 8]) -> (r: Self)
        ensures
            r@ == le_uint(d1 as u64, 4) + le_uint(d2 as u64, 2) + le_uint(d3 as u64, 2) + d4@,
    {
        let mut v: Vec<u8> = Vec::new();
        put_uint_le(&mut v, d1 as u64, 4);
        put_uint_le(&mut v, d2 as u64, 2);
        put_uint_le(&mut v, d3 as u64, 2);
        put_slice(&mut v, d4.as_slice());
        CqlTimeuuid(array16(&v))
    }

    /// Builds from one big-endian 128-bit integer.
    pub fn from_u128(v: u128) -> (r: Self)
        ensures
            r@ == be_uint((v >> 64u128) as u64, 8) + be_uint(v as u64, 8),
    {
        Self::from_u64_pair((v >> 64u128) as u64, v as u64)
    }

    /// Builds from one 128-bit integer written least significant byte first.
    pub fn from_u128_le(v: u128) -> (r: Self)
        ensures
            r@ == le_uint(v as u64, 8) + le_uint((v >> 64u128) as u64, 8),
    {
        let mut b: Vec<u8> = Vec::new();
        put_uint_le(&mut b, v as u64, 8);
        put_uint_le(&mut b, (v >> 64u128) as u64, 8);
        CqlTimeuuid(array16(&b))
    }

    /// Builds from the high and low halves, each written big-endian.
    pub fn from_u64_pair(high_bits: u64, low_bits: u64) -> (r: Self)
        ensures
            r@ == be_uint(high_bits, 8) + be_uint(low_bits, 8),
    {
        let mut v: Vec<u8> = Vec::new();
        put_uint(&mut v, high_bits, 8);
        put_uint(&mut v, low_bits, 8);
        CqlTimeuuid(array16(&v))
    }

    /// Reads the hyphenated or plain text form of a UUID.
    pub fn parse_str(s: &str) -> (r: Result<Self, uuid::Error>)
        ensures
            r is Ok <==> uuid_parsed(s@) is Some,
            r is Ok ==> r.unwrap()@ == uuid_parsed(s@).unwrap(),
    {
        match uuid_parse_str(s) {
            Ok(bytes) => Ok(CqlTimeuuid(bytes)),
            Err(e) => Err(e),
        }
    }

    /// The hyphenated lower-case text form.
    pub fn to_string(&self) -> (r: String)
        ensures
            r@ == uuid_text(self@),
    {
        uuid_to_text(self.0)
    }

    fn msb(&self) -> (r: u64)
        ensures
            r == msb_of(self@),
    {
        let b = &self.0;
        ((b[6] & 0x0f) as u64) << 56u64 | (b[7] as u64) << 48u64 | (b[4] as u64) << 40u64 | (b[5] as u64)
            << 32u64 | (b[0] as u64) << 24u64 | (b[1] as u64) << 16u64 | (b[2] as u64) << 8u64 | (
        b[3] as u64)
    }

    fn lsb(&self) -> (r: u64)
        ensures
            r == u64_at(self@, 8),
    {
        read_u64_at(self.0.as_slice(), 8)
    }

    fn lsb_signed(&self) -> (r: u64)
        ensures
            r == lsb_signed_of(self@),
    {
        self.lsb() ^ 0x8080_8080_8080_8080u64
    }

    /// Compares in the server's legacy order.
    pub fn cmp(&self, other: &Self) -> (r: Ordering)
        ensures
            r == timeuuid_order(self@, other@),
    {
        let a = self.msb();
        let b = other.msb();
        if a < b {
            Ordering::Less
        } else if a > b {
            Ordering::Greater
        } else {
            let c = self.lsb_signed();
            let d = other.lsb_signed();
            if c < d {
                Ordering::Less
            } else if c > d {
                Ordering::Greater
            } else {
                Ordering::Equal
            }
        }
    }
}

impl PartialEq for CqlTimeuuid {
    fn eq(&self, other: &Self) -> (r: bool) {
        match self.cmp(other) {
            Ordering::Equal => true,
            _ => false,
        }
    }
}

impl vstd::std_specs::cmp::PartialEqSpecImpl for CqlTimeuuid {
    open spec fn obeys_eq_spec() -> bool {
        true
    }

    open spec fn eq_spec(&self, other: &CqlTimeuuid) -> bool {
        timeuuid_order(self@, other@) == Ordering::Equal
    }
}

impl Eq for CqlTimeuuid {
}

impl PartialOrd for CqlTimeuuid {
    fn partial_cmp(&self, other: &Self) -> (r: Option<Ordering>) {
        Some(self.cmp(other))
    }
}

impl vstd::std_specs::cmp::PartialOrdSpecImpl for CqlTimeuuid {
    open spec fn obeys_partial_cmp_spec() -> bool {
        true
    }

    open spec fn partial_cmp_spec(&self, other: &CqlTimeuuid) -> Option<Ordering> {
        Some(timeuuid_order(self@, other@))
    }
}

impl core::hash::Hash for CqlTimeuuid {
    /// Hashes the two halves that the order compares.
    fn hash<H: core::hash::Hasher>(&self, state: &mut H) {
        let l = self.lsb_signed();
        let m = self.msb();
        l.hash(state);
        m.hash(state);
    }
}

impl Value for CqlTimeuuid {
    open spec fn encoded(&self) -> Option<Seq<u8>> {
        with_length(self@)
    }

    fn serialize(&self, buf: &mut Vec<u8>) -> (r: Result<(), ValueTooBig>) {
        let r = serialize_bytes(self.0.as_slice(), buf);
        r
    }
}

/// The version nibble (the high half of byte 6) plays no part in the order:
/// two identifiers that differ only there compare alike against any third.
pub proof fn lemma_order_ignores_version(a: Seq<u8>, a2: Seq<u8>, b: Seq<u8>)
    requires
        a.len() == 16,
        a2.len() == 16,
        b.len() == 16,
        forall|i: int| 0 <= i < 16 && i != 6 ==> a[i] == a2[i],
        a[6] & 0x0f == a2[6] & 0x0f,
    ensures
        timeuuid_order(a, b) == timeuuid_order(a2, b),
        timeuuid_order(b, a) == timeuuid_order(b, a2),
{
    assert(msb_of(a) == msb_of(a2));
    assert(u64_at(a, 8) == u64_at(a2, 8));
}

} // verus!
