//! The protocol's own scalar representations: arbitrary-precision integers
//! and decimals, calendar values, durations and time-ordered identifiers.

use vstd::prelude::*;
use vstd::std_specs::cmp::PartialEqSpec;
use crate::value::{Value, ValueOverflow, ValueTooBig};
use crate::wire::{
    be_i32, be_i64, be_u32, lemma_with_length_framed, put_i32, put_i64, put_slice, put_u32,
    vint, vint_encode, with_length,
};

verus! {

/// Two byte sequences are equal.
pub fn bytes_equal(a: &[u8], b: &[u8]) -> (r: bool)
    ensures
        r == (a@ == b@),
{
    if a.len() != b.len() {
        return false;
    }
    let mut i: usize = 0;
    while i < a.len()
        invariant
            a@.len() == b@.len(),
            i <= a@.len(),
            a@.take(i as int) == b@.take(i as int),
        decreases a@.len() - i,
    {
        if a[i] != b[i] {
            assert(a@[i as int] != b@[i as int]);
            return false;
        }
        assert(a@.take(i as int + 1) =~= a@.take(i as int).push(a@[i as int]));
        assert(b@.take(i as int + 1) =~= b@.take(i as int).push(b@[i as int]));
        i += 1;
    }
    assert(a@.take(a@.len() as int) =~= a@);
    assert(b@.take(b@.len() as int) =~= b@);
    true
}

/// The canonical form of a two's-complement big-endian integer: empty and
/// all-zero sequences become a single zero byte; otherwise leading zero bytes
/// go, except one that keeps a positive number whose next byte has its high
/// bit set from reading as negative.
pub open spec fn normalized(b: Seq<u8>) -> Seq<u8>
    decreases b.len(),
{
    if b.len() == 0 {
        seq![0u8]
    } else if b.len() >= 2 && b[0] == 0 && b[1] < 0x80 {
        normalized(b.drop_first())
    } else {
        b
    }
}

/// Normalizing twice is normalizing once.
pub proof fn lemma_normalized_idempotent(b: Seq<u8>)
    ensures
        normalized(normalized(b)) == normalized(b),
    decreases b.len(),
{
    if b.len() >= 2 && b[0] == 0 && b[1] < 0x80 {
        lemma_normalized_idempotent(b.drop_first());
    }
}

/// An integer of arbitrary size, as the two's-complement big-endian bytes it
/// was built from. The bytes may carry redundant leading zeros: they are sent
/// as they are, while equality looks at the normalized form.
#[derive(Debug)]
pub struct CqlVarint(Vec<u8>);

impl View for CqlVarint {
    type V = Seq<u8>;

    closed spec fn view(&self) -> Seq<u8> {
        self.0@
    }
}

impl Clone for CqlVarint {
    fn clone(&self) -> (r: Self)
        ensures
            r@ == self@,
    {
        let mut v: Vec<u8> = Vec::new();
        put_slice(&mut v, self.0.as_slice());
        CqlVarint(v)
    }
}

impl CqlVarint {
    /// Takes the two's-complement big-endian bytes as they are.
    pub fn from_signed_bytes_be(digits: Vec<u8>) -> (r: Self)
        ensures
            r@ == digits@,
    {
        CqlVarint(digits)
    }

    pub fn from_signed_bytes_be_slice(digits: &[u8]) -> (r: Self)
        ensures
            r@ == digits@,
    {
        let mut v: Vec<u8> = Vec::new();
        put_slice(&mut v, digits);
        Self::from_signed_bytes_be(v)
    }

    pub fn into_signed_bytes_be(self) -> (r: Vec<u8>)
        ensures
            r@ == self@,
    {
        self.0
    }

    pub fn as_signed_bytes_be_slice(&self) -> (r: &[u8])
        ensures
            r@ == self@,
    {
        self.0.as_slice()
    }

    /// The bytes in canonical form, see [`normalized`].
    fn as_normalized_slice(&self) -> (r: Vec<u8>)
        ensures
            r@ == normalized(self@),
    {
        let digits = self.0.as_slice();
        if digits.len() == 0 {
            return vec![0u8];
        }
        let mut i: usize = 0;
        assert(digits@.subrange(0, digits@.len() as int) =~= digits@);
        while i < digits.len() - 1 && digits[i] == 0 && digits[i + 1] < 0x80
            invariant
                i < digits@.len(),
                normalized(digits@.subrange(i as int, digits@.len() as int)) == normalized(digits@),
            decreases digits@.len() - i,
        {
            let ghost rest = digits@.subrange(i as int, digits@.len() as int);
            assert(rest.drop_first() =~= digits@.subrange(i + 1, digits@.len() as int));
            i += 1;
        }
        let mut out: Vec<u8> = Vec::new();
        let mut j: usize = i;
        while j < digits.len()
            invariant
                i <= j <= digits@.len(),
                out@ == digits@.subrange(i as int, j as int),
            decreases digits@.len() - j,
        {
            out.push(digits[j]);
            j += 1;
            assert(out@ =~= digits@.subrange(i as int, j as int));
        }
        out
    }
}

impl PartialEq for CqlVarint {
    /// Equal when the normalized forms are.
    fn eq(&self, other: &Self) -> (r: bool) {
        let a = self.as_normalized_slice();
        let b = other.as_normalized_slice();
        bytes_equal(a.as_slice(), b.as_slice())
    }
}

impl vstd::std_specs::cmp::PartialEqSpecImpl for CqlVarint {
    open spec fn obeys_eq_spec() -> bool {
        true
    }

    open spec fn eq_spec(&self, other: &CqlVarint) -> bool {
        normalized(self@) == normalized(other@)
    }
}

impl Eq for CqlVarint {
}

impl core::hash::Hash for CqlVarint {
    /// Hashes the normalized form, so that equal varints hash alike.
    fn hash<H: core::hash::Hasher>(&self, state: &mut H) {
        let normalized = self.as_normalized_slice();
        normalized.as_slice().hash(state);
    }
}

/// Relies on std's `Hash` for slices, which feeds the hasher; nothing is
/// claimed of the state it leaves.
pub assume_specification<Elem: std::hash::Hash, Hs: std::hash::Hasher>[ <[Elem] as std::hash::Hash>::hash::<Hs> ](
    data: &[Elem],
    state: &mut Hs,
);

/// A varint equals the varint built from its normalized bytes, and both
/// hash the same bytes.
pub proof fn lemma_varint_normalized_equal(a: CqlVarint, b: CqlVarint)
    requires
        b@ == normalized(a@),
    ensures
        a.eq_spec(&b),
        normalized(a@) == normalized(b@),
{
    lemma_normalized_idempotent(a@);
}

impl Value for CqlVarint {
    open spec fn encoded(&self) -> Option<Seq<u8>> {
        with_length(self@)
    }

    fn serialize(&self, buf: &mut Vec<u8>) -> (r: Result<(), ValueTooBig>) {
        let r = crate::value::serialize_bytes(self.0.as_slice(), buf);
        r
    }
}

/// A decimal of arbitrary precision: an unscaled varint and a 32-bit scale.
/// Equality compares the two parts, the varint by its normalized form.
#[derive(Debug)]
pub struct CqlDecimal {
    int_val: CqlVarint,
    scale: i32,
}

impl View for CqlDecimal {
    type V = (Seq<u8>, i32);

    closed spec fn view(&self) -> (Seq<u8>, i32) {
        (self.int_val@, self.scale)
    }
}

impl Clone for CqlDecimal {
    fn clone(&self) -> (r: Self)
        ensures
            r@ == self@,
    {
        CqlDecimal { int_val: self.int_val.clone(), scale: self.scale }
    }
}

impl PartialEq for CqlDecimal {
    fn eq(&self, other: &Self) -> (r: bool) {
        self.scale == other.scale && self.int_val.eq(&other.int_val)
    }
}

impl vstd::std_specs::cmp::PartialEqSpecImpl for CqlDecimal {
    open spec fn obeys_eq_spec() -> bool {
        true
    }

    open spec fn eq_spec(&self, other: &CqlDecimal) -> bool {
        normalized(self@.0) == normalized(other@.0) && self@.1 == other@.1
    }
}

impl Eq for CqlDecimal {
}

impl CqlDecimal {
    pub fn from_signed_be_bytes_and_exponent(bytes: Vec<u8>, scale: i32) -> (r: Self)
        ensures
            r@ == (bytes@, scale),
    {
        CqlDecimal { int_val: CqlVarint::from_signed_bytes_be(bytes), scale }
    }

    pub fn from_signed_be_bytes_slice_and_exponent(bytes: &[u8], scale: i32) -> (r: Self)
        ensures
            r@ == (bytes@, scale),
    {
        CqlDecimal { int_val: CqlVarint::from_signed_bytes_be_slice(bytes), scale }
    }

    pub fn as_signed_be_bytes_slice_and_exponent(&self) -> (r: (&[u8], i32))
        ensures
            r.0@ == self@.0,
            r.1 == self@.1,
    {
        (self.int_val.as_signed_bytes_be_slice(), self.scale)
    }

    pub fn into_signed_be_bytes_and_exponent(self) -> (r: (Vec<u8>, i32))
        ensures
            r.0@ == self@.0,
            r.1 == self@.1,
    {
        (self.int_val.into_signed_bytes_be(), self.scale)
    }
}

impl Value for CqlDecimal {
    /// The scale, then the unscaled bytes, behind their joint length.
    open spec fn encoded(&self) -> Option<Seq<u8>> {
        with_length(be_i32(self@.1) + self@.0)
    }

    fn serialize(&self, buf: &mut Vec<u8>) -> (r: Result<(), ValueTooBig>) {
        let (bytes, scale) = self.as_signed_be_bytes_slice_and_exponent();
        if bytes.len() > (i32::MAX - 4) as usize {
            return Err(ValueTooBig);
        }
        let serialized_len: i32 = bytes.len() as i32 + 4;
        put_i32(buf, serialized_len);
        put_i32(buf, scale);
        put_slice(buf, bytes);
        proof {
            let payload = be_i32(scale) + bytes@;
            assert(buf@ =~= old(buf)@ + with_length(payload).unwrap());
            lemma_with_length_framed(payload);
        }
        Ok(())
    }
}

/// A date, as the number of days since 2^31 days before the Unix epoch:
/// the epoch itself is 2^31.
#[derive(Clone, Copy, PartialEq, Eq, Debug)]
pub struct CqlDate(pub u32);

/// A timestamp, as signed milliseconds since the Unix epoch.
#[derive(Clone, Copy, PartialEq, Eq, Debug)]
pub struct CqlTimestamp(pub i64);

/// A time of day, as nanoseconds since midnight.
#[derive(Clone, Copy, PartialEq, Eq, Debug)]
pub struct CqlTime(pub i64);

impl Value for CqlDate {
    open spec fn encoded(&self) -> Option<Seq<u8>> {
        Some(be_i32(4) + be_u32(self.0))
    }

    fn serialize(&self, buf: &mut Vec<u8>) -> (r: Result<(), ValueTooBig>) {
        put_i32(buf, 4);
        put_u32(buf, self.0);
        proof {
            lemma_with_length_framed(be_u32(self.0));
        }
        Ok(())
    }
}

impl Value for CqlTimestamp {
    open spec fn encoded(&self) -> Option<Seq<u8>> {
        Some(be_i32(8) + be_i64(self.0))
    }

    fn serialize(&self, buf: &mut Vec<u8>) -> (r: Result<(), ValueTooBig>) {
        put_i32(buf, 8);
        put_i64(buf, self.0);
        proof {
            lemma_with_length_framed(be_i64(self.0));
        }
        Ok(())
    }
}

impl Value for CqlTime {
    open spec fn encoded(&self) -> Option<Seq<u8>> {
        Some(be_i32(8) + be_i64(self.0))
    }

    fn serialize(&self, buf: &mut Vec<u8>) -> (r: Result<(), ValueTooBig>) {
        put_i32(buf, 8);
        put_i64(buf, self.0);
        proof {
            lemma_with_length_framed(be_i64(self.0));
        }
        Ok(())
    }
}

/// The day count of the Unix epoch in a [`CqlDate`].
pub const EPOCH_DAY: u32 = 0x8000_0000;

/// The last nanosecond of a day, leap second included.
pub const MAX_TIME_NANOS: i64 = 86_399_999_999_999;

pub const NANOS_PER_SECOND: i64 = 1_000_000_000;

impl CqlDate {
    /// The date that lies `days` days after the Unix epoch (before it, when
    /// negative); overflow where that is outside the representable range.
    pub fn from_days_since_epoch(days: i64) -> (r: Result<CqlDate, ValueOverflow>)
        ensures
            r is Ok <==> -(EPOCH_DAY as int) <= days < EPOCH_DAY,
            r is Ok ==> r.unwrap().0 == days + EPOCH_DAY,
    {
        if days < -(EPOCH_DAY as i64) || days >= EPOCH_DAY as i64 {
            Err(ValueOverflow)
        } else {
            Ok(CqlDate((days + EPOCH_DAY as i64) as u32))
        }
    }

    /// The number of days from the Unix epoch to this date.
    pub fn days_since_epoch(&self) -> (r: i64)
        ensures
            r == self.0 - EPOCH_DAY,
    {
        self.0 as i64 - EPOCH_DAY as i64
    }
}

impl CqlTimestamp {
    /// The instant `secs` seconds and `millis` milliseconds after the Unix
    /// epoch; overflow where the millisecond count does not fit 64 bits.
    pub fn from_unix_seconds_and_millis(secs: i64, millis: u16) -> (r: Result<CqlTimestamp, ValueOverflow>)
        ensures
            r is Ok <==> i64::MIN <= secs * 1000 + millis <= i64::MAX,
            r is Ok ==> r.unwrap().0 == secs * 1000 + millis,
    {
        let total: i128 = secs as i128 * 1000 + millis as i128;
        if total > i64::MAX as i128 || total < i64::MIN as i128 {
            Err(ValueOverflow)
        } else {
            Ok(CqlTimestamp(total as i64))
        }
    }
}

impl CqlTime {
    /// The time of day `h:m:s` and `n` nanoseconds; overflow unless it lies
    /// within one day, leap second included.
    pub fn from_hms_nano(h: u8, m: u8, s: u8, n: u32) -> (r: Result<CqlTime, ValueOverflow>)
        ensures
            r is Ok <==> ((h * 60 + m) * 60 + s) * NANOS_PER_SECOND + n <= MAX_TIME_NANOS,
            r is Ok ==> r.unwrap().0 == ((h * 60 + m) * 60 + s) * NANOS_PER_SECOND + n,
    {
        let secs: i64 = (h as i64 * 60 + m as i64) * 60 + s as i64;
        assert(0 <= secs <= 1_000_000);
        let nanos: i64 = secs * NANOS_PER_SECOND + n as i64;
        CqlTime::from_nanos_since_midnight(nanos)
    }
    /// The time of day `nanos` nanoseconds after midnight; overflow unless
    /// it lies within one day, leap second included.
    pub fn from_nanos_since_midnight(nanos: i64) -> (r: Result<CqlTime, ValueOverflow>)
        ensures
            r is Ok <==> 0 <= nanos <= MAX_TIME_NANOS,
            r is Ok ==> r.unwrap().0 == nanos,
    {
        if 0 <= nanos && nanos <= MAX_TIME_NANOS {
            Ok(CqlTime(nanos))
        } else {
            Err(ValueOverflow)
        }
    }

    /// Whole seconds since midnight and the nanoseconds past them; overflow
    /// where either does not fit 32 unsigned bits.
    pub fn as_seconds_and_nanos(&self) -> (r: Result<(u32, u32), ValueOverflow>)
        ensures
            r is Ok <==> 0 <= self.0 && self.0 / NANOS_PER_SECOND <= u32::MAX,
            r is Ok ==> r.unwrap().0 == self.0 / NANOS_PER_SECOND && r.unwrap().1 == self.0
                % NANOS_PER_SECOND,
    {
        if self.0 < 0 {
            return Err(ValueOverflow);
        }
        let secs = self.0 / NANOS_PER_SECOND;
        if secs > u32::MAX as i64 {
            return Err(ValueOverflow);
        }
        Ok((secs as u32, (self.0 % NANOS_PER_SECOND) as u32))
    }

    /// Hours, minutes, seconds and nanoseconds since midnight; overflow
    /// unless the time lies within one day.
    pub fn as_hms_nano(&self) -> (r: Result<(u8, u8, u8, u32), ValueOverflow>)
        ensures
            r is Ok <==> 0 <= self.0 < 24 * 3600 * NANOS_PER_SECOND,
            r is Ok ==> {
                let (h, m, s, n) = r.unwrap();
                &&& h < 24 && m < 60 && s < 60 && n < NANOS_PER_SECOND
                &&& self.0 == ((h * 60 + m) * 60 + s) * NANOS_PER_SECOND + n
            },
    {
        if self.0 < 0 || self.0 >= 24 * 3600 * NANOS_PER_SECOND {
            return Err(ValueOverflow);
        }
        let t = self.0;
        let secs = t / NANOS_PER_SECOND;
        let n = t % NANOS_PER_SECOND;
        let h = secs / 3600;
        let m = secs / 60 % 60;
        let s = secs % 60;
        assert(secs == (h * 60 + m) * 60 + s) by (nonlinear_arith)
            requires
                0 <= secs,
                h == secs / 3600,
                m == secs / 60 % 60,
                s == secs % 60,
        ;
        assert(h < 24) by (nonlinear_arith)
            requires
                0 <= t < 24 * 3600 * NANOS_PER_SECOND,
                secs == t / NANOS_PER_SECOND,
                h == secs / 3600,
        ;
        Ok((h as u8, m as u8, s as u8, n as u32))
    }
}

/// A calendar-relative interval.
#[derive(Clone, Debug, Copy, PartialEq, Eq)]
pub struct CqlDuration {
    pub months: i32,
    pub days: i32,
    pub nanoseconds: i64,
}

impl Value for CqlDuration {
    /// Months, days and nanoseconds, each in variable-length form, behind
    /// their joint length.
    open spec fn encoded(&self) -> Option<Seq<u8>> {
        with_length(vint(self.months as i64) + vint(self.days as i64) + vint(self.nanoseconds))
    }

    fn serialize(&self, buf: &mut Vec<u8>) -> (r: Result<(), ValueTooBig>) {
        let ghost start = buf@;
        let bytes_num_pos = buf.len();
        put_i32(buf, 0);
        vint_encode(self.months as i64, buf);
        vint_encode(self.days as i64, buf);
        vint_encode(self.nanoseconds, buf);
        let ghost body = vint(self.months as i64) + vint(self.days as i64) + vint(self.nanoseconds);
        assert(buf@ =~= start + be_i32(0) + body);
        let written = buf.len() - bytes_num_pos - 4;
        assert(written == body.len());
        assert(body.len() <= 27) by {
            assert(vint(self.months as i64).len() <= 9);
            assert(vint(self.days as i64).len() <= 9);
            assert(vint(self.nanoseconds).len() <= 9);
        }
        crate::wire::patch_i32(buf, bytes_num_pos, written as i32);
        proof {
            assert(buf@ =~= start + with_length(body).unwrap());
            lemma_with_length_framed(body);
        }
        Ok(())
    }
}

} // verus!
