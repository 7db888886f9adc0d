//! Adapting collections of values into value buffers, and pull-based,
//! restartable traversals over the value lists of a batch.

use vstd::prelude::*;
use crate::serialized::{name_bytes, LegacySerializedValues, SerializeValuesError, ValuesView};
use vstd::utf8::encode_utf8;
use crate::value::{Value, ValueTooBig};
use crate::wire::{be_u16, parse_value};

verus! {

/// A value buffer, either borrowed from its source or newly built.
pub enum SerializedValues<'a> {
    Borrowed(&'a LegacySerializedValues),
    Owned(LegacySerializedValues),
}

impl<'a> View for SerializedValues<'a> {
    type V = ValuesView;

    open spec fn view(&self) -> ValuesView {
        match self {
            SerializedValues::Borrowed(v) => v@,
            SerializedValues::Owned(v) => v@,
        }
    }
}

impl<'a> SerializedValues<'a> {
    pub fn as_values(&self) -> (r: &LegacySerializedValues)
        ensures
            r@ == self@,
    {
        match self {
            SerializedValues::Borrowed(v) => v,
            SerializedValues::Owned(v) => v,
        }
    }
}

pub type SerializedResult<'a> = Result<SerializedValues<'a>, SerializeValuesError>;

/// `r` is what `s` says: the same buffer, or the same error.
pub open spec fn result_matches(r: SerializedResult, s: Result<ValuesView, SerializeValuesError>) -> bool {
    match (r, s) {
        (Ok(v), Ok(w)) => v@ == w,
        (Err(e), Err(f)) => e == f,
        _ => false,
    }
}

/// The outcome of `s` with the buffer dropped.
pub open spec fn unit_of(s: Result<ValuesView, SerializeValuesError>) -> Result<(), SerializeValuesError> {
    match s {
        Ok(_) => Ok(()),
        Err(e) => Err(e),
    }
}

/// The wire form of a buffer: its 16-bit count, then its bytes.
pub open spec fn wire_form(v: ValuesView) -> Seq<u8> {
    be_u16(v.entries.len() as u16) + v.bytes
}

/// The buffer that appending values with these encodings, one by one and
/// positionally, to an empty buffer gives; or the first error met.
pub open spec fn positional(encs: Seq<Option<Seq<u8>>>) -> Result<ValuesView, SerializeValuesError>
    decreases encs.len(),
{
    if encs.len() == 0 {
        Ok(ValuesView { named: false, bytes: Seq::empty(), entries: Seq::empty() })
    } else {
        match positional(encs.drop_last()) {
            Err(e) => Err(e),
            Ok(v) => if v.entries.len() >= u16::MAX {
                Err(SerializeValuesError::TooManyValues)
            } else {
                match encs.last() {
                    None => Err(SerializeValuesError::ValueTooBig(ValueTooBig)),
                    Some(w) => Ok(
                        ValuesView {
                            named: false,
                            bytes: v.bytes + w,
                            entries: v.entries.push((None, parse_value(w).unwrap().0)),
                        },
                    ),
                }
            },
        }
    }
}

/// A positional buffer built so far keeps building positionally.
pub proof fn lemma_positional_unnamed(encs: Seq<Option<Seq<u8>>>)
    ensures
        positional(encs) is Ok ==> !positional(encs).unwrap().named,
    decreases encs.len(),
{
    if encs.len() > 0 {
        lemma_positional_unnamed(encs.drop_last());
    }
}

/// Once building fails, appending more values keeps the same error.
pub proof fn lemma_positional_err_sticks(encs: Seq<Option<Seq<u8>>>, i: int)
    requires
        0 <= i <= encs.len(),
        positional(encs.take(i)) is Err,
    ensures
        positional(encs) == positional(encs.take(i)),
    decreases encs.len() - i,
{
    if i < encs.len() {
        assert(encs.take(i + 1).drop_last() =~= encs.take(i));
        lemma_positional_err_sticks(encs, i + 1);
    } else {
        assert(encs.take(i) =~= encs);
    }
}

/// Appends the next positional value while building a value list.
fn add_positional<V: Value>(
    result: &mut LegacySerializedValues,
    val: &V,
    Ghost(prev): Ghost<Seq<Option<Seq<u8>>>>,
) -> (r: Result<(), SerializeValuesError>)
    requires
        positional(prev) is Ok,
        old(result)@ == positional(prev).unwrap(),
    ensures
        r is Ok <==> positional(prev.push(val.encoded())) is Ok,
        r is Ok ==> final(result)@ == positional(prev.push(val.encoded())).unwrap(),
        r is Err ==> r == unit_of(positional(prev.push(val.encoded()))),
{
    proof {
        lemma_positional_unnamed(prev);
        assert(prev.push(val.encoded()).drop_last() =~= prev);
    }
    result.add_value(val)
}

/// The buffer that appending values with these encodings, one by one and
/// each under its name, to an empty buffer gives; or the first error met.
pub open spec fn named_values(entries: Seq<(Seq<char>, Option<Seq<u8>>)>) -> Result<ValuesView, SerializeValuesError>
    decreases entries.len(),
{
    if entries.len() == 0 {
        Ok(ValuesView { named: false, bytes: Seq::empty(), entries: Seq::empty() })
    } else {
        match named_values(entries.drop_last()) {
            Err(e) => Err(e),
            Ok(v) => {
                let (name, enc) = entries.last();
                if v.entries.len() >= u16::MAX {
                    Err(SerializeValuesError::TooManyValues)
                } else if encode_utf8(name).len() > u16::MAX {
                    Err(SerializeValuesError::ParseError)
                } else {
                    match enc {
                        None => Err(SerializeValuesError::ValueTooBig(ValueTooBig)),
                        Some(w) => Ok(
                            ValuesView {
                                named: true,
                                bytes: v.bytes + name_bytes(encode_utf8(name)) + w,
                                entries: v.entries.push(
                                    (Some(encode_utf8(name)), parse_value(w).unwrap().0),
                                ),
                            },
                        ),
                    }
                }
            },
        }
    }
}

/// A buffer built from named values is in named mode, or still empty.
pub proof fn lemma_named_values_mode(entries: Seq<(Seq<char>, Option<Seq<u8>>)>)
    ensures
        named_values(entries) is Ok ==> named_values(entries).unwrap().named || named_values(
            entries,
        ).unwrap().entries.len() == 0,
    decreases entries.len(),
{
    if entries.len() > 0 {
        lemma_named_values_mode(entries.drop_last());
    }
}

pub proof fn lemma_named_values_err_sticks(entries: Seq<(Seq<char>, Option<Seq<u8>>)>, i: int)
    requires
        0 <= i <= entries.len(),
        named_values(entries.take(i)) is Err,
    ensures
        named_values(entries) == named_values(entries.take(i)),
    decreases entries.len() - i,
{
    if i < entries.len() {
        assert(entries.take(i + 1).drop_last() =~= entries.take(i));
        lemma_named_values_err_sticks(entries, i + 1);
    } else {
        assert(entries.take(i) =~= entries);
    }
}

/// The names and value encodings of `s`.
pub open spec fn named_encodings<T: Value>(s: Seq<(&str, T)>) -> Seq<(Seq<char>, Option<Seq<u8>>)> {
    s.map_values(|p: (&str, T)| (p.0@, p.1.encoded()))
}

/// Builds a named buffer from `entries`, in order: each value under its
/// name. A map of values becomes a buffer this way, in the map's order.
pub fn serialize_named_values<T: Value>(entries: &[(&str, T)]) -> (r: Result<
    LegacySerializedValues,
    SerializeValuesError,
>)
    ensures
        match (r, named_values(named_encodings(entries@))) {
            (Ok(v), Ok(w)) => v@ == w,
            (Err(e), Err(f)) => e == f,
            _ => false,
        },
{
    let ghost encs = named_encodings(entries@);
    let mut result = LegacySerializedValues::new();
    let mut i: usize = 0;
    assert(encs.take(0) =~= Seq::<(Seq<char>, Option<Seq<u8>>)>::empty());
    while i < entries.len()
        invariant
            i <= entries@.len(),
            encs == named_encodings(entries@),
            named_values(encs.take(i as int)) is Ok,
            result@ == named_values(encs.take(i as int)).unwrap(),
        decreases entries@.len() - i,
    {
        let entry = &entries[i];
        proof {
            lemma_named_values_mode(encs.take(i as int));
            assert(encs.take(i + 1).drop_last() =~= encs.take(i as int));
            assert(encs.take(i + 1).last() == (entry.0@, entry.1.encoded()));
        }
        let r = result.add_named_value(entry.0, &entry.1);
        match r {
            Ok(()) => {},
            Err(e) => {
                proof {
                    lemma_named_values_err_sticks(encs, i + 1);
                }
                return Err(e);
            },
        }
        i += 1;
    }
    assert(encs.take(entries@.len() as int) =~= encs);
    Ok(result)
}

/// Every aggregate that can be bound to a statement implements this: it
/// becomes a value buffer.
pub trait ValueList {
    /// The buffer this list becomes, or the error building it gives.
    spec fn serialized_spec(&self) -> Result<ValuesView, SerializeValuesError>;

    /// The list as a buffer, borrowed where it already is one.
    fn serialized(&self) -> (r: SerializedResult<'_>)
        ensures
            result_matches(r, self.serialized_spec()),
    ;

    /// Writes the list's wire form.
    fn write_to_request(&self, buf: &mut Vec<u8>) -> (r: Result<(), SerializeValuesError>)
        ensures
            r is Ok <==> self.serialized_spec() is Ok,
            r is Ok ==> final(buf)@ == old(buf)@ + wire_form(self.serialized_spec().unwrap()),
            r is Err ==> r == unit_of(self.serialized_spec()) && final(buf)@ == old(buf)@,
    {
        match self.serialized() {
            Ok(s) => {
                s.as_values().write_to_request(buf);
                Ok(())
            },
            Err(e) => Err(e),
        }
    }
}

impl ValueList for () {
    open spec fn serialized_spec(&self) -> Result<ValuesView, SerializeValuesError> {
        positional(Seq::empty())
    }

    fn serialized(&self) -> (r: SerializedResult<'_>) {
        Ok(SerializedValues::Owned(LegacySerializedValues::new()))
    }
}

impl ValueList for [u8; 0] {
    open spec fn serialized_spec(&self) -> Result<ValuesView, SerializeValuesError> {
        positional(Seq::empty())
    }

    fn serialized(&self) -> (r: SerializedResult<'_>) {
        Ok(SerializedValues::Owned(LegacySerializedValues::new()))
    }
}

/// The encodings of the values of `s`.
pub open spec fn encodings<T: Value>(s: Seq<T>) -> Seq<Option<Seq<u8>>> {
    s.map_values(|v: T| v.encoded())
}

/// Builds a positional buffer from `values`, in order.
pub fn serialize_values<T: Value>(values: &[T]) -> (r: Result<LegacySerializedValues, SerializeValuesError>)
    ensures
        match (r, positional(encodings(values@))) {
            (Ok(v), Ok(w)) => v@ == w,
            (Err(e), Err(f)) => e == f,
            _ => false,
        },
{
    let ghost encs = encodings(values@);
    let mut result = LegacySerializedValues::new();
    let mut i: usize = 0;
    assert(encs.take(0) =~= Seq::<Option<Seq<u8>>>::empty());
    while i < values.len()
        invariant
            i <= values@.len(),
            encs == encodings(values@),
            positional(encs.take(i as int)) is Ok,
            result@ == positional(encs.take(i as int)).unwrap(),
        decreases values@.len() - i,
    {
        let r = add_positional(&mut result, &values[i], Ghost(encs.take(i as int)));
        assert(encs.take(i as int).push(values@[i as int].encoded()) =~= encs.take(i + 1));
        match r {
            Ok(()) => {},
            Err(e) => {
                proof {
                    lemma_positional_err_sticks(encs, i + 1);
                }
                return Err(e);
            },
        }
        i += 1;
    }
    assert(encs.take(values@.len() as int) =~= encs);
    Ok(result)
}

impl<T: Value> ValueList for &[T] {
    open spec fn serialized_spec(&self) -> Result<ValuesView, SerializeValuesError> {
        positional(encodings(self@))
    }

    fn serialized(&self) -> (r: SerializedResult<'_>) {
        match serialize_values(*self) {
            Ok(v) => Ok(SerializedValues::Owned(v)),
            Err(e) => Err(e),
        }
    }
}

impl<T: Value> ValueList for Vec<T> {
    open spec fn serialized_spec(&self) -> Result<ValuesView, SerializeValuesError> {
        positional(encodings(self@))
    }

    fn serialized(&self) -> (r: SerializedResult<'_>) {
        match serialize_values(self.as_slice()) {
            Ok(v) => Ok(SerializedValues::Owned(v)),
            Err(e) => Err(e),
        }
    }
}

impl<T: ValueList> ValueList for &T {
    open spec fn serialized_spec(&self) -> Result<ValuesView, SerializeValuesError> {
        (**self).serialized_spec()
    }

    fn serialized(&self) -> (r: SerializedResult<'_>) {
        (**self).serialized()
    }
}

impl ValueList for LegacySerializedValues {
    open spec fn serialized_spec(&self) -> Result<ValuesView, SerializeValuesError> {
        Ok(self@)
    }

    /// Already a buffer: lent as it is, with no copy.
    fn serialized(&self) -> (r: SerializedResult<'_>)
        ensures
            r is Ok,
            r.unwrap() is Borrowed,
    {
        Ok(SerializedValues::Borrowed(self))
    }
}

impl<'b> ValueList for SerializedValues<'b> {
    open spec fn serialized_spec(&self) -> Result<ValuesView, SerializeValuesError> {
        Ok(self@)
    }

    fn serialized(&self) -> (r: SerializedResult<'_>)
        ensures
            r is Ok,
            r.unwrap() is Borrowed,
    {
        Ok(SerializedValues::Borrowed(self.as_values()))
    }
}

impl<T0: Value> ValueList for (T0,) {
    open spec fn serialized_spec(&self) -> Result<ValuesView, SerializeValuesError> {
        positional(seq![self.0.encoded()])
    }

    fn serialized(&self) -> (r: SerializedResult<'_>) {
        let ghost encs = seq![self.0.encoded()];
        let mut result = LegacySerializedValues::new();
        assert(encs.take(0) =~= Seq::<Option<Seq<u8>>>::empty());
        let r = add_positional(&mut result, &self.0, Ghost(encs.take(0)));
        assert(encs.take(0).push(self.0.encoded()) =~= encs.take(1));
        if let Err(e) = r {
            proof {
                lemma_positional_err_sticks(encs, 1);
            }
            return Err(e);
        }
        assert(encs.take(1) =~= encs);
        Ok(SerializedValues::Owned(result))
    }
}

impl<T0: Value, T1: Value> ValueList for (T0, T1) {
    open spec fn serialized_spec(&self) -> Result<ValuesView, SerializeValuesError> {
        positional(seq![self.0.encoded(), self.1.encoded()])
    }

    fn serialized(&self) -> (r: SerializedResult<'_>) {
        let ghost encs = seq![self.0.encoded(), self.1.encoded()];
        let mut result = LegacySerializedValues::new();
        assert(encs.take(0) =~= Seq::<Option<Seq<u8>>>::empty());
        let r = add_positional(&mut result, &self.0, Ghost(encs.take(0)));
        assert(encs.take(0).push(self.0.encoded()) =~= encs.take(1));
        if let Err(e) = r {
            proof {
                lemma_positional_err_sticks(encs, 1);
            }
            return Err(e);
        }
        let r = add_positional(&mut result, &self.1, Ghost(encs.take(1)));
        assert(encs.take(1).push(self.1.encoded()) =~= encs.take(2));
        if let Err(e) = r {
            proof {
                lemma_positional_err_sticks(encs, 2);
            }
            return Err(e);
        }
        assert(encs.take(2) =~= encs);
        Ok(SerializedValues::Owned(result))
    }
}

impl<T0: Value, T1: Value, T2: Value> ValueList for (T0, T1, T2) {
    open spec fn serialized_spec(&self) -> Result<ValuesView, SerializeValuesError> {
        positional(seq![self.0.encoded(), self.1.encoded(), self.2.encoded()])
    }

    fn serialized(&self) -> (r: SerializedResult<'_>) {
        let ghost encs = seq![self.0.encoded(), self.1.encoded(), self.2.encoded()];
        let mut result = LegacySerializedValues::new();
        assert(encs.take(0) =~= Seq::<Option<Seq<u8>>>::empty());
        let r = add_positional(&mut result, &self.0, Ghost(encs.take(0)));
        assert(encs.take(0).push(self.0.encoded()) =~= encs.take(1));
        if let Err(e) = r {
            proof {
                lemma_positional_err_sticks(encs, 1);
            }
            return Err(e);
        }
        let r = add_positional(&mut result, &self.1, Ghost(encs.take(1)));
        assert(encs.take(1).push(self.1.encoded()) =~= encs.take(2));
        if let Err(e) = r {
            proof {
                lemma_positional_err_sticks(encs, 2);
            }
            return Err(e);
        }
        let r = add_positional(&mut result, &self.2, Ghost(encs.take(2)));
        assert(encs.take(2).push(self.2.encoded()) =~= encs.take(3));
        if let Err(e) = r {
            proof {
                lemma_positional_err_sticks(encs, 3);
            }
            return Err(e);
        }
        assert(encs.take(3) =~= encs);
        Ok(SerializedValues::Owned(result))
    }
}

impl<T0: Value, T1: Value, T2: Value, T3: Value> ValueList for (T0, T1, T2, T3) {
    open spec fn serialized_spec(&self) -> Result<ValuesView, SerializeValuesError> {
        positional(seq![self.0.encoded(), self.1.encoded(), self.2.encoded(), self.3.encoded()])
    }

    fn serialized(&self) -> (r: SerializedResult<'_>) {
        let ghost encs = seq![self.0.encoded(), self.1.encoded(), self.2.encoded(), self.3.encoded()];
        let mut result = LegacySerializedValues::new();
        assert(encs.take(0) =~= Seq::<Option<Seq<u8>>>::empty());
        let r = add_positional(&mut result, &self.0, Ghost(encs.take(0)));
        assert(encs.take(0).push(self.0.encoded()) =~= encs.take(1));
        if let Err(e) = r {
            proof {
                lemma_positional_err_sticks(encs, 1);
            }
            return Err(e);
        }
        let r = add_positional(&mut result, &self.1, Ghost(encs.take(1)));
        assert(encs.take(1).push(self.1.encoded()) =~= encs.take(2));
        if let Err(e) = r {
            proof {
                lemma_positional_err_sticks(encs, 2);
            }
            return Err(e);
        }
        let r = add_positional(&mut result, &self.2, Ghost(encs.take(2)));
        assert(encs.take(2).push(self.2.encoded()) =~= encs.take(3));
        if let Err(e) = r {
            proof {
                lemma_positional_err_sticks(encs, 3);
            }
            return Err(e);
        }
        let r = add_positional(&mut result, &self.3, Ghost(encs.take(3)));
        assert(encs.take(3).push(self.3.encoded()) =~= encs.take(4));
        if let Err(e) = r {
            proof {
                lemma_positional_err_sticks(encs, 4);
            }
            return Err(e);
        }
        assert(encs.take(4) =~= encs);
        Ok(SerializedValues::Owned(result))
    }
}

impl<T0: Value, T1: Value, T2: Value, T3: Value, T4: Value> ValueList for (T0, T1, T2, T3, T4) {
    open spec fn serialized_spec(&self) -> Result<ValuesView, SerializeValuesError> {
        positional(seq![self.0.encoded(), self.1.encoded(), self.2.encoded(), self.3.encoded(), self.4.encoded()])
    }

    fn serialized(&self) -> (r: SerializedResult<'_>) {
        let ghost encs = seq![self.0.encoded(), self.1.encoded(), self.2.encoded(), self.3.encoded(), self.4.encoded()];
        let mut result = LegacySerializedValues::new();
        assert(encs.take(0) =~= Seq::<Option<Seq<u8>>>::empty());
        let r = add_positional(&mut result, &self.0, Ghost(encs.take(0)));
        assert(encs.take(0).push(self.0.encoded()) =~= encs.take(1));
        if let Err(e) = r {
            proof {
                lemma_positional_err_sticks(encs, 1);
            }
            return Err(e);
        }
        let r = add_positional(&mut result, &self.1, Ghost(encs.take(1)));
        assert(encs.take(1).push(self.1.encoded()) =~= encs.take(2));
        if let Err(e) = r {
            proof {
                lemma_positional_err_sticks(encs, 2);
            }
            return Err(e);
        }
        let r = add_positional(&mut result, &self.2, Ghost(encs.take(2)));
        assert(encs.take(2).push(self.2.encoded()) =~= encs.take(3));
        if let Err(e) = r {
            proof {
                lemma_positional_err_sticks(encs, 3);
            }
            return Err(e);
        }
        let r = add_positional(&mut result, &self.3, Ghost(encs.take(3)));
        assert(encs.take(3).push(self.3.encoded()) =~= encs.take(4));
        if let Err(e) = r {
            proof {
                lemma_positional_err_sticks(encs, 4);
            }
            return Err(e);
        }
        let r = add_positional(&mut result, &self.4, Ghost(encs.take(4)));
        assert(encs.take(4).push(self.4.encoded()) =~= encs.take(5));
        if let Err(e) = r {
            proof {
                lemma_positional_err_sticks(encs, 5);
            }
            return Err(e);
        }
        assert(encs.take(5) =~= encs);
        Ok(SerializedValues::Owned(result))
    }
}

impl<T0: Value, T1: Value, T2: Value, T3: Value, T4: Value, T5: Value> ValueList for (T0, T1, T2, T3, T4, T5) {
    open spec fn serialized_spec(&self) -> Result<ValuesView, SerializeValuesError> {
        positional(seq![self.0.encoded(), self.1.encoded(), self.2.encoded(), self.3.encoded(), self.4.encoded(), self.5.encoded()])
    }

    fn serialized(&self) -> (r: SerializedResult<'_>) {
        let ghost encs = seq![self.0.encoded(), self.1.encoded(), self.2.encoded(), self.3.encoded(), self.4.encoded(), self.5.encoded()];
        let mut result = LegacySerializedValues::new();
        assert(encs.take(0) =~= Seq::<Option<Seq<u8>>>::empty());
        let r = add_positional(&mut result, &self.0, Ghost(encs.take(0)));
        assert(encs.take(0).push(self.0.encoded()) =~= encs.take(1));
        if let Err(e) = r {
            proof {
                lemma_positional_err_sticks(encs, 1);
            }
            return Err(e);
        }
        let r = add_positional(&mut result, &self.1, Ghost(encs.take(1)));
        assert(encs.take(1).push(self.1.encoded()) =~= encs.take(2));
        if let Err(e) = r {
            proof {
                lemma_positional_err_sticks(encs, 2);
            }
            return Err(e);
        }
        let r = add_positional(&mut result, &self.2, Ghost(encs.take(2)));
        assert(encs.take(2).push(self.2.encoded()) =~= encs.take(3));
        if let Err(e) = r {
            proof {
                lemma_positional_err_sticks(encs, 3);
            }
            return Err(e);
        }
        let r = add_positional(&mut result, &self.3, Ghost(encs.take(3)));
        assert(encs.take(3).push(self.3.encoded()) =~= encs.take(4));
        if let Err(e) = r {
            proof {
                lemma_positional_err_sticks(encs, 4);
            }
            return Err(e);
        }
        let r = add_positional(&mut result, &self.4, Ghost(encs.take(4)));
        assert(encs.take(4).push(self.4.encoded()) =~= encs.take(5));
        if let Err(e) = r {
            proof {
                lemma_positional_err_sticks(encs, 5);
            }
            return Err(e);
        }
        let r = add_positional(&mut result, &self.5, Ghost(encs.take(5)));
        assert(encs.take(5).push(self.5.encoded()) =~= encs.take(6));
        if let Err(e) = r {
            proof {
                lemma_positional_err_sticks(encs, 6);
            }
            return Err(e);
        }
        assert(encs.take(6) =~= encs);
        Ok(SerializedValues::Owned(result))
    }
}

impl<T0: Value, T1: Value, T2: Value, T3: Value, T4: Value, T5: Value, T6: Value> ValueList for (T0, T1, T2, T3, T4, T5, T6) {
    open spec fn serialized_spec(&self) -> Result<ValuesView, SerializeValuesError> {
        positional(seq![self.0.encoded(), self.1.encoded(), self.2.encoded(), self.3.encoded(), self.4.encoded(), self.5.encoded(), self.6.encoded()])
    }

    fn serialized(&self) -> (r: SerializedResult<'_>) {
        let ghost encs = seq![self.0.encoded(), self.1.encoded(), self.2.encoded(), self.3.encoded(), self.4.encoded(), self.5.encoded(), self.6.encoded()];
        let mut result = LegacySerializedValues::new();
        assert(encs.take(0) =~= Seq::<Option<Seq<u8>>>::empty());
        let r = add_positional(&mut result, &self.0, Ghost(encs.take(0)));
        assert(encs.take(0).push(self.0.encoded()) =~= encs.take(1));
        if let Err(e) = r {
            proof {
                lemma_positional_err_sticks(encs, 1);
            }
            return Err(e);
        }
        let r = add_positional(&mut result, &self.1, Ghost(encs.take(1)));
        assert(encs.take(1).push(self.1.encoded()) =~= encs.take(2));
        if let Err(e) = r {
            proof {
                lemma_positional_err_sticks(encs, 2);
            }
            return Err(e);
        }
        let r = add_positional(&mut result, &self.2, Ghost(encs.take(2)));
        assert(encs.take(2).push(self.2.encoded()) =~= encs.take(3));
        if let Err(e) = r {
            proof {
                lemma_positional_err_sticks(encs, 3);
            }
            return Err(e);
        }
        let r = add_positional(&mut result, &self.3, Ghost(encs.take(3)));
        assert(encs.take(3).push(self.3.encoded()) =~= encs.take(4));
        if let Err(e) = r {
            proof {
                lemma_positional_err_sticks(encs, 4);
            }
            return Err(e);
        }
        let r = add_positional(&mut result, &self.4, Ghost(encs.take(4)));
        assert(encs.take(4).push(self.4.encoded()) =~= encs.take(5));
        if let Err(e) = r {
            proof {
                lemma_positional_err_sticks(encs, 5);
            }
            return Err(e);
        }
        let r = add_positional(&mut result, &self.5, Ghost(encs.take(5)));
        assert(encs.take(5).push(self.5.encoded()) =~= encs.take(6));
        if let Err(e) = r {
            proof {
                lemma_positional_err_sticks(encs, 6);
            }
            return Err(e);
        }
        let r = add_positional(&mut result, &self.6, Ghost(encs.take(6)));
        assert(encs.take(6).push(self.6.encoded()) =~= encs.take(7));
        if let Err(e) = r {
            proof {
                lemma_positional_err_sticks(encs, 7);
            }
            return Err(e);
        }
        assert(encs.take(7) =~= encs);
        Ok(SerializedValues::Owned(result))
    }
}

impl<T0: Value, T1: Value, T2: Value, T3: Value, T4: Value, T5: Value, T6: Value, T7: Value> ValueList for (T0, T1, T2, T3, T4, T5, T6, T7) {
    open spec fn serialized_spec(&self) -> Result<ValuesView, SerializeValuesError> {
        positional(seq![self.0.encoded(), self.1.encoded(), self.2.encoded(), self.3.encoded(), self.4.encoded(), self.5.encoded(), self.6.encoded(), self.7.encoded()])
    }

    fn serialized(&self) -> (r: SerializedResult<'_>) {
        let ghost encs = seq![self.0.encoded(), self.1.encoded(), self.2.encoded(), self.3.encoded(), self.4.encoded(), self.5.encoded(), self.6.encoded(), self.7.encoded()];
        let mut result = LegacySerializedValues::new();
        assert(encs.take(0) =~= Seq::<Option<Seq<u8>>>::empty());
        let r = add_positional(&mut result, &self.0, Ghost(encs.take(0)));
        assert(encs.take(0).push(self.0.encoded()) =~= encs.take(1));
        if let Err(e) = r {
            proof {
                lemma_positional_err_sticks(encs, 1);
            }
            return Err(e);
        }
        let r = add_positional(&mut result, &self.1, Ghost(encs.take(1)));
        assert(encs.take(1).push(self.1.encoded()) =~= encs.take(2));
        if let Err(e) = r {
            proof {
                lemma_positional_err_sticks(encs, 2);
            }
            return Err(e);
        }
        let r = add_positional(&mut result, &self.2, Ghost(encs.take(2)));
        assert(encs.take(2).push(self.2.encoded()) =~= encs.take(3));
        if let Err(e) = r {
            proof {
                lemma_positional_err_sticks(encs, 3);
            }
            return Err(e);
        }
        let r = add_positional(&mut result, &self.3, Ghost(encs.take(3)));
        assert(encs.take(3).push(self.3.encoded()) =~= encs.take(4));
        if let Err(e) = r {
            proof {
                lemma_positional_err_sticks(encs, 4);
            }
            return Err(e);
        }
        let r = add_positional(&mut result, &self.4, Ghost(encs.take(4)));
        assert(encs.take(4).push(self.4.encoded()) =~= encs.take(5));
        if let Err(e) = r {
            proof {
                lemma_positional_err_sticks(encs, 5);
            }
            return Err(e);
        }
        let r = add_positional(&mut result, &self.5, Ghost(encs.take(5)));
        assert(encs.take(5).push(self.5.encoded()) =~= encs.take(6));
        if let Err(e) = r {
            proof {
                lemma_positional_err_sticks(encs, 6);
            }
            return Err(e);
        }
        let r = add_positional(&mut result, &self.6, Ghost(encs.take(6)));
        assert(encs.take(6).push(self.6.encoded()) =~= encs.take(7));
        if let Err(e) = r {
            proof {
                lemma_positional_err_sticks(encs, 7);
            }
            return Err(e);
        }
        let r = add_positional(&mut result, &self.7, Ghost(encs.take(7)));
        assert(encs.take(7).push(self.7.encoded()) =~= encs.take(8));
        if let Err(e) = r {
            proof {
                lemma_positional_err_sticks(encs, 8);
            }
            return Err(e);
        }
        assert(encs.take(8) =~= encs);
        Ok(SerializedValues::Owned(result))
    }
}

impl<T0: Value, T1: Value, T2: Value, T3: Value, T4: Value, T5: Value, T6: Value, T7: Value, T8: Value> ValueList for (T0, T1, T2, T3, T4, T5, T6, T7, T8) {
    open spec fn serialized_spec(&self) -> Result<ValuesView, SerializeValuesError> {
        positional(seq![self.0.encoded(), self.1.encoded(), self.2.encoded(), self.3.encoded(), self.4.encoded(), self.5.encoded(), self.6.encoded(), self.7.encoded(), self.8.encoded()])
    }

    fn serialized(&self) -> (r: SerializedResult<'_>) {
        let ghost encs = seq![self.0.encoded(), self.1.encoded(), self.2.encoded(), self.3.encoded(), self.4.encoded(), self.5.encoded(), self.6.encoded(), self.7.encoded(), self.8.encoded()];
        let mut result = LegacySerializedValues::new();
        assert(encs.take(0) =~= Seq::<Option<Seq<u8>>>::empty());
        let r = add_positional(&mut result, &self.0, Ghost(encs.take(0)));
        assert(encs.take(0).push(self.0.encoded()) =~= encs.take(1));
        if let Err(e) = r {
            proof {
                lemma_positional_err_sticks(encs, 1);
            }
            return Err(e);
        }
        let r = add_positional(&mut result, &self.1, Ghost(encs.take(1)));
        assert(encs.take(1).push(self.1.encoded()) =~= encs.take(2));
        if let Err(e) = r {
            proof {
                lemma_positional_err_sticks(encs, 2);
            }
            return Err(e);
        }
        let r = add_positional(&mut result, &self.2, Ghost(encs.take(2)));
        assert(encs.take(2).push(self.2.encoded()) =~= encs.take(3));
        if let Err(e) = r {
            proof {
                lemma_positional_err_sticks(encs, 3);
            }
            return Err(e);
        }
        let r = add_positional(&mut result, &self.3, Ghost(encs.take(3)));
        assert(encs.take(3).push(self.3.encoded()) =~= encs.take(4));
        if let Err(e) = r {
            proof {
                lemma_positional_err_sticks(encs, 4);
            }
            return Err(e);
        }
        let r = add_positional(&mut result, &self.4, Ghost(encs.take(4)));
        assert(encs.take(4).push(self.4.encoded()) =~= encs.take(5));
        if let Err(e) = r {
            proof {
                lemma_positional_err_sticks(encs, 5);
            }
            return Err(e);
        }
        let r = add_positional(&mut result, &self.5, Ghost(encs.take(5)));
        assert(encs.take(5).push(self.5.encoded()) =~= encs.take(6));
        if let Err(e) = r {
            proof {
                lemma_positional_err_sticks(encs, 6);
            }
            return Err(e);
        }
        let r = add_positional(&mut result, &self.6, Ghost(encs.take(6)));
        assert(encs.take(6).push(self.6.encoded()) =~= encs.take(7));
        if let Err(e) = r {
            proof {
                lemma_positional_err_sticks(encs, 7);
            }
            return Err(e);
        }
        let r = add_positional(&mut result, &self.7, Ghost(encs.take(7)));
        assert(encs.take(7).push(self.7.encoded()) =~= encs.take(8));
        if let Err(e) = r {
            proof {
                lemma_positional_err_sticks(encs, 8);
            }
            return Err(e);
        }
        let r = add_positional(&mut result, &self.8, Ghost(encs.take(8)));
        assert(encs.take(8).push(self.8.encoded()) =~= encs.take(9));
        if let Err(e) = r {
            proof {
                lemma_positional_err_sticks(encs, 9);
            }
            return Err(e);
        }
        assert(encs.take(9) =~= encs);
        Ok(SerializedValues::Owned(result))
    }
}

impl<T0: Value, T1: Value, T2: Value, T3: Value, T4: Value, T5: Value, T6: Value, T7: Value, T8: Value, T9: Value> ValueList for (T0, T1, T2, T3, T4, T5, T6, T7, T8, T9) {
    open spec fn serialized_spec(&self) -> Result<ValuesView, SerializeValuesError> {
        positional(seq![self.0.encoded(), self.1.encoded(), self.2.encoded(), self.3.encoded(), self.4.encoded(), self.5.encoded(), self.6.encoded(), self.7.encoded(), self.8.encoded(), self.9.encoded()])
    }

    fn serialized(&self) -> (r: SerializedResult<'_>) {
        let ghost encs = seq![self.0.encoded(), self.1.encoded(), self.2.encoded(), self.3.encoded(), self.4.encoded(), self.5.encoded(), self.6.encoded(), self.7.encoded(), self.8.encoded(), self.9.encoded()];
        let mut result = LegacySerializedValues::new();
        assert(encs.take(0) =~= Seq::<Option<Seq<u8>>>::empty());
        let r = add_positional(&mut result, &self.0, Ghost(encs.take(0)));
        assert(encs.take(0).push(self.0.encoded()) =~= encs.take(1));
        if let Err(e) = r {
            proof {
                lemma_positional_err_sticks(encs, 1);
            }
            return Err(e);
        }
        let r = add_positional(&mut result, &self.1, Ghost(encs.take(1)));
        assert(encs.take(1).push(self.1.encoded()) =~= encs.take(2));
        if let Err(e) = r {
            proof {
                lemma_positional_err_sticks(encs, 2);
            }
            return Err(e);
        }
        let r = add_positional(&mut result, &self.2, Ghost(encs.take(2)));
        assert(encs.take(2).push(self.2.encoded()) =~= encs.take(3));
        if let Err(e) = r {
            proof {
                lemma_positional_err_sticks(encs, 3);
            }
            return Err(e);
        }
        let r = add_positional(&mut result, &self.3, Ghost(encs.take(3)));
        assert(encs.take(3).push(self.3.encoded()) =~= encs.take(4));
        if let Err(e) = r {
            proof {
                lemma_positional_err_sticks(encs, 4);
            }
            return Err(e);
        }
        let r = add_positional(&mut result, &self.4, Ghost(encs.take(4)));
        assert(encs.take(4).push(self.4.encoded()) =~= encs.take(5));
        if let Err(e) = r {
            proof {
                lemma_positional_err_sticks(encs, 5);
            }
            return Err(e);
        }
        let r = add_positional(&mut result, &self.5, Ghost(encs.take(5)));
        assert(encs.take(5).push(self.5.encoded()) =~= encs.take(6));
        if let Err(e) = r {
            proof {
                lemma_positional_err_sticks(encs, 6);
            }
            return Err(e);
        }
        let r = add_positional(&mut result, &self.6, Ghost(encs.take(6)));
        assert(encs.take(6).push(self.6.encoded()) =~= encs.take(7));
        if let Err(e) = r {
            proof {
                lemma_positional_err_sticks(encs, 7);
            }
            return Err(e);
        }
        let r = add_positional(&mut result, &self.7, Ghost(encs.take(7)));
        assert(encs.take(7).push(self.7.encoded()) =~= encs.take(8));
        if let Err(e) = r {
            proof {
                lemma_positional_err_sticks(encs, 8);
            }
            return Err(e);
        }
        let r = add_positional(&mut result, &self.8, Ghost(encs.take(8)));
        assert(encs.take(8).push(self.8.encoded()) =~= encs.take(9));
        if let Err(e) = r {
            proof {
                lemma_positional_err_sticks(encs, 9);
            }
            return Err(e);
        }
        let r = add_positional(&mut result, &self.9, Ghost(encs.take(9)));
        assert(encs.take(9).push(self.9.encoded()) =~= encs.take(10));
        if let Err(e) = r {
            proof {
                lemma_positional_err_sticks(encs, 10);
            }
            return Err(e);
        }
        assert(encs.take(10) =~= encs);
        Ok(SerializedValues::Owned(result))
    }
}

impl<T0: Value, T1: Value, T2: Value, T3: Value, T4: Value, T5: Value, T6: Value, T7: Value, T8: Value, T9: Value, T10: Value> ValueList for (T0, T1, T2, T3, T4, T5, T6, T7, T8, T9, T10) {
    open spec fn serialized_spec(&self) -> Result<ValuesView, SerializeValuesError> {
        positional(seq![self.0.encoded(), self.1.encoded(), self.2.encoded(), self.3.encoded(), self.4.encoded(), self.5.encoded(), self.6.encoded(), self.7.encoded(), self.8.encoded(), self.9.encoded(), self.10.encoded()])
    }

    fn serialized(&self) -> (r: SerializedResult<'_>) {
        let ghost encs = seq![self.0.encoded(), self.1.encoded(), self.2.encoded(), self.3.encoded(), self.4.encoded(), self.5.encoded(), self.6.encoded(), self.7.encoded(), self.8.encoded(), self.9.encoded(), self.10.encoded()];
        let mut result = LegacySerializedValues::new();
        assert(encs.take(0) =~= Seq::<Option<Seq<u8>>>::empty());
        let r = add_positional(&mut result, &self.0, Ghost(encs.take(0)));
        assert(encs.take(0).push(self.0.encoded()) =~= encs.take(1));
        if let Err(e) = r {
            proof {
                lemma_positional_err_sticks(encs, 1);
            }
            return Err(e);
        }
        let r = add_positional(&mut result, &self.1, Ghost(encs.take(1)));
        assert(encs.take(1).push(self.1.encoded()) =~= encs.take(2));
        if let Err(e) = r {
            proof {
                lemma_positional_err_sticks(encs, 2);
            }
            return Err(e);
        }
        let r = add_positional(&mut result, &self.2, Ghost(encs.take(2)));
        assert(encs.take(2).push(self.2.encoded()) =~= encs.take(3));
        if let Err(e) = r {
            proof {
                lemma_positional_err_sticks(encs, 3);
            }
            return Err(e);
        }
        let r = add_positional(&mut result, &self.3, Ghost(encs.take(3)));
        assert(encs.take(3).push(self.3.encoded()) =~= encs.take(4));
        if let Err(e) = r {
            proof {
                lemma_positional_err_sticks(encs, 4);
            }
            return Err(e);
        }
        let r = add_positional(&mut result, &self.4, Ghost(encs.take(4)));
        assert(encs.take(4).push(self.4.encoded()) =~= encs.take(5));
        if let Err(e) = r {
            proof {
                lemma_positional_err_sticks(encs, 5);
            }
            return Err(e);
        }
        let r = add_positional(&mut result, &self.5, Ghost(encs.take(5)));
        assert(encs.take(5).push(self.5.encoded()) =~= encs.take(6));
        if let Err(e) = r {
            proof {
                lemma_positional_err_sticks(encs, 6);
            }
            return Err(e);
        }
        let r = add_positional(&mut result, &self.6, Ghost(encs.take(6)));
        assert(encs.take(6).push(self.6.encoded()) =~= encs.take(7));
        if let Err(e) = r {
            proof {
                lemma_positional_err_sticks(encs, 7);
            }
            return Err(e);
        }
        let r = add_positional(&mut result, &self.7, Ghost(encs.take(7)));
        assert(encs.take(7).push(self.7.encoded()) =~= encs.take(8));
        if let Err(e) = r {
            proof {
                lemma_positional_err_sticks(encs, 8);
            }
            return Err(e);
        }
        let r = add_positional(&mut result, &self.8, Ghost(encs.take(8)));
        assert(encs.take(8).push(self.8.encoded()) =~= encs.take(9));
        if let Err(e) = r {
            proof {
                lemma_positional_err_sticks(encs, 9);
            }
            return Err(e);
        }
        let r = add_positional(&mut result, &self.9, Ghost(encs.take(9)));
        assert(encs.take(9).push(self.9.encoded()) =~= encs.take(10));
        if let Err(e) = r {
            proof {
                lemma_positional_err_sticks(encs, 10);
            }
            return Err(e);
        }
        let r = add_positional(&mut result, &self.10, Ghost(encs.take(10)));
        assert(encs.take(10).push(self.10.encoded()) =~= encs.take(11));
        if let Err(e) = r {
            proof {
                lemma_positional_err_sticks(encs, 11);
            }
            return Err(e);
        }
        assert(encs.take(11) =~= encs);
        Ok(SerializedValues::Owned(result))
    }
}

impl<T0: Value, T1: Value, T2: Value, T3: Value, T4: Value, T5: Value, T6: Value, T7: Value, T8: Value, T9: Value, T10: Value, T11: Value> ValueList for (T0, T1, T2, T3, T4, T5, T6, T7, T8, T9, T10, T11) {
    open spec fn serialized_spec(&self) -> Result<ValuesView, SerializeValuesError> {
        positional(seq![self.0.encoded(), self.1.encoded(), self.2.encoded(), self.3.encoded(), self.4.encoded(), self.5.encoded(), self.6.encoded(), self.7.encoded(), self.8.encoded(), self.9.encoded(), self.10.encoded(), self.11.encoded()])
    }

    fn serialized(&self) -> (r: SerializedResult<'_>) {
        let ghost encs = seq![self.0.encoded(), self.1.encoded(), self.2.encoded(), self.3.encoded(), self.4.encoded(), self.5.encoded(), self.6.encoded(), self.7.encoded(), self.8.encoded(), self.9.encoded(), self.10.encoded(), self.11.encoded()];
        let mut result = LegacySerializedValues::new();
        assert(encs.take(0) =~= Seq::<Option<Seq<u8>>>::empty());
        let r = add_positional(&mut result, &self.0, Ghost(encs.take(0)));
        assert(encs.take(0).push(self.0.encoded()) =~= encs.take(1));
        if let Err(e) = r {
            proof {
                lemma_positional_err_sticks(encs, 1);
            }
            return Err(e);
        }
        let r = add_positional(&mut result, &self.1, Ghost(encs.take(1)));
        assert(encs.take(1).push(self.1.encoded()) =~= encs.take(2));
        if let Err(e) = r {
            proof {
                lemma_positional_err_sticks(encs, 2);
            }
            return Err(e);
        }
        let r = add_positional(&mut result, &self.2, Ghost(encs.take(2)));
        assert(encs.take(2).push(self.2.encoded()) =~= encs.take(3));
        if let Err(e) = r {
            proof {
                lemma_positional_err_sticks(encs, 3);
            }
            return Err(e);
        }
        let r = add_positional(&mut result, &self.3, Ghost(encs.take(3)));
        assert(encs.take(3).push(self.3.encoded()) =~= encs.take(4));
        if let Err(e) = r {
            proof {
                lemma_positional_err_sticks(encs, 4);
            }
            return Err(e);
        }
        let r = add_positional(&mut result, &self.4, Ghost(encs.take(4)));
        assert(encs.take(4).push(self.4.encoded()) =~= encs.take(5));
        if let Err(e) = r {
            proof {
                lemma_positional_err_sticks(encs, 5);
            }
            return Err(e);
        }
        let r = add_positional(&mut result, &self.5, Ghost(encs.take(5)));
        assert(encs.take(5).push(self.5.encoded()) =~= encs.take(6));
        if let Err(e) = r {
            proof {
                lemma_positional_err_sticks(encs, 6);
            }
            return Err(e);
        }
        let r = add_positional(&mut result, &self.6, Ghost(encs.take(6)));
        assert(encs.take(6).push(self.6.encoded()) =~= encs.take(7));
        if let Err(e) = r {
            proof {
                lemma_positional_err_sticks(encs, 7);
            }
            return Err(e);
        }
        let r = add_positional(&mut result, &self.7, Ghost(encs.take(7)));
        assert(encs.take(7).push(self.7.encoded()) =~= encs.take(8));
        if let Err(e) = r {
            proof {
                lemma_positional_err_sticks(encs, 8);
            }
            return Err(e);
        }
        let r = add_positional(&mut result, &self.8, Ghost(encs.take(8)));
        assert(encs.take(8).push(self.8.encoded()) =~= encs.take(9));
        if let Err(e) = r {
            proof {
                lemma_positional_err_sticks(encs, 9);
            }
            return Err(e);
        }
        let r = add_positional(&mut result, &self.9, Ghost(encs.take(9)));
        assert(encs.take(9).push(self.9.encoded()) =~= encs.take(10));
        if let Err(e) = r {
            proof {
                lemma_positional_err_sticks(encs, 10);
            }
            return Err(e);
        }
        let r = add_positional(&mut result, &self.10, Ghost(encs.take(10)));
        assert(encs.take(10).push(self.10.encoded()) =~= encs.take(11));
        if let Err(e) = r {
            proof {
                lemma_positional_err_sticks(encs, 11);
            }
            return Err(e);
        }
        let r = add_positional(&mut result, &self.11, Ghost(encs.take(11)));
        assert(encs.take(11).push(self.11.encoded()) =~= encs.take(12));
        if let Err(e) = r {
            proof {
                lemma_positional_err_sticks(encs, 12);
            }
            return Err(e);
        }
        assert(encs.take(12) =~= encs);
        Ok(SerializedValues::Owned(result))
    }
}

impl<T0: Value, T1: Value, T2: Value, T3: Value, T4: Value, T5: Value, T6: Value, T7: Value, T8: Value, T9: Value, T10: Value, T11: Value, T12: Value> ValueList for (T0, T1, T2, T3, T4, T5, T6, T7, T8, T9, T10, T11, T12) {
    open spec fn serialized_spec(&self) -> Result<ValuesView, SerializeValuesError> {
        positional(seq![self.0.encoded(), self.1.encoded(), self.2.encoded(), self.3.encoded(), self.4.encoded(), self.5.encoded(), self.6.encoded(), self.7.encoded(), self.8.encoded(), self.9.encoded(), self.10.encoded(), self.11.encoded(), self.12.encoded()])
    }

    fn serialized(&self) -> (r: SerializedResult<'_>) {
        let ghost encs = seq![self.0.encoded(), self.1.encoded(), self.2.encoded(), self.3.encoded(), self.4.encoded(), self.5.encoded(), self.6.encoded(), self.7.encoded(), self.8.encoded(), self.9.encoded(), self.10.encoded(), self.11.encoded(), self.12.encoded()];
        let mut result = LegacySerializedValues::new();
        assert(encs.take(0) =~= Seq::<Option<Seq<u8>>>::empty());
        let r = add_positional(&mut result, &self.0, Ghost(encs.take(0)));
        assert(encs.take(0).push(self.0.encoded()) =~= encs.take(1));
        if let Err(e) = r {
            proof {
                lemma_positional_err_sticks(encs, 1);
            }
            return Err(e);
        }
        let r = add_positional(&mut result, &self.1, Ghost(encs.take(1)));
        assert(encs.take(1).push(self.1.encoded()) =~= encs.take(2));
        if let Err(e) = r {
            proof {
                lemma_positional_err_sticks(encs, 2);
            }
            return Err(e);
        }
        let r = add_positional(&mut result, &self.2, Ghost(encs.take(2)));
        assert(encs.take(2).push(self.2.encoded()) =~= encs.take(3));
        if let Err(e) = r {
            proof {
                lemma_positional_err_sticks(encs, 3);
            }
            return Err(e);
        }
        let r = add_positional(&mut result, &self.3, Ghost(encs.take(3)));
        assert(encs.take(3).push(self.3.encoded()) =~= encs.take(4));
        if let Err(e) = r {
            proof {
                lemma_positional_err_sticks(encs, 4);
            }
            return Err(e);
        }
        let r = add_positional(&mut result, &self.4, Ghost(encs.take(4)));
        assert(encs.take(4).push(self.4.encoded()) =~= encs.take(5));
        if let Err(e) = r {
            proof {
                lemma_positional_err_sticks(encs, 5);
            }
            return Err(e);
        }
        let r = add_positional(&mut result, &self.5, Ghost(encs.take(5)));
        assert(encs.take(5).push(self.5.encoded()) =~= encs.take(6));
        if let Err(e) = r {
            proof {
                lemma_positional_err_sticks(encs, 6);
            }
            return Err(e);
        }
        let r = add_positional(&mut result, &self.6, Ghost(encs.take(6)));
        assert(encs.take(6).push(self.6.encoded()) =~= encs.take(7));
        if let Err(e) = r {
            proof {
                lemma_positional_err_sticks(encs, 7);
            }
            return Err(e);
        }
        let r = add_positional(&mut result, &self.7, Ghost(encs.take(7)));
        assert(encs.take(7).push(self.7.encoded()) =~= encs.take(8));
        if let Err(e) = r {
            proof {
                lemma_positional_err_sticks(encs, 8);
            }
            return Err(e);
        }
        let r = add_positional(&mut result, &self.8, Ghost(encs.take(8)));
        assert(encs.take(8).push(self.8.encoded()) =~= encs.take(9));
        if let Err(e) = r {
            proof {
                lemma_positional_err_sticks(encs, 9);
            }
            return Err(e);
        }
        let r = add_positional(&mut result, &self.9, Ghost(encs.take(9)));
        assert(encs.take(9).push(self.9.encoded()) =~= encs.take(10));
        if let Err(e) = r {
            proof {
                lemma_positional_err_sticks(encs, 10);
            }
            return Err(e);
        }
        let r = add_positional(&mut result, &self.10, Ghost(encs.take(10)));
        assert(encs.take(10).push(self.10.encoded()) =~= encs.take(11));
        if let Err(e) = r {
            proof {
                lemma_positional_err_sticks(encs, 11);
            }
            return Err(e);
        }
        let r = add_positional(&mut result, &self.11, Ghost(encs.take(11)));
        assert(encs.take(11).push(self.11.encoded()) =~= encs.take(12));
        if let Err(e) = r {
            proof {
                lemma_positional_err_sticks(encs, 12);
            }
            return Err(e);
        }
        let r = add_positional(&mut result, &self.12, Ghost(encs.take(12)));
        assert(encs.take(12).push(self.12.encoded()) =~= encs.take(13));
        if let Err(e) = r {
            proof {
                lemma_positional_err_sticks(encs, 13);
            }
            return Err(e);
        }
        assert(encs.take(13) =~= encs);
        Ok(SerializedValues::Owned(result))
    }
}

impl<T0: Value, T1: Value, T2: Value, T3: Value, T4: Value, T5: Value, T6: Value, T7: Value, T8: Value, T9: Value, T10: Value, T11: Value, T12: Value, T13: Value> ValueList for (T0, T1, T2, T3, T4, T5, T6, T7, T8, T9, T10, T11, T12, T13) {
    open spec fn serialized_spec(&self) -> Result<ValuesView, SerializeValuesError> {
        positional(seq![self.0.encoded(), self.1.encoded(), self.2.encoded(), self.3.encoded(), self.4.encoded(), self.5.encoded(), self.6.encoded(), self.7.encoded(), self.8.encoded(), self.9.encoded(), self.10.encoded(), self.11.encoded(), self.12.encoded(), self.13.encoded()])
    }

    fn serialized(&self) -> (r: SerializedResult<'_>) {
        let ghost encs = seq![self.0.encoded(), self.1.encoded(), self.2.encoded(), self.3.encoded(), self.4.encoded(), self.5.encoded(), self.6.encoded(), self.7.encoded(), self.8.encoded(), self.9.encoded(), self.10.encoded(), self.11.encoded(), self.12.encoded(), self.13.encoded()];
        let mut result = LegacySerializedValues::new();
        assert(encs.take(0) =~= Seq::<Option<Seq<u8>>>::empty());
        let r = add_positional(&mut result, &self.0, Ghost(encs.take(0)));
        assert(encs.take(0).push(self.0.encoded()) =~= encs.take(1));
        if let Err(e) = r {
            proof {
                lemma_positional_err_sticks(encs, 1);
            }
            return Err(e);
        }
        let r = add_positional(&mut result, &self.1, Ghost(encs.take(1)));
        assert(encs.take(1).push(self.1.encoded()) =~= encs.take(2));
        if let Err(e) = r {
            proof {
                lemma_positional_err_sticks(encs, 2);
            }
            return Err(e);
        }
        let r = add_positional(&mut result, &self.2, Ghost(encs.take(2)));
        assert(encs.take(2).push(self.2.encoded()) =~= encs.take(3));
        if let Err(e) = r {
            proof {
                lemma_positional_err_sticks(encs, 3);
            }
            return Err(e);
        }
        let r = add_positional(&mut result, &self.3, Ghost(encs.take(3)));
        assert(encs.take(3).push(self.3.encoded()) =~= encs.take(4));
        if let Err(e) = r {
            proof {
                lemma_positional_err_sticks(encs, 4);
            }
            return Err(e);
        }
        let r = add_positional(&mut result, &self.4, Ghost(encs.take(4)));
        assert(encs.take(4).push(self.4.encoded()) =~= encs.take(5));
        if let Err(e) = r {
            proof {
                lemma_positional_err_sticks(encs, 5);
            }
            return Err(e);
        }
        let r = add_positional(&mut result, &self.5, Ghost(encs.take(5)));
        assert(encs.take(5).push(self.5.encoded()) =~= encs.take(6));
        if let Err(e) = r {
            proof {
                lemma_positional_err_sticks(encs, 6);
            }
            return Err(e);
        }
        let r = add_positional(&mut result, &self.6, Ghost(encs.take(6)));
        assert(encs.take(6).push(self.6.encoded()) =~= encs.take(7));
        if let Err(e) = r {
            proof {
                lemma_positional_err_sticks(encs, 7);
            }
            return Err(e);
        }
        let r = add_positional(&mut result, &self.7, Ghost(encs.take(7)));
        assert(encs.take(7).push(self.7.encoded()) =~= encs.take(8));
        if let Err(e) = r {
            proof {
                lemma_positional_err_sticks(encs, 8);
            }
            return Err(e);
        }
        let r = add_positional(&mut result, &self.8, Ghost(encs.take(8)));
        assert(encs.take(8).push(self.8.encoded()) =~= encs.take(9));
        if let Err(e) = r {
            proof {
                lemma_positional_err_sticks(encs, 9);
            }
            return Err(e);
        }
        let r = add_positional(&mut result, &self.9, Ghost(encs.take(9)));
        assert(encs.take(9).push(self.9.encoded()) =~= encs.take(10));
        if let Err(e) = r {
            proof {
                lemma_positional_err_sticks(encs, 10);
            }
            return Err(e);
        }
        let r = add_positional(&mut result, &self.10, Ghost(encs.take(10)));
        assert(encs.take(10).push(self.10.encoded()) =~= encs.take(11));
        if let Err(e) = r {
            proof {
                lemma_positional_err_sticks(encs, 11);
            }
            return Err(e);
        }
        let r = add_positional(&mut result, &self.11, Ghost(encs.take(11)));
        assert(encs.take(11).push(self.11.encoded()) =~= encs.take(12));
        if let Err(e) = r {
            proof {
                lemma_positional_err_sticks(encs, 12);
            }
            return Err(e);
        }
        let r = add_positional(&mut result, &self.12, Ghost(encs.take(12)));
        assert(encs.take(12).push(self.12.encoded()) =~= encs.take(13));
        if let Err(e) = r {
            proof {
                lemma_positional_err_sticks(encs, 13);
            }
            return Err(e);
        }
        let r = add_positional(&mut result, &self.13, Ghost(encs.take(13)));
        assert(encs.take(13).push(self.13.encoded()) =~= encs.take(14));
        if let Err(e) = r {
            proof {
                lemma_positional_err_sticks(encs, 14);
            }
            return Err(e);
        }
        assert(encs.take(14) =~= encs);
        Ok(SerializedValues::Owned(result))
    }
}

impl<T0: Value, T1: Value, T2: Value, T3: Value, T4: Value, T5: Value, T6: Value, T7: Value, T8: Value, T9: Value, T10: Value, T11: Value, T12: Value, T13: Value, T14: Value> ValueList for (T0, T1, T2, T3, T4, T5, T6, T7, T8, T9, T10, T11, T12, T13, T14) {
    open spec fn serialized_spec(&self) -> Result<ValuesView, SerializeValuesError> {
        positional(seq![self.0.encoded(), self.1.encoded(), self.2.encoded(), self.3.encoded(), self.4.encoded(), self.5.encoded(), self.6.encoded(), self.7.encoded(), self.8.encoded(), self.9.encoded(), self.10.encoded(), self.11.encoded(), self.12.encoded(), self.13.encoded(), self.14.encoded()])
    }

    fn serialized(&self) -> (r: SerializedResult<'_>) {
        let ghost encs = seq![self.0.encoded(), self.1.encoded(), self.2.encoded(), self.3.encoded(), self.4.encoded(), self.5.encoded(), self.6.encoded(), self.7.encoded(), self.8.encoded(), self.9.encoded(), self.10.encoded(), self.11.encoded(), self.12.encoded(), self.13.encoded(), self.14.encoded()];
        let mut result = LegacySerializedValues::new();
        assert(encs.take(0) =~= Seq::<Option<Seq<u8>>>::empty());
        let r = add_positional(&mut result, &self.0, Ghost(encs.take(0)));
        assert(encs.take(0).push(self.0.encoded()) =~= encs.take(1));
        if let Err(e) = r {
            proof {
                lemma_positional_err_sticks(encs, 1);
            }
            return Err(e);
        }
        let r = add_positional(&mut result, &self.1, Ghost(encs.take(1)));
        assert(encs.take(1).push(self.1.encoded()) =~= encs.take(2));
        if let Err(e) = r {
            proof {
                lemma_positional_err_sticks(encs, 2);
            }
            return Err(e);
        }
        let r = add_positional(&mut result, &self.2, Ghost(encs.take(2)));
        assert(encs.take(2).push(self.2.encoded()) =~= encs.take(3));
        if let Err(e) = r {
            proof {
                lemma_positional_err_sticks(encs, 3);
            }
            return Err(e);
        }
        let r = add_positional(&mut result, &self.3, Ghost(encs.take(3)));
        assert(encs.take(3).push(self.3.encoded()) =~= encs.take(4));
        if let Err(e) = r {
            proof {
                lemma_positional_err_sticks(encs, 4);
            }
            return Err(e);
        }
        let r = add_positional(&mut result, &self.4, Ghost(encs.take(4)));
        assert(encs.take(4).push(self.4.encoded()) =~= encs.take(5));
        if let Err(e) = r {
            proof {
                lemma_positional_err_sticks(encs, 5);
            }
            return Err(e);
        }
        let r = add_positional(&mut result, &self.5, Ghost(encs.take(5)));
        assert(encs.take(5).push(self.5.encoded()) =~= encs.take(6));
        if let Err(e) = r {
            proof {
                lemma_positional_err_sticks(encs, 6);
            }
            return Err(e);
        }
        let r = add_positional(&mut result, &self.6, Ghost(encs.take(6)));
        assert(encs.take(6).push(self.6.encoded()) =~= encs.take(7));
        if let Err(e) = r {
            proof {
                lemma_positional_err_sticks(encs, 7);
            }
            return Err(e);
        }
        let r = add_positional(&mut result, &self.7, Ghost(encs.take(7)));
        assert(encs.take(7).push(self.7.encoded()) =~= encs.take(8));
        if let Err(e) = r {
            proof {
                lemma_positional_err_sticks(encs, 8);
            }
            return Err(e);
        }
        let r = add_positional(&mut result, &self.8, Ghost(encs.take(8)));
        assert(encs.take(8).push(self.8.encoded()) =~= encs.take(9));
        if let Err(e) = r {
            proof {
                lemma_positional_err_sticks(encs, 9);
            }
            return Err(e);
        }
        let r = add_positional(&mut result, &self.9, Ghost(encs.take(9)));
        assert(encs.take(9).push(self.9.encoded()) =~= encs.take(10));
        if let Err(e) = r {
            proof {
                lemma_positional_err_sticks(encs, 10);
            }
            return Err(e);
        }
        let r = add_positional(&mut result, &self.10, Ghost(encs.take(10)));
        assert(encs.take(10).push(self.10.encoded()) =~= encs.take(11));
        if let Err(e) = r {
            proof {
                lemma_positional_err_sticks(encs, 11);
            }
            return Err(e);
        }
        let r = add_positional(&mut result, &self.11, Ghost(encs.take(11)));
        assert(encs.take(11).push(self.11.encoded()) =~= encs.take(12));
        if let Err(e) = r {
            proof {
                lemma_positional_err_sticks(encs, 12);
            }
            return Err(e);
        }
        let r = add_positional(&mut result, &self.12, Ghost(encs.take(12)));
        assert(encs.take(12).push(self.12.encoded()) =~= encs.take(13));
        if let Err(e) = r {
            proof {
                lemma_positional_err_sticks(encs, 13);
            }
            return Err(e);
        }
        let r = add_positional(&mut result, &self.13, Ghost(encs.take(13)));
        assert(encs.take(13).push(self.13.encoded()) =~= encs.take(14));
        if let Err(e) = r {
            proof {
                lemma_positional_err_sticks(encs, 14);
            }
            return Err(e);
        }
        let r = add_positional(&mut result, &self.14, Ghost(encs.take(14)));
        assert(encs.take(14).push(self.14.encoded()) =~= encs.take(15));
        if let Err(e) = r {
            proof {
                lemma_positional_err_sticks(encs, 15);
            }
            return Err(e);
        }
        assert(encs.take(15) =~= encs);
        Ok(SerializedValues::Owned(result))
    }
}

impl<T0: Value, T1: Value, T2: Value, T3: Value, T4: Value, T5: Value, T6: Value, T7: Value, T8: Value, T9: Value, T10: Value, T11: Value, T12: Value, T13: Value, T14: Value, T15: Value> ValueList for (T0, T1, T2, T3, T4, T5, T6, T7, T8, T9, T10, T11, T12, T13, T14, T15) {
    open spec fn serialized_spec(&self) -> Result<ValuesView, SerializeValuesError> {
        positional(seq![self.0.encoded(), self.1.encoded(), self.2.encoded(), self.3.encoded(), self.4.encoded(), self.5.encoded(), self.6.encoded(), self.7.encoded(), self.8.encoded(), self.9.encoded(), self.10.encoded(), self.11.encoded(), self.12.encoded(), self.13.encoded(), self.14.encoded(), self.15.encoded()])
    }

    fn serialized(&self) -> (r: SerializedResult<'_>) {
        let ghost encs = seq![self.0.encoded(), self.1.encoded(), self.2.encoded(), self.3.encoded(), self.4.encoded(), self.5.encoded(), self.6.encoded(), self.7.encoded(), self.8.encoded(), self.9.encoded(), self.10.encoded(), self.11.encoded(), self.12.encoded(), self.13.encoded(), self.14.encoded(), self.15.encoded()];
        let mut result = LegacySerializedValues::new();
        assert(encs.take(0) =~= Seq::<Option<Seq<u8>>>::empty());
        let r = add_positional(&mut result, &self.0, Ghost(encs.take(0)));
        assert(encs.take(0).push(self.0.encoded()) =~= encs.take(1));
        if let Err(e) = r {
            proof {
                lemma_positional_err_sticks(encs, 1);
            }
            return Err(e);
        }
        let r = add_positional(&mut result, &self.1, Ghost(encs.take(1)));
        assert(encs.take(1).push(self.1.encoded()) =~= encs.take(2));
        if let Err(e) = r {
            proof {
                lemma_positional_err_sticks(encs, 2);
            }
            return Err(e);
        }
        let r = add_positional(&mut result, &self.2, Ghost(encs.take(2)));
        assert(encs.take(2).push(self.2.encoded()) =~= encs.take(3));
        if let Err(e) = r {
            proof {
                lemma_positional_err_sticks(encs, 3);
            }
            return Err(e);
        }
        let r = add_positional(&mut result, &self.3, Ghost(encs.take(3)));
        assert(encs.take(3).push(self.3.encoded()) =~= encs.take(4));
        if let Err(e) = r {
            proof {
                lemma_positional_err_sticks(encs, 4);
            }
            return Err(e);
        }
        let r = add_positional(&mut result, &self.4, Ghost(encs.take(4)));
        assert(encs.take(4).push(self.4.encoded()) =~= encs.take(5));
        if let Err(e) = r {
            proof {
                lemma_positional_err_sticks(encs, 5);
            }
            return Err(e);
        }
        let r = add_positional(&mut result, &self.5, Ghost(encs.take(5)));
        assert(encs.take(5).push(self.5.encoded()) =~= encs.take(6));
        if let Err(e) = r {
            proof {
                lemma_positional_err_sticks(encs, 6);
            }
            return Err(e);
        }
        let r = add_positional(&mut result, &self.6, Ghost(encs.take(6)));
        assert(encs.take(6).push(self.6.encoded()) =~= encs.take(7));
        if let Err(e) = r {
            proof {
                lemma_positional_err_sticks(encs, 7);
            }
            return Err(e);
        }
        let r = add_positional(&mut result, &self.7, Ghost(encs.take(7)));
        assert(encs.take(7).push(self.7.encoded()) =~= encs.take(8));
        if let Err(e) = r {
            proof {
                lemma_positional_err_sticks(encs, 8);
            }
            return Err(e);
        }
        let r = add_positional(&mut result, &self.8, Ghost(encs.take(8)));
        assert(encs.take(8).push(self.8.encoded()) =~= encs.take(9));
        if let Err(e) = r {
            proof {
                lemma_positional_err_sticks(encs, 9);
            }
            return Err(e);
        }
        let r = add_positional(&mut result, &self.9, Ghost(encs.take(9)));
        assert(encs.take(9).push(self.9.encoded()) =~= encs.take(10));
        if let Err(e) = r {
            proof {
                lemma_positional_err_sticks(encs, 10);
            }
            return Err(e);
        }
        let r = add_positional(&mut result, &self.10, Ghost(encs.take(10)));
        assert(encs.take(10).push(self.10.encoded()) =~= encs.take(11));
        if let Err(e) = r {
            proof {
                lemma_positional_err_sticks(encs, 11);
            }
            return Err(e);
        }
        let r = add_positional(&mut result, &self.11, Ghost(encs.take(11)));
        assert(encs.take(11).push(self.11.encoded()) =~= encs.take(12));
        if let Err(e) = r {
            proof {
                lemma_positional_err_sticks(encs, 12);
            }
            return Err(e);
        }
        let r = add_positional(&mut result, &self.12, Ghost(encs.take(12)));
        assert(encs.take(12).push(self.12.encoded()) =~= encs.take(13));
        if let Err(e) = r {
            proof {
                lemma_positional_err_sticks(encs, 13);
            }
            return Err(e);
        }
        let r = add_positional(&mut result, &self.13, Ghost(encs.take(13)));
        assert(encs.take(13).push(self.13.encoded()) =~= encs.take(14));
        if let Err(e) = r {
            proof {
                lemma_positional_err_sticks(encs, 14);
            }
            return Err(e);
        }
        let r = add_positional(&mut result, &self.14, Ghost(encs.take(14)));
        assert(encs.take(14).push(self.14.encoded()) =~= encs.take(15));
        if let Err(e) = r {
            proof {
                lemma_positional_err_sticks(encs, 15);
            }
            return Err(e);
        }
        let r = add_positional(&mut result, &self.15, Ghost(encs.take(15)));
        assert(encs.take(15).push(self.15.encoded()) =~= encs.take(16));
        if let Err(e) = r {
            proof {
                lemma_positional_err_sticks(encs, 16);
            }
            return Err(e);
        }
        assert(encs.take(16) =~= encs);
        Ok(SerializedValues::Owned(result))
    }
}

/// The outcome of writing a list whose buffer is `s` to a request.
pub open spec fn written(s: Result<ValuesView, SerializeValuesError>, before: Seq<u8>, after: Seq<u8>) -> bool {
    match s {
        Ok(v) => after == before + wire_form(v),
        Err(_) => after == before,
    }
}

/// A pull-based traversal over the value lists of a batch.
pub trait LegacyBatchValuesIterator<'a> {
    /// What the traversal has yet to give, in order.
    spec fn remaining(&self) -> Seq<Result<ValuesView, SerializeValuesError>>;

    /// The next list as a buffer.
    fn next_serialized(&mut self) -> (r: Option<SerializedResult<'a>>)
        ensures
            old(self).remaining().len() == 0 ==> r is None && final(self).remaining() == old(
                self,
            ).remaining(),
            old(self).remaining().len() > 0 ==> {
                &&& r is Some
                &&& result_matches(r.unwrap(), old(self).remaining()[0])
                &&& final(self).remaining() == old(self).remaining().drop_first()
            },
    ;

    /// Writes the next list's wire form to `buf`.
    fn write_next_to_request(&mut self, buf: &mut Vec<u8>) -> (r: Option<Result<(), SerializeValuesError>>)
        ensures
            old(self).remaining().len() == 0 ==> {
                &&& r is None
                &&& final(self).remaining() == old(self).remaining()
                &&& final(buf)@ == old(buf)@
            },
            old(self).remaining().len() > 0 ==> {
                &&& r == Some(unit_of(old(self).remaining()[0]))
                &&& written(old(self).remaining()[0], old(buf)@, final(buf)@)
                &&& final(self).remaining() == old(self).remaining().drop_first()
            },
    ;

    /// Passes over the next list without building it.
    fn skip_next(&mut self) -> (r: Option<()>)
        ensures
            old(self).remaining().len() == 0 ==> r is None && final(self).remaining() == old(
                self,
            ).remaining(),
            old(self).remaining().len() > 0 ==> r is Some && final(self).remaining() == old(
                self,
            ).remaining().drop_first(),
    ;

    /// The number of lists left.
    fn count(self) -> (r: usize) where Self: Sized
        requires
            self.remaining().len() <= usize::MAX,
        ensures
            r == self.remaining().len(),
    {
        let mut it = self;
        let ghost total = it.remaining().len();
        let mut count: usize = 0;
        while it.skip_next().is_some()
            invariant
                count + it.remaining().len() == total,
                total <= usize::MAX,
            decreases it.remaining().len(),
        {
            count += 1;
        }
        count
    }
}

/// The buffers that the lists of `s` become.
pub open spec fn specs_of<VL: ValueList>(s: Seq<VL>) -> Seq<Result<ValuesView, SerializeValuesError>> {
    s.map_values(|v: VL| v.serialized_spec())
}

/// A traversal over a slice of value lists, each serialized the same way.
/// Restarting is taking a new traversal over the same slice.
pub struct LegacyBatchValuesIteratorFromIterator<'a, VL> {
    it: &'a [VL],
    pos: usize,
}

impl<'a, VL> LegacyBatchValuesIteratorFromIterator<'a, VL> {
    #[verifier::type_invariant]
    closed spec fn within(&self) -> bool {
        self.pos <= self.it@.len()
    }
}

impl<'a, VL: ValueList> LegacyBatchValuesIteratorFromIterator<'a, VL> {
    /// A traversal from the first list of `it`.
    pub fn new(it: &'a [VL]) -> (r: Self)
        ensures
            r.remaining() == specs_of(it@),
    {
        let r = LegacyBatchValuesIteratorFromIterator { it, pos: 0 };
        assert(it@.subrange(0, it@.len() as int) =~= it@);
        r
    }
}

impl<'r, 'a: 'r, VL: ValueList> LegacyBatchValuesIterator<'r> for LegacyBatchValuesIteratorFromIterator<
    'a,
    VL,
> {
    closed spec fn remaining(&self) -> Seq<Result<ValuesView, SerializeValuesError>> {
        specs_of(self.it@.subrange(self.pos as int, self.it@.len() as int))
    }

    fn next_serialized(&mut self) -> (r: Option<SerializedResult<'r>>) {
        proof {
            use_type_invariant(&*self);
        }
        if self.pos >= self.it.len() {
            return None;
        }
        let items: &'a [VL] = self.it;
        let r = items[self.pos].serialized();
        self.pos = self.pos + 1;
        assert(specs_of(self.it@.subrange(self.pos as int, self.it@.len() as int)) =~= specs_of(
            old(self).it@.subrange(old(self).pos as int, self.it@.len() as int),
        ).drop_first());
        Some(r)
    }

    fn write_next_to_request(&mut self, buf: &mut Vec<u8>) -> (r: Option<Result<(), SerializeValuesError>>) {
        proof {
            use_type_invariant(&*self);
        }
        if self.pos >= self.it.len() {
            return None;
        }
        assert(specs_of(self.it@.subrange(self.pos as int, self.it@.len() as int))[0]
            == self.it@[self.pos as int].serialized_spec());
        let ghost sp = self.it@[self.pos as int].serialized_spec();
        let r = match self.it[self.pos].write_to_request(buf) {
            Ok(()) => Ok(()),
            Err(e) => Err(e),
        };
        self.pos = self.pos + 1;
        assert(specs_of(self.it@.subrange(self.pos as int, self.it@.len() as int)) =~= specs_of(
            old(self).it@.subrange(old(self).pos as int, self.it@.len() as int),
        ).drop_first());
        Some(r)
    }

    fn skip_next(&mut self) -> (r: Option<()>) {
        proof {
            use_type_invariant(&*self);
        }
        if self.pos >= self.it.len() {
            return None;
        }
        self.pos = self.pos + 1;
        assert(specs_of(self.it@.subrange(self.pos as int, self.it@.len() as int)) =~= specs_of(
            old(self).it@.subrange(old(self).pos as int, self.it@.len() as int),
        ).drop_first());
        Some(())
    }
}

/// A batch whose value lists can be traversed from the start any number of
/// times.
pub trait LegacyBatchValues<'r> {
    type LegacyBatchValuesIter: LegacyBatchValuesIterator<'r>;

    /// The buffers that the batch's lists become, in order.
    spec fn batch_spec(&self) -> Seq<Result<ValuesView, SerializeValuesError>>;

    /// A fresh traversal from the first list.
    fn batch_values_iter(&'r self) -> (r: Self::LegacyBatchValuesIter)
        ensures
            r.remaining() == self.batch_spec(),
    ;
}

/// A batch given as a slice of value lists, cheap to traverse again.
pub struct LegacyBatchValuesFromIter<'a, VL> {
    it: &'a [VL],
}

impl<'a, VL: ValueList> LegacyBatchValuesFromIter<'a, VL> {
    pub fn new(it: &'a [VL]) -> (r: Self)
        ensures
            r.batch_spec() == specs_of(it@),
    {
        LegacyBatchValuesFromIter { it }
    }
}

impl<'r, 'a: 'r, VL: ValueList> LegacyBatchValues<'r> for LegacyBatchValuesFromIter<'a, VL> {
    type LegacyBatchValuesIter = LegacyBatchValuesIteratorFromIterator<'a, VL>;

    closed spec fn batch_spec(&self) -> Seq<Result<ValuesView, SerializeValuesError>> {
        specs_of(self.it@)
    }

    fn batch_values_iter(&'r self) -> (r: Self::LegacyBatchValuesIter) {
        LegacyBatchValuesIteratorFromIterator::new(self.it)
    }
}

impl<'r, T: ValueList + 'r> LegacyBatchValues<'r> for Vec<T> {
    type LegacyBatchValuesIter = LegacyBatchValuesIteratorFromIterator<'r, T>;

    open spec fn batch_spec(&self) -> Seq<Result<ValuesView, SerializeValuesError>> {
        specs_of(self@)
    }

    fn batch_values_iter(&'r self) -> (r: Self::LegacyBatchValuesIter) {
        LegacyBatchValuesIteratorFromIterator::new(self.as_slice())
    }
}

impl<'r, 'b: 'r, T: LegacyBatchValues<'r>> LegacyBatchValues<'r> for &'b T {
    type LegacyBatchValuesIter = T::LegacyBatchValuesIter;

    open spec fn batch_spec(&self) -> Seq<Result<ValuesView, SerializeValuesError>> {
        (**self).batch_spec()
    }

    fn batch_values_iter(&'r self) -> (r: Self::LegacyBatchValuesIter) {
        let inner: &'r T = *self;
        inner.batch_values_iter()
    }
}

/// Two traversals taken from one batch give the same lists in the same
/// order, whatever was done with either before.
pub proof fn lemma_restart_identical<'r, B: LegacyBatchValues<'r>>(
    batch: B,
    first: B::LegacyBatchValuesIter,
    second: B::LegacyBatchValuesIter,
)
    requires
        first.remaining() == batch.batch_spec(),
        second.remaining() == batch.batch_spec(),
    ensures
        first.remaining() == second.remaining(),
{
}

/// A traversal over the value lists of a fixed-arity tuple, by position.
pub struct TupleValuesIter<'a, T> {
    tuple: &'a T,
    idx: usize,
}

/// Puts a ready buffer in place of the first list, if there is one.
pub open spec fn with_first(
    first: Option<ValuesView>,
    rest: Seq<Result<ValuesView, SerializeValuesError>>,
) -> Seq<Result<ValuesView, SerializeValuesError>> {
    match first {
        Some(v) => seq![Ok(v)] + (if rest.len() > 0 {
            rest.drop_first()
        } else {
            rest
        }),
        None => rest,
    }
}

/// A batch, or a traversal of one, whose first list was already serialized
/// (to pick a route before the rest is built): that buffer is given in
/// place of the first list, which is passed over.
pub struct LegacyBatchValuesFirstSerialized<'f, T> {
    first: Option<&'f LegacySerializedValues>,
    rest: T,
}

impl<'f, T> LegacyBatchValuesFirstSerialized<'f, T> {
    /// The ready buffer of the first list, if any is left.
    pub closed spec fn first_spec(&self) -> Option<ValuesView> {
        match self.first {
            Some(v) => Some(v@),
            None => None,
        }
    }

    /// What stands behind the ready buffer.
    pub closed spec fn rest_spec(&self) -> T {
        self.rest
    }

    pub fn new(batch_values: T, already_serialized_first: Option<&'f LegacySerializedValues>) -> (r: Self)
        ensures
            r.rest_spec() == batch_values,
            r.first_spec() == match already_serialized_first {
                Some(v) => Some(v@),
                None => None::<ValuesView>,
            },
    {
        LegacyBatchValuesFirstSerialized { first: already_serialized_first, rest: batch_values }
    }
}

impl<'r, 'f: 'r, BV: LegacyBatchValues<'r>> LegacyBatchValues<'r> for LegacyBatchValuesFirstSerialized<
    'f,
    BV,
> {
    type LegacyBatchValuesIter = LegacyBatchValuesFirstSerialized<'f, BV::LegacyBatchValuesIter>;

    open spec fn batch_spec(&self) -> Seq<Result<ValuesView, SerializeValuesError>> {
        with_first(self.first_spec(), self.rest_spec().batch_spec())
    }

    fn batch_values_iter(&'r self) -> (r: Self::LegacyBatchValuesIter) {
        LegacyBatchValuesFirstSerialized { first: self.first, rest: self.rest.batch_values_iter() }
    }
}

impl<'a, 'f: 'a, IT: LegacyBatchValuesIterator<'a>> LegacyBatchValuesIterator<'a> for LegacyBatchValuesFirstSerialized<
    'f,
    IT,
> {
    open spec fn remaining(&self) -> Seq<Result<ValuesView, SerializeValuesError>> {
        with_first(self.first_spec(), self.rest_spec().remaining())
    }

    /// The ready buffer, when there is one, is lent as it is.
    fn next_serialized(&mut self) -> (r: Option<SerializedResult<'a>>)
        ensures
            old(self).first_spec() is Some ==> r is Some && r.unwrap() is Ok && r.unwrap().unwrap() is Borrowed,
    {
        let first = self.first;
        self.first = None;
        match first {
            Some(v) => {
                self.rest.skip_next();
                proof {
                    let s = old(self).rest_spec().remaining();
                    assert(with_first(Some(v@), s).drop_first() =~= with_first(
                        None,
                        if s.len() > 0 {
                            s.drop_first()
                        } else {
                            s
                        },
                    ));
                }
                Some(Ok(SerializedValues::Borrowed(v)))
            },
            None => self.rest.next_serialized(),
        }
    }

    fn write_next_to_request(&mut self, buf: &mut Vec<u8>) -> (r: Option<Result<(), SerializeValuesError>>) {
        let first = self.first;
        self.first = None;
        match first {
            Some(v) => {
                self.rest.skip_next();
                v.write_to_request(buf);
                proof {
                    let s = old(self).rest_spec().remaining();
                    assert(with_first(Some(v@), s)[0] == Ok::<ValuesView, SerializeValuesError>(v@));
                    assert(buf@ =~= old(buf)@ + wire_form(v@));
                    assert(with_first(Some(v@), s).drop_first() =~= with_first(
                        None,
                        if s.len() > 0 {
                            s.drop_first()
                        } else {
                            s
                        },
                    ));
                }
                Some(Ok(()))
            },
            None => self.rest.write_next_to_request(buf),
        }
    }

    fn skip_next(&mut self) -> (r: Option<()>) {
        let first = self.first;
        self.first = None;
        let skipped = self.rest.skip_next();
        match first {
            Some(v) => {
                proof {
                    let s = old(self).rest_spec().remaining();
                    assert(with_first(Some(v@), s).drop_first() =~= with_first(
                        None,
                        if s.len() > 0 {
                            s.drop_first()
                        } else {
                            s
                        },
                    ));
                }
                Some(())
            },
            None => skipped,
        }
    }
}

impl<'r, T0: ValueList + 'r> LegacyBatchValues<'r> for (T0,) {
    type LegacyBatchValuesIter = TupleValuesIter<'r, (T0,)>;

    open spec fn batch_spec(&self) -> Seq<Result<ValuesView, SerializeValuesError>> {
        seq![self.0.serialized_spec()]
    }

    fn batch_values_iter(&'r self) -> (r: Self::LegacyBatchValuesIter) {
        let r = TupleValuesIter { tuple: self, idx: 0 };
        assert(seq![self.0.serialized_spec()].subrange(0, 1) =~= seq![self.0.serialized_spec()]);
        r
    }
}

impl<'r, T0: ValueList> LegacyBatchValuesIterator<'r> for TupleValuesIter<'r, (T0,)> {
    closed spec fn remaining(&self) -> Seq<Result<ValuesView, SerializeValuesError>> {
        if self.idx < 1 {
            seq![self.tuple.0.serialized_spec()].subrange(self.idx as int, 1)
        } else {
            Seq::empty()
        }
    }

    fn next_serialized(&mut self) -> (r: Option<SerializedResult<'r>>) {
        let t: &'r (T0,) = self.tuple;
        let res = if self.idx == 0 {
            t.0.serialized()
        } else {
            return None;
        };
        self.idx = self.idx + 1;
        proof {
            let sp = seq![self.tuple.0.serialized_spec()];
            assert(sp.subrange(self.idx as int, 1) =~= sp.subrange(old(self).idx as int, 1).drop_first());
        }
        Some(res)
    }

    fn write_next_to_request(&mut self, buf: &mut Vec<u8>) -> (r: Option<Result<(), SerializeValuesError>>) {
        let t: &'r (T0,) = self.tuple;
        let res = if self.idx == 0 {
            t.0.write_to_request(buf)
        } else {
            return None;
        };
        self.idx = self.idx + 1;
        proof {
            let sp = seq![self.tuple.0.serialized_spec()];
            assert(sp.subrange(self.idx as int, 1) =~= sp.subrange(old(self).idx as int, 1).drop_first());
        }
        match res {
            Ok(()) => Some(Ok(())),
            Err(e) => Some(Err(e)),
        }
    }

    fn skip_next(&mut self) -> (r: Option<()>) {
        if self.idx < 1 {
            self.idx = self.idx + 1;
            proof {
            let sp = seq![self.tuple.0.serialized_spec()];
            assert(sp.subrange(self.idx as int, 1) =~= sp.subrange(old(self).idx as int, 1).drop_first());
        }
            Some(())
        } else {
            None
        }
    }
}

impl<'r, T0: ValueList + 'r, T1: ValueList + 'r> LegacyBatchValues<'r> for (T0, T1) {
    type LegacyBatchValuesIter = TupleValuesIter<'r, (T0, T1)>;

    open spec fn batch_spec(&self) -> Seq<Result<ValuesView, SerializeValuesError>> {
        seq![self.0.serialized_spec(), self.1.serialized_spec()]
    }

    fn batch_values_iter(&'r self) -> (r: Self::LegacyBatchValuesIter) {
        let r = TupleValuesIter { tuple: self, idx: 0 };
        assert(seq![self.0.serialized_spec(), self.1.serialized_spec()].subrange(0, 2) =~= seq![self.0.serialized_spec(), self.1.serialized_spec()]);
        r
    }
}

impl<'r, T0: ValueList, T1: ValueList> LegacyBatchValuesIterator<'r> for TupleValuesIter<'r, (T0, T1)> {
    closed spec fn remaining(&self) -> Seq<Result<ValuesView, SerializeValuesError>> {
        if self.idx < 2 {
            seq![self.tuple.0.serialized_spec(), self.tuple.1.serialized_spec()].subrange(self.idx as int, 2)
        } else {
            Seq::empty()
        }
    }

    fn next_serialized(&mut self) -> (r: Option<SerializedResult<'r>>) {
        let t: &'r (T0, T1) = self.tuple;
        let res = if self.idx == 0 {
            t.0.serialized()
        } else if self.idx == 1 {
            t.1.serialized()
        } else {
            return None;
        };
        self.idx = self.idx + 1;
        proof {
            let sp = seq![self.tuple.0.serialized_spec(), self.tuple.1.serialized_spec()];
            assert(sp.subrange(self.idx as int, 2) =~= sp.subrange(old(self).idx as int, 2).drop_first());
        }
        Some(res)
    }

    fn write_next_to_request(&mut self, buf: &mut Vec<u8>) -> (r: Option<Result<(), SerializeValuesError>>) {
        let t: &'r (T0, T1) = self.tuple;
        let res = if self.idx == 0 {
            t.0.write_to_request(buf)
        } else if self.idx == 1 {
            t.1.write_to_request(buf)
        } else {
            return None;
        };
        self.idx = self.idx + 1;
        proof {
            let sp = seq![self.tuple.0.serialized_spec(), self.tuple.1.serialized_spec()];
            assert(sp.subrange(self.idx as int, 2) =~= sp.subrange(old(self).idx as int, 2).drop_first());
        }
        match res {
            Ok(()) => Some(Ok(())),
            Err(e) => Some(Err(e)),
        }
    }

    fn skip_next(&mut self) -> (r: Option<()>) {
        if self.idx < 2 {
            self.idx = self.idx + 1;
            proof {
            let sp = seq![self.tuple.0.serialized_spec(), self.tuple.1.serialized_spec()];
            assert(sp.subrange(self.idx as int, 2) =~= sp.subrange(old(self).idx as int, 2).drop_first());
        }
            Some(())
        } else {
            None
        }
    }
}

impl<'r, T0: ValueList + 'r, T1: ValueList + 'r, T2: ValueList + 'r> LegacyBatchValues<'r> for (T0, T1, T2) {
    type LegacyBatchValuesIter = TupleValuesIter<'r, (T0, T1, T2)>;

    open spec fn batch_spec(&self) -> Seq<Result<ValuesView, SerializeValuesError>> {
        seq![self.0.serialized_spec(), self.1.serialized_spec(), self.2.serialized_spec()]
    }

    fn batch_values_iter(&'r self) -> (r: Self::LegacyBatchValuesIter) {
        let r = TupleValuesIter { tuple: self, idx: 0 };
        assert(seq![self.0.serialized_spec(), self.1.serialized_spec(), self.2.serialized_spec()].subrange(0, 3) =~= seq![self.0.serialized_spec(), self.1.serialized_spec(), self.2.serialized_spec()]);
        r
    }
}

impl<'r, T0: ValueList, T1: ValueList, T2: ValueList> LegacyBatchValuesIterator<'r> for TupleValuesIter<'r, (T0, T1, T2)> {
    closed spec fn remaining(&self) -> Seq<Result<ValuesView, SerializeValuesError>> {
        if self.idx < 3 {
            seq![self.tuple.0.serialized_spec(), self.tuple.1.serialized_spec(), self.tuple.2.serialized_spec()].subrange(self.idx as int, 3)
        } else {
            Seq::empty()
        }
    }

    fn next_serialized(&mut self) -> (r: Option<SerializedResult<'r>>) {
        let t: &'r (T0, T1, T2) = self.tuple;
        let res = if self.idx == 0 {
            t.0.serialized()
        } else if self.idx == 1 {
            t.1.serialized()
        } else if self.idx == 2 {
            t.2.serialized()
        } else {
            return None;
        };
        self.idx = self.idx + 1;
        proof {
            let sp = seq![self.tuple.0.serialized_spec(), self.tuple.1.serialized_spec(), self.tuple.2.serialized_spec()];
            assert(sp.subrange(self.idx as int, 3) =~= sp.subrange(old(self).idx as int, 3).drop_first());
        }
        Some(res)
    }

    fn write_next_to_request(&mut self, buf: &mut Vec<u8>) -> (r: Option<Result<(), SerializeValuesError>>) {
        let t: &'r (T0, T1, T2) = self.tuple;
        let res = if self.idx == 0 {
            t.0.write_to_request(buf)
        } else if self.idx == 1 {
            t.1.write_to_request(buf)
        } else if self.idx == 2 {
            t.2.write_to_request(buf)
        } else {
            return None;
        };
        self.idx = self.idx + 1;
        proof {
            let sp = seq![self.tuple.0.serialized_spec(), self.tuple.1.serialized_spec(), self.tuple.2.serialized_spec()];
            assert(sp.subrange(self.idx as int, 3) =~= sp.subrange(old(self).idx as int, 3).drop_first());
        }
        match res {
            Ok(()) => Some(Ok(())),
            Err(e) => Some(Err(e)),
        }
    }

    fn skip_next(&mut self) -> (r: Option<()>) {
        if self.idx < 3 {
            self.idx = self.idx + 1;
            proof {
            let sp = seq![self.tuple.0.serialized_spec(), self.tuple.1.serialized_spec(), self.tuple.2.serialized_spec()];
            assert(sp.subrange(self.idx as int, 3) =~= sp.subrange(old(self).idx as int, 3).drop_first());
        }
            Some(())
        } else {
            None
        }
    }
}

impl<'r, T0: ValueList + 'r, T1: ValueList + 'r, T2: ValueList + 'r, T3: ValueList + 'r> LegacyBatchValues<'r> for (T0, T1, T2, T3) {
    type LegacyBatchValuesIter = TupleValuesIter<'r, (T0, T1, T2, T3)>;

    open spec fn batch_spec(&self) -> Seq<Result<ValuesView, SerializeValuesError>> {
        seq![self.0.serialized_spec(), self.1.serialized_spec(), self.2.serialized_spec(), self.3.serialized_spec()]
    }

    fn batch_values_iter(&'r self) -> (r: Self::LegacyBatchValuesIter) {
        let r = TupleValuesIter { tuple: self, idx: 0 };
        assert(seq![self.0.serialized_spec(), self.1.serialized_spec(), self.2.serialized_spec(), self.3.serialized_spec()].subrange(0, 4) =~= seq![self.0.serialized_spec(), self.1.serialized_spec(), self.2.serialized_spec(), self.3.serialized_spec()]);
        r
    }
}

impl<'r, T0: ValueList, T1: ValueList, T2: ValueList, T3: ValueList> LegacyBatchValuesIterator<'r> for TupleValuesIter<'r, (T0, T1, T2, T3)> {
    closed spec fn remaining(&self) -> Seq<Result<ValuesView, SerializeValuesError>> {
        if self.idx < 4 {
            seq![self.tuple.0.serialized_spec(), self.tuple.1.serialized_spec(), self.tuple.2.serialized_spec(), self.tuple.3.serialized_spec()].subrange(self.idx as int, 4)
        } else {
            Seq::empty()
        }
    }

    fn next_serialized(&mut self) -> (r: Option<SerializedResult<'r>>) {
        let t: &'r (T0, T1, T2, T3) = self.tuple;
        let res = if self.idx == 0 {
            t.0.serialized()
        } else if self.idx == 1 {
            t.1.serialized()
        } else if self.idx == 2 {
            t.2.serialized()
        } else if self.idx == 3 {
            t.3.serialized()
        } else {
            return None;
        };
        self.idx = self.idx + 1;
        proof {
            let sp = seq![self.tuple.0.serialized_spec(), self.tuple.1.serialized_spec(), self.tuple.2.serialized_spec(), self.tuple.3.serialized_spec()];
            assert(sp.subrange(self.idx as int, 4) =~= sp.subrange(old(self).idx as int, 4).drop_first());
        }
        Some(res)
    }

    fn write_next_to_request(&mut self, buf: &mut Vec<u8>) -> (r: Option<Result<(), SerializeValuesError>>) {
        let t: &'r (T0, T1, T2, T3) = self.tuple;
        let res = if self.idx == 0 {
            t.0.write_to_request(buf)
        } else if self.idx == 1 {
            t.1.write_to_request(buf)
        } else if self.idx == 2 {
            t.2.write_to_request(buf)
        } else if self.idx == 3 {
            t.3.write_to_request(buf)
        } else {
            return None;
        };
        self.idx = self.idx + 1;
        proof {
            let sp = seq![self.tuple.0.serialized_spec(), self.tuple.1.serialized_spec(), self.tuple.2.serialized_spec(), self.tuple.3.serialized_spec()];
            assert(sp.subrange(self.idx as int, 4) =~= sp.subrange(old(self).idx as int, 4).drop_first());
        }
        match res {
            Ok(()) => Some(Ok(())),
            Err(e) => Some(Err(e)),
        }
    }

    fn skip_next(&mut self) -> (r: Option<()>) {
        if self.idx < 4 {
            self.idx = self.idx + 1;
            proof {
            let sp = seq![self.tuple.0.serialized_spec(), self.tuple.1.serialized_spec(), self.tuple.2.serialized_spec(), self.tuple.3.serialized_spec()];
            assert(sp.subrange(self.idx as int, 4) =~= sp.subrange(old(self).idx as int, 4).drop_first());
        }
            Some(())
        } else {
            None
        }
    }
}

impl<'r, T0: ValueList + 'r, T1: ValueList + 'r, T2: ValueList + 'r, T3: ValueList + 'r, T4: ValueList + 'r> LegacyBatchValues<'r> for (T0, T1, T2, T3, T4) {
    type LegacyBatchValuesIter = TupleValuesIter<'r, (T0, T1, T2, T3, T4)>;

    open spec fn batch_spec(&self) -> Seq<Result<ValuesView, SerializeValuesError>> {
        seq![self.0.serialized_spec(), self.1.serialized_spec(), self.2.serialized_spec(), self.3.serialized_spec(), self.4.serialized_spec()]
    }

    fn batch_values_iter(&'r self) -> (r: Self::LegacyBatchValuesIter) {
        let r = TupleValuesIter { tuple: self, idx: 0 };
        assert(seq![self.0.serialized_spec(), self.1.serialized_spec(), self.2.serialized_spec(), self.3.serialized_spec(), self.4.serialized_spec()].subrange(0, 5) =~= seq![self.0.serialized_spec(), self.1.serialized_spec(), self.2.serialized_spec(), self.3.serialized_spec(), self.4.serialized_spec()]);
        r
    }
}

impl<'r, T0: ValueList, T1: ValueList, T2: ValueList, T3: ValueList, T4: ValueList> LegacyBatchValuesIterator<'r> for TupleValuesIter<'r, (T0, T1, T2, T3, T4)> {
    closed spec fn remaining(&self) -> Seq<Result<ValuesView, SerializeValuesError>> {
        if self.idx < 5 {
            seq![self.tuple.0.serialized_spec(), self.tuple.1.serialized_spec(), self.tuple.2.serialized_spec(), self.tuple.3.serialized_spec(), self.tuple.4.serialized_spec()].subrange(self.idx as int, 5)
        } else {
            Seq::empty()
        }
    }

    fn next_serialized(&mut self) -> (r: Option<SerializedResult<'r>>) {
        let t: &'r (T0, T1, T2, T3, T4) = self.tuple;
        let res = if self.idx == 0 {
            t.0.serialized()
        } else if self.idx == 1 {
            t.1.serialized()
        } else if self.idx == 2 {
            t.2.serialized()
        } else if self.idx == 3 {
            t.3.serialized()
        } else if self.idx == 4 {
            t.4.serialized()
        } else {
            return None;
        };
        self.idx = self.idx + 1;
        proof {
            let sp = seq![self.tuple.0.serialized_spec(), self.tuple.1.serialized_spec(), self.tuple.2.serialized_spec(), self.tuple.3.serialized_spec(), self.tuple.4.serialized_spec()];
            assert(sp.subrange(self.idx as int, 5) =~= sp.subrange(old(self).idx as int, 5).drop_first());
        }
        Some(res)
    }

    fn write_next_to_request(&mut self, buf: &mut Vec<u8>) -> (r: Option<Result<(), SerializeValuesError>>) {
        let t: &'r (T0, T1, T2, T3, T4) = self.tuple;
        let res = if self.idx == 0 {
            t.0.write_to_request(buf)
        } else if self.idx == 1 {
            t.1.write_to_request(buf)
        } else if self.idx == 2 {
            t.2.write_to_request(buf)
        } else if self.idx == 3 {
            t.3.write_to_request(buf)
        } else if self.idx == 4 {
            t.4.write_to_request(buf)
        } else {
            return None;
        };
        self.idx = self.idx + 1;
        proof {
            let sp = seq![self.tuple.0.serialized_spec(), self.tuple.1.serialized_spec(), self.tuple.2.serialized_spec(), self.tuple.3.serialized_spec(), self.tuple.4.serialized_spec()];
            assert(sp.subrange(self.idx as int, 5) =~= sp.subrange(old(self).idx as int, 5).drop_first());
        }
        match res {
            Ok(()) => Some(Ok(())),
            Err(e) => Some(Err(e)),
        }
    }

    fn skip_next(&mut self) -> (r: Option<()>) {
        if self.idx < 5 {
            self.idx = self.idx + 1;
            proof {
            let sp = seq![self.tuple.0.serialized_spec(), self.tuple.1.serialized_spec(), self.tuple.2.serialized_spec(), self.tuple.3.serialized_spec(), self.tuple.4.serialized_spec()];
            assert(sp.subrange(self.idx as int, 5) =~= sp.subrange(old(self).idx as int, 5).drop_first());
        }
            Some(())
        } else {
            None
        }
    }
}

impl<'r, T0: ValueList + 'r, T1: ValueList + 'r, T2: ValueList + 'r, T3: ValueList + 'r, T4: ValueList + 'r, T5: ValueList + 'r> LegacyBatchValues<'r> for (T0, T1, T2, T3, T4, T5) {
    type LegacyBatchValuesIter = TupleValuesIter<'r, (T0, T1, T2, T3, T4, T5)>;

    open spec fn batch_spec(&self) -> Seq<Result<ValuesView, SerializeValuesError>> {
        seq![self.0.serialized_spec(), self.1.serialized_spec(), self.2.serialized_spec(), self.3.serialized_spec(), self.4.serialized_spec(), self.5.serialized_spec()]
    }

    fn batch_values_iter(&'r self) -> (r: Self::LegacyBatchValuesIter) {
        let r = TupleValuesIter { tuple: self, idx: 0 };
        assert(seq![self.0.serialized_spec(), self.1.serialized_spec(), self.2.serialized_spec(), self.3.serialized_spec(), self.4.serialized_spec(), self.5.serialized_spec()].subrange(0, 6) =~= seq![self.0.serialized_spec(), self.1.serialized_spec(), self.2.serialized_spec(), self.3.serialized_spec(), self.4.serialized_spec(), self.5.serialized_spec()]);
        r
    }
}

impl<'r, T0: ValueList, T1: ValueList, T2: ValueList, T3: ValueList, T4: ValueList, T5: ValueList> LegacyBatchValuesIterator<'r> for TupleValuesIter<'r, (T0, T1, T2, T3, T4, T5)> {
    closed spec fn remaining(&self) -> Seq<Result<ValuesView, SerializeValuesError>> {
        if self.idx < 6 {
            seq![self.tuple.0.serialized_spec(), self.tuple.1.serialized_spec(), self.tuple.2.serialized_spec(), self.tuple.3.serialized_spec(), self.tuple.4.serialized_spec(), self.tuple.5.serialized_spec()].subrange(self.idx as int, 6)
        } else {
            Seq::empty()
        }
    }

    fn next_serialized(&mut self) -> (r: Option<SerializedResult<'r>>) {
        let t: &'r (T0, T1, T2, T3, T4, T5) = self.tuple;
        let res = if self.idx == 0 {
            t.0.serialized()
        } else if self.idx == 1 {
            t.1.serialized()
        } else if self.idx == 2 {
            t.2.serialized()
        } else if self.idx == 3 {
            t.3.serialized()
        } else if self.idx == 4 {
            t.4.serialized()
        } else if self.idx == 5 {
            t.5.serialized()
        } else {
            return None;
        };
        self.idx = self.idx + 1;
        proof {
            let sp = seq![self.tuple.0.serialized_spec(), self.tuple.1.serialized_spec(), self.tuple.2.serialized_spec(), self.tuple.3.serialized_spec(), self.tuple.4.serialized_spec(), self.tuple.5.serialized_spec()];
            assert(sp.subrange(self.idx as int, 6) =~= sp.subrange(old(self).idx as int, 6).drop_first());
        }
        Some(res)
    }

    fn write_next_to_request(&mut self, buf: &mut Vec<u8>) -> (r: Option<Result<(), SerializeValuesError>>) {
        let t: &'r (T0, T1, T2, T3, T4, T5) = self.tuple;
        let res = if self.idx == 0 {
            t.0.write_to_request(buf)
        } else if self.idx == 1 {
            t.1.write_to_request(buf)
        } else if self.idx == 2 {
            t.2.write_to_request(buf)
        } else if self.idx == 3 {
            t.3.write_to_request(buf)
        } else if self.idx == 4 {
            t.4.write_to_request(buf)
        } else if self.idx == 5 {
            t.5.write_to_request(buf)
        } else {
            return None;
        };
        self.idx = self.idx + 1;
        proof {
            let sp = seq![self.tuple.0.serialized_spec(), self.tuple.1.serialized_spec(), self.tuple.2.serialized_spec(), self.tuple.3.serialized_spec(), self.tuple.4.serialized_spec(), self.tuple.5.serialized_spec()];
            assert(sp.subrange(self.idx as int, 6) =~= sp.subrange(old(self).idx as int, 6).drop_first());
        }
        match res {
            Ok(()) => Some(Ok(())),
            Err(e) => Some(Err(e)),
        }
    }

    fn skip_next(&mut self) -> (r: Option<()>) {
        if self.idx < 6 {
            self.idx = self.idx + 1;
            proof {
            let sp = seq![self.tuple.0.serialized_spec(), self.tuple.1.serialized_spec(), self.tuple.2.serialized_spec(), self.tuple.3.serialized_spec(), self.tuple.4.serialized_spec(), self.tuple.5.serialized_spec()];
            assert(sp.subrange(self.idx as int, 6) =~= sp.subrange(old(self).idx as int, 6).drop_first());
        }
            Some(())
        } else {
            None
        }
    }
}

impl<'r, T0: ValueList + 'r, T1: ValueList + 'r, T2: ValueList + 'r, T3: ValueList + 'r, T4: ValueList + 'r, T5: ValueList + 'r, T6: ValueList + 'r> LegacyBatchValues<'r> for (T0, T1, T2, T3, T4, T5, T6) {
    type LegacyBatchValuesIter = TupleValuesIter<'r, (T0, T1, T2, T3, T4, T5, T6)>;

    open spec fn batch_spec(&self) -> Seq<Result<ValuesView, SerializeValuesError>> {
        seq![self.0.serialized_spec(), self.1.serialized_spec(), self.2.serialized_spec(), self.3.serialized_spec(), self.4.serialized_spec(), self.5.serialized_spec(), self.6.serialized_spec()]
    }

    fn batch_values_iter(&'r self) -> (r: Self::LegacyBatchValuesIter) {
        let r = TupleValuesIter { tuple: self, idx: 0 };
        assert(seq![self.0.serialized_spec(), self.1.serialized_spec(), self.2.serialized_spec(), self.3.serialized_spec(), self.4.serialized_spec(), self.5.serialized_spec(), self.6.serialized_spec()].subrange(0, 7) =~= seq![self.0.serialized_spec(), self.1.serialized_spec(), self.2.serialized_spec(), self.3.serialized_spec(), self.4.serialized_spec(), self.5.serialized_spec(), self.6.serialized_spec()]);
        r
    }
}

impl<'r, T0: ValueList, T1: ValueList, T2: ValueList, T3: ValueList, T4: ValueList, T5: ValueList, T6: ValueList> LegacyBatchValuesIterator<'r> for TupleValuesIter<'r, (T0, T1, T2, T3, T4, T5, T6)> {
    closed spec fn remaining(&self) -> Seq<Result<ValuesView, SerializeValuesError>> {
        if self.idx < 7 {
            seq![self.tuple.0.serialized_spec(), self.tuple.1.serialized_spec(), self.tuple.2.serialized_spec(), self.tuple.3.serialized_spec(), self.tuple.4.serialized_spec(), self.tuple.5.serialized_spec(), self.tuple.6.serialized_spec()].subrange(self.idx as int, 7)
        } else {
            Seq::empty()
        }
    }

    fn next_serialized(&mut self) -> (r: Option<SerializedResult<'r>>) {
        let t: &'r (T0, T1, T2, T3, T4, T5, T6) = self.tuple;
        let res = if self.idx == 0 {
            t.0.serialized()
        } else if self.idx == 1 {
            t.1.serialized()
        } else if self.idx == 2 {
            t.2.serialized()
        } else if self.idx == 3 {
            t.3.serialized()
        } else if self.idx == 4 {
            t.4.serialized()
        } else if self.idx == 5 {
            t.5.serialized()
        } else if self.idx == 6 {
            t.6.serialized()
        } else {
            return None;
        };
        self.idx = self.idx + 1;
        proof {
            let sp = seq![self.tuple.0.serialized_spec(), self.tuple.1.serialized_spec(), self.tuple.2.serialized_spec(), self.tuple.3.serialized_spec(), self.tuple.4.serialized_spec(), self.tuple.5.serialized_spec(), self.tuple.6.serialized_spec()];
            assert(sp.subrange(self.idx as int, 7) =~= sp.subrange(old(self).idx as int, 7).drop_first());
        }
        Some(res)
    }

    fn write_next_to_request(&mut self, buf: &mut Vec<u8>) -> (r: Option<Result<(), SerializeValuesError>>) {
        let t: &'r (T0, T1, T2, T3, T4, T5, T6) = self.tuple;
        let res = if self.idx == 0 {
            t.0.write_to_request(buf)
        } else if self.idx == 1 {
            t.1.write_to_request(buf)
        } else if self.idx == 2 {
            t.2.write_to_request(buf)
        } else if self.idx == 3 {
            t.3.write_to_request(buf)
        } else if self.idx == 4 {
            t.4.write_to_request(buf)
        } else if self.idx == 5 {
            t.5.write_to_request(buf)
        } else if self.idx == 6 {
            t.6.write_to_request(buf)
        } else {
            return None;
        };
        self.idx = self.idx + 1;
        proof {
            let sp = seq![self.tuple.0.serialized_spec(), self.tuple.1.serialized_spec(), self.tuple.2.serialized_spec(), self.tuple.3.serialized_spec(), self.tuple.4.serialized_spec(), self.tuple.5.serialized_spec(), self.tuple.6.serialized_spec()];
            assert(sp.subrange(self.idx as int, 7) =~= sp.subrange(old(self).idx as int, 7).drop_first());
        }
        match res {
            Ok(()) => Some(Ok(())),
            Err(e) => Some(Err(e)),
        }
    }

    fn skip_next(&mut self) -> (r: Option<()>) {
        if self.idx < 7 {
            self.idx = self.idx + 1;
            proof {
            let sp = seq![self.tuple.0.serialized_spec(), self.tuple.1.serialized_spec(), self.tuple.2.serialized_spec(), self.tuple.3.serialized_spec(), self.tuple.4.serialized_spec(), self.tuple.5.serialized_spec(), self.tuple.6.serialized_spec()];
            assert(sp.subrange(self.idx as int, 7) =~= sp.subrange(old(self).idx as int, 7).drop_first());
        }
            Some(())
        } else {
            None
        }
    }
}

impl<'r, T0: ValueList + 'r, T1: ValueList + 'r, T2: ValueList + 'r, T3: ValueList + 'r, T4: ValueList + 'r, T5: ValueList + 'r, T6: ValueList + 'r, T7: ValueList + 'r> LegacyBatchValues<'r> for (T0, T1, T2, T3, T4, T5, T6, T7) {
    type LegacyBatchValuesIter = TupleValuesIter<'r, (T0, T1, T2, T3, T4, T5, T6, T7)>;

    open spec fn batch_spec(&self) -> Seq<Result<ValuesView, SerializeValuesError>> {
        seq![self.0.serialized_spec(), self.1.serialized_spec(), self.2.serialized_spec(), self.3.serialized_spec(), self.4.serialized_spec(), self.5.serialized_spec(), self.6.serialized_spec(), self.7.serialized_spec()]
    }

    fn batch_values_iter(&'r self) -> (r: Self::LegacyBatchValuesIter) {
        let r = TupleValuesIter { tuple: self, idx: 0 };
        assert(seq![self.0.serialized_spec(), self.1.serialized_spec(), self.2.serialized_spec(), self.3.serialized_spec(), self.4.serialized_spec(), self.5.serialized_spec(), self.6.serialized_spec(), self.7.serialized_spec()].subrange(0, 8) =~= seq![self.0.serialized_spec(), self.1.serialized_spec(), self.2.serialized_spec(), self.3.serialized_spec(), self.4.serialized_spec(), self.5.serialized_spec(), self.6.serialized_spec(), self.7.serialized_spec()]);
        r
    }
}

impl<'r, T0: ValueList, T1: ValueList, T2: ValueList, T3: ValueList, T4: ValueList, T5: ValueList, T6: ValueList, T7: ValueList> LegacyBatchValuesIterator<'r> for TupleValuesIter<'r, (T0, T1, T2, T3, T4, T5, T6, T7)> {
    closed spec fn remaining(&self) -> Seq<Result<ValuesView, SerializeValuesError>> {
        if self.idx < 8 {
            seq![self.tuple.0.serialized_spec(), self.tuple.1.serialized_spec(), self.tuple.2.serialized_spec(), self.tuple.3.serialized_spec(), self.tuple.4.serialized_spec(), self.tuple.5.serialized_spec(), self.tuple.6.serialized_spec(), self.tuple.7.serialized_spec()].subrange(self.idx as int, 8)
        } else {
            Seq::empty()
        }
    }

    fn next_serialized(&mut self) -> (r: Option<SerializedResult<'r>>) {
        let t: &'r (T0, T1, T2, T3, T4, T5, T6, T7) = self.tuple;
        let res = if self.idx == 0 {
            t.0.serialized()
        } else if self.idx == 1 {
            t.1.serialized()
        } else if self.idx == 2 {
            t.2.serialized()
        } else if self.idx == 3 {
            t.3.serialized()
        } else if self.idx == 4 {
            t.4.serialized()
        } else if self.idx == 5 {
            t.5.serialized()
        } else if self.idx == 6 {
            t.6.serialized()
        } else if self.idx == 7 {
            t.7.serialized()
        } else {
            return None;
        };
        self.idx = self.idx + 1;
        proof {
            let sp = seq![self.tuple.0.serialized_spec(), self.tuple.1.serialized_spec(), self.tuple.2.serialized_spec(), self.tuple.3.serialized_spec(), self.tuple.4.serialized_spec(), self.tuple.5.serialized_spec(), self.tuple.6.serialized_spec(), self.tuple.7.serialized_spec()];
            assert(sp.subrange(self.idx as int, 8) =~= sp.subrange(old(self).idx as int, 8).drop_first());
        }
        Some(res)
    }

    fn write_next_to_request(&mut self, buf: &mut Vec<u8>) -> (r: Option<Result<(), SerializeValuesError>>) {
        let t: &'r (T0, T1, T2, T3, T4, T5, T6, T7) = self.tuple;
        let res = if self.idx == 0 {
            t.0.write_to_request(buf)
        } else if self.idx == 1 {
            t.1.write_to_request(buf)
        } else if self.idx == 2 {
            t.2.write_to_request(buf)
        } else if self.idx == 3 {
            t.3.write_to_request(buf)
        } else if self.idx == 4 {
            t.4.write_to_request(buf)
        } else if self.idx == 5 {
            t.5.write_to_request(buf)
        } else if self.idx == 6 {
            t.6.write_to_request(buf)
        } else if self.idx == 7 {
            t.7.write_to_request(buf)
        } else {
            return None;
        };
        self.idx = self.idx + 1;
        proof {
            let sp = seq![self.tuple.0.serialized_spec(), self.tuple.1.serialized_spec(), self.tuple.2.serialized_spec(), self.tuple.3.serialized_spec(), self.tuple.4.serialized_spec(), self.tuple.5.serialized_spec(), self.tuple.6.serialized_spec(), self.tuple.7.serialized_spec()];
            assert(sp.subrange(self.idx as int, 8) =~= sp.subrange(old(self).idx as int, 8).drop_first());
        }
        match res {
            Ok(()) => Some(Ok(())),
            Err(e) => Some(Err(e)),
        }
    }

    fn skip_next(&mut self) -> (r: Option<()>) {
        if self.idx < 8 {
            self.idx = self.idx + 1;
            proof {
            let sp = seq![self.tuple.0.serialized_spec(), self.tuple.1.serialized_spec(), self.tuple.2.serialized_spec(), self.tuple.3.serialized_spec(), self.tuple.4.serialized_spec(), self.tuple.5.serialized_spec(), self.tuple.6.serialized_spec(), self.tuple.7.serialized_spec()];
            assert(sp.subrange(self.idx as int, 8) =~= sp.subrange(old(self).idx as int, 8).drop_first());
        }
            Some(())
        } else {
            None
        }
    }
}

impl<'r, T0: ValueList + 'r, T1: ValueList + 'r, T2: ValueList + 'r, T3: ValueList + 'r, T4: ValueList + 'r, T5: ValueList + 'r, T6: ValueList + 'r, T7: ValueList + 'r, T8: ValueList + 'r> LegacyBatchValues<'r> for (T0, T1, T2, T3, T4, T5, T6, T7, T8) {
    type LegacyBatchValuesIter = TupleValuesIter<'r, (T0, T1, T2, T3, T4, T5, T6, T7, T8)>;

    open spec fn batch_spec(&self) -> Seq<Result<ValuesView, SerializeValuesError>> {
        seq![self.0.serialized_spec(), self.1.serialized_spec(), self.2.serialized_spec(), self.3.serialized_spec(), self.4.serialized_spec(), self.5.serialized_spec(), self.6.serialized_spec(), self.7.serialized_spec(), self.8.serialized_spec()]
    }

    fn batch_values_iter(&'r self) -> (r: Self::LegacyBatchValuesIter) {
        let r = TupleValuesIter { tuple: self, idx: 0 };
        assert(seq![self.0.serialized_spec(), self.1.serialized_spec(), self.2.serialized_spec(), self.3.serialized_spec(), self.4.serialized_spec(), self.5.serialized_spec(), self.6.serialized_spec(), self.7.serialized_spec(), self.8.serialized_spec()].subrange(0, 9) =~= seq![self.0.serialized_spec(), self.1.serialized_spec(), self.2.serialized_spec(), self.3.serialized_spec(), self.4.serialized_spec(), self.5.serialized_spec(), self.6.serialized_spec(), self.7.serialized_spec(), self.8.serialized_spec()]);
        r
    }
}

impl<'r, T0: ValueList, T1: ValueList, T2: ValueList, T3: ValueList, T4: ValueList, T5: ValueList, T6: ValueList, T7: ValueList, T8: ValueList> LegacyBatchValuesIterator<'r> for TupleValuesIter<'r, (T0, T1, T2, T3, T4, T5, T6, T7, T8)> {
    closed spec fn remaining(&self) -> Seq<Result<ValuesView, SerializeValuesError>> {
        if self.idx < 9 {
            seq![self.tuple.0.serialized_spec(), self.tuple.1.serialized_spec(), self.tuple.2.serialized_spec(), self.tuple.3.serialized_spec(), self.tuple.4.serialized_spec(), self.tuple.5.serialized_spec(), self.tuple.6.serialized_spec(), self.tuple.7.serialized_spec(), self.tuple.8.serialized_spec()].subrange(self.idx as int, 9)
        } else {
            Seq::empty()
        }
    }

    fn next_serialized(&mut self) -> (r: Option<SerializedResult<'r>>) {
        let t: &'r (T0, T1, T2, T3, T4, T5, T6, T7, T8) = self.tuple;
        let res = if self.idx == 0 {
            t.0.serialized()
        } else if self.idx == 1 {
            t.1.serialized()
        } else if self.idx == 2 {
            t.2.serialized()
        } else if self.idx == 3 {
            t.3.serialized()
        } else if self.idx == 4 {
            t.4.serialized()
        } else if self.idx == 5 {
            t.5.serialized()
        } else if self.idx == 6 {
            t.6.serialized()
        } else if self.idx == 7 {
            t.7.serialized()
        } else if self.idx == 8 {
            t.8.serialized()
        } else {
            return None;
        };
        self.idx = self.idx + 1;
        proof {
            let sp = seq![self.tuple.0.serialized_spec(), self.tuple.1.serialized_spec(), self.tuple.2.serialized_spec(), self.tuple.3.serialized_spec(), self.tuple.4.serialized_spec(), self.tuple.5.serialized_spec(), self.tuple.6.serialized_spec(), self.tuple.7.serialized_spec(), self.tuple.8.serialized_spec()];
            assert(sp.subrange(self.idx as int, 9) =~= sp.subrange(old(self).idx as int, 9).drop_first());
        }
        Some(res)
    }

    fn write_next_to_request(&mut self, buf: &mut Vec<u8>) -> (r: Option<Result<(), SerializeValuesError>>) {
        let t: &'r (T0, T1, T2, T3, T4, T5, T6, T7, T8) = self.tuple;
        let res = if self.idx == 0 {
            t.0.write_to_request(buf)
        } else if self.idx == 1 {
            t.1.write_to_request(buf)
        } else if self.idx == 2 {
            t.2.write_to_request(buf)
        } else if self.idx == 3 {
            t.3.write_to_request(buf)
        } else if self.idx == 4 {
            t.4.write_to_request(buf)
        } else if self.idx == 5 {
            t.5.write_to_request(buf)
        } else if self.idx == 6 {
            t.6.write_to_request(buf)
        } else if self.idx == 7 {
            t.7.write_to_request(buf)
        } else if self.idx == 8 {
            t.8.write_to_request(buf)
        } else {
            return None;
        };
        self.idx = self.idx + 1;
        proof {
            let sp = seq![self.tuple.0.serialized_spec(), self.tuple.1.serialized_spec(), self.tuple.2.serialized_spec(), self.tuple.3.serialized_spec(), self.tuple.4.serialized_spec(), self.tuple.5.serialized_spec(), self.tuple.6.serialized_spec(), self.tuple.7.serialized_spec(), self.tuple.8.serialized_spec()];
            assert(sp.subrange(self.idx as int, 9) =~= sp.subrange(old(self).idx as int, 9).drop_first());
        }
        match res {
            Ok(()) => Some(Ok(())),
            Err(e) => Some(Err(e)),
        }
    }

    fn skip_next(&mut self) -> (r: Option<()>) {
        if self.idx < 9 {
            self.idx = self.idx + 1;
            proof {
            let sp = seq![self.tuple.0.serialized_spec(), self.tuple.1.serialized_spec(), self.tuple.2.serialized_spec(), self.tuple.3.serialized_spec(), self.tuple.4.serialized_spec(), self.tuple.5.serialized_spec(), self.tuple.6.serialized_spec(), self.tuple.7.serialized_spec(), self.tuple.8.serialized_spec()];
            assert(sp.subrange(self.idx as int, 9) =~= sp.subrange(old(self).idx as int, 9).drop_first());
        }
            Some(())
        } else {
            None
        }
    }
}

impl<'r, T0: ValueList + 'r, T1: ValueList + 'r, T2: ValueList + 'r, T3: ValueList + 'r, T4: ValueList + 'r, T5: ValueList + 'r, T6: ValueList + 'r, T7: ValueList + 'r, T8: ValueList + 'r, T9: ValueList + 'r> LegacyBatchValues<'r> for (T0, T1, T2, T3, T4, T5, T6, T7, T8, T9) {
    type LegacyBatchValuesIter = TupleValuesIter<'r, (T0, T1, T2, T3, T4, T5, T6, T7, T8, T9)>;

    open spec fn batch_spec(&self) -> Seq<Result<ValuesView, SerializeValuesError>> {
        seq![self.0.serialized_spec(), self.1.serialized_spec(), self.2.serialized_spec(), self.3.serialized_spec(), self.4.serialized_spec(), self.5.serialized_spec(), self.6.serialized_spec(), self.7.serialized_spec(), self.8.serialized_spec(), self.9.serialized_spec()]
    }

    fn batch_values_iter(&'r self) -> (r: Self::LegacyBatchValuesIter) {
        let r = TupleValuesIter { tuple: self, idx: 0 };
        assert(seq![self.0.serialized_spec(), self.1.serialized_spec(), self.2.serialized_spec(), self.3.serialized_spec(), self.4.serialized_spec(), self.5.serialized_spec(), self.6.serialized_spec(), self.7.serialized_spec(), self.8.serialized_spec(), self.9.serialized_spec()].subrange(0, 10) =~= seq![self.0.serialized_spec(), self.1.serialized_spec(), self.2.serialized_spec(), self.3.serialized_spec(), self.4.serialized_spec(), self.5.serialized_spec(), self.6.serialized_spec(), self.7.serialized_spec(), self.8.serialized_spec(), self.9.serialized_spec()]);
        r
    }
}

impl<'r, T0: ValueList, T1: ValueList, T2: ValueList, T3: ValueList, T4: ValueList, T5: ValueList, T6: ValueList, T7: ValueList, T8: ValueList, T9: ValueList> LegacyBatchValuesIterator<'r> for TupleValuesIter<'r, (T0, T1, T2, T3, T4, T5, T6, T7, T8, T9)> {
    closed spec fn remaining(&self) -> Seq<Result<ValuesView, SerializeValuesError>> {
        if self.idx < 10 {
            seq![self.tuple.0.serialized_spec(), self.tuple.1.serialized_spec(), self.tuple.2.serialized_spec(), self.tuple.3.serialized_spec(), self.tuple.4.serialized_spec(), self.tuple.5.serialized_spec(), self.tuple.6.serialized_spec(), self.tuple.7.serialized_spec(), self.tuple.8.serialized_spec(), self.tuple.9.serialized_spec()].subrange(self.idx as int, 10)
        } else {
            Seq::empty()
        }
    }

    fn next_serialized(&mut self) -> (r: Option<SerializedResult<'r>>) {
        let t: &'r (T0, T1, T2, T3, T4, T5, T6, T7, T8, T9) = self.tuple;
        let res = if self.idx == 0 {
            t.0.serialized()
        } else if self.idx == 1 {
            t.1.serialized()
        } else if self.idx == 2 {
            t.2.serialized()
        } else if self.idx == 3 {
            t.3.serialized()
        } else if self.idx == 4 {
            t.4.serialized()
        } else if self.idx == 5 {
            t.5.serialized()
        } else if self.idx == 6 {
            t.6.serialized()
        } else if self.idx == 7 {
            t.7.serialized()
        } else if self.idx == 8 {
            t.8.serialized()
        } else if self.idx == 9 {
            t.9.serialized()
        } else {
            return None;
        };
        self.idx = self.idx + 1;
        proof {
            let sp = seq![self.tuple.0.serialized_spec(), self.tuple.1.serialized_spec(), self.tuple.2.serialized_spec(), self.tuple.3.serialized_spec(), self.tuple.4.serialized_spec(), self.tuple.5.serialized_spec(), self.tuple.6.serialized_spec(), self.tuple.7.serialized_spec(), self.tuple.8.serialized_spec(), self.tuple.9.serialized_spec()];
            assert(sp.subrange(self.idx as int, 10) =~= sp.subrange(old(self).idx as int, 10).drop_first());
        }
        Some(res)
    }

    fn write_next_to_request(&mut self, buf: &mut Vec<u8>) -> (r: Option<Result<(), SerializeValuesError>>) {
        let t: &'r (T0, T1, T2, T3, T4, T5, T6, T7, T8, T9) = self.tuple;
        let res = if self.idx == 0 {
            t.0.write_to_request(buf)
        } else if self.idx == 1 {
            t.1.write_to_request(buf)
        } else if self.idx == 2 {
            t.2.write_to_request(buf)
        } else if self.idx == 3 {
            t.3.write_to_request(buf)
        } else if self.idx == 4 {
            t.4.write_to_request(buf)
        } else if self.idx == 5 {
            t.5.write_to_request(buf)
        } else if self.idx == 6 {
            t.6.write_to_request(buf)
        } else if self.idx == 7 {
            t.7.write_to_request(buf)
        } else if self.idx == 8 {
            t.8.write_to_request(buf)
        } else if self.idx == 9 {
            t.9.write_to_request(buf)
        } else {
            return None;
        };
        self.idx = self.idx + 1;
        proof {
            let sp = seq![self.tuple.0.serialized_spec(), self.tuple.1.serialized_spec(), self.tuple.2.serialized_spec(), self.tuple.3.serialized_spec(), self.tuple.4.serialized_spec(), self.tuple.5.serialized_spec(), self.tuple.6.serialized_spec(), self.tuple.7.serialized_spec(), self.tuple.8.serialized_spec(), self.tuple.9.serialized_spec()];
            assert(sp.subrange(self.idx as int, 10) =~= sp.subrange(old(self).idx as int, 10).drop_first());
        }
        match res {
            Ok(()) => Some(Ok(())),
            Err(e) => Some(Err(e)),
        }
    }

    fn skip_next(&mut self) -> (r: Option<()>) {
        if self.idx < 10 {
            self.idx = self.idx + 1;
            proof {
            let sp = seq![self.tuple.0.serialized_spec(), self.tuple.1.serialized_spec(), self.tuple.2.serialized_spec(), self.tuple.3.serialized_spec(), self.tuple.4.serialized_spec(), self.tuple.5.serialized_spec(), self.tuple.6.serialized_spec(), self.tuple.7.serialized_spec(), self.tuple.8.serialized_spec(), self.tuple.9.serialized_spec()];
            assert(sp.subrange(self.idx as int, 10) =~= sp.subrange(old(self).idx as int, 10).drop_first());
        }
            Some(())
        } else {
            None
        }
    }
}

impl<'r, T0: ValueList + 'r, T1: ValueList + 'r, T2: ValueList + 'r, T3: ValueList + 'r, T4: ValueList + 'r, T5: ValueList + 'r, T6: ValueList + 'r, T7: ValueList + 'r, T8: ValueList + 'r, T9: ValueList + 'r, T10: ValueList + 'r> LegacyBatchValues<'r> for (T0, T1, T2, T3, T4, T5, T6, T7, T8, T9, T10) {
    type LegacyBatchValuesIter = TupleValuesIter<'r, (T0, T1, T2, T3, T4, T5, T6, T7, T8, T9, T10)>;

    open spec fn batch_spec(&self) -> Seq<Result<ValuesView, SerializeValuesError>> {
        seq![self.0.serialized_spec(), self.1.serialized_spec(), self.2.serialized_spec(), self.3.serialized_spec(), self.4.serialized_spec(), self.5.serialized_spec(), self.6.serialized_spec(), self.7.serialized_spec(), self.8.serialized_spec(), self.9.serialized_spec(), self.10.serialized_spec()]
    }

    fn batch_values_iter(&'r self) -> (r: Self::LegacyBatchValuesIter) {
        let r = TupleValuesIter { tuple: self, idx: 0 };
        assert(seq![self.0.serialized_spec(), self.1.serialized_spec(), self.2.serialized_spec(), self.3.serialized_spec(), self.4.serialized_spec(), self.5.serialized_spec(), self.6.serialized_spec(), self.7.serialized_spec(), self.8.serialized_spec(), self.9.serialized_spec(), self.10.serialized_spec()].subrange(0, 11) =~= seq![self.0.serialized_spec(), self.1.serialized_spec(), self.2.serialized_spec(), self.3.serialized_spec(), self.4.serialized_spec(), self.5.serialized_spec(), self.6.serialized_spec(), self.7.serialized_spec(), self.8.serialized_spec(), self.9.serialized_spec(), self.10.serialized_spec()]);
        r
    }
}

impl<'r, T0: ValueList, T1: ValueList, T2: ValueList, T3: ValueList, T4: ValueList, T5: ValueList, T6: ValueList, T7: ValueList, T8: ValueList, T9: ValueList, T10: ValueList> LegacyBatchValuesIterator<'r> for TupleValuesIter<'r, (T0, T1, T2, T3, T4, T5, T6, T7, T8, T9, T10)> {
    closed spec fn remaining(&self) -> Seq<Result<ValuesView, SerializeValuesError>> {
        if self.idx < 11 {
            seq![self.tuple.0.serialized_spec(), self.tuple.1.serialized_spec(), self.tuple.2.serialized_spec(), self.tuple.3.serialized_spec(), self.tuple.4.serialized_spec(), self.tuple.5.serialized_spec(), self.tuple.6.serialized_spec(), self.tuple.7.serialized_spec(), self.tuple.8.serialized_spec(), self.tuple.9.serialized_spec(), self.tuple.10.serialized_spec()].subrange(self.idx as int, 11)
        } else {
            Seq::empty()
        }
    }

    fn next_serialized(&mut self) -> (r: Option<SerializedResult<'r>>) {
        let t: &'r (T0, T1, T2, T3, T4, T5, T6, T7, T8, T9, T10) = self.tuple;
        let res = if self.idx == 0 {
            t.0.serialized()
        } else if self.idx == 1 {
            t.1.serialized()
        } else if self.idx == 2 {
            t.2.serialized()
        } else if self.idx == 3 {
            t.3.serialized()
        } else if self.idx == 4 {
            t.4.serialized()
        } else if self.idx == 5 {
            t.5.serialized()
        } else if self.idx == 6 {
            t.6.serialized()
        } else if self.idx == 7 {
            t.7.serialized()
        } else if self.idx == 8 {
            t.8.serialized()
        } else if self.idx == 9 {
            t.9.serialized()
        } else if self.idx == 10 {
            t.10.serialized()
        } else {
            return None;
        };
        self.idx = self.idx + 1;
        proof {
            let sp = seq![self.tuple.0.serialized_spec(), self.tuple.1.serialized_spec(), self.tuple.2.serialized_spec(), self.tuple.3.serialized_spec(), self.tuple.4.serialized_spec(), self.tuple.5.serialized_spec(), self.tuple.6.serialized_spec(), self.tuple.7.serialized_spec(), self.tuple.8.serialized_spec(), self.tuple.9.serialized_spec(), self.tuple.10.serialized_spec()];
            assert(sp.subrange(self.idx as int, 11) =~= sp.subrange(old(self).idx as int, 11).drop_first());
        }
        Some(res)
    }

    fn write_next_to_request(&mut self, buf: &mut Vec<u8>) -> (r: Option<Result<(), SerializeValuesError>>) {
        let t: &'r (T0, T1, T2, T3, T4, T5, T6, T7, T8, T9, T10) = self.tuple;
        let res = if self.idx == 0 {
            t.0.write_to_request(buf)
        } else if self.idx == 1 {
            t.1.write_to_request(buf)
        } else if self.idx == 2 {
            t.2.write_to_request(buf)
        } else if self.idx == 3 {
            t.3.write_to_request(buf)
        } else if self.idx == 4 {
            t.4.write_to_request(buf)
        } else if self.idx == 5 {
            t.5.write_to_request(buf)
        } else if self.idx == 6 {
            t.6.write_to_request(buf)
        } else if self.idx == 7 {
            t.7.write_to_request(buf)
        } else if self.idx == 8 {
            t.8.write_to_request(buf)
        } else if self.idx == 9 {
            t.9.write_to_request(buf)
        } else if self.idx == 10 {
            t.10.write_to_request(buf)
        } else {
            return None;
        };
        self.idx = self.idx + 1;
        proof {
            let sp = seq![self.tuple.0.serialized_spec(), self.tuple.1.serialized_spec(), self.tuple.2.serialized_spec(), self.tuple.3.serialized_spec(), self.tuple.4.serialized_spec(), self.tuple.5.serialized_spec(), self.tuple.6.serialized_spec(), self.tuple.7.serialized_spec(), self.tuple.8.serialized_spec(), self.tuple.9.serialized_spec(), self.tuple.10.serialized_spec()];
            assert(sp.subrange(self.idx as int, 11) =~= sp.subrange(old(self).idx as int, 11).drop_first());
        }
        match res {
            Ok(()) => Some(Ok(())),
            Err(e) => Some(Err(e)),
        }
    }

    fn skip_next(&mut self) -> (r: Option<()>) {
        if self.idx < 11 {
            self.idx = self.idx + 1;
            proof {
            let sp = seq![self.tuple.0.serialized_spec(), self.tuple.1.serialized_spec(), self.tuple.2.serialized_spec(), self.tuple.3.serialized_spec(), self.tuple.4.serialized_spec(), self.tuple.5.serialized_spec(), self.tuple.6.serialized_spec(), self.tuple.7.serialized_spec(), self.tuple.8.serialized_spec(), self.tuple.9.serialized_spec(), self.tuple.10.serialized_spec()];
            assert(sp.subrange(self.idx as int, 11) =~= sp.subrange(old(self).idx as int, 11).drop_first());
        }
            Some(())
        } else {
            None
        }
    }
}

impl<'r, T0: ValueList + 'r, T1: ValueList + 'r, T2: ValueList + 'r, T3: ValueList + 'r, T4: ValueList + 'r, T5: ValueList + 'r, T6: ValueList + 'r, T7: ValueList + 'r, T8: ValueList + 'r, T9: ValueList + 'r, T10: ValueList + 'r, T11: ValueList + 'r> LegacyBatchValues<'r> for (T0, T1, T2, T3, T4, T5, T6, T7, T8, T9, T10, T11) {
    type LegacyBatchValuesIter = TupleValuesIter<'r, (T0, T1, T2, T3, T4, T5, T6, T7, T8, T9, T10, T11)>;

    open spec fn batch_spec(&self) -> Seq<Result<ValuesView, SerializeValuesError>> {
        seq![self.0.serialized_spec(), self.1.serialized_spec(), self.2.serialized_spec(), self.3.serialized_spec(), self.4.serialized_spec(), self.5.serialized_spec(), self.6.serialized_spec(), self.7.serialized_spec(), self.8.serialized_spec(), self.9.serialized_spec(), self.10.serialized_spec(), self.11.serialized_spec()]
    }

    fn batch_values_iter(&'r self) -> (r: Self::LegacyBatchValuesIter) {
        let r = TupleValuesIter { tuple: self, idx: 0 };
        assert(seq![self.0.serialized_spec(), self.1.serialized_spec(), self.2.serialized_spec(), self.3.serialized_spec(), self.4.serialized_spec(), self.5.serialized_spec(), self.6.serialized_spec(), self.7.serialized_spec(), self.8.serialized_spec(), self.9.serialized_spec(), self.10.serialized_spec(), self.11.serialized_spec()].subrange(0, 12) =~= seq![self.0.serialized_spec(), self.1.serialized_spec(), self.2.serialized_spec(), self.3.serialized_spec(), self.4.serialized_spec(), self.5.serialized_spec(), self.6.serialized_spec(), self.7.serialized_spec(), self.8.serialized_spec(), self.9.serialized_spec(), self.10.serialized_spec(), self.11.serialized_spec()]);
        r
    }
}

impl<'r, T0: ValueList, T1: ValueList, T2: ValueList, T3: ValueList, T4: ValueList, T5: ValueList, T6: ValueList, T7: ValueList, T8: ValueList, T9: ValueList, T10: ValueList, T11: ValueList> LegacyBatchValuesIterator<'r> for TupleValuesIter<'r, (T0, T1, T2, T3, T4, T5, T6, T7, T8, T9, T10, T11)> {
    closed spec fn remaining(&self) -> Seq<Result<ValuesView, SerializeValuesError>> {
        if self.idx < 12 {
            seq![self.tuple.0.serialized_spec(), self.tuple.1.serialized_spec(), self.tuple.2.serialized_spec(), self.tuple.3.serialized_spec(), self.tuple.4.serialized_spec(), self.tuple.5.serialized_spec(), self.tuple.6.serialized_spec(), self.tuple.7.serialized_spec(), self.tuple.8.serialized_spec(), self.tuple.9.serialized_spec(), self.tuple.10.serialized_spec(), self.tuple.11.serialized_spec()].subrange(self.idx as int, 12)
        } else {
            Seq::empty()
        }
    }

    fn next_serialized(&mut self) -> (r: Option<SerializedResult<'r>>) {
        let t: &'r (T0, T1, T2, T3, T4, T5, T6, T7, T8, T9, T10, T11) = self.tuple;
        let res = if self.idx == 0 {
            t.0.serialized()
        } else if self.idx == 1 {
            t.1.serialized()
        } else if self.idx == 2 {
            t.2.serialized()
        } else if self.idx == 3 {
            t.3.serialized()
        } else if self.idx == 4 {
            t.4.serialized()
        } else if self.idx == 5 {
            t.5.serialized()
        } else if self.idx == 6 {
            t.6.serialized()
        } else if self.idx == 7 {
            t.7.serialized()
        } else if self.idx == 8 {
            t.8.serialized()
        } else if self.idx == 9 {
            t.9.serialized()
        } else if self.idx == 10 {
            t.10.serialized()
        } else if self.idx == 11 {
            t.11.serialized()
        } else {
            return None;
        };
        self.idx = self.idx + 1;
        proof {
            let sp = seq![self.tuple.0.serialized_spec(), self.tuple.1.serialized_spec(), self.tuple.2.serialized_spec(), self.tuple.3.serialized_spec(), self.tuple.4.serialized_spec(), self.tuple.5.serialized_spec(), self.tuple.6.serialized_spec(), self.tuple.7.serialized_spec(), self.tuple.8.serialized_spec(), self.tuple.9.serialized_spec(), self.tuple.10.serialized_spec(), self.tuple.11.serialized_spec()];
            assert(sp.subrange(self.idx as int, 12) =~= sp.subrange(old(self).idx as int, 12).drop_first());
        }
        Some(res)
    }

    fn write_next_to_request(&mut self, buf: &mut Vec<u8>) -> (r: Option<Result<(), SerializeValuesError>>) {
        let t: &'r (T0, T1, T2, T3, T4, T5, T6, T7, T8, T9, T10, T11) = self.tuple;
        let res = if self.idx == 0 {
            t.0.write_to_request(buf)
        } else if self.idx == 1 {
            t.1.write_to_request(buf)
        } else if self.idx == 2 {
            t.2.write_to_request(buf)
        } else if self.idx == 3 {
            t.3.write_to_request(buf)
        } else if self.idx == 4 {
            t.4.write_to_request(buf)
        } else if self.idx == 5 {
            t.5.write_to_request(buf)
        } else if self.idx == 6 {
            t.6.write_to_request(buf)
        } else if self.idx == 7 {
            t.7.write_to_request(buf)
        } else if self.idx == 8 {
            t.8.write_to_request(buf)
        } else if self.idx == 9 {
            t.9.write_to_request(buf)
        } else if self.idx == 10 {
            t.10.write_to_request(buf)
        } else if self.idx == 11 {
            t.11.write_to_request(buf)
        } else {
            return None;
        };
        self.idx = self.idx + 1;
        proof {
            let sp = seq![self.tuple.0.serialized_spec(), self.tuple.1.serialized_spec(), self.tuple.2.serialized_spec(), self.tuple.3.serialized_spec(), self.tuple.4.serialized_spec(), self.tuple.5.serialized_spec(), self.tuple.6.serialized_spec(), self.tuple.7.serialized_spec(), self.tuple.8.serialized_spec(), self.tuple.9.serialized_spec(), self.tuple.10.serialized_spec(), self.tuple.11.serialized_spec()];
            assert(sp.subrange(self.idx as int, 12) =~= sp.subrange(old(self).idx as int, 12).drop_first());
        }
        match res {
            Ok(()) => Some(Ok(())),
            Err(e) => Some(Err(e)),
        }
    }

    fn skip_next(&mut self) -> (r: Option<()>) {
        if self.idx < 12 {
            self.idx = self.idx + 1;
            proof {
            let sp = seq![self.tuple.0.serialized_spec(), self.tuple.1.serialized_spec(), self.tuple.2.serialized_spec(), self.tuple.3.serialized_spec(), self.tuple.4.serialized_spec(), self.tuple.5.serialized_spec(), self.tuple.6.serialized_spec(), self.tuple.7.serialized_spec(), self.tuple.8.serialized_spec(), self.tuple.9.serialized_spec(), self.tuple.10.serialized_spec(), self.tuple.11.serialized_spec()];
            assert(sp.subrange(self.idx as int, 12) =~= sp.subrange(old(self).idx as int, 12).drop_first());
        }
            Some(())
        } else {
            None
        }
    }
}

impl<'r, T0: ValueList + 'r, T1: ValueList + 'r, T2: ValueList + 'r, T3: ValueList + 'r, T4: ValueList + 'r, T5: ValueList + 'r, T6: ValueList + 'r, T7: ValueList + 'r, T8: ValueList + 'r, T9: ValueList + 'r, T10: ValueList + 'r, T11: ValueList + 'r, T12: ValueList + 'r> LegacyBatchValues<'r> for (T0, T1, T2, T3, T4, T5, T6, T7, T8, T9, T10, T11, T12) {
    type LegacyBatchValuesIter = TupleValuesIter<'r, (T0, T1, T2, T3, T4, T5, T6, T7, T8, T9, T10, T11, T12)>;

    open spec fn batch_spec(&self) -> Seq<Result<ValuesView, SerializeValuesError>> {
        seq![self.0.serialized_spec(), self.1.serialized_spec(), self.2.serialized_spec(), self.3.serialized_spec(), self.4.serialized_spec(), self.5.serialized_spec(), self.6.serialized_spec(), self.7.serialized_spec(), self.8.serialized_spec(), self.9.serialized_spec(), self.10.serialized_spec(), self.11.serialized_spec(), self.12.serialized_spec()]
    }

    fn batch_values_iter(&'r self) -> (r: Self::LegacyBatchValuesIter) {
        let r = TupleValuesIter { tuple: self, idx: 0 };
        assert(seq![self.0.serialized_spec(), self.1.serialized_spec(), self.2.serialized_spec(), self.3.serialized_spec(), self.4.serialized_spec(), self.5.serialized_spec(), self.6.serialized_spec(), self.7.serialized_spec(), self.8.serialized_spec(), self.9.serialized_spec(), self.10.serialized_spec(), self.11.serialized_spec(), self.12.serialized_spec()].subrange(0, 13) =~= seq![self.0.serialized_spec(), self.1.serialized_spec(), self.2.serialized_spec(), self.3.serialized_spec(), self.4.serialized_spec(), self.5.serialized_spec(), self.6.serialized_spec(), self.7.serialized_spec(), self.8.serialized_spec(), self.9.serialized_spec(), self.10.serialized_spec(), self.11.serialized_spec(), self.12.serialized_spec()]);
        r
    }
}

impl<'r, T0: ValueList, T1: ValueList, T2: ValueList, T3: ValueList, T4: ValueList, T5: ValueList, T6: ValueList, T7: ValueList, T8: ValueList, T9: ValueList, T10: ValueList, T11: ValueList, T12: ValueList> LegacyBatchValuesIterator<'r> for TupleValuesIter<'r, (T0, T1, T2, T3, T4, T5, T6, T7, T8, T9, T10, T11, T12)> {
    closed spec fn remaining(&self) -> Seq<Result<ValuesView, SerializeValuesError>> {
        if self.idx < 13 {
            seq![self.tuple.0.serialized_spec(), self.tuple.1.serialized_spec(), self.tuple.2.serialized_spec(), self.tuple.3.serialized_spec(), self.tuple.4.serialized_spec(), self.tuple.5.serialized_spec(), self.tuple.6.serialized_spec(), self.tuple.7.serialized_spec(), self.tuple.8.serialized_spec(), self.tuple.9.serialized_spec(), self.tuple.10.serialized_spec(), self.tuple.11.serialized_spec(), self.tuple.12.serialized_spec()].subrange(self.idx as int, 13)
        } else {
            Seq::empty()
        }
    }

    fn next_serialized(&mut self) -> (r: Option<SerializedResult<'r>>) {
        let t: &'r (T0, T1, T2, T3, T4, T5, T6, T7, T8, T9, T10, T11, T12) = self.tuple;
        let res = if self.idx == 0 {
            t.0.serialized()
        } else if self.idx == 1 {
            t.1.serialized()
        } else if self.idx == 2 {
            t.2.serialized()
        } else if self.idx == 3 {
            t.3.serialized()
        } else if self.idx == 4 {
            t.4.serialized()
        } else if self.idx == 5 {
            t.5.serialized()
        } else if self.idx == 6 {
            t.6.serialized()
        } else if self.idx == 7 {
            t.7.serialized()
        } else if self.idx == 8 {
            t.8.serialized()
        } else if self.idx == 9 {
            t.9.serialized()
        } else if self.idx == 10 {
            t.10.serialized()
        } else if self.idx == 11 {
            t.11.serialized()
        } else if self.idx == 12 {
            t.12.serialized()
        } else {
            return None;
        };
        self.idx = self.idx + 1;
        proof {
            let sp = seq![self.tuple.0.serialized_spec(), self.tuple.1.serialized_spec(), self.tuple.2.serialized_spec(), self.tuple.3.serialized_spec(), self.tuple.4.serialized_spec(), self.tuple.5.serialized_spec(), self.tuple.6.serialized_spec(), self.tuple.7.serialized_spec(), self.tuple.8.serialized_spec(), self.tuple.9.serialized_spec(), self.tuple.10.serialized_spec(), self.tuple.11.serialized_spec(), self.tuple.12.serialized_spec()];
            assert(sp.subrange(self.idx as int, 13) =~= sp.subrange(old(self).idx as int, 13).drop_first());
        }
        Some(res)
    }

    fn write_next_to_request(&mut self, buf: &mut Vec<u8>) -> (r: Option<Result<(), SerializeValuesError>>) {
        let t: &'r (T0, T1, T2, T3, T4, T5, T6, T7, T8, T9, T10, T11, T12) = self.tuple;
        let res = if self.idx == 0 {
            t.0.write_to_request(buf)
        } else if self.idx == 1 {
            t.1.write_to_request(buf)
        } else if self.idx == 2 {
            t.2.write_to_request(buf)
        } else if self.idx == 3 {
            t.3.write_to_request(buf)
        } else if self.idx == 4 {
            t.4.write_to_request(buf)
        } else if self.idx == 5 {
            t.5.write_to_request(buf)
        } else if self.idx == 6 {
            t.6.write_to_request(buf)
        } else if self.idx == 7 {
            t.7.write_to_request(buf)
        } else if self.idx == 8 {
            t.8.write_to_request(buf)
        } else if self.idx == 9 {
            t.9.write_to_request(buf)
        } else if self.idx == 10 {
            t.10.write_to_request(buf)
        } else if self.idx == 11 {
            t.11.write_to_request(buf)
        } else if self.idx == 12 {
            t.12.write_to_request(buf)
        } else {
            return None;
        };
        self.idx = self.idx + 1;
        proof {
            let sp = seq![self.tuple.0.serialized_spec(), self.tuple.1.serialized_spec(), self.tuple.2.serialized_spec(), self.tuple.3.serialized_spec(), self.tuple.4.serialized_spec(), self.tuple.5.serialized_spec(), self.tuple.6.serialized_spec(), self.tuple.7.serialized_spec(), self.tuple.8.serialized_spec(), self.tuple.9.serialized_spec(), self.tuple.10.serialized_spec(), self.tuple.11.serialized_spec(), self.tuple.12.serialized_spec()];
            assert(sp.subrange(self.idx as int, 13) =~= sp.subrange(old(self).idx as int, 13).drop_first());
        }
        match res {
            Ok(()) => Some(Ok(())),
            Err(e) => Some(Err(e)),
        }
    }

    fn skip_next(&mut self) -> (r: Option<()>) {
        if self.idx < 13 {
            self.idx = self.idx + 1;
            proof {
            let sp = seq![self.tuple.0.serialized_spec(), self.tuple.1.serialized_spec(), self.tuple.2.serialized_spec(), self.tuple.3.serialized_spec(), self.tuple.4.serialized_spec(), self.tuple.5.serialized_spec(), self.tuple.6.serialized_spec(), self.tuple.7.serialized_spec(), self.tuple.8.serialized_spec(), self.tuple.9.serialized_spec(), self.tuple.10.serialized_spec(), self.tuple.11.serialized_spec(), self.tuple.12.serialized_spec()];
            assert(sp.subrange(self.idx as int, 13) =~= sp.subrange(old(self).idx as int, 13).drop_first());
        }
            Some(())
        } else {
            None
        }
    }
}

impl<'r, T0: ValueList + 'r, T1: ValueList + 'r, T2: ValueList + 'r, T3: ValueList + 'r, T4: ValueList + 'r, T5: ValueList + 'r, T6: ValueList + 'r, T7: ValueList + 'r, T8: ValueList + 'r, T9: ValueList + 'r, T10: ValueList + 'r, T11: ValueList + 'r, T12: ValueList + 'r, T13: ValueList + 'r> LegacyBatchValues<'r> for (T0, T1, T2, T3, T4, T5, T6, T7, T8, T9, T10, T11, T12, T13) {
    type LegacyBatchValuesIter = TupleValuesIter<'r, (T0, T1, T2, T3, T4, T5, T6, T7, T8, T9, T10, T11, T12, T13)>;

    open spec fn batch_spec(&self) -> Seq<Result<ValuesView, SerializeValuesError>> {
        seq![self.0.serialized_spec(), self.1.serialized_spec(), self.2.serialized_spec(), self.3.serialized_spec(), self.4.serialized_spec(), self.5.serialized_spec(), self.6.serialized_spec(), self.7.serialized_spec(), self.8.serialized_spec(), self.9.serialized_spec(), self.10.serialized_spec(), self.11.serialized_spec(), self.12.serialized_spec(), self.13.serialized_spec()]
    }

    fn batch_values_iter(&'r self) -> (r: Self::LegacyBatchValuesIter) {
        let r = TupleValuesIter { tuple: self, idx: 0 };
        assert(seq![self.0.serialized_spec(), self.1.serialized_spec(), self.2.serialized_spec(), self.3.serialized_spec(), self.4.serialized_spec(), self.5.serialized_spec(), self.6.serialized_spec(), self.7.serialized_spec(), self.8.serialized_spec(), self.9.serialized_spec(), self.10.serialized_spec(), self.11.serialized_spec(), self.12.serialized_spec(), self.13.serialized_spec()].subrange(0, 14) =~= seq![self.0.serialized_spec(), self.1.serialized_spec(), self.2.serialized_spec(), self.3.serialized_spec(), self.4.serialized_spec(), self.5.serialized_spec(), self.6.serialized_spec(), self.7.serialized_spec(), self.8.serialized_spec(), self.9.serialized_spec(), self.10.serialized_spec(), self.11.serialized_spec(), self.12.serialized_spec(), self.13.serialized_spec()]);
        r
    }
}

impl<'r, T0: ValueList, T1: ValueList, T2: ValueList, T3: ValueList, T4: ValueList, T5: ValueList, T6: ValueList, T7: ValueList, T8: ValueList, T9: ValueList, T10: ValueList, T11: ValueList, T12: ValueList, T13: ValueList> LegacyBatchValuesIterator<'r> for TupleValuesIter<'r, (T0, T1, T2, T3, T4, T5, T6, T7, T8, T9, T10, T11, T12, T13)> {
    closed spec fn remaining(&self) -> Seq<Result<ValuesView, SerializeValuesError>> {
        if self.idx < 14 {
            seq![self.tuple.0.serialized_spec(), self.tuple.1.serialized_spec(), self.tuple.2.serialized_spec(), self.tuple.3.serialized_spec(), self.tuple.4.serialized_spec(), self.tuple.5.serialized_spec(), self.tuple.6.serialized_spec(), self.tuple.7.serialized_spec(), self.tuple.8.serialized_spec(), self.tuple.9.serialized_spec(), self.tuple.10.serialized_spec(), self.tuple.11.serialized_spec(), self.tuple.12.serialized_spec(), self.tuple.13.serialized_spec()].subrange(self.idx as int, 14)
        } else {
            Seq::empty()
        }
    }

    fn next_serialized(&mut self) -> (r: Option<SerializedResult<'r>>) {
        let t: &'r (T0, T1, T2, T3, T4, T5, T6, T7, T8, T9, T10, T11, T12, T13) = self.tuple;
        let res = if self.idx == 0 {
            t.0.serialized()
        } else if self.idx == 1 {
            t.1.serialized()
        } else if self.idx == 2 {
            t.2.serialized()
        } else if self.idx == 3 {
            t.3.serialized()
        } else if self.idx == 4 {
            t.4.serialized()
        } else if self.idx == 5 {
            t.5.serialized()
        } else if self.idx == 6 {
            t.6.serialized()
        } else if self.idx == 7 {
            t.7.serialized()
        } else if self.idx == 8 {
            t.8.serialized()
        } else if self.idx == 9 {
            t.9.serialized()
        } else if self.idx == 10 {
            t.10.serialized()
        } else if self.idx == 11 {
            t.11.serialized()
        } else if self.idx == 12 {
            t.12.serialized()
        } else if self.idx == 13 {
            t.13.serialized()
        } else {
            return None;
        };
        self.idx = self.idx + 1;
        proof {
            let sp = seq![self.tuple.0.serialized_spec(), self.tuple.1.serialized_spec(), self.tuple.2.serialized_spec(), self.tuple.3.serialized_spec(), self.tuple.4.serialized_spec(), self.tuple.5.serialized_spec(), self.tuple.6.serialized_spec(), self.tuple.7.serialized_spec(), self.tuple.8.serialized_spec(), self.tuple.9.serialized_spec(), self.tuple.10.serialized_spec(), self.tuple.11.serialized_spec(), self.tuple.12.serialized_spec(), self.tuple.13.serialized_spec()];
            assert(sp.subrange(self.idx as int, 14) =~= sp.subrange(old(self).idx as int, 14).drop_first());
        }
        Some(res)
    }

    fn write_next_to_request(&mut self, buf: &mut Vec<u8>) -> (r: Option<Result<(), SerializeValuesError>>) {
        let t: &'r (T0, T1, T2, T3, T4, T5, T6, T7, T8, T9, T10, T11, T12, T13) = self.tuple;
        let res = if self.idx == 0 {
            t.0.write_to_request(buf)
        } else if self.idx == 1 {
            t.1.write_to_request(buf)
        } else if self.idx == 2 {
            t.2.write_to_request(buf)
        } else if self.idx == 3 {
            t.3.write_to_request(buf)
        } else if self.idx == 4 {
            t.4.write_to_request(buf)
        } else if self.idx == 5 {
            t.5.write_to_request(buf)
        } else if self.idx == 6 {
            t.6.write_to_request(buf)
        } else if self.idx == 7 {
            t.7.write_to_request(buf)
        } else if self.idx == 8 {
            t.8.write_to_request(buf)
        } else if self.idx == 9 {
            t.9.write_to_request(buf)
        } else if self.idx == 10 {
            t.10.write_to_request(buf)
        } else if self.idx == 11 {
            t.11.write_to_request(buf)
        } else if self.idx == 12 {
            t.12.write_to_request(buf)
        } else if self.idx == 13 {
            t.13.write_to_request(buf)
        } else {
            return None;
        };
        self.idx = self.idx + 1;
        proof {
            let sp = seq![self.tuple.0.serialized_spec(), self.tuple.1.serialized_spec(), self.tuple.2.serialized_spec(), self.tuple.3.serialized_spec(), self.tuple.4.serialized_spec(), self.tuple.5.serialized_spec(), self.tuple.6.serialized_spec(), self.tuple.7.serialized_spec(), self.tuple.8.serialized_spec(), self.tuple.9.serialized_spec(), self.tuple.10.serialized_spec(), self.tuple.11.serialized_spec(), self.tuple.12.serialized_spec(), self.tuple.13.serialized_spec()];
            assert(sp.subrange(self.idx as int, 14) =~= sp.subrange(old(self).idx as int, 14).drop_first());
        }
        match res {
            Ok(()) => Some(Ok(())),
            Err(e) => Some(Err(e)),
        }
    }

    fn skip_next(&mut self) -> (r: Option<()>) {
        if self.idx < 14 {
            self.idx = self.idx + 1;
            proof {
            let sp = seq![self.tuple.0.serialized_spec(), self.tuple.1.serialized_spec(), self.tuple.2.serialized_spec(), self.tuple.3.serialized_spec(), self.tuple.4.serialized_spec(), self.tuple.5.serialized_spec(), self.tuple.6.serialized_spec(), self.tuple.7.serialized_spec(), self.tuple.8.serialized_spec(), self.tuple.9.serialized_spec(), self.tuple.10.serialized_spec(), self.tuple.11.serialized_spec(), self.tuple.12.serialized_spec(), self.tuple.13.serialized_spec()];
            assert(sp.subrange(self.idx as int, 14) =~= sp.subrange(old(self).idx as int, 14).drop_first());
        }
            Some(())
        } else {
            None
        }
    }
}

impl<'r, T0: ValueList + 'r, T1: ValueList + 'r, T2: ValueList + 'r, T3: ValueList + 'r, T4: ValueList + 'r, T5: ValueList + 'r, T6: ValueList + 'r, T7: ValueList + 'r, T8: ValueList + 'r, T9: ValueList + 'r, T10: ValueList + 'r, T11: ValueList + 'r, T12: ValueList + 'r, T13: ValueList + 'r, T14: ValueList + 'r> LegacyBatchValues<'r> for (T0, T1, T2, T3, T4, T5, T6, T7, T8, T9, T10, T11, T12, T13, T14) {
    type LegacyBatchValuesIter = TupleValuesIter<'r, (T0, T1, T2, T3, T4, T5, T6, T7, T8, T9, T10, T11, T12, T13, T14)>;

    open spec fn batch_spec(&self) -> Seq<Result<ValuesView, SerializeValuesError>> {
        seq![self.0.serialized_spec(), self.1.serialized_spec(), self.2.serialized_spec(), self.3.serialized_spec(), self.4.serialized_spec(), self.5.serialized_spec(), self.6.serialized_spec(), self.7.serialized_spec(), self.8.serialized_spec(), self.9.serialized_spec(), self.10.serialized_spec(), self.11.serialized_spec(), self.12.serialized_spec(), self.13.serialized_spec(), self.14.serialized_spec()]
    }

    fn batch_values_iter(&'r self) -> (r: Self::LegacyBatchValuesIter) {
        let r = TupleValuesIter { tuple: self, idx: 0 };
        assert(seq![self.0.serialized_spec(), self.1.serialized_spec(), self.2.serialized_spec(), self.3.serialized_spec(), self.4.serialized_spec(), self.5.serialized_spec(), self.6.serialized_spec(), self.7.serialized_spec(), self.8.serialized_spec(), self.9.serialized_spec(), self.10.serialized_spec(), self.11.serialized_spec(), self.12.serialized_spec(), self.13.serialized_spec(), self.14.serialized_spec()].subrange(0, 15) =~= seq![self.0.serialized_spec(), self.1.serialized_spec(), self.2.serialized_spec(), self.3.serialized_spec(), self.4.serialized_spec(), self.5.serialized_spec(), self.6.serialized_spec(), self.7.serialized_spec(), self.8.serialized_spec(), self.9.serialized_spec(), self.10.serialized_spec(), self.11.serialized_spec(), self.12.serialized_spec(), self.13.serialized_spec(), self.14.serialized_spec()]);
        r
    }
}

impl<'r, T0: ValueList, T1: ValueList, T2: ValueList, T3: ValueList, T4: ValueList, T5: ValueList, T6: ValueList, T7: ValueList, T8: ValueList, T9: ValueList, T10: ValueList, T11: ValueList, T12: ValueList, T13: ValueList, T14: ValueList> LegacyBatchValuesIterator<'r> for TupleValuesIter<'r, (T0, T1, T2, T3, T4, T5, T6, T7, T8, T9, T10, T11, T12, T13, T14)> {
    closed spec fn remaining(&self) -> Seq<Result<ValuesView, SerializeValuesError>> {
        if self.idx < 15 {
            seq![self.tuple.0.serialized_spec(), self.tuple.1.serialized_spec(), self.tuple.2.serialized_spec(), self.tuple.3.serialized_spec(), self.tuple.4.serialized_spec(), self.tuple.5.serialized_spec(), self.tuple.6.serialized_spec(), self.tuple.7.serialized_spec(), self.tuple.8.serialized_spec(), self.tuple.9.serialized_spec(), self.tuple.10.serialized_spec(), self.tuple.11.serialized_spec(), self.tuple.12.serialized_spec(), self.tuple.13.serialized_spec(), self.tuple.14.serialized_spec()].subrange(self.idx as int, 15)
        } else {
            Seq::empty()
        }
    }

    fn next_serialized(&mut self) -> (r: Option<SerializedResult<'r>>) {
        let t: &'r (T0, T1, T2, T3, T4, T5, T6, T7, T8, T9, T10, T11, T12, T13, T14) = self.tuple;
        let res = if self.idx == 0 {
            t.0.serialized()
        } else if self.idx == 1 {
            t.1.serialized()
        } else if self.idx == 2 {
            t.2.serialized()
        } else if self.idx == 3 {
            t.3.serialized()
        } else if self.idx == 4 {
            t.4.serialized()
        } else if self.idx == 5 {
            t.5.serialized()
        } else if self.idx == 6 {
            t.6.serialized()
        } else if self.idx == 7 {
            t.7.serialized()
        } else if self.idx == 8 {
            t.8.serialized()
        } else if self.idx == 9 {
            t.9.serialized()
        } else if self.idx == 10 {
            t.10.serialized()
        } else if self.idx == 11 {
            t.11.serialized()
        } else if self.idx == 12 {
            t.12.serialized()
        } else if self.idx == 13 {
            t.13.serialized()
        } else if self.idx == 14 {
            t.14.serialized()
        } else {
            return None;
        };
        self.idx = self.idx + 1;
        proof {
            let sp = seq![self.tuple.0.serialized_spec(), self.tuple.1.serialized_spec(), self.tuple.2.serialized_spec(), self.tuple.3.serialized_spec(), self.tuple.4.serialized_spec(), self.tuple.5.serialized_spec(), self.tuple.6.serialized_spec(), self.tuple.7.serialized_spec(), self.tuple.8.serialized_spec(), self.tuple.9.serialized_spec(), self.tuple.10.serialized_spec(), self.tuple.11.serialized_spec(), self.tuple.12.serialized_spec(), self.tuple.13.serialized_spec(), self.tuple.14.serialized_spec()];
            assert(sp.subrange(self.idx as int, 15) =~= sp.subrange(old(self).idx as int, 15).drop_first());
        }
        Some(res)
    }

    fn write_next_to_request(&mut self, buf: &mut Vec<u8>) -> (r: Option<Result<(), SerializeValuesError>>) {
        let t: &'r (T0, T1, T2, T3, T4, T5, T6, T7, T8, T9, T10, T11, T12, T13, T14) = self.tuple;
        let res = if self.idx == 0 {
            t.0.write_to_request(buf)
        } else if self.idx == 1 {
            t.1.write_to_request(buf)
        } else if self.idx == 2 {
            t.2.write_to_request(buf)
        } else if self.idx == 3 {
            t.3.write_to_request(buf)
        } else if self.idx == 4 {
            t.4.write_to_request(buf)
        } else if self.idx == 5 {
            t.5.write_to_request(buf)
        } else if self.idx == 6 {
            t.6.write_to_request(buf)
        } else if self.idx == 7 {
            t.7.write_to_request(buf)
        } else if self.idx == 8 {
            t.8.write_to_request(buf)
        } else if self.idx == 9 {
            t.9.write_to_request(buf)
        } else if self.idx == 10 {
            t.10.write_to_request(buf)
        } else if self.idx == 11 {
            t.11.write_to_request(buf)
        } else if self.idx == 12 {
            t.12.write_to_request(buf)
        } else if self.idx == 13 {
            t.13.write_to_request(buf)
        } else if self.idx == 14 {
            t.14.write_to_request(buf)
        } else {
            return None;
        };
        self.idx = self.idx + 1;
        proof {
            let sp = seq![self.tuple.0.serialized_spec(), self.tuple.1.serialized_spec(), self.tuple.2.serialized_spec(), self.tuple.3.serialized_spec(), self.tuple.4.serialized_spec(), self.tuple.5.serialized_spec(), self.tuple.6.serialized_spec(), self.tuple.7.serialized_spec(), self.tuple.8.serialized_spec(), self.tuple.9.serialized_spec(), self.tuple.10.serialized_spec(), self.tuple.11.serialized_spec(), self.tuple.12.serialized_spec(), self.tuple.13.serialized_spec(), self.tuple.14.serialized_spec()];
            assert(sp.subrange(self.idx as int, 15) =~= sp.subrange(old(self).idx as int, 15).drop_first());
        }
        match res {
            Ok(()) => Some(Ok(())),
            Err(e) => Some(Err(e)),
        }
    }

    fn skip_next(&mut self) -> (r: Option<()>) {
        if self.idx < 15 {
            self.idx = self.idx + 1;
            proof {
            let sp = seq![self.tuple.0.serialized_spec(), self.tuple.1.serialized_spec(), self.tuple.2.serialized_spec(), self.tuple.3.serialized_spec(), self.tuple.4.serialized_spec(), self.tuple.5.serialized_spec(), self.tuple.6.serialized_spec(), self.tuple.7.serialized_spec(), self.tuple.8.serialized_spec(), self.tuple.9.serialized_spec(), self.tuple.10.serialized_spec(), self.tuple.11.serialized_spec(), self.tuple.12.serialized_spec(), self.tuple.13.serialized_spec(), self.tuple.14.serialized_spec()];
            assert(sp.subrange(self.idx as int, 15) =~= sp.subrange(old(self).idx as int, 15).drop_first());
        }
            Some(())
        } else {
            None
        }
    }
}

impl<'r, T0: ValueList + 'r, T1: ValueList + 'r, T2: ValueList + 'r, T3: ValueList + 'r, T4: ValueList + 'r, T5: ValueList + 'r, T6: ValueList + 'r, T7: ValueList + 'r, T8: ValueList + 'r, T9: ValueList + 'r, T10: ValueList + 'r, T11: ValueList + 'r, T12: ValueList + 'r, T13: ValueList + 'r, T14: ValueList + 'r, T15: ValueList + 'r> LegacyBatchValues<'r> for (T0, T1, T2, T3, T4, T5, T6, T7, T8, T9, T10, T11, T12, T13, T14, T15) {
    type LegacyBatchValuesIter = TupleValuesIter<'r, (T0, T1, T2, T3, T4, T5, T6, T7, T8, T9, T10, T11, T12, T13, T14, T15)>;

    open spec fn batch_spec(&self) -> Seq<Result<ValuesView, SerializeValuesError>> {
        seq![self.0.serialized_spec(), self.1.serialized_spec(), self.2.serialized_spec(), self.3.serialized_spec(), self.4.serialized_spec(), self.5.serialized_spec(), self.6.serialized_spec(), self.7.serialized_spec(), self.8.serialized_spec(), self.9.serialized_spec(), self.10.serialized_spec(), self.11.serialized_spec(), self.12.serialized_spec(), self.13.serialized_spec(), self.14.serialized_spec(), self.15.serialized_spec()]
    }

    fn batch_values_iter(&'r self) -> (r: Self::LegacyBatchValuesIter) {
        let r = TupleValuesIter { tuple: self, idx: 0 };
        assert(seq![self.0.serialized_spec(), self.1.serialized_spec(), self.2.serialized_spec(), self.3.serialized_spec(), self.4.serialized_spec(), self.5.serialized_spec(), self.6.serialized_spec(), self.7.serialized_spec(), self.8.serialized_spec(), self.9.serialized_spec(), self.10.serialized_spec(), self.11.serialized_spec(), self.12.serialized_spec(), self.13.serialized_spec(), self.14.serialized_spec(), self.15.serialized_spec()].subrange(0, 16) =~= seq![self.0.serialized_spec(), self.1.serialized_spec(), self.2.serialized_spec(), self.3.serialized_spec(), self.4.serialized_spec(), self.5.serialized_spec(), self.6.serialized_spec(), self.7.serialized_spec(), self.8.serialized_spec(), self.9.serialized_spec(), self.10.serialized_spec(), self.11.serialized_spec(), self.12.serialized_spec(), self.13.serialized_spec(), self.14.serialized_spec(), self.15.serialized_spec()]);
        r
    }
}

impl<'r, T0: ValueList, T1: ValueList, T2: ValueList, T3: ValueList, T4: ValueList, T5: ValueList, T6: ValueList, T7: ValueList, T8: ValueList, T9: ValueList, T10: ValueList, T11: ValueList, T12: ValueList, T13: ValueList, T14: ValueList, T15: ValueList> LegacyBatchValuesIterator<'r> for TupleValuesIter<'r, (T0, T1, T2, T3, T4, T5, T6, T7, T8, T9, T10, T11, T12, T13, T14, T15)> {
    closed spec fn remaining(&self) -> Seq<Result<ValuesView, SerializeValuesError>> {
        if self.idx < 16 {
            seq![self.tuple.0.serialized_spec(), self.tuple.1.serialized_spec(), self.tuple.2.serialized_spec(), self.tuple.3.serialized_spec(), self.tuple.4.serialized_spec(), self.tuple.5.serialized_spec(), self.tuple.6.serialized_spec(), self.tuple.7.serialized_spec(), self.tuple.8.serialized_spec(), self.tuple.9.serialized_spec(), self.tuple.10.serialized_spec(), self.tuple.11.serialized_spec(), self.tuple.12.serialized_spec(), self.tuple.13.serialized_spec(), self.tuple.14.serialized_spec(), self.tuple.15.serialized_spec()].subrange(self.idx as int, 16)
        } else {
            Seq::empty()
        }
    }

    fn next_serialized(&mut self) -> (r: Option<SerializedResult<'r>>) {
        let t: &'r (T0, T1, T2, T3, T4, T5, T6, T7, T8, T9, T10, T11, T12, T13, T14, T15) = self.tuple;
        let res = if self.idx == 0 {
            t.0.serialized()
        } else if self.idx == 1 {
            t.1.serialized()
        } else if self.idx == 2 {
            t.2.serialized()
        } else if self.idx == 3 {
            t.3.serialized()
        } else if self.idx == 4 {
            t.4.serialized()
        } else if self.idx == 5 {
            t.5.serialized()
        } else if self.idx == 6 {
            t.6.serialized()
        } else if self.idx == 7 {
            t.7.serialized()
        } else if self.idx == 8 {
            t.8.serialized()
        } else if self.idx == 9 {
            t.9.serialized()
        } else if self.idx == 10 {
            t.10.serialized()
        } else if self.idx == 11 {
            t.11.serialized()
        } else if self.idx == 12 {
            t.12.serialized()
        } else if self.idx == 13 {
            t.13.serialized()
        } else if self.idx == 14 {
            t.14.serialized()
        } else if self.idx == 15 {
            t.15.serialized()
        } else {
            return None;
        };
        self.idx = self.idx + 1;
        proof {
            let sp = seq![self.tuple.0.serialized_spec(), self.tuple.1.serialized_spec(), self.tuple.2.serialized_spec(), self.tuple.3.serialized_spec(), self.tuple.4.serialized_spec(), self.tuple.5.serialized_spec(), self.tuple.6.serialized_spec(), self.tuple.7.serialized_spec(), self.tuple.8.serialized_spec(), self.tuple.9.serialized_spec(), self.tuple.10.serialized_spec(), self.tuple.11.serialized_spec(), self.tuple.12.serialized_spec(), self.tuple.13.serialized_spec(), self.tuple.14.serialized_spec(), self.tuple.15.serialized_spec()];
            assert(sp.subrange(self.idx as int, 16) =~= sp.subrange(old(self).idx as int, 16).drop_first());
        }
        Some(res)
    }

    fn write_next_to_request(&mut self, buf: &mut Vec<u8>) -> (r: Option<Result<(), SerializeValuesError>>) {
        let t: &'r (T0, T1, T2, T3, T4, T5, T6, T7, T8, T9, T10, T11, T12, T13, T14, T15) = self.tuple;
        let res = if self.idx == 0 {
            t.0.write_to_request(buf)
        } else if self.idx == 1 {
            t.1.write_to_request(buf)
        } else if self.idx == 2 {
            t.2.write_to_request(buf)
        } else if self.idx == 3 {
            t.3.write_to_request(buf)
        } else if self.idx == 4 {
            t.4.write_to_request(buf)
        } else if self.idx == 5 {
            t.5.write_to_request(buf)
        } else if self.idx == 6 {
            t.6.write_to_request(buf)
        } else if self.idx == 7 {
            t.7.write_to_request(buf)
        } else if self.idx == 8 {
            t.8.write_to_request(buf)
        } else if self.idx == 9 {
            t.9.write_to_request(buf)
        } else if self.idx == 10 {
            t.10.write_to_request(buf)
        } else if self.idx == 11 {
            t.11.write_to_request(buf)
        } else if self.idx == 12 {
            t.12.write_to_request(buf)
        } else if self.idx == 13 {
            t.13.write_to_request(buf)
        } else if self.idx == 14 {
            t.14.write_to_request(buf)
        } else if self.idx == 15 {
            t.15.write_to_request(buf)
        } else {
            return None;
        };
        self.idx = self.idx + 1;
        proof {
            let sp = seq![self.tuple.0.serialized_spec(), self.tuple.1.serialized_spec(), self.tuple.2.serialized_spec(), self.tuple.3.serialized_spec(), self.tuple.4.serialized_spec(), self.tuple.5.serialized_spec(), self.tuple.6.serialized_spec(), self.tuple.7.serialized_spec(), self.tuple.8.serialized_spec(), self.tuple.9.serialized_spec(), self.tuple.10.serialized_spec(), self.tuple.11.serialized_spec(), self.tuple.12.serialized_spec(), self.tuple.13.serialized_spec(), self.tuple.14.serialized_spec(), self.tuple.15.serialized_spec()];
            assert(sp.subrange(self.idx as int, 16) =~= sp.subrange(old(self).idx as int, 16).drop_first());
        }
        match res {
            Ok(()) => Some(Ok(())),
            Err(e) => Some(Err(e)),
        }
    }

    fn skip_next(&mut self) -> (r: Option<()>) {
        if self.idx < 16 {
            self.idx = self.idx + 1;
            proof {
            let sp = seq![self.tuple.0.serialized_spec(), self.tuple.1.serialized_spec(), self.tuple.2.serialized_spec(), self.tuple.3.serialized_spec(), self.tuple.4.serialized_spec(), self.tuple.5.serialized_spec(), self.tuple.6.serialized_spec(), self.tuple.7.serialized_spec(), self.tuple.8.serialized_spec(), self.tuple.9.serialized_spec(), self.tuple.10.serialized_spec(), self.tuple.11.serialized_spec(), self.tuple.12.serialized_spec(), self.tuple.13.serialized_spec(), self.tuple.14.serialized_spec(), self.tuple.15.serialized_spec()];
            assert(sp.subrange(self.idx as int, 16) =~= sp.subrange(old(self).idx as int, 16).drop_first());
        }
            Some(())
        } else {
            None
        }
    }
}

} // verus!
