use vstd::prelude::*;
use crate::wire::bit_reader::BitReader;
use crate::wire::bit_writer::BitWriter;
use crate::wire::bits::{
    lemma_low_bits_len, lemma_low_bits_round_trip, lemma_two_to_monotone, lemma_two_to_values,
    lemma_value_of_bound, low_bits, two_to, value_of,
};
use crate::wire::error::SerdeErr;

verus! {

/// A value that can be written as bits and read back.
///
/// The two spec functions name the bits of a value and what a sequence of
/// bits holds. An implementation written outside the verifier leaves them
/// as they are.
pub trait Serde: Sized {
    /// The bits that stand for the value.
    open spec fn bits(&self) -> Seq<bool> {
        arbitrary()
    }

    /// The value that `input` begins with and the number of bits it takes,
    /// or nothing where `input` begins with no value.
    open spec fn parsed(input: Seq<bool>) -> Option<(Self, int)> {
        arbitrary()
    }

    /// Writes the value.
    fn ser(&self, writer: &mut BitWriter)
        requires
            old(writer).wf(),
        ensures
            final(writer).wf(),
            final(writer)@ == old(writer)@ + self.bits(),
    ;

    /// Reads a value. It fails where the bits that are left begin with none.
    fn de(reader: &mut BitReader) -> (read: Result<Self, SerdeErr>)
        requires
            old(reader).wf(),
        ensures
            final(reader).wf(),
            match (Self::parsed(old(reader)@), read) {
                (Some((value, used)), Ok(got)) => got == value && 0 <= used <= old(
                    reader,
                )@.len() && final(reader)@ == old(reader)@.skip(used),
                (None, Err(_)) => true,
                _ => false,
            },
    ;

    /// Whether two values are the same.
    fn same(&self, other: &Self) -> (same: bool)
        ensures
            same == (*self == *other),
    ;
}

/// Whether a value is read back from its bits, whatever follows them.
pub open spec fn round_trips<T: Serde>(value: T) -> bool {
    forall|tail: Seq<bool>| #[trigger]
        T::parsed(value.bits() + tail) == Some((value, value.bits().len() as int))
}

/// Writes the lowest `n` bits of a number, the least significant first.
pub fn write_bits(writer: &mut BitWriter, value: u64, n: u8)
    requires
        old(writer).wf(),
    ensures
        final(writer).wf(),
        final(writer)@ == old(writer)@ + low_bits(value as nat, n as nat),
    decreases n,
{
    if n == 0 {
        assert(writer@ =~= old(writer)@ + low_bits(value as nat, 0));
    } else {
        writer.write_bit(value % 2 == 1);
        write_bits(writer, value / 2, n - 1);
        assert(writer@ =~= old(writer)@ + low_bits(value as nat, n as nat));
    }
}

/// Reads `n` bits as a number, the least significant first. It fails where
/// fewer than `n` bits are left.
pub fn read_bits(reader: &mut BitReader, n: u8) -> (read: Result<u64, SerdeErr>)
    requires
        old(reader).wf(),
        n <= 64,
    ensures
        final(reader).wf(),
        match read {
            Ok(value) => old(reader)@.len() >= n && value as nat == value_of(
                old(reader)@.subrange(0, n as int),
            ) && final(reader)@ == old(reader)@.skip(n as int),
            Err(_) => old(reader)@.len() < n,
        },
    decreases n,
{
    if n == 0 {
        assert(reader@ =~= old(reader)@.skip(0));
        assert(old(reader)@.subrange(0, 0) =~= Seq::<bool>::empty());
        return Ok(0);
    }
    let bit = match reader.read_bit() {
        Ok(bit) => bit,
        Err(error) => {
            return Err(error);
        },
    };
    let ghost after_bit = reader@;
    let rest = match read_bits(reader, n - 1) {
        Ok(rest) => rest,
        Err(error) => {
            return Err(error);
        },
    };
    proof {
        let bits = old(reader)@.subrange(0, n as int);
        assert(bits.drop_first() =~= after_bit.subrange(0, n as int - 1));
        assert(bits[0] == bit);
        lemma_value_of_bound(bits.drop_first());
        lemma_two_to_monotone((n - 1) as nat, 63);
        lemma_two_to_values();
        lemma_two_to_monotone(63, 64);
        assert(two_to(64) == 2 * two_to(63));
        assert(reader@ =~= old(reader)@.skip(n as int));
    }
    Ok(rest * 2 + if bit {
        1
    } else {
        0
    })
}

impl Serde for bool {
    open spec fn bits(&self) -> Seq<bool> {
        seq![*self]
    }

    open spec fn parsed(input: Seq<bool>) -> Option<(Self, int)> {
        if input.len() >= 1 {
            Some((input[0], 1))
        } else {
            None
        }
    }

    fn ser(&self, writer: &mut BitWriter) {
        writer.write_bit(*self);
        assert(writer@ =~= old(writer)@ + seq![*self]);
    }

    fn de(reader: &mut BitReader) -> (read: Result<Self, SerdeErr>) {
        let read = reader.read_bit();
        proof {
            if old(reader)@.len() > 0 {
                assert(old(reader)@.drop_first() =~= old(reader)@.skip(1));
            }
        }
        read
    }

    fn same(&self, other: &Self) -> (same: bool) {
        *self == *other
    }
}

impl Serde for u8 {
    open spec fn bits(&self) -> Seq<bool> {
        low_bits(*self as nat, 8)
    }

    open spec fn parsed(input: Seq<bool>) -> Option<(Self, int)> {
        if input.len() >= 8 {
            Some((value_of(input.subrange(0, 8)) as u8, 8))
        } else {
            None
        }
    }

    fn ser(&self, writer: &mut BitWriter) {
        write_bits(writer, *self as u64, 8);
    }

    fn de(reader: &mut BitReader) -> (read: Result<Self, SerdeErr>) {
        match read_bits(reader, 8) {
            Ok(value) => {
                proof {
                    lemma_value_of_bound(old(reader)@.subrange(0, 8));
                    lemma_two_to_values();
                }
                Ok(value as u8)
            },
            Err(error) => Err(error),
        }
    }

    fn same(&self, other: &Self) -> (same: bool) {
        *self == *other
    }
}

impl Serde for u16 {
    open spec fn bits(&self) -> Seq<bool> {
        low_bits(*self as nat, 16)
    }

    open spec fn parsed(input: Seq<bool>) -> Option<(Self, int)> {
        if input.len() >= 16 {
            Some((value_of(input.subrange(0, 16)) as u16, 16))
        } else {
            None
        }
    }

    fn ser(&self, writer: &mut BitWriter) {
        write_bits(writer, *self as u64, 16);
    }

    fn de(reader: &mut BitReader) -> (read: Result<Self, SerdeErr>) {
        match read_bits(reader, 16) {
            Ok(value) => {
                proof {
                    lemma_value_of_bound(old(reader)@.subrange(0, 16));
                    lemma_two_to_values();
                }
                Ok(value as u16)
            },
            Err(error) => Err(error),
        }
    }

    fn same(&self, other: &Self) -> (same: bool) {
        *self == *other
    }
}

impl Serde for u32 {
    open spec fn bits(&self) -> Seq<bool> {
        low_bits(*self as nat, 32)
    }

    open spec fn parsed(input: Seq<bool>) -> Option<(Self, int)> {
        if input.len() >= 32 {
            Some((value_of(input.subrange(0, 32)) as u32, 32))
        } else {
            None
        }
    }

    fn ser(&self, writer: &mut BitWriter) {
        write_bits(writer, *self as u64, 32);
    }

    fn de(reader: &mut BitReader) -> (read: Result<Self, SerdeErr>) {
        match read_bits(reader, 32) {
            Ok(value) => {
                proof {
                    lemma_value_of_bound(old(reader)@.subrange(0, 32));
                    lemma_two_to_values();
                }
                Ok(value as u32)
            },
            Err(error) => Err(error),
        }
    }

    fn same(&self, other: &Self) -> (same: bool) {
        *self == *other
    }
}

impl Serde for u64 {
    open spec fn bits(&self) -> Seq<bool> {
        low_bits(*self as nat, 64)
    }

    open spec fn parsed(input: Seq<bool>) -> Option<(Self, int)> {
        if input.len() >= 64 {
            Some((value_of(input.subrange(0, 64)) as u64, 64))
        } else {
            None
        }
    }

    fn ser(&self, writer: &mut BitWriter) {
        write_bits(writer, *self, 64);
    }

    fn de(reader: &mut BitReader) -> (read: Result<Self, SerdeErr>) {
        read_bits(reader, 64)
    }

    fn same(&self, other: &Self) -> (same: bool) {
        *self == *other
    }
}

impl<T: Serde> Serde for Option<T> {
    open spec fn bits(&self) -> Seq<bool> {
        match *self {
            Some(value) => seq![true] + value.bits(),
            None => seq![false],
        }
    }

    open spec fn parsed(input: Seq<bool>) -> Option<(Self, int)> {
        if input.len() < 1 {
            None
        } else if input[0] {
            match T::parsed(input.drop_first()) {
                Some((value, used)) => Some((Some(value), used + 1)),
                None => None,
            }
        } else {
            Some((None, 1))
        }
    }

    fn ser(&self, writer: &mut BitWriter) {
        match self {
            Some(value) => {
                writer.write_bit(true);
                value.ser(writer);
                assert(writer@ =~= old(writer)@ + (seq![true] + value.bits()));
            },
            None => {
                writer.write_bit(false);
                assert(writer@ =~= old(writer)@ + seq![false]);
            },
        }
    }

    fn de(reader: &mut BitReader) -> (read: Result<Self, SerdeErr>) {
        let present = match reader.read_bit() {
            Ok(present) => present,
            Err(error) => {
                return Err(error);
            },
        };
        if present {
            let ghost rest = reader@;
            match T::de(reader) {
                Ok(value) => {
                    proof {
                        let used = T::parsed(rest).unwrap().1;
                        assert(rest.skip(used) =~= old(reader)@.skip(used + 1));
                    }
                    Ok(Some(value))
                },
                Err(error) => Err(error),
            }
        } else {
            assert(old(reader)@.drop_first() =~= old(reader)@.skip(1));
            Ok(None)
        }
    }

    fn same(&self, other: &Self) -> (same: bool) {
        match (self, other) {
            (Some(mine), Some(theirs)) => mine.same(theirs),
            (None, None) => true,
            _ => false,
        }
    }
}

/// A number that fits into `n` bits is read back from them.
pub proof fn lemma_fixed_width_round_trip(value: nat, n: nat, tail: Seq<bool>)
    requires
        value < two_to(n),
    ensures
        (low_bits(value, n) + tail).len() >= n,
        value_of((low_bits(value, n) + tail).subrange(0, n as int)) == value,
        (low_bits(value, n) + tail).skip(n as int) == tail,
{
    lemma_low_bits_len(value, n);
    lemma_low_bits_round_trip(value, n);
    assert((low_bits(value, n) + tail).subrange(0, n as int) =~= low_bits(value, n));
    assert((low_bits(value, n) + tail).skip(n as int) =~= tail);
}

/// A truth value is read back from its bit.
pub proof fn lemma_bool_round_trips(value: bool)
    ensures
        round_trips(value),
{
    assert forall|tail: Seq<bool>| #[trigger]
        bool::parsed(value.bits() + tail) == Some((value, value.bits().len() as int)) by {
        assert((value.bits() + tail)[0] == value);
    }
}

/// A byte is read back from its bits.
pub proof fn lemma_u8_round_trips(value: u8)
    ensures
        round_trips(value),
{
    lemma_two_to_values();
    assert forall|tail: Seq<bool>| #[trigger]
        u8::parsed(value.bits() + tail) == Some((value, value.bits().len() as int)) by {
        lemma_fixed_width_round_trip(value as nat, 8, tail);
        lemma_low_bits_len(value as nat, 8);
    }
}

/// A number of 16 bits is read back from its bits.
pub proof fn lemma_u16_round_trips(value: u16)
    ensures
        round_trips(value),
{
    lemma_two_to_values();
    assert forall|tail: Seq<bool>| #[trigger]
        u16::parsed(value.bits() + tail) == Some((value, value.bits().len() as int)) by {
        lemma_fixed_width_round_trip(value as nat, 16, tail);
        lemma_low_bits_len(value as nat, 16);
    }
}

/// A number of 32 bits is read back from its bits.
pub proof fn lemma_u32_round_trips(value: u32)
    ensures
        round_trips(value),
{
    lemma_two_to_values();
    assert forall|tail: Seq<bool>| #[trigger]
        u32::parsed(value.bits() + tail) == Some((value, value.bits().len() as int)) by {
        lemma_fixed_width_round_trip(value as nat, 32, tail);
        lemma_low_bits_len(value as nat, 32);
    }
}

/// A number of 64 bits is read back from its bits.
pub proof fn lemma_u64_round_trips(value: u64)
    ensures
        round_trips(value),
{
    lemma_two_to_values();
    assert forall|tail: Seq<bool>| #[trigger]
        u64::parsed(value.bits() + tail) == Some((value, value.bits().len() as int)) by {
        lemma_fixed_width_round_trip(value as nat, 64, tail);
        lemma_low_bits_len(value as nat, 64);
    }
}

/// A value that may be missing is read back from its bits, where the
/// value itself is.
pub proof fn lemma_option_round_trips<T: Serde>(value: Option<T>)
    requires
        value is Some ==> round_trips(value->0),
    ensures
        round_trips(value),
{
    assert forall|tail: Seq<bool>| #[trigger]
        Option::<T>::parsed(value.bits() + tail) == Some((value, value.bits().len() as int)) by {
        let input = value.bits() + tail;
        match value {
            Some(inner) => {
                assert(input[0]);
                assert(input.drop_first() =~= inner.bits() + tail);
                assert(T::parsed(inner.bits() + tail) == Some((inner, inner.bits().len() as int)));
            },
            None => {
                assert(!input[0]);
            },
        }
    }
}

} // verus!
