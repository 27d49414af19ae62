use vstd::prelude::*;
use crate::wire::bit_reader::BitReader;
use crate::wire::bit_writer::BitWriter;
use crate::wire::bits::{
    lemma_low_bits_len, lemma_low_bits_value, lemma_shifted_smaller, lemma_shifted_zero,
    lemma_two_to_monotone, lemma_two_to_values, lemma_value_of_low_bits, low_bits, shifted,
    two_to, value_of,
};
use crate::wire::error::SerdeErr;
use crate::wire::serde::{read_bits, round_trips, write_bits, Serde};

verus! {

/// A number that takes as few groups of bits on the wire as its size calls
/// for. Each group is a bit that says whether another group follows, and
/// then `BITS` bits of the number, the lowest group first. No number takes
/// more than 64 groups.
///
/// A group has 1 to 63 bits: a width outside of that counts as the nearest
/// one inside.
#[derive(Clone, Copy, Debug)]
pub struct UnsignedVariableInteger<const BITS: u8> {
    pub inner: u64,
}

/// The width of a group for the parameter `bits`.
pub open spec fn group_width(bits: u8) -> nat {
    if bits == 0 {
        1
    } else if bits > 63 {
        63
    } else {
        bits as nat
    }
}

/// The bits of a number in groups of `width` bits.
pub open spec fn variable_bits(value: nat, width: nat) -> Seq<bool>
    decreases value,
{
    if width == 0 {
        Seq::empty()
    } else if shifted(value, width) == 0 {
        seq![false] + low_bits(value, width)
    } else {
        proof {
            if value >= 1 {
                lemma_shifted_smaller(value, width);
            } else {
                lemma_shifted_zero(width);
            }
        }
        seq![true] + low_bits(value, width) + variable_bits(shifted(value, width), width)
    }
}

/// The most groups that a number takes.
pub const MAX_GROUPS: u8 = 64;

/// The number that `input` begins with in at most `budget` groups of `width`
/// bits, and the number of bits it takes; nothing where the input ends
/// inside the number, where the number takes more groups, or where it does
/// not fit into 64 bits.
pub open spec fn variable_parsed(input: Seq<bool>, width: nat, budget: nat) -> Option<(nat, int)>
    decreases budget,
{
    if width == 0 || budget == 0 || input.len() < 1 + width {
        None
    } else {
        let group = value_of(input.subrange(1, 1 + width as int));
        if !input[0] {
            Some((group, 1 + width as int))
        } else {
            match variable_parsed(input.skip(1 + width as int), width, (budget - 1) as nat) {
                Some((rest, used)) => if group + two_to(width) * rest <= u64::MAX {
                    Some((group + two_to(width) * rest, 1 + width + used))
                } else {
                    None
                },
                None => None,
            }
        }
    }
}

/// The width of a group for the parameter `bits`.
fn width_of(bits: u8) -> (width: u8)
    ensures
        width as nat == group_width(bits),
        1 <= width <= 63,
{
    if bits == 0 {
        1
    } else if bits > 63 {
        63
    } else {
        bits
    }
}

/// Takes the lowest `n` bits off a number.
fn shift_down(value: u64, n: u8) -> (rest: u64)
    ensures
        rest as nat == shifted(value as nat, n as nat),
    decreases n,
{
    if n == 0 {
        value
    } else {
        shift_down(value / 2, n - 1)
    }
}

/// The number `rest` with `n` zero bits below it, if that fits into 64 bits.
fn shift_up(rest: u64, n: u8) -> (scaled: Option<u64>)
    ensures
        match scaled {
            Some(scaled) => scaled as nat == two_to(n as nat) * rest as nat,
            None => two_to(n as nat) * rest as nat > u64::MAX,
        },
    decreases n,
{
    if n == 0 {
        assert(two_to(0) * rest as nat == rest as nat) by (nonlinear_arith)
            requires
                two_to(0) == 1,
        ;
        Some(rest)
    } else {
        proof {
            let below = two_to((n - 1) as nat);
            assert(two_to(n as nat) * rest as nat == 2 * (below * rest as nat)) by (nonlinear_arith)
                requires
                    two_to(n as nat) == 2 * below,
            ;
        }
        match shift_up(rest, n - 1) {
            Some(half) => {
                if half > u64::MAX / 2 {
                    None
                } else {
                    Some(half * 2)
                }
            },
            None => None,
        }
    }
}

/// Writes a number in groups of `width` bits.
fn write_variable(writer: &mut BitWriter, value: u64, width: u8)
    requires
        old(writer).wf(),
        1 <= width <= 63,
    ensures
        final(writer).wf(),
        final(writer)@ == old(writer)@ + variable_bits(value as nat, width as nat),
    decreases value,
{
    let rest = shift_down(value, width);
    let proceed = rest != 0;
    writer.write_bit(proceed);
    write_bits(writer, value, width);
    if proceed {
        proof {
            if value == 0 {
                lemma_shifted_zero(width as nat);
            }
            lemma_shifted_smaller(value as nat, width as nat);
        }
        write_variable(writer, rest, width);
        assert(writer@ =~= old(writer)@ + variable_bits(value as nat, width as nat));
    } else {
        assert(writer@ =~= old(writer)@ + variable_bits(value as nat, width as nat));
    }
}

/// Reads a number in at most `budget` groups of `width` bits. It fails where
/// the bits end inside the number, where the number takes more groups, or
/// where it does not fit into 64 bits.
fn read_variable(reader: &mut BitReader, width: u8, budget: u8) -> (read: Result<u64, SerdeErr>)
    requires
        old(reader).wf(),
        1 <= width <= 63,
    ensures
        final(reader).wf(),
        match (variable_parsed(old(reader)@, width as nat, budget as nat), read) {
            (Some((value, used)), Ok(got)) => got as nat == value && 0 <= used <= old(
                reader,
            )@.len() && final(reader)@ == old(reader)@.skip(used),
            (None, Err(_)) => true,
            _ => false,
        },
    decreases budget,
{
    if budget == 0 {
        return Err(SerdeErr);
    }
    let proceed = match reader.read_bit() {
        Ok(proceed) => proceed,
        Err(error) => {
            return Err(error);
        },
    };
    let ghost after_flag = reader@;
    let group = match read_bits(reader, width) {
        Ok(group) => group,
        Err(error) => {
            return Err(error);
        },
    };
    proof {
        assert(after_flag.subrange(0, width as int) =~= old(reader)@.subrange(
            1,
            1 + width as int,
        ));
        assert(reader@ =~= old(reader)@.skip(1 + width as int));
    }
    if !proceed {
        return Ok(group);
    }
    let ghost after_group = reader@;
    let rest = match read_variable(reader, width, budget - 1) {
        Ok(rest) => rest,
        Err(error) => {
            return Err(error);
        },
    };
    proof {
        let used = variable_parsed(after_group, width as nat, (budget - 1) as nat).unwrap().1;
        assert(after_group.skip(used) =~= old(reader)@.skip(1 + width + used));
    }
    match shift_up(rest, width) {
        Some(scaled) => {
            if scaled > u64::MAX - group {
                Err(SerdeErr)
            } else {
                Ok(scaled + group)
            }
        },
        None => Err(SerdeErr),
    }
}

impl<const BITS: u8> UnsignedVariableInteger<BITS> {
    /// The number `value`.
    pub fn new(value: u64) -> (number: Self)
        ensures
            number.inner == value,
    {
        UnsignedVariableInteger { inner: value }
    }

    /// The number.
    pub fn get(&self) -> (value: u64)
        ensures
            value == self.inner,
    {
        self.inner
    }
}

impl<const BITS: u8> Serde for UnsignedVariableInteger<BITS> {
    open spec fn bits(&self) -> Seq<bool> {
        variable_bits(self.inner as nat, group_width(BITS))
    }

    open spec fn parsed(input: Seq<bool>) -> Option<(Self, int)> {
        match variable_parsed(input, group_width(BITS), 64) {
            Some((value, used)) => Some((UnsignedVariableInteger { inner: value as u64 }, used)),
            None => None,
        }
    }

    fn ser(&self, writer: &mut BitWriter) {
        write_variable(writer, self.inner, width_of(BITS));
    }

    fn de(reader: &mut BitReader) -> (read: Result<Self, SerdeErr>) {
        match read_variable(reader, width_of(BITS), MAX_GROUPS) {
            Ok(value) => Ok(UnsignedVariableInteger { inner: value }),
            Err(error) => Err(error),
        }
    }

    fn same(&self, other: &Self) -> (same: bool) {
        self.inner == other.inner
    }
}

/// A number is read back from its groups, whatever follows them, where the
/// budget of groups is as large as the number has bits.
pub proof fn lemma_variable_round_trip(value: nat, width: nat, budget: nat, tail: Seq<bool>)
    requires
        width >= 1,
        budget >= 1,
        value <= u64::MAX,
        value < two_to(budget),
    ensures
        variable_parsed(variable_bits(value, width) + tail, width, budget) == Some(
            (value, variable_bits(value, width).len() as int),
        ),
    decreases value,
{
    let bits = variable_bits(value, width);
    let input = bits + tail;
    let rest = shifted(value, width);
    lemma_low_bits_len(value, width);
    lemma_low_bits_value(value, width);
    assert(input.subrange(1, 1 + width as int) =~= low_bits(value, width));
    lemma_value_of_low_bits(low_bits(value, width));
    if rest == 0 {
        assert(!input[0]);
        assert(two_to(width) * rest == 0) by (nonlinear_arith)
            requires
                rest == 0,
        ;
    } else {
        assert(input[0]);
        if value == 0 {
            lemma_shifted_zero(width);
        }
        lemma_shifted_smaller(value, width);
        assert(rest < two_to((budget - 1) as nat));
        assert(budget >= 2) by {
            if budget == 1 {
                assert(two_to(0) == 1);
            }
        }
        lemma_variable_round_trip(rest, width, (budget - 1) as nat, tail);
        assert(input.skip(1 + width as int) =~= variable_bits(rest, width) + tail);
        lemma_two_to_monotone(0, width);
        assert(two_to(width) * rest >= 0) by (nonlinear_arith)
            requires
                two_to(width) >= 0,
                rest >= 0,
        ;
    }
}

/// A number in variable width is read back from its bits.
pub proof fn lemma_variable_integer_round_trips<const BITS: u8>(value: UnsignedVariableInteger<BITS>)
    ensures
        round_trips(value),
{
    assert forall|tail: Seq<bool>| #[trigger]
        UnsignedVariableInteger::<BITS>::parsed(value.bits() + tail) == Some(
            (value, value.bits().len() as int),
        ) by {
        lemma_two_to_values();
        lemma_variable_round_trip(value.inner as nat, group_width(BITS), 64, tail);
    }
}

} // verus!
