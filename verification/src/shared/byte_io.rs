use vstd::prelude::*;
use byteorder::{BigEndian, ByteOrder, WriteBytesExt};

verus! {

/// The high byte of a 16-bit number.
pub open spec fn high_byte(value: u16) -> u8 {
    (value >> 8) as u8
}

/// The low byte of a 16-bit number.
pub open spec fn low_byte(value: u16) -> u8 {
    (value & 0xff) as u8
}

/// The two bytes of a 16-bit number, most significant first.
pub open spec fn be_bytes(value: u16) -> Seq<u8> {
    seq![high_byte(value), low_byte(value)]
}

/// The 16-bit number whose bytes, most significant first, are `high` and `low`.
pub open spec fn be_value(high: u8, low: u8) -> u16 {
    ((high as u16) << 8) | (low as u16)
}

/// Appends one byte through `byteorder`'s `WriteBytesExt::write_u8`. On a
/// `Vec<u8>` that call cannot fail; the contract claims that exactly the byte
/// given is appended.
#[verifier::external_body]
pub(crate) fn put_u8(out: &mut Vec<u8>, value: u8)
    ensures
        final(out)@ == old(out)@.push(value),
{
    out.write_u8(value).unwrap();
}

/// Appends a 16-bit number through `byteorder`'s
/// `WriteBytesExt::write_u16::<BigEndian>`. The contract claims that the two
/// bytes appended are the number's high byte and then its low byte.
#[verifier::external_body]
pub(crate) fn put_u16(out: &mut Vec<u8>, value: u16)
    ensures
        final(out)@ == old(out)@ + be_bytes(value),
{
    out.write_u16::<BigEndian>(value).unwrap();
}

/// Reads a 16-bit number through `byteorder`'s `BigEndian::read_u16`. The
/// contract claims that the first byte given is taken as the high byte.
#[verifier::external_body]
pub(crate) fn get_u16(high: u8, low: u8) -> (value: u16)
    ensures
        value == be_value(high, low),
{
    BigEndian::read_u16(&[high, low])
}

/// Reading back the bytes of a number gives the number.
pub proof fn lemma_be_round_trip(value: u16)
    ensures
        be_value(high_byte(value), low_byte(value)) == value,
{
    assert(((((value >> 8) as u8) as u16) << 8) | (((value & 0xff) as u8) as u16) == value)
        by (bit_vector);
}

/// Writing the number read from two bytes gives the two bytes.
pub proof fn lemma_be_bytes_of_value(high: u8, low: u8)
    ensures
        be_bytes(be_value(high, low)) == seq![high, low],
{
    assert((((((high as u16) << 8) | (low as u16)) >> 8) as u8) == high) by (bit_vector);
    assert((((((high as u16) << 8) | (low as u16)) & 0xff) as u8) == low) by (bit_vector);
}

} // verus!
