use vstd::prelude::*;
use crate::wire::bit_reader::BitReader;
use crate::wire::bit_writer::BitWriter;
use crate::wire::bits::{lemma_low_bits_len, lemma_two_to_values, lemma_value_of_bound, low_bits, value_of};
use crate::wire::error::SerdeErr;
use crate::wire::serde::{lemma_fixed_width_round_trip, read_bits, round_trips, write_bits, Serde};

verus! {

/// The form in which an entity reference travels on the wire.
#[derive(PartialEq, Eq, Structural, Hash, Clone, Copy, Debug)]
pub struct NetEntity(pub u16);

impl NetEntity {
    /// The net entity with the wire value `value`.
    pub fn from_u16(value: u16) -> (entity: Self)
        ensures
            entity.0 == value,
    {
        NetEntity(value)
    }

    /// The wire value.
    pub fn to_u16(&self) -> (value: u16)
        ensures
            value == self.0,
    {
        self.0
    }
}

impl Serde for NetEntity {
    open spec fn bits(&self) -> Seq<bool> {
        low_bits(self.0 as nat, 16)
    }

    open spec fn parsed(input: Seq<bool>) -> Option<(Self, int)> {
        if input.len() >= 16 {
            Some((NetEntity(value_of(input.subrange(0, 16)) as u16), 16))
        } else {
            None
        }
    }

    fn ser(&self, writer: &mut BitWriter) {
        write_bits(writer, self.0 as u64, 16);
    }

    fn de(reader: &mut BitReader) -> (read: Result<Self, SerdeErr>) {
        match read_bits(reader, 16) {
            Ok(value) => {
                proof {
                    lemma_value_of_bound(old(reader)@.subrange(0, 16));
                    lemma_two_to_values();
                }
                Ok(NetEntity(value as u16))
            },
            Err(error) => Err(error),
        }
    }

    fn same(&self, other: &Self) -> (same: bool) {
        self.0 == other.0
    }
}

/// A net entity is read back from its bits.
pub proof fn lemma_net_entity_round_trips(value: NetEntity)
    ensures
        round_trips(value),
{
    lemma_two_to_values();
    assert forall|tail: Seq<bool>| #[trigger]
        NetEntity::parsed(value.bits() + tail) == Some((value, value.bits().len() as int)) by {
        lemma_fixed_width_round_trip(value.0 as nat, 16, tail);
        lemma_low_bits_len(value.0 as nat, 16);
    }
}

} // verus!
