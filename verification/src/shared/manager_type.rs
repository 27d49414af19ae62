use vstd::prelude::*;
use crate::shared::types::MTU_SIZE;

verus! {

/// The kind of a section of a packet's payload: whose data follows.
#[derive(PartialEq, Eq, Structural, Clone, Copy, Debug)]
pub enum ManagerType {
    /// Messages.
    Message,
    /// Replication actions.
    Replicate,
    /// Commands.
    Command,
}

impl ManagerType {
    /// The byte that stands for the kind on the wire.
    pub open spec fn code(self) -> u8 {
        match self {
            ManagerType::Message => 1,
            ManagerType::Replicate => 2,
            ManagerType::Command => 3,
        }
    }

    /// The byte that stands for the kind on the wire.
    pub fn to_u8(&self) -> (byte: u8)
        ensures
            byte == self.code(),
    {
        match self {
            ManagerType::Message => 1,
            ManagerType::Replicate => 2,
            ManagerType::Command => 3,
        }
    }

    /// The kind that a byte stands for, if it stands for one.
    pub fn from_u8(byte: u8) -> (kind: Option<ManagerType>)
        ensures
            match kind {
                Some(kind) => kind.code() == byte,
                None => byte == 0 || byte > 3,
            },
    {
        match byte {
            1 => Some(ManagerType::Message),
            2 => Some(ManagerType::Replicate),
            3 => Some(ManagerType::Command),
            _ => None,
        }
    }
}

/// Whether one more item of `added` bytes has room in a packet that holds
/// `held` bytes already, in a section that counts `count` items. A section's
/// first item brings a header of two bytes with it; the payload does not
/// exceed the packet's limit; and a section counts its items in one byte.
pub open spec fn has_room(held: int, added: int, count: u8) -> bool {
    held + added + (if count == 0 {
        2int
    } else {
        0int
    }) <= MTU_SIZE && count < 255
}

/// Whether one more item of `added` bytes has room in a packet that holds
/// `held` bytes, in a section that counts `count` items.
pub fn fits(held: usize, added: usize, count: u8) -> (room: bool)
    ensures
        room == has_room(held as int, added as int, count),
{
    if count == 255 || held > MTU_SIZE || added > MTU_SIZE {
        return false;
    }
    let header: usize = if count == 0 {
        2
    } else {
        0
    };
    held + added + header <= MTU_SIZE
}

/// A section as it stands in a packet: its kind, the number of its items,
/// and the items. A section without items takes no room.
pub open spec fn section(kind: ManagerType, count: u8, bytes: Seq<u8>) -> Seq<u8> {
    if count == 0 {
        Seq::empty()
    } else {
        seq![kind.code(), count] + bytes
    }
}

/// Appends `bytes` to `out`.
pub fn append_bytes(out: &mut Vec<u8>, bytes: &Vec<u8>)
    ensures
        final(out)@ == old(out)@ + bytes@,
{
    let mut i: usize = 0;
    assert(out@ =~= old(out)@ + bytes@.subrange(0, 0));
    while i < bytes.len()
        invariant
            i <= bytes@.len(),
            out@ == old(out)@ + bytes@.subrange(0, i as int),
        decreases bytes@.len() - i,
    {
        out.push(bytes[i]);
        i += 1;
        assert(out@ =~= old(out)@ + bytes@.subrange(0, i as int));
    }
    assert(bytes@.subrange(0, i as int) =~= bytes@);
}

} // verus!
