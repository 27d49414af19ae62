use vstd::prelude::*;

verus! {

/// The index that a host gives each packet it sends; it wraps.
pub type PacketIndex = u16;

/// The unit of simulation time on both peers; it wraps.
pub type Tick = u16;

/// The identifier of a message inside a channel; it wraps.
pub type MessageId = u16;

/// A message identifier relative to the first one of its packet.
pub type ShortMessageId = u8;

/// The key that one connection gives an object or a component; it is what
/// the wire carries.
pub type LocalReplicateKey = u16;

/// The local key of an object.
pub type LocalObjectKey = u16;

/// The local key of a component.
pub type LocalComponentKey = u16;

/// The key that one connection gives an entity.
pub type LocalEntityKey = u16;

/// The most bytes that one packet's payload may hold.
pub const MTU_SIZE: usize = 508;

/// Which side of a connection a host is on.
#[derive(PartialEq, Eq, Structural, Clone, Copy, Debug)]
pub enum HostType {
    Server,
    Client,
}

} // verus!
