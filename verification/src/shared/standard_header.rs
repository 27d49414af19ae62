use vstd::prelude::*;
use crate::shared::byte_io::{be_bytes, be_value, get_u16, lemma_be_round_trip, put_u16, put_u8};
use crate::shared::manager_type::append_bytes;
use crate::shared::packet_type::{lemma_packet_type_round_trip, PacketType};

verus! {

/// The header of every packet of a connection: the kind of the packet, the
/// sender's tick, the last tick that the sender has seen of its peer, and the
/// index that the sender gave the packet.
#[derive(PartialEq, Eq, Structural, Clone, Copy, Debug)]
pub struct StandardHeader {
    pub packet_type: PacketType,
    pub host_tick: u16,
    pub last_received_tick: u16,
    pub local_packet_index: u16,
}

/// The number of bytes of a header.
pub const HEADER_SIZE: usize = 7;

/// A header on the wire: one byte for the kind, then the three numbers, each
/// most significant byte first.
pub open spec fn header_bytes(header: StandardHeader) -> Seq<u8> {
    seq![header.packet_type.code()] + be_bytes(header.host_tick) + be_bytes(
        header.last_received_tick,
    ) + be_bytes(header.local_packet_index)
}

/// The header that a packet begins with, if it is long enough and names a
/// kind that exists.
pub open spec fn parsed_header(bytes: Seq<u8>) -> Option<StandardHeader> {
    if bytes.len() < 7 {
        None
    } else {
        match PacketType::of_code(bytes[0]) {
            Some(packet_type) => Some(
                StandardHeader {
                    packet_type,
                    host_tick: be_value(bytes[1], bytes[2]),
                    last_received_tick: be_value(bytes[3], bytes[4]),
                    local_packet_index: be_value(bytes[5], bytes[6]),
                },
            ),
            None => None,
        }
    }
}

/// The kind of a handshake packet, which travels without the rest of the
/// header, if the packet is not empty and names a kind that exists.
pub open spec fn parsed_kind(bytes: Seq<u8>) -> Option<PacketType> {
    if bytes.len() < 1 {
        None
    } else {
        PacketType::of_code(bytes[0])
    }
}

impl StandardHeader {
    /// A header with the given fields.
    pub fn new(
        packet_type: PacketType,
        host_tick: u16,
        last_received_tick: u16,
        local_packet_index: u16,
    ) -> (header: StandardHeader)
        ensures
            header == (StandardHeader {
                packet_type,
                host_tick,
                last_received_tick,
                local_packet_index,
            }),
    {
        StandardHeader { packet_type, host_tick, last_received_tick, local_packet_index }
    }

    /// The number of bytes of a header.
    pub fn bytes_number() -> (number: usize)
        ensures
            number == 7,
    {
        HEADER_SIZE
    }

    /// The kind of the packet.
    pub fn packet_type(&self) -> (packet_type: PacketType)
        ensures
            packet_type == self.packet_type,
    {
        self.packet_type
    }

    /// The sender's tick.
    pub fn host_tick(&self) -> (tick: u16)
        ensures
            tick == self.host_tick,
    {
        self.host_tick
    }

    /// The last tick that the sender has seen of its peer.
    pub fn last_received_tick(&self) -> (tick: u16)
        ensures
            tick == self.last_received_tick,
    {
        self.last_received_tick
    }

    /// The index that the sender gave the packet.
    pub fn local_packet_index(&self) -> (index: u16)
        ensures
            index == self.local_packet_index,
    {
        self.local_packet_index
    }

    /// Appends the header to `out`.
    pub fn write(&self, out: &mut Vec<u8>)
        ensures
            final(out)@ == old(out)@ + header_bytes(*self),
    {
        put_u8(out, self.packet_type.to_u8());
        put_u16(out, self.host_tick);
        put_u16(out, self.last_received_tick);
        put_u16(out, self.local_packet_index);
        assert(out@ =~= old(out)@ + header_bytes(*self));
    }

    /// Reads the header that a packet begins with, and gives it with the
    /// payload that follows. Nothing is given for a packet that is too short
    /// or names no kind.
    pub fn read(bytes: &Vec<u8>) -> (read: Option<(StandardHeader, Vec<u8>)>)
        ensures
            match (parsed_header(bytes@), read) {
                (Some(header), Some((got, payload))) => got == header && payload@
                    == bytes@.subrange(7, bytes@.len() as int),
                (None, None) => true,
                _ => false,
            },
    {
        if bytes.len() < HEADER_SIZE {
            return None;
        }
        let packet_type = match PacketType::from_u8(bytes[0]) {
            Some(packet_type) => packet_type,
            None => {
                return None;
            },
        };
        let header = StandardHeader {
            packet_type,
            host_tick: get_u16(bytes[1], bytes[2]),
            last_received_tick: get_u16(bytes[3], bytes[4]),
            local_packet_index: get_u16(bytes[5], bytes[6]),
        };
        Some((header, tail_from(bytes, HEADER_SIZE)))
    }
}

/// The bytes of `bytes` from position `from` on.
pub fn tail_from(bytes: &Vec<u8>, from: usize) -> (tail: Vec<u8>)
    requires
        from <= bytes@.len(),
    ensures
        tail@ == bytes@.subrange(from as int, bytes@.len() as int),
{
    let mut tail: Vec<u8> = Vec::new();
    let mut i: usize = from;
    while i < bytes.len()
        invariant
            from <= i <= bytes@.len(),
            tail@ == bytes@.subrange(from as int, i as int),
        decreases bytes@.len() - i,
    {
        tail.push(bytes[i]);
        i += 1;
        assert(tail@ =~= bytes@.subrange(from as int, i as int));
    }
    tail
}

/// A packet with a header: the header, then the payload.
pub fn write_payload(header: &StandardHeader, payload: &Vec<u8>) -> (packet: Vec<u8>)
    ensures
        packet@ == header_bytes(*header) + payload@,
{
    let mut packet: Vec<u8> = Vec::new();
    header.write(&mut packet);
    append_bytes(&mut packet, payload);
    packet
}

/// A handshake packet: the byte of its kind, then the payload.
pub fn write_connectionless_payload(packet_type: PacketType, payload: &Vec<u8>) -> (packet: Vec<u8>)
    ensures
        packet@ == seq![packet_type.code()] + payload@,
{
    let mut packet: Vec<u8> = Vec::new();
    put_u8(&mut packet, packet_type.to_u8());
    append_bytes(&mut packet, payload);
    packet
}

/// Reads the kind that a handshake packet begins with, and gives it with the
/// payload that follows.
pub fn read_connectionless_payload(bytes: &Vec<u8>) -> (read: Option<(PacketType, Vec<u8>)>)
    ensures
        match (parsed_kind(bytes@), read) {
            (Some(kind), Some((got, payload))) => got == kind && payload@ == bytes@.subrange(
                1,
                bytes@.len() as int,
            ),
            (None, None) => true,
            _ => false,
        },
{
    if bytes.len() < 1 {
        return None;
    }
    match PacketType::from_u8(bytes[0]) {
        Some(kind) => Some((kind, tail_from(bytes, 1))),
        None => None,
    }
}

/// A header that is written and read back is the header that was written,
/// and what follows it is the payload.
pub proof fn lemma_header_round_trip(header: StandardHeader, payload: Seq<u8>)
    ensures
        parsed_header(header_bytes(header) + payload) == Some(header),
        (header_bytes(header) + payload).subrange(
            7,
            (header_bytes(header) + payload).len() as int,
        ) == payload,
        parsed_kind(seq![header.packet_type.code()] + payload) == Some(header.packet_type),
{
    let bytes = header_bytes(header) + payload;
    lemma_packet_type_round_trip(header.packet_type);
    lemma_be_round_trip(header.host_tick);
    lemma_be_round_trip(header.last_received_tick);
    lemma_be_round_trip(header.local_packet_index);
    assert(bytes.len() == 7 + payload.len());
    assert(bytes[0] == header.packet_type.code());
    assert(bytes[1] == be_bytes(header.host_tick)[0]);
    assert(bytes[2] == be_bytes(header.host_tick)[1]);
    assert(bytes[3] == be_bytes(header.last_received_tick)[0]);
    assert(bytes[4] == be_bytes(header.last_received_tick)[1]);
    assert(bytes[5] == be_bytes(header.local_packet_index)[0]);
    assert(bytes[6] == be_bytes(header.local_packet_index)[1]);
    assert(bytes.subrange(7, bytes.len() as int) =~= payload);
    assert((seq![header.packet_type.code()] + payload)[0] == header.packet_type.code());
}

} // verus!
