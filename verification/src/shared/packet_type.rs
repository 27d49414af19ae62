use vstd::prelude::*;

verus! {

/// The kind of a packet, which is its first byte on the wire.
#[derive(PartialEq, Eq, Structural, Clone, Copy, Debug)]
pub enum PacketType {
    /// The client asks for a challenge.
    ClientChallengeRequest,
    /// The server answers with its digest of the client's timestamp.
    ServerChallengeResponse,
    /// The client asks to connect, and presents the digest.
    ClientConnectRequest,
    /// The server accepts the connection.
    ServerConnectResponse,
    /// Messages, commands and replication actions.
    Data,
    /// A sign of life where nothing else was sent.
    Heartbeat,
    /// The end of the connection.
    Disconnect,
    /// A request for an echo, to measure the round trip.
    Ping,
    /// The echo.
    Pong,
}

impl PacketType {
    /// The byte that stands for the kind on the wire.
    pub open spec fn code(self) -> u8 {
        match self {
            PacketType::ClientChallengeRequest => 0,
            PacketType::ServerChallengeResponse => 1,
            PacketType::ClientConnectRequest => 2,
            PacketType::ServerConnectResponse => 3,
            PacketType::Data => 4,
            PacketType::Heartbeat => 5,
            PacketType::Disconnect => 6,
            PacketType::Ping => 7,
            PacketType::Pong => 8,
        }
    }

    /// The kind that a byte stands for, if it stands for one.
    pub open spec fn of_code(byte: u8) -> Option<PacketType> {
        if byte == 0 {
            Some(PacketType::ClientChallengeRequest)
        } else if byte == 1 {
            Some(PacketType::ServerChallengeResponse)
        } else if byte == 2 {
            Some(PacketType::ClientConnectRequest)
        } else if byte == 3 {
            Some(PacketType::ServerConnectResponse)
        } else if byte == 4 {
            Some(PacketType::Data)
        } else if byte == 5 {
            Some(PacketType::Heartbeat)
        } else if byte == 6 {
            Some(PacketType::Disconnect)
        } else if byte == 7 {
            Some(PacketType::Ping)
        } else if byte == 8 {
            Some(PacketType::Pong)
        } else {
            None
        }
    }

    /// Whether packets of this kind belong to the handshake, and so travel
    /// without ticks and packet index.
    pub open spec fn is_handshake(self) -> bool {
        self.code() <= 3
    }

    /// The byte that stands for the kind on the wire.
    pub fn to_u8(&self) -> (byte: u8)
        ensures
            byte == self.code(),
    {
        match self {
            PacketType::ClientChallengeRequest => 0,
            PacketType::ServerChallengeResponse => 1,
            PacketType::ClientConnectRequest => 2,
            PacketType::ServerConnectResponse => 3,
            PacketType::Data => 4,
            PacketType::Heartbeat => 5,
            PacketType::Disconnect => 6,
            PacketType::Ping => 7,
            PacketType::Pong => 8,
        }
    }

    /// The kind that a byte stands for, if it stands for one.
    pub fn from_u8(byte: u8) -> (kind: Option<PacketType>)
        ensures
            kind == PacketType::of_code(byte),
    {
        match byte {
            0 => Some(PacketType::ClientChallengeRequest),
            1 => Some(PacketType::ServerChallengeResponse),
            2 => Some(PacketType::ClientConnectRequest),
            3 => Some(PacketType::ServerConnectResponse),
            4 => Some(PacketType::Data),
            5 => Some(PacketType::Heartbeat),
            6 => Some(PacketType::Disconnect),
            7 => Some(PacketType::Ping),
            8 => Some(PacketType::Pong),
            _ => None,
        }
    }

    /// Whether packets of this kind belong to the handshake.
    pub fn handshake(&self) -> (is: bool)
        ensures
            is == self.is_handshake(),
    {
        self.to_u8() <= 3
    }
}

/// A kind is read back from its byte.
pub proof fn lemma_packet_type_round_trip(kind: PacketType)
    ensures
        PacketType::of_code(kind.code()) == Some(kind),
{
}

} // verus!
