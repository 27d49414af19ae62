use vstd::prelude::*;
use crate::client::connection::ServerConnection;
use crate::client::connection_state::ConnectionState;
use crate::client::tick_manager::{tick_after, TickManager};
use crate::shared::byte_io::{be_value, get_u16};
use crate::shared::manager_type::append_bytes;
use crate::shared::manifest::{naia_id_of, Manifest};
use crate::shared::message_packet_writer::{encode_message, message_bytes};
use crate::shared::replicate::Replicate;
use crate::shared::packet_type::PacketType;
use crate::shared::standard_header::{
    header_bytes, parsed_header, parsed_kind, read_connectionless_payload,
    write_connectionless_payload, StandardHeader,
};
use crate::shared::timer::{Liveness, Timer};
use crate::shared::timestamp::{parsed_timestamp, timestamp_bytes, Timestamp};

verus! {

/// The number of bytes of the server's digest.
pub const DIGEST_SIZE: usize = 32;

/// How the client is set up. All times are in milliseconds.
#[derive(PartialEq, Eq, Structural, Clone, Copy, Debug)]
pub struct ClientConfig {
    /// The silence of the server after which the connection is given up.
    pub disconnection_timeout_duration: u64,
    /// The silence of the client after which it sends a heartbeat.
    pub heartbeat_interval: u64,
    /// The time between two pings.
    pub ping_interval: u64,
    /// The number of round trips over which the round trip time is averaged.
    pub rtt_sample_size: u16,
    /// The time between two handshake packets.
    pub send_handshake_interval: u64,
    /// The length of a tick.
    pub tick_interval: u64,
}

impl Default for ClientConfig {
    fn default() -> (config: ClientConfig)
        ensures
            config == (ClientConfig {
                disconnection_timeout_duration: 10000,
                heartbeat_interval: 4000,
                ping_interval: 1000,
                rtt_sample_size: 20,
                send_handshake_interval: 1000,
                tick_interval: 50,
            }),
    {
        ClientConfig {
            disconnection_timeout_duration: 10000,
            heartbeat_interval: 4000,
            ping_interval: 1000,
            rtt_sample_size: 20,
            send_handshake_interval: 1000,
            tick_interval: 50,
        }
    }
}

/// What a packet of the server means to the client.
#[derive(PartialEq, Eq, Structural, Clone, Copy, Debug)]
pub enum Incoming {
    /// Nothing for the application: the packet was used up by the handshake,
    /// or it is dropped.
    Ignored,
    /// The server has accepted the connection.
    Connection,
    /// Data of the connection, sent at the server's tick `host_tick` as its
    /// packet `packet_index`; the payload comes with it.
    Data { host_tick: u16, packet_index: u16 },
    /// A sign of life.
    Heartbeat,
    /// The echo of a ping; the payload comes with it.
    Pong,
}

/// What the upkeep of the connection calls for.
#[derive(PartialEq, Eq, Structural, Clone, Copy, Debug)]
pub enum Upkeep {
    /// Nothing.
    Nothing,
    /// The server was silent for too long: the connection is gone.
    Disconnection,
    /// The client was silent for an interval: the heartbeat packet that
    /// comes with this is to be sent.
    Heartbeat,
}

/// The state of the client, as plain values.
pub struct ClientView {
    pub config: ClientConfig,
    pub connection: Option<ServerConnection>,
    pub timestamp: Option<Timestamp>,
    pub digest: Option<Seq<u8>>,
    pub handshake_timer: Timer,
    pub state: ConnectionState,
    pub auth: Option<Seq<u8>>,
    pub tick_manager: TickManager,
}

impl ClientView {
    /// Whether a handshake packet is due at the time `now`.
    pub open spec fn handshake_due(self, now: u64) -> bool {
        self.connection is None && self.handshake_timer.rings(now)
    }

    /// The timestamp under which the handshake runs: the one it began with,
    /// or else `fresh`.
    pub open spec fn stamp(self, fresh: Timestamp) -> Timestamp {
        match self.timestamp {
            Some(timestamp) => timestamp,
            None => fresh,
        }
    }

    /// The handshake packet that is due: while the client waits for the
    /// challenge, a request that carries its timestamp; while it waits to be
    /// accepted, a request that carries the timestamp, the server's digest,
    /// and what the client has to say for itself, if anything.
    pub open spec fn handshake_packet(self, fresh: Timestamp) -> Seq<u8> {
        match self.state {
            ConnectionState::AwaitingChallengeResponse => seq![
                PacketType::ClientChallengeRequest.code(),
            ] + timestamp_bytes(self.stamp(fresh)),
            _ => seq![PacketType::ClientConnectRequest.code()] + timestamp_bytes(
                self.stamp(fresh),
            ) + (match self.digest {
                Some(digest) => digest,
                None => Seq::empty(),
            }) + (match self.auth {
                Some(auth) => auth,
                None => Seq::empty(),
            }),
        }
    }

    /// The state after a handshake packet went out at the time `now`.
    pub open spec fn handshake_sent(self, now: u64, fresh: Timestamp) -> ClientView {
        ClientView {
            timestamp: Some(self.stamp(fresh)),
            handshake_timer: Timer { last: Some(now), ..self.handshake_timer },
            ..self
        }
    }

    /// Whether `payload` is the answer to the client's challenge request:
    /// the client waits for one, and the payload holds the server's tick,
    /// the client's own timestamp, and a digest.
    pub open spec fn answers_challenge(self, payload: Seq<u8>) -> bool {
        &&& self.state == ConnectionState::AwaitingChallengeResponse
        &&& self.timestamp is Some
        &&& payload.len() >= 2 + 12 + 32
        &&& parsed_timestamp(payload, 2) == self.timestamp
    }

    /// The state after the server's answer to the challenge request arrived
    /// at the time `now`: the client keeps the digest, starts its tick at
    /// the server's, and waits to be accepted.
    pub open spec fn challenged(self, payload: Seq<u8>, now: u64) -> ClientView {
        ClientView {
            digest: Some(payload.subrange(14, 46)),
            tick_manager: TickManager {
                client_tick: be_value(payload[0], payload[1]),
                last_tick_millis: now,
                ..self.tick_manager
            },
            state: ConnectionState::AwaitingConnectResponse,
            ..self
        }
    }

    /// The state after the server accepted the connection at the time `now`.
    pub open spec fn accepted(self, now: u64) -> ClientView {
        ClientView {
            connection: Some(
                ServerConnection {
                    liveness: Liveness {
                        heartbeat: Timer {
                            duration: self.config.heartbeat_interval,
                            last: Some(now),
                        },
                        timeout: Timer {
                            duration: self.config.disconnection_timeout_duration,
                            last: Some(now),
                        },
                    },
                    next_packet_index: 0,
                    last_received_tick: 0,
                },
            ),
            state: ConnectionState::Connected,
            ..self
        }
    }

    /// The state after a packet of the server was heard at the time `now`
    /// on the connection: the clocks start over, and the server's tick is
    /// noted where the packet has a header.
    pub open spec fn heard(self, packet: Seq<u8>, now: u64) -> ClientView {
        let connection = self.connection->0;
        ClientView {
            connection: Some(
                ServerConnection {
                    liveness: Liveness {
                        heartbeat: Timer { last: Some(now), ..connection.liveness.heartbeat },
                        timeout: Timer { last: Some(now), ..connection.liveness.timeout },
                    },
                    last_received_tick: match parsed_header(packet) {
                        Some(header) => header.host_tick,
                        None => connection.last_received_tick,
                    },
                    ..connection
                },
            ),
            ..self
        }
    }

    /// The state after the packet `packet` arrived at the time `now`.
    pub open spec fn received(self, packet: Seq<u8>, now: u64) -> ClientView {
        if self.connection is Some {
            self.heard(packet, now)
        } else {
            match parsed_kind(packet) {
                Some(PacketType::ServerChallengeResponse) => if self.answers_challenge(
                    packet.subrange(1, packet.len() as int),
                ) {
                    self.challenged(packet.subrange(1, packet.len() as int), now)
                } else {
                    self
                },
                Some(PacketType::ServerConnectResponse) => self.accepted(now),
                _ => self,
            }
        }
    }

    /// What the packet `packet` means to the client.
    pub open spec fn incoming(self, packet: Seq<u8>) -> Incoming {
        if self.connection is Some {
            match parsed_header(packet) {
                Some(header) => match header.packet_type {
                    PacketType::Data => Incoming::Data {
                        host_tick: header.host_tick,
                        packet_index: header.local_packet_index,
                    },
                    PacketType::Heartbeat => Incoming::Heartbeat,
                    PacketType::Pong => Incoming::Pong,
                    _ => Incoming::Ignored,
                },
                None => Incoming::Ignored,
            }
        } else {
            match parsed_kind(packet) {
                Some(PacketType::ServerConnectResponse) => Incoming::Connection,
                _ => Incoming::Ignored,
            }
        }
    }

    /// The payload that comes with what the packet means: that of data and
    /// of a pong, and nothing else.
    pub open spec fn incoming_payload(self, packet: Seq<u8>) -> Seq<u8> {
        match self.incoming(packet) {
            Incoming::Data { .. } => packet.subrange(7, packet.len() as int),
            Incoming::Pong => packet.subrange(7, packet.len() as int),
            _ => Seq::empty(),
        }
    }

    /// What the upkeep of the connection calls for at the time `now`.
    pub open spec fn upkeep(self, now: u64) -> Upkeep {
        match self.connection {
            Some(connection) => if connection.liveness.timeout.rings(now) {
                Upkeep::Disconnection
            } else if connection.liveness.heartbeat.rings(now) {
                Upkeep::Heartbeat
            } else {
                Upkeep::Nothing
            },
            None => Upkeep::Nothing,
        }
    }

    /// The state after the connection was given up: the client is back at
    /// the beginning of the handshake, with no timestamp and no digest.
    pub open spec fn disconnected(self) -> ClientView {
        ClientView {
            connection: None,
            timestamp: None,
            digest: None,
            state: ConnectionState::AwaitingChallengeResponse,
            ..self
        }
    }

    /// The state after the client's tick was brought up to the time `now`:
    /// on a connection the tick has gone on by the whole intervals that have
    /// passed, and the moment at which it began by as many intervals;
    /// without a connection nothing changes.
    pub open spec fn ticked(self, now: u64) -> ClientView {
        if self.connection is Some {
            ClientView { tick_manager: self.tick_manager.updated(now), ..self }
        } else {
            self
        }
    }

    /// The state after a packet went out on the connection at the time `now`.
    pub open spec fn sent(self, now: u64) -> ClientView {
        let connection = self.connection->0;
        ClientView {
            connection: Some(
                ServerConnection {
                    liveness: Liveness {
                        heartbeat: Timer { last: Some(now), ..connection.liveness.heartbeat },
                        ..connection.liveness
                    },
                    next_packet_index: tick_after(connection.next_packet_index, 1),
                    ..connection
                },
            ),
            ..self
        }
    }

    /// The packet that goes out on the connection with the kind
    /// `packet_type` and the payload `payload`.
    pub open spec fn framed(self, packet_type: PacketType, payload: Seq<u8>) -> Seq<u8> {
        let connection = self.connection->0;
        header_bytes(
            StandardHeader {
                packet_type,
                host_tick: self.tick_manager.client_tick,
                last_received_tick: connection.last_received_tick,
                local_packet_index: connection.next_packet_index,
            },
        ) + payload
    }
}

/// The client's side of a connection: the handshake with the server, the
/// framing of packets, and the upkeep of the connection. It sends and
/// receives nothing itself: it says what is to be sent, and is told what
/// has arrived and what time it is.
pub struct Client {
    config: ClientConfig,
    server_connection: Option<ServerConnection>,
    pre_connection_timestamp: Option<Timestamp>,
    pre_connection_digest: Option<Vec<u8>>,
    handshake_timer: Timer,
    connection_state: ConnectionState,
    auth_bytes: Option<Vec<u8>>,
    tick_manager: TickManager,
}

impl View for Client {
    type V = ClientView;

    closed spec fn view(&self) -> ClientView {
        ClientView {
            config: self.config,
            connection: self.server_connection,
            timestamp: self.pre_connection_timestamp,
            digest: match self.pre_connection_digest {
                Some(digest) => Some(digest@),
                None => None,
            },
            handshake_timer: self.handshake_timer,
            state: self.connection_state,
            auth: match self.auth_bytes {
                Some(auth) => Some(auth@),
                None => None,
            },
            tick_manager: self.tick_manager,
        }
    }
}

impl Client {
    /// A client that has not begun its handshake: it waits for a challenge,
    /// and its first handshake packet is due at once. `auth` is what the
    /// client has to say for itself when it asks to connect, as the bytes
    /// that end the request; `with_auth` forms them from a value.
    pub fn new(config: ClientConfig, auth: Option<Vec<u8>>) -> (client: Client)
        ensures
            client@ == (ClientView {
                config,
                connection: None,
                timestamp: None,
                digest: None,
                handshake_timer: Timer { duration: config.send_handshake_interval, last: None },
                state: ConnectionState::AwaitingChallengeResponse,
                auth: match auth {
                    Some(auth) => Some(auth@),
                    None => None,
                },
                tick_manager: TickManager {
                    tick_interval: config.tick_interval,
                    client_tick: 0,
                    last_tick_millis: 0,
                },
            }),
    {
        let mut handshake_timer = Timer::new(config.send_handshake_interval, 0);
        handshake_timer.ring_manual();
        Client {
            config,
            server_connection: None,
            pre_connection_timestamp: None,
            pre_connection_digest: None,
            handshake_timer,
            connection_state: ConnectionState::AwaitingChallengeResponse,
            auth_bytes: auth,
            tick_manager: TickManager::new(config.tick_interval),
        }
    }

    /// A client that has not begun its handshake, and that will say `auth`
    /// for itself when it asks to connect: the request then ends with the
    /// identifier of the type of `auth` and its payload.
    pub fn with_auth<R: Replicate>(config: ClientConfig, manifest: &Manifest, auth: Option<&R>) -> (client:
        Client)
        requires
            auth is Some ==> naia_id_of(manifest@, auth.unwrap().type_id()) is Some,
        ensures
            client@ == (ClientView {
                config,
                connection: None,
                timestamp: None,
                digest: None,
                handshake_timer: Timer { duration: config.send_handshake_interval, last: None },
                state: ConnectionState::AwaitingChallengeResponse,
                auth: match auth {
                    Some(auth) => Some(message_bytes(manifest@, *auth)),
                    None => None,
                },
                tick_manager: TickManager {
                    tick_interval: config.tick_interval,
                    client_tick: 0,
                    last_tick_millis: 0,
                },
            }),
    {
        let auth_bytes = match auth {
            Some(auth) => Some(encode_message(manifest, auth)),
            None => None,
        };
        Client::new(config, auth_bytes)
    }

    /// Whether the server has accepted the connection.
    pub fn has_connection(&self) -> (has: bool)
        ensures
            has == (self@.connection is Some),
    {
        self.server_connection.is_some()
    }

    /// Where the client stands in its handshake.
    pub fn connection_state(&self) -> (state: ConnectionState)
        ensures
            state == self@.state,
    {
        self.connection_state
    }

    /// The client's tick.
    pub fn get_client_tick(&self) -> (tick: u16)
        ensures
            tick == self@.tick_manager.client_tick,
    {
        self.tick_manager.get_client_tick()
    }

    /// The last tick that the server has named.
    pub fn get_server_tick(&self) -> (tick: u16)
        requires
            self@.connection is Some,
        ensures
            tick == self@.connection->0.last_received_tick,
    {
        match &self.server_connection {
            Some(connection) => connection.get_last_received_tick(),
            None => 0,
        }
    }

    /// How far the current tick has come at the time `now`: the number of
    /// milliseconds since it began, and the length of a tick.
    pub fn get_interpolation(&self, now: u64) -> (parts: (u64, u64))
        ensures
            parts.1 == self@.tick_manager.tick_interval,
            parts.0 == (if now >= self@.tick_manager.last_tick_millis {
                (now - self@.tick_manager.last_tick_millis) as u64
            } else {
                0
            }),
    {
        self.tick_manager.fraction_parts(now)
    }

    /// Gives the handshake packet to send at the time `now`, if one is due:
    /// the client is not connected, and the handshake interval has passed
    /// since the last one. The handshake runs under the timestamp that it
    /// began with; where it begins now, that is `fresh`.
    pub fn handshake_packet(&mut self, now: u64, fresh: Timestamp) -> (packet: Option<Vec<u8>>)
        ensures
            match packet {
                Some(packet) => old(self)@.handshake_due(now) && packet@ == old(
                    self,
                )@.handshake_packet(fresh) && final(self)@ == old(self)@.handshake_sent(
                    now,
                    fresh,
                ),
                None => !old(self)@.handshake_due(now) && final(self)@ == old(self)@,
            },
    {
        if self.server_connection.is_some() || !self.handshake_timer.ringing(now) {
            return None;
        }
        let timestamp = match self.pre_connection_timestamp {
            Some(timestamp) => timestamp,
            None => fresh,
        };
        self.pre_connection_timestamp = Some(timestamp);
        let mut payload_bytes: Vec<u8> = Vec::new();
        timestamp.write(&mut payload_bytes);
        let packet = match self.connection_state {
            ConnectionState::AwaitingChallengeResponse => {
                write_connectionless_payload(PacketType::ClientChallengeRequest, &payload_bytes)
            },
            _ => {
                match &self.pre_connection_digest {
                    Some(digest) => {
                        append_bytes(&mut payload_bytes, digest);
                    },
                    None => {},
                }
                match &self.auth_bytes {
                    Some(auth) => {
                        append_bytes(&mut payload_bytes, auth);
                    },
                    None => {},
                }
                write_connectionless_payload(PacketType::ClientConnectRequest, &payload_bytes)
            },
        };
        self.handshake_timer.reset(now);
        assert(packet@ =~= old(self)@.handshake_packet(fresh));
        Some(packet)
    }

    /// Takes in a packet that arrived at the time `now`, and says what it
    /// means, with the payload where there is one for the application's
    /// managers.
    ///
    /// On a connection, every packet starts the clocks over, and its header
    /// names the server's tick; data, heartbeats and pongs are told apart,
    /// and anything else is dropped. Without a connection, the answer to the
    /// client's challenge request, if it echoes the client's timestamp,
    /// brings the digest and the server's tick, and the client goes on to
    /// ask for the connection; the server's acceptance makes the connection.
    /// A packet that is too short, or of another kind, is dropped.
    pub fn receive_packet(&mut self, packet: &Vec<u8>, now: u64) -> (incoming: (Incoming, Vec<u8>))
        ensures
            final(self)@ == old(self)@.received(packet@, now),
            incoming.0 == old(self)@.incoming(packet@),
            incoming.1@ == old(self)@.incoming_payload(packet@),
    {
        match self.server_connection {
            Some(mut connection) => {
                connection.mark_heard(now);
                let read = StandardHeader::read(packet);
                match read {
                    Some((header, payload)) => {
                        connection.process_incoming_header(&header);
                        self.server_connection = Some(connection);
                        match header.packet_type() {
                            PacketType::Data => (
                                Incoming::Data {
                                    host_tick: header.host_tick(),
                                    packet_index: header.local_packet_index(),
                                },
                                payload,
                            ),
                            PacketType::Heartbeat => (Incoming::Heartbeat, Vec::new()),
                            PacketType::Pong => (Incoming::Pong, payload),
                            _ => (Incoming::Ignored, Vec::new()),
                        }
                    },
                    None => {
                        self.server_connection = Some(connection);
                        (Incoming::Ignored, Vec::new())
                    },
                }
            },
            None => {
                match read_connectionless_payload(packet) {
                    Some((PacketType::ServerChallengeResponse, payload)) => {
                        self.receive_challenge_response(&payload, now);
                        (Incoming::Ignored, Vec::new())
                    },
                    Some((PacketType::ServerConnectResponse, _)) => {
                        self.server_connection = Some(
                            ServerConnection::new(
                                self.config.heartbeat_interval,
                                self.config.disconnection_timeout_duration,
                                now,
                            ),
                        );
                        self.connection_state = ConnectionState::Connected;
                        (Incoming::Connection, Vec::new())
                    },
                    _ => (Incoming::Ignored, Vec::new()),
                }
            },
        }
    }

    /// Takes in the payload of the server's answer to the challenge request.
    fn receive_challenge_response(&mut self, payload: &Vec<u8>, now: u64)
        requires
            old(self)@.connection is None,
        ensures
            final(self)@ == (if old(self)@.answers_challenge(payload@) {
                old(self)@.challenged(payload@, now)
            } else {
                old(self)@
            }),
    {
        if self.connection_state != ConnectionState::AwaitingChallengeResponse {
            return ;
        }
        let my_timestamp = match self.pre_connection_timestamp {
            Some(timestamp) => timestamp,
            None => {
                return ;
            },
        };
        if payload.len() < 2 + 12 + DIGEST_SIZE {
            return ;
        }
        let server_tick = get_u16(payload[0], payload[1]);
        let payload_timestamp = match Timestamp::read(payload, 2) {
            Some(timestamp) => timestamp,
            None => {
                return ;
            },
        };
        if my_timestamp == payload_timestamp {
            let mut digest_bytes: Vec<u8> = Vec::new();
            let mut i: usize = 0;
            while i < DIGEST_SIZE
                invariant
                    i <= 32,
                    payload@.len() >= 46,
                    digest_bytes@ == payload@.subrange(14, 14 + i as int),
                decreases 32 - i,
            {
                digest_bytes.push(payload[14 + i]);
                i += 1;
                assert(digest_bytes@ =~= payload@.subrange(14, 14 + i as int));
            }
            self.pre_connection_digest = Some(digest_bytes);
            self.tick_manager.set_initial_tick(server_tick, now);
            self.connection_state = ConnectionState::AwaitingConnectResponse;
        }
    }

    /// Brings the client's tick up to the time `now`, and says whether it
    /// moved, which the application is told as a tick event. Without a
    /// connection the tick stands still.
    pub fn frame_begin(&mut self, now: u64) -> (ticked: bool)
        ensures
            ticked == (old(self)@.connection is Some && old(self)@.tick_manager.ticks_due(now) > 0),
            final(self)@ == old(self)@.ticked(now),
    {
        if self.server_connection.is_some() {
            self.tick_manager.update_frame(now)
        } else {
            false
        }
    }

    /// Gives up the connection, as after a failure of the transport: the
    /// client is back at the beginning of the handshake, with no timestamp
    /// and no digest.
    pub fn disconnect(&mut self)
        ensures
            final(self)@ == old(self)@.disconnected(),
    {
        self.server_connection = None;
        self.pre_connection_timestamp = None;
        self.pre_connection_digest = None;
        self.connection_state = ConnectionState::AwaitingChallengeResponse;
    }

    /// Looks after the connection at the time `now`. Where the server was
    /// silent for the disconnection timeout, the connection is given up and
    /// the client is back at the beginning of the handshake. Else, where the
    /// client was silent for the heartbeat interval, the heartbeat packet is
    /// given, and counts as sent.
    pub fn upkeep(&mut self, now: u64) -> (due: (Upkeep, Vec<u8>))
        ensures
            due.0 == old(self)@.upkeep(now),
            match due.0 {
                Upkeep::Nothing => final(self)@ == old(self)@ && due.1@.len() == 0,
                Upkeep::Disconnection => final(self)@ == old(self)@.disconnected() && due.1@.len()
                    == 0,
                Upkeep::Heartbeat => final(self)@ == old(self)@.sent(now) && due.1@ == old(
                    self,
                )@.framed(PacketType::Heartbeat, Seq::empty()),
            },
    {
        match self.server_connection {
            Some(mut connection) => {
                if connection.should_drop(now) {
                    self.server_connection = None;
                    self.pre_connection_timestamp = None;
                    self.pre_connection_digest = None;
                    self.connection_state = ConnectionState::AwaitingChallengeResponse;
                    (Upkeep::Disconnection, Vec::new())
                } else if connection.should_send_heartbeat(now) {
                    let empty: Vec<u8> = Vec::new();
                    let packet = connection.process_outgoing_header(
                        self.tick_manager.get_client_tick(),
                        PacketType::Heartbeat,
                        &empty,
                    );
                    connection.mark_sent(now);
                    self.server_connection = Some(connection);
                    assert(packet@ =~= old(self)@.framed(PacketType::Heartbeat, Seq::empty()));
                    (Upkeep::Heartbeat, packet)
                } else {
                    (Upkeep::Nothing, Vec::new())
                }
            },
            None => (Upkeep::Nothing, Vec::new()),
        }
    }

    /// Frames a payload for sending on the connection at the time `now`: the
    /// packet gets its header, the packet index goes on by one, and the
    /// heartbeat clock starts over. Nothing is framed without a connection.
    pub fn send_with_connection(&mut self, packet_type: PacketType, payload: &Vec<u8>, now: u64) -> (packet:
        Option<Vec<u8>>)
        ensures
            match packet {
                Some(packet) => old(self)@.connection is Some && packet@ == old(self)@.framed(
                    packet_type,
                    payload@,
                ) && final(self)@ == old(self)@.sent(now),
                None => old(self)@.connection is None && final(self)@ == old(self)@,
            },
    {
        match self.server_connection {
            Some(mut connection) => {
                let packet = connection.process_outgoing_header(
                    self.tick_manager.get_client_tick(),
                    packet_type,
                    payload,
                );
                connection.mark_sent(now);
                self.server_connection = Some(connection);
                Some(packet)
            },
            None => None,
        }
    }
}

} // verus!
