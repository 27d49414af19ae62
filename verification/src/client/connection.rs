use vstd::prelude::*;
use crate::client::tick_manager::tick_after;
use crate::shared::packet_type::PacketType;
use crate::shared::standard_header::{header_bytes, write_payload, StandardHeader};
use crate::shared::timer::{Liveness, Timer};

verus! {

/// What the client keeps of its connection to the server for the framing of
/// packets: the clocks that watch over it, the index of the next packet to
/// send, and the last tick that the server has named.
#[derive(PartialEq, Eq, Structural, Clone, Copy, Debug)]
pub struct ServerConnection {
    pub liveness: Liveness,
    pub next_packet_index: u16,
    pub last_received_tick: u16,
}

impl ServerConnection {
    /// A connection that begins at the time `now`.
    pub fn new(heartbeat_interval: u64, disconnection_timeout: u64, now: u64) -> (connection:
        ServerConnection)
        ensures
            connection == (ServerConnection {
                liveness: Liveness {
                    heartbeat: Timer { duration: heartbeat_interval, last: Some(now) },
                    timeout: Timer { duration: disconnection_timeout, last: Some(now) },
                },
                next_packet_index: 0,
                last_received_tick: 0,
            }),
    {
        ServerConnection {
            liveness: Liveness::new(heartbeat_interval, disconnection_timeout, now),
            next_packet_index: 0,
            last_received_tick: 0,
        }
    }

    /// The last tick that the server has named.
    pub fn get_last_received_tick(&self) -> (tick: u16)
        ensures
            tick == self.last_received_tick,
    {
        self.last_received_tick
    }

    /// Takes note of the header of a packet of the server.
    pub fn process_incoming_header(&mut self, header: &StandardHeader)
        ensures
            *final(self) == (ServerConnection {
                last_received_tick: header.host_tick,
                ..*old(self)
            }),
    {
        self.last_received_tick = header.host_tick;
    }

    /// Frames a payload for sending: the packet gets a header with the
    /// client's tick, the last tick heard of the server, and the next packet
    /// index, which then goes on by one, wrapping.
    pub fn process_outgoing_header(
        &mut self,
        host_tick: u16,
        packet_type: PacketType,
        payload: &Vec<u8>,
    ) -> (packet: Vec<u8>)
        ensures
            packet@ == header_bytes(
                StandardHeader {
                    packet_type,
                    host_tick,
                    last_received_tick: old(self).last_received_tick,
                    local_packet_index: old(self).next_packet_index,
                },
            ) + payload@,
            *final(self) == (ServerConnection {
                next_packet_index: tick_after(old(self).next_packet_index, 1),
                ..*old(self)
            }),
    {
        let header = StandardHeader::new(
            packet_type,
            host_tick,
            self.last_received_tick,
            self.next_packet_index,
        );
        self.next_packet_index = self.next_packet_index.wrapping_add(1);
        write_payload(&header, payload)
    }

    /// Takes note that a packet was sent at the time `now`.
    pub fn mark_sent(&mut self, now: u64)
        ensures
            final(self).liveness.heartbeat == (Timer {
                last: Some(now),
                ..old(self).liveness.heartbeat
            }),
            final(self).liveness.timeout == old(self).liveness.timeout,
            final(self).next_packet_index == old(self).next_packet_index,
            final(self).last_received_tick == old(self).last_received_tick,
    {
        self.liveness.mark_sent(now);
    }

    /// Takes note that a packet of the server arrived at the time `now`.
    pub fn mark_heard(&mut self, now: u64)
        ensures
            final(self).liveness.heartbeat == (Timer {
                last: Some(now),
                ..old(self).liveness.heartbeat
            }),
            final(self).liveness.timeout == (Timer {
                last: Some(now),
                ..old(self).liveness.timeout
            }),
            final(self).next_packet_index == old(self).next_packet_index,
            final(self).last_received_tick == old(self).last_received_tick,
    {
        self.liveness.mark_heard(now);
    }

    /// Whether the server is given up at the time `now`.
    pub fn should_drop(&self, now: u64) -> (lost: bool)
        ensures
            lost == self.liveness.timeout.rings(now),
    {
        self.liveness.should_drop(now)
    }

    /// Whether a heartbeat is due at the time `now`.
    pub fn should_send_heartbeat(&self, now: u64) -> (due: bool)
        ensures
            due == self.liveness.heartbeat.rings(now),
    {
        self.liveness.should_send_heartbeat(now)
    }
}

} // verus!
