use naia_core::client::client::{Client, ClientConfig, Incoming, Upkeep};
use naia_core::client::connection_state::ConnectionState;
use naia_core::client::event::{action_event, command_event, replay_event, Event, PawnKey, ReplicateAction};
use naia_core::client::packet_writer::PacketWriter;
use naia_core::client::tick_manager::TickManager;
use naia_core::shared::diff_mask::DiffMask;
use naia_core::shared::manifest::Manifest;
use naia_core::shared::packet_type::PacketType;
use naia_core::shared::replicate::Replicate;
use naia_core::shared::standard_header::{write_connectionless_payload, write_payload, StandardHeader};
use naia_core::shared::timestamp::Timestamp;
use naia_core::shared::wrapping::{sequence_greater_than, wrapping_diff};
use std::rc::Rc;

fn config() -> ClientConfig {
    ClientConfig {
        disconnection_timeout_duration: 1000,
        heartbeat_interval: 50,
        ping_interval: 100,
        rtt_sample_size: 20,
        send_handshake_interval: 250,
        tick_interval: 16,
    }
}

fn stamp() -> Timestamp {
    Timestamp {
        word0: 0x0000,
        word1: 0xDEAD,
        word2: 0xBEEF,
        word3: 0xCAFE,
        word4: 0xBABE,
        word5: 0x0001,
    }
}

fn stamp_bytes() -> Vec<u8> {
    vec![0x00, 0x00, 0xDE, 0xAD, 0xBE, 0xEF, 0xCA, 0xFE, 0xBA, 0xBE, 0x00, 0x01]
}

fn challenge_response(tick: u16, timestamp: &[u8], digest: u8) -> Vec<u8> {
    let mut payload = vec![(tick >> 8) as u8, (tick & 0xff) as u8];
    payload.extend_from_slice(timestamp);
    payload.extend_from_slice(&[digest; 32]);
    write_connectionless_payload(PacketType::ServerChallengeResponse, &payload)
}

fn connected_client(now: u64) -> Client {
    let mut client = Client::new(config(), None);
    let _ = client.handshake_packet(now, stamp());
    let _ = client.receive_packet(&challenge_response(0xFFFE, &stamp_bytes(), 0xab), now);
    let accept = write_connectionless_payload(PacketType::ServerConnectResponse, &vec![]);
    let (incoming, _) = client.receive_packet(&accept, now);
    assert_eq!(incoming, Incoming::Connection);
    client
}

#[test]
fn handshake_echo() {
    let mut client = Client::new(config(), None);
    assert_eq!(client.connection_state(), ConnectionState::AwaitingChallengeResponse);
    assert!(!client.has_connection());

    let request = client.handshake_packet(0, stamp()).unwrap();
    let mut expected = vec![0u8];
    expected.extend_from_slice(&stamp_bytes());
    assert_eq!(request, expected);

    let (incoming, payload) = client.receive_packet(&challenge_response(42, &stamp_bytes(), 0xab), 10);
    assert_eq!(incoming, Incoming::Ignored);
    assert!(payload.is_empty());
    assert_eq!(client.connection_state(), ConnectionState::AwaitingConnectResponse);
    assert_eq!(client.get_client_tick(), 42);

    assert!(client.handshake_packet(249, stamp()).is_none());
    let connect = client.handshake_packet(250, stamp()).unwrap();
    let mut expected = vec![2u8];
    expected.extend_from_slice(&stamp_bytes());
    expected.extend_from_slice(&[0xab; 32]);
    assert_eq!(connect, expected);
}

#[test]
fn connect_request_carries_auth_after_digest() {
    let mut client = Client::new(config(), Some(vec![0x00, 0x05, 9, 9]));
    let _ = client.handshake_packet(0, stamp());
    let _ = client.receive_packet(&challenge_response(1, &stamp_bytes(), 0x11), 1);
    let connect = client.handshake_packet(300, stamp()).unwrap();
    assert_eq!(connect.len(), 1 + 12 + 32 + 4);
    assert_eq!(&connect[45..], &[0x00, 0x05, 9, 9]);
}

#[test]
fn challenge_response_with_other_timestamp_is_ignored() {
    let mut client = Client::new(config(), None);
    let _ = client.handshake_packet(0, stamp());
    let mut other = stamp_bytes();
    other[11] = 0x02;
    let (incoming, _) = client.receive_packet(&challenge_response(42, &other, 0xab), 10);
    assert_eq!(incoming, Incoming::Ignored);
    assert_eq!(client.connection_state(), ConnectionState::AwaitingChallengeResponse);
    assert_eq!(client.get_client_tick(), 0);
}

#[test]
fn truncated_challenge_response_is_dropped() {
    let mut client = Client::new(config(), None);
    let _ = client.handshake_packet(0, stamp());
    let mut packet = challenge_response(42, &stamp_bytes(), 0xab);
    packet.pop();
    let _ = client.receive_packet(&packet, 10);
    assert_eq!(client.connection_state(), ConnectionState::AwaitingChallengeResponse);
    let _ = client.receive_packet(&vec![], 10);
    let _ = client.receive_packet(&vec![200], 10);
    assert_eq!(client.connection_state(), ConnectionState::AwaitingChallengeResponse);
}

#[test]
fn handshake_keeps_its_first_timestamp() {
    let mut client = Client::new(config(), None);
    let first = client.handshake_packet(0, stamp()).unwrap();
    let later = client.handshake_packet(250, Timestamp::from_millis(5)).unwrap();
    assert_eq!(first, later);
}

#[test]
fn connect_response_makes_the_connection() {
    let client = connected_client(0);
    assert!(client.has_connection());
    assert_eq!(client.connection_state(), ConnectionState::Connected);
    assert_eq!(client.get_server_tick(), 0);
}

#[test]
fn heartbeat_during_silence() {
    let mut client = connected_client(0);
    let mut sent: Vec<u64> = Vec::new();
    let mut now = 0;
    while now <= 200 {
        let (due, packet) = client.upkeep(now);
        if due == Upkeep::Heartbeat {
            assert_eq!(packet.len(), 7);
            assert_eq!(packet[0], 5);
            sent.push(now);
        } else {
            assert_eq!(due, Upkeep::Nothing);
        }
        now += 1;
    }
    assert_eq!(sent, vec![50, 100, 150, 200]);
}

#[test]
fn reception_resets_the_heartbeat_clock() {
    let mut client = connected_client(0);
    let header = StandardHeader::new(PacketType::Heartbeat, 9, 0, 0);
    let packet = write_payload(&header, &vec![]);
    let (incoming, _) = client.receive_packet(&packet, 30);
    assert_eq!(incoming, Incoming::Heartbeat);
    assert_eq!(client.upkeep(50).0, Upkeep::Nothing);
    assert_eq!(client.upkeep(79).0, Upkeep::Nothing);
    assert_eq!(client.upkeep(80).0, Upkeep::Heartbeat);
}

#[test]
fn silence_of_the_server_ends_the_connection() {
    let mut client = connected_client(0);
    assert_eq!(client.upkeep(999).0, Upkeep::Heartbeat);
    assert_eq!(client.upkeep(1000).0, Upkeep::Disconnection);
    assert!(!client.has_connection());
    assert_eq!(client.connection_state(), ConnectionState::AwaitingChallengeResponse);
    let request = client.handshake_packet(1000, Timestamp::from_millis(7)).unwrap();
    assert_eq!(request, vec![0, 0, 0, 0, 0, 0, 0, 0, 0, 0, 0, 0, 7]);
}

#[test]
fn outgoing_packets_count_up_and_wrap() {
    let mut client = connected_client(0);
    for expected in 0..3u16 {
        let packet = client
            .send_with_connection(PacketType::Data, &vec![1, 2, 3], 5)
            .unwrap();
        assert_eq!(packet.len(), 10);
        assert_eq!(packet[0], 4);
        assert_eq!(&packet[1..3], &[0xFF, 0xFE]);
        assert_eq!(&packet[5..7], &[(expected >> 8) as u8, (expected & 0xff) as u8]);
        assert_eq!(&packet[7..], &[1, 2, 3]);
    }
    for _ in 3..65536u32 {
        let _ = client.send_with_connection(PacketType::Data, &vec![], 5);
    }
    let wrapped = client.send_with_connection(PacketType::Data, &vec![], 5).unwrap();
    assert_eq!(&wrapped[5..7], &[0, 0]);
}

#[test]
fn send_without_connection_gives_nothing() {
    let mut client = Client::new(config(), None);
    assert!(client.send_with_connection(PacketType::Data, &vec![1], 0).is_none());
    assert_eq!(client.upkeep(5000).0, Upkeep::Nothing);
    assert!(!client.frame_begin(5000));
}

#[test]
fn data_and_pong_hand_on_their_payload() {
    let mut client = connected_client(0);
    let data = write_payload(&StandardHeader::new(PacketType::Data, 77, 3, 12), &vec![9, 8]);
    let (incoming, payload) = client.receive_packet(&data, 1);
    assert_eq!(incoming, Incoming::Data { host_tick: 77, packet_index: 12 });
    assert_eq!(payload, vec![9, 8]);
    assert_eq!(client.get_server_tick(), 77);

    let pong = write_payload(&StandardHeader::new(PacketType::Pong, 78, 3, 13), &vec![5]);
    let (incoming, payload) = client.receive_packet(&pong, 2);
    assert_eq!(incoming, Incoming::Pong);
    assert_eq!(payload, vec![5]);

    let ping = write_payload(&StandardHeader::new(PacketType::Ping, 79, 3, 14), &vec![5]);
    assert_eq!(client.receive_packet(&ping, 3).0, Incoming::Ignored);
    assert_eq!(client.receive_packet(&vec![4, 0, 0], 3).0, Incoming::Ignored);
}

#[test]
fn tick_wrap() {
    let mut client = connected_client(1000);
    assert_eq!(client.get_client_tick(), 0xFFFE);
    assert!(!client.frame_begin(1015));
    assert!(client.frame_begin(1064));
    assert_eq!(client.get_client_tick(), 0x0002);
    assert!(sequence_greater_than(0x0002, 0xFFFE));
    assert!(!sequence_greater_than(0xFFFE, 0x0002));
    assert_eq!(wrapping_diff(0x0002, 0xFFFE), 4);
    assert_eq!(wrapping_diff(0xFFFE, 0x0002), -4);
}

#[test]
fn tick_manager_advances_by_whole_intervals() {
    let mut ticks = TickManager::new(16);
    ticks.set_initial_tick(10, 100);
    assert!(!ticks.update_frame(115));
    assert_eq!(ticks.fraction_parts(115), (15, 16));
    assert!(ticks.update_frame(150));
    assert_eq!(ticks.get_client_tick(), 13);
    assert_eq!(ticks.fraction_parts(150), (2, 16));
    assert!(!ticks.update_frame(90));
    assert_eq!(ticks.get_client_tick(), 13);
    let mut still = TickManager::new(0);
    assert!(!still.update_frame(1000));
}

#[test]
fn wrapping_diff_values() {
    assert_eq!(wrapping_diff(5, 3), 2);
    assert_eq!(wrapping_diff(3, 5), -2);
    assert_eq!(wrapping_diff(0, 65535), 1);
    assert_eq!(wrapping_diff(65535, 0), -1);
    assert_eq!(wrapping_diff(32767, 0), 32767);
    assert_eq!(wrapping_diff(32768, 0), -32768);
    assert_eq!(wrapping_diff(0, 32768), -32768);
    assert_eq!(wrapping_diff(9, 9), 0);
}

#[test]
fn actions_become_events() {
    assert!(matches!(
        action_event(ReplicateAction::<u8>::CreateObject(3)),
        Event::CreateObject(3)
    ));
    assert!(matches!(
        action_event(ReplicateAction::DeleteObject(3, 9u8)),
        Event::DeleteObject(3, 9)
    ));
    assert!(matches!(
        action_event(ReplicateAction::<u8>::ResetPawnEntity(4)),
        Event::ResetPawnEntity(4)
    ));
    match action_event(ReplicateAction::<u8>::CreateEntity(2, vec![5, 6])) {
        Event::CreateEntity(2, components) => assert_eq!(components, vec![5, 6]),
        _ => panic!("an entity creation was expected"),
    }
    assert!(matches!(
        action_event(ReplicateAction::RemoveComponent(2, 5, 1u8)),
        Event::RemoveComponent(2, 5, 1)
    ));
    assert!(matches!(replay_event(PawnKey::Object(1), 7u8), Event::ReplayCommand(1, 7)));
    assert!(matches!(replay_event(PawnKey::Entity(1), 7u8), Event::ReplayCommandEntity(1, 7)));
    assert!(matches!(command_event(PawnKey::Object(1), 7u8), Event::NewCommand(1, 7)));
    assert!(matches!(command_event(PawnKey::Entity(1), 7u8), Event::NewCommandEntity(1, 7)));
}

struct Move(u8);

impl Replicate for Move {
    fn get_diff_mask_size(&self) -> u8 {
        1
    }

    fn get_type_id(&self) -> u64 {
        500
    }

    fn write(&self, out: &mut Vec<u8>) {
        out.push(self.0);
    }

    fn write_partial(&self, _diff_mask: &DiffMask, out: &mut Vec<u8>) {
        out.push(self.0);
    }
}

#[test]
fn command_goes_out_with_three_past_commands() {
    let mut manifest = Manifest::new();
    assert_eq!(manifest.register(400), Some(0));
    assert_eq!(manifest.register(500), Some(1));
    let history: Vec<(u16, Rc<Move>)> = vec![
        (100, Rc::new(Move(10))),
        (99, Rc::new(Move(11))),
        (97, Rc::new(Move(12))),
        (96, Rc::new(Move(13))),
        (95, Rc::new(Move(14))),
    ];
    let mut writer = PacketWriter::new();
    assert!(!writer.has_bytes());
    assert!(writer.write_command(100, &manifest, &history, &PawnKey::Object(0x0102), &Move(1)));
    assert!(writer.has_bytes());
    assert_eq!(writer.bytes_number(), 13);
    let bytes = writer.get_bytes();
    assert_eq!(
        bytes,
        vec![3, 1, 0, 0x01, 0x02, 0x00, 0x01, 3, 1, 1, 11, 3, 12, 4, 13]
    );
    assert!(!writer.has_bytes());
}

#[test]
fn command_for_entity_and_short_history() {
    let mut manifest = Manifest::new();
    manifest.register(500);
    let history: Vec<(u16, Rc<Move>)> = vec![(65535, Rc::new(Move(10))), (400, Rc::new(Move(11)))];
    let mut writer = PacketWriter::new();
    assert!(writer.write_command(1, &manifest, &history, &PawnKey::Entity(7), &Move(1)));
    assert_eq!(writer.get_bytes(), vec![3, 1, 255, 0, 7, 0, 0, 1, 1, 2, 10]);
}

#[test]
fn commands_stop_at_the_packet_limit() {
    let mut manifest = Manifest::new();
    manifest.register(500);
    let history: Vec<(u16, Rc<Move>)> = vec![];
    let mut writer = PacketWriter::new();
    let mut written = 0;
    while writer.write_command(1, &manifest, &history, &PawnKey::Object(1), &Move(1)) {
        written += 1;
    }
    // Seven bytes each, two for the section header: 7 * n + 2 < 508.
    assert_eq!(written, 72);
    assert_eq!(writer.bytes_number(), 504);
    assert_eq!(writer.get_bytes().len(), 506);
}

#[test]
fn messages_follow_commands_in_the_payload() {
    let mut manifest = Manifest::new();
    manifest.register(500);
    let mut writer = PacketWriter::new();
    assert!(writer.write_message(&manifest, &Move(8)));
    assert!(writer.write_command(1, &manifest, &vec![], &PawnKey::Object(1), &Move(1)));
    assert_eq!(
        writer.get_bytes(),
        vec![3, 1, 0, 0, 1, 0, 0, 0, 1, 1, 1, 0, 0, 8]
    );
    assert!(writer.get_bytes().is_empty());
}

#[test]
fn default_config_and_interpolation() {
    let config = ClientConfig::default();
    assert_eq!(config.heartbeat_interval, 4000);
    assert_eq!(config.disconnection_timeout_duration, 10000);
    assert_eq!(config.send_handshake_interval, 1000);
    assert_eq!(config.tick_interval, 50);
    let mut client = connected_client(1000);
    assert_eq!(client.get_interpolation(1010), (10, 16));
    assert!(client.frame_begin(1020));
    assert_eq!(client.get_interpolation(1020), (4, 16));
}

#[test]
fn tick_crosses_the_wrap_frame_by_frame() {
    let mut client = connected_client(1000);
    let mut seen = Vec::new();
    for now in [1016u64, 1032, 1048, 1064] {
        assert!(client.frame_begin(now));
        seen.push(client.get_client_tick());
    }
    assert_eq!(seen, vec![0xFFFF, 0x0000, 0x0001, 0x0002]);
    assert!(!client.frame_begin(1070));
    assert_eq!(client.get_client_tick(), 0x0002);
}

#[test]
fn disconnect_gives_up_the_connection() {
    let mut client = connected_client(0);
    client.disconnect();
    assert!(!client.has_connection());
    assert_eq!(client.connection_state(), ConnectionState::AwaitingChallengeResponse);
    let request = client.handshake_packet(5000, Timestamp::from_millis(9)).unwrap();
    assert_eq!(request, vec![0, 0, 0, 0, 0, 0, 0, 0, 0, 0, 0, 0, 9]);
}

#[test]
fn connect_request_ends_with_the_type_and_payload_of_the_auth() {
    let mut manifest = Manifest::new();
    for type_id in 0..5 {
        manifest.register(type_id);
    }
    assert_eq!(manifest.register(500), Some(5));
    let auth = Move(9);
    let mut client = Client::with_auth(config(), &manifest, Some(&auth));
    let challenge = client.handshake_packet(0, stamp()).unwrap();
    let _ = client.receive_packet(&challenge_response(1, &stamp_bytes(), 0x11), 1);
    let connect = client.handshake_packet(300, stamp()).unwrap();
    assert_eq!(connect.len(), 1 + 12 + 32 + 3);
    assert_eq!(&connect[1..13], &challenge[1..13]);
    assert_eq!(&connect[13..45], &[0x11; 32]);
    assert_eq!(&connect[45..], &[0x00, 0x05, 9]);

    let mut silent = Client::with_auth::<Move>(config(), &manifest, None);
    let _ = silent.handshake_packet(0, stamp());
    let _ = silent.receive_packet(&challenge_response(1, &stamp_bytes(), 0x11), 1);
    let connect = silent.handshake_packet(300, stamp()).unwrap();
    assert_eq!(connect.len(), 1 + 12 + 32);
}
