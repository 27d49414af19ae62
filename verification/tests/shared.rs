use naia_core::shared::diff_mask::DiffMask;
use naia_core::shared::key_generator::KeyGenerator;
use naia_core::shared::manager_type::{append_bytes, fits, ManagerType};
use naia_core::shared::manifest::Manifest;
use naia_core::shared::message_packet_writer::MessagePacketWriter;
use naia_core::shared::packet_type::PacketType;
use naia_core::shared::replicate::Replicate;
use naia_core::shared::standard_header::{
    read_connectionless_payload, tail_from, write_connectionless_payload, write_payload,
    StandardHeader,
};
use naia_core::shared::timer::{Liveness, Timer};
use naia_core::shared::timestamp::Timestamp;
use naia_core::shared::types::{HostType, MTU_SIZE};
use naia_core::shared::wrapping::{sequence_greater_than, sequence_less_than};

fn mask_of(bytes: &[u8]) -> DiffMask {
    let mut mask = DiffMask::new(bytes.len() as u8);
    for (at, byte) in bytes.iter().enumerate() {
        for bit in 0..8 {
            if byte & (1 << bit) != 0 {
                mask.set_bit((at * 8 + bit) as u8, true);
            }
        }
    }
    mask
}

fn bytes_of(mask: &DiffMask) -> Vec<u8> {
    (0..mask.byte_number() as usize).map(|i| mask.byte(i)).collect()
}

#[test]
fn diff_mask_bits() {
    let mut mask = DiffMask::new(2);
    assert_eq!(mask.byte_number(), 2);
    assert!(mask.is_clear());
    assert_eq!(mask.bit(0), Some(false));
    assert_eq!(mask.bit(15), Some(false));
    assert_eq!(mask.bit(16), None);
    mask.set_bit(0, true);
    mask.set_bit(9, true);
    mask.set_bit(200, true);
    assert_eq!(bytes_of(&mask), vec![0b0000_0001, 0b0000_0010]);
    assert_eq!(mask.bit(9), Some(true));
    assert!(!mask.is_clear());
    mask.set_bit(0, false);
    assert_eq!(bytes_of(&mask), vec![0, 0b0000_0010]);
    mask.clear();
    assert!(mask.is_clear());
    assert_eq!(mask.byte_number(), 2);
    assert!(DiffMask::new(0).is_clear());
}

#[test]
fn diff_mask_or_nand_copy() {
    let mut mask = mask_of(&[0b0101, 0b1000_0000]);
    mask.or(&mask_of(&[0b0011, 0b0000_0001]));
    assert_eq!(bytes_of(&mask), vec![0b0111, 0b1000_0001]);
    mask.nand(&mask_of(&[0b0110, 0b1000_0000]));
    assert_eq!(bytes_of(&mask), vec![0b0001, 0b0000_0001]);
    mask.or(&mask_of(&[0xFF]));
    mask.nand(&mask_of(&[0xFF, 0xFF, 0xFF]));
    assert_eq!(bytes_of(&mask), vec![0b0001, 0b0000_0001]);
    mask.copy_contents(&mask_of(&[7, 8]));
    assert_eq!(bytes_of(&mask), vec![7, 8]);
    mask.copy_contents(&mask_of(&[1]));
    assert_eq!(bytes_of(&mask), vec![7, 8]);
    let copy = mask.clone();
    assert_eq!(bytes_of(&copy), vec![7, 8]);
}

#[test]
fn diff_mask_wire_form_leaves_out_trailing_zero_bytes() {
    let mut out = vec![9u8];
    mask_of(&[5, 0, 0]).write(&mut out);
    assert_eq!(out, vec![9, 1, 5]);
    let mut out = Vec::new();
    mask_of(&[0, 0]).write(&mut out);
    assert_eq!(out, vec![0]);
    let mut out = Vec::new();
    mask_of(&[0, 3, 0, 4]).write(&mut out);
    assert_eq!(out, vec![4, 0, 3, 0, 4]);
    let mut out = Vec::new();
    DiffMask::new(0).write(&mut out);
    assert_eq!(out, vec![0]);
}

#[test]
fn diff_mask_round_trip_with_zero_extension() {
    for bytes in [vec![], vec![0], vec![5, 0, 0], vec![0, 0, 9], vec![1, 2, 3], vec![0xFF; 32]] {
        let mask = mask_of(&bytes);
        let mut out = vec![42u8];
        mask.write(&mut out);
        out.push(77);
        let (mut read, next) = DiffMask::read(&out, 1).unwrap();
        assert_eq!(next, out.len() - 1);
        read.extend_to(mask.byte_number());
        assert_eq!(bytes_of(&read), bytes);
    }
}

#[test]
fn diff_mask_read_rejects_truncated_input() {
    assert!(DiffMask::read(&vec![], 0).is_none());
    assert!(DiffMask::read(&vec![2, 1], 0).is_none());
    assert!(DiffMask::read(&vec![2, 1, 1], 3).is_none());
    assert!(DiffMask::read(&vec![2, 1, 1], 9).is_none());
    let (mask, next) = DiffMask::read(&vec![2, 1, 1], 0).unwrap();
    assert_eq!((bytes_of(&mask), next), (vec![1, 1], 3));
    let mut longer = mask;
    longer.extend_to(1);
    assert_eq!(bytes_of(&longer), vec![1, 1]);
}

#[test]
fn key_generator_recycles_oldest_first() {
    let mut keys = KeyGenerator::new();
    assert_eq!(keys.peek(), 0);
    assert_eq!(keys.generate(), 0);
    assert_eq!(keys.generate(), 1);
    assert_eq!(keys.generate(), 2);
    keys.recycle_key(&1);
    keys.recycle_key(&0);
    assert_eq!(keys.peek(), 1);
    assert_eq!(keys.generate(), 1);
    assert_eq!(keys.generate(), 0);
    assert_eq!(keys.generate(), 3);
}

#[test]
fn key_generator_wraps() {
    let mut keys = KeyGenerator::new();
    for expected in 0..=u16::MAX {
        assert_eq!(keys.generate(), expected);
    }
    assert_eq!(keys.generate(), 0);
}

#[test]
fn manifest_gives_stable_identifiers() {
    let mut manifest = Manifest::new();
    assert_eq!(manifest.get_naia_id(&10), None);
    assert_eq!(manifest.register(10), Some(0));
    assert_eq!(manifest.register(20), Some(1));
    assert_eq!(manifest.register(10), Some(0));
    assert_eq!(manifest.get_naia_id(&20), Some(1));
    assert_eq!(manifest.get_naia_id(&30), None);
}

#[test]
fn header_round_trip() {
    let header = StandardHeader::new(PacketType::Data, 0x0102, 0x0304, 0xFFFF);
    assert_eq!(StandardHeader::bytes_number(), 7);
    let packet = write_payload(&header, &vec![9, 9]);
    assert_eq!(packet, vec![4, 1, 2, 3, 4, 0xFF, 0xFF, 9, 9]);
    let (read, payload) = StandardHeader::read(&packet).unwrap();
    assert_eq!(read, header);
    assert_eq!(read.packet_type(), PacketType::Data);
    assert_eq!(read.host_tick(), 0x0102);
    assert_eq!(read.last_received_tick(), 0x0304);
    assert_eq!(read.local_packet_index(), 0xFFFF);
    assert_eq!(payload, vec![9, 9]);
}

#[test]
fn header_rejects_short_and_unknown_packets() {
    assert!(StandardHeader::read(&vec![4, 0, 0, 0, 0, 0]).is_none());
    assert!(StandardHeader::read(&vec![9, 0, 0, 0, 0, 0, 0]).is_none());
    assert!(StandardHeader::read(&vec![]).is_none());
    assert!(read_connectionless_payload(&vec![]).is_none());
    assert!(read_connectionless_payload(&vec![77, 1]).is_none());
}

#[test]
fn connectionless_packets_carry_only_their_kind() {
    let packet = write_connectionless_payload(PacketType::ClientConnectRequest, &vec![1, 2]);
    assert_eq!(packet, vec![2, 1, 2]);
    let (kind, payload) = read_connectionless_payload(&packet).unwrap();
    assert_eq!(kind, PacketType::ClientConnectRequest);
    assert_eq!(payload, vec![1, 2]);
    assert_eq!(tail_from(&packet, 3), Vec::<u8>::new());
}

#[test]
fn packet_types_have_their_codes() {
    let kinds = [
        PacketType::ClientChallengeRequest,
        PacketType::ServerChallengeResponse,
        PacketType::ClientConnectRequest,
        PacketType::ServerConnectResponse,
        PacketType::Data,
        PacketType::Heartbeat,
        PacketType::Disconnect,
        PacketType::Ping,
        PacketType::Pong,
    ];
    for (code, kind) in kinds.iter().enumerate() {
        assert_eq!(kind.to_u8(), code as u8);
        assert_eq!(PacketType::from_u8(code as u8), Some(*kind));
        assert_eq!(kind.handshake(), code <= 3);
    }
    assert_eq!(PacketType::from_u8(9), None);
    assert_eq!(ManagerType::Message.to_u8(), 1);
    assert_eq!(ManagerType::Replicate.to_u8(), 2);
    assert_eq!(ManagerType::Command.to_u8(), 3);
    assert_eq!(ManagerType::from_u8(2), Some(ManagerType::Replicate));
    assert_eq!(ManagerType::from_u8(0), None);
    assert_eq!(ManagerType::from_u8(4), None);
    assert_ne!(HostType::Server, HostType::Client);
}

#[test]
fn timestamp_round_trip() {
    let timestamp = Timestamp::from_millis(0x0102_0304_0506_0708);
    let mut out = vec![0xEE];
    timestamp.write(&mut out);
    assert_eq!(out, vec![0xEE, 0, 0, 0, 0, 1, 2, 3, 4, 5, 6, 7, 8]);
    assert_eq!(Timestamp::read(&out, 1), Some(timestamp));
    assert_eq!(Timestamp::read(&out, 2), None);
    assert_eq!(Timestamp::read(&out, 100), None);
    assert_ne!(Timestamp::read(&out, 0), Some(timestamp));
}

#[test]
fn timer_rings_after_its_duration() {
    let mut timer = Timer::new(50, 100);
    assert!(!timer.ringing(100));
    assert!(!timer.ringing(149));
    assert!(timer.ringing(150));
    assert!(!timer.ringing(10));
    timer.reset(150);
    assert!(!timer.ringing(199));
    timer.ring_manual();
    assert!(timer.ringing(0));
    let mut liveness = Liveness::new(50, 500, 0);
    assert!(liveness.should_send_heartbeat(50));
    liveness.mark_sent(50);
    assert!(!liveness.should_send_heartbeat(99));
    assert!(liveness.should_drop(500));
    liveness.mark_heard(400);
    assert!(!liveness.should_drop(899));
    assert!(liveness.should_drop(900));
}

#[test]
fn sequence_order_wraps() {
    assert!(sequence_greater_than(1, 0));
    assert!(sequence_greater_than(0, 65535));
    assert!(sequence_less_than(65535, 0));
    assert!(!sequence_greater_than(5, 5));
    assert!(!sequence_less_than(5, 5));
}

#[test]
fn room_in_a_packet() {
    assert_eq!(MTU_SIZE, 508);
    assert!(fits(0, 505, 0));
    assert!(fits(0, 506, 0));
    assert!(!fits(0, 507, 0));
    assert!(fits(0, 508, 1));
    assert!(!fits(0, 509, 1));
    assert!(fits(100, 408, 1));
    assert!(!fits(100, 409, 1));
    assert!(fits(508, 0, 1));
    assert!(!fits(509, 0, 1));
    assert!(fits(0, 1, 254));
    assert!(!fits(0, 1, 255));
    assert!(!fits(usize::MAX, usize::MAX, 1));
    let mut out = vec![1u8];
    append_bytes(&mut out, &vec![2, 3]);
    assert_eq!(out, vec![1, 2, 3]);
}

struct Note(u8);

impl Replicate for Note {
    fn get_diff_mask_size(&self) -> u8 {
        1
    }

    fn get_type_id(&self) -> u64 {
        20
    }

    fn write(&self, out: &mut Vec<u8>) {
        out.push(self.0);
    }

    fn write_partial(&self, _diff_mask: &DiffMask, out: &mut Vec<u8>) {
        out.push(self.0);
    }
}

#[test]
fn message_writer_gathers_messages() {
    let mut manifest = Manifest::new();
    manifest.register(10);
    manifest.register(20);
    let mut writer = MessagePacketWriter::new();
    assert!(!writer.has_bytes());
    assert!(writer.write_message(&manifest, &Note(5)));
    assert!(writer.write_message(&manifest, &Note(6)));
    assert!(writer.has_bytes());
    assert_eq!(writer.bytes_number(), 6);
    let mut out = vec![0xAA];
    writer.get_bytes(&mut out);
    assert_eq!(out, vec![0xAA, 1, 2, 0, 1, 5, 0, 1, 6]);
    assert!(!writer.has_bytes());
    writer.get_bytes(&mut out);
    assert_eq!(out.len(), 9);
}

#[test]
fn message_writer_stops_at_the_limits() {
    let mut manifest = Manifest::new();
    manifest.register(20);
    let mut writer = MessagePacketWriter::new();
    let mut written = 0;
    while writer.write_message(&manifest, &Note(1)) {
        written += 1;
    }
    // Three bytes each: 3 * n <= 508, the header counts with the first only.
    assert_eq!(written, 169);
    let mut writer = MessagePacketWriter::new();
    for _ in 0..255 {
        assert!(writer.write_bytes(0, &vec![1]));
    }
    assert!(!writer.write_bytes(0, &vec![1]));
    assert!(!MessagePacketWriter::new().write_bytes(500, &vec![1; 7]));
    assert!(MessagePacketWriter::new().write_bytes(500, &vec![1; 6]));
}

#[test]
fn key_generator_counts_what_is_left() {
    let mut keys = KeyGenerator::new();
    assert!(keys.has_keys(65535));
    assert!(!keys.has_keys(65536));
    assert_eq!(keys.generate(), 0);
    assert_eq!(keys.generate(), 1);
    assert!(keys.has_keys(65533));
    assert!(!keys.has_keys(65534));
    keys.recycle_key(&0);
    assert!(keys.has_keys(65534));
    assert!(!keys.has_keys(65535));
}

#[test]
fn a_message_is_formed_as_type_and_payload() {
    struct Note(u8);
    impl naia_core::shared::replicate::Replicate for Note {
        fn get_diff_mask_size(&self) -> u8 {
            1
        }
        fn get_type_id(&self) -> u64 {
            20
        }
        fn write(&self, out: &mut Vec<u8>) {
            out.push(self.0);
        }
        fn write_partial(&self, _diff_mask: &naia_core::shared::diff_mask::DiffMask, out: &mut Vec<u8>) {
            out.push(self.0);
        }
    }
    let mut manifest = Manifest::new();
    manifest.register(10);
    manifest.register(20);
    assert_eq!(
        naia_core::shared::message_packet_writer::encode_message(&manifest, &Note(7)),
        vec![0, 1, 7]
    );
}
