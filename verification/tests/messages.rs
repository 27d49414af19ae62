use naia_core::shared::message_channel::{
    ChannelReader, ChannelReceiver, ChannelSender, ChannelWriter,
};
use naia_core::shared::messages::ordered_reliable_receiver::{OrderedReliableReceiver, Reorder};
use naia_core::shared::messages::reliable_sender::ReliableSender;
use naia_core::shared::messages::sequenced_reliable_receiver::SequencedReliableReceiver;
use naia_core::shared::messages::sequenced_unreliable_receiver::SequencedUnreliableReceiver;
use naia_core::shared::messages::sequenced_unreliable_sender::SequencedUnreliableSender;
use naia_core::shared::messages::unordered_reliable_receiver::UnorderedReliableReceiver;
use naia_core::shared::messages::unordered_unreliable_receiver::UnorderedUnreliableReceiver;
use naia_core::shared::messages::unordered_unreliable_sender::UnorderedUnreliableSender;
use naia_core::wire::bit_reader::BitReader;
use naia_core::wire::bit_writer::BitWriter;
use naia_core::wire::error::SerdeErr;

struct Bytes;

impl ChannelWriter<u8> for Bytes {
    fn write(&self, writer: &mut BitWriter, data: &u8) {
        writer.write_byte(*data);
    }
}

impl ChannelReader<u8> for Bytes {
    fn read(&self, reader: &mut BitReader) -> Result<u8, SerdeErr> {
        reader.read_byte()
    }
}

struct Stuck;

impl ChannelReader<u8> for Stuck {
    fn read(&self, _reader: &mut BitReader) -> Result<u8, SerdeErr> {
        Err(SerdeErr)
    }
}

fn packet<S: ChannelSender<u8>>(sender: &mut S) -> (Vec<u8>, Option<Vec<u16>>) {
    let mut writer = BitWriter::new();
    let written = sender.write_messages(&Bytes, &mut writer);
    (writer.flush().1, written)
}

fn deliver<R: ChannelReceiver<u8>>(receiver: &mut R, bytes: &[u8]) -> Result<(), SerdeErr> {
    let mut reader = BitReader::new(bytes);
    receiver.read_messages(&Bytes, &mut reader)
}

#[test]
fn unordered_unreliable_sends_and_forgets() {
    let mut sender = UnorderedUnreliableSender::new();
    assert!(!sender.has_messages());
    sender.send_message(10u8);
    sender.send_message(20);
    sender.collect_messages(0, 100);
    assert!(sender.has_messages());
    let (bytes, written) = packet(&mut sender);
    assert_eq!(written, None);
    assert!(!sender.has_messages());
    // A set bit and 10, a set bit and 20, a clear bit.
    assert_eq!(bytes, vec![0b0001_0101, 0b0101_0010, 0]);

    let mut receiver = UnorderedUnreliableReceiver::new();
    assert!(deliver(&mut receiver, &bytes).is_ok());
    assert!(deliver(&mut receiver, &bytes).is_ok());
    assert_eq!(receiver.receive_messages(), vec![10, 20, 10, 20]);
    assert!(receiver.receive_messages().is_empty());
    sender.notify_message_delivered(&0);
    let (empty, _) = packet(&mut sender);
    assert_eq!(empty, vec![0]);
}

#[test]
fn truncated_packet_keeps_what_was_read() {
    let mut sender = UnorderedUnreliableSender::new();
    sender.send_message(10u8);
    sender.send_message(20);
    let (bytes, _) = packet(&mut sender);
    let mut receiver = UnorderedUnreliableReceiver::new();
    assert!(deliver(&mut receiver, &bytes[..2]).is_err());
    assert_eq!(receiver.receive_messages(), vec![10]);
    let mut reader = BitReader::new(&bytes);
    assert!(receiver.read_messages(&Stuck, &mut reader).is_err());
    assert!(receiver.receive_messages().is_empty());
    receiver.buffer_message(7);
    assert_eq!(receiver.receive_messages(), vec![7]);
}

#[test]
fn sequenced_receiver_drops_what_comes_late() {
    let mut receiver = SequencedUnreliableReceiver::new();
    receiver.buffer_message(5, 1u8);
    receiver.buffer_message(3, 2);
    receiver.buffer_message(5, 3);
    receiver.buffer_message(6, 4);
    assert_eq!(receiver.receive_messages(), vec![1, 4]);
    receiver.buffer_message(65535, 5);
    assert!(receiver.receive_messages().is_empty());

    let mut wrapping = SequencedUnreliableReceiver::new();
    wrapping.buffer_message(65535, 5u8);
    wrapping.buffer_message(0, 6);
    wrapping.buffer_message(65535, 7);
    assert_eq!(wrapping.receive_messages(), vec![5, 6]);

    let mut reliable = SequencedReliableReceiver::new();
    reliable.buffer_message(2, 1u8);
    reliable.buffer_message(1, 2);
    reliable.buffer_message(3, 3);
    assert_eq!(reliable.receive_messages(), vec![1, 3]);
}

#[test]
fn sequenced_channel_round_trip() {
    let mut sender = SequencedUnreliableSender::new();
    sender.send_message(10u8);
    sender.send_message(20);
    assert!(sender.has_messages());
    let (first, written) = packet(&mut sender);
    assert_eq!(written, None);
    // A set bit, the identifier 0 in sixteen bits, and 10; then the same
    // with the identifier 1 and 20; then a clear bit.
    assert_eq!(first.len(), 7);
    sender.send_message(30);
    let (second, _) = packet(&mut sender);

    let mut receiver = SequencedUnreliableReceiver::new();
    assert!(deliver(&mut receiver, &second).is_ok());
    assert!(deliver(&mut receiver, &first).is_ok());
    assert_eq!(receiver.receive_messages(), vec![30]);

    let mut in_order = SequencedReliableReceiver::new();
    assert!(deliver(&mut in_order, &first).is_ok());
    assert!(deliver(&mut in_order, &second).is_ok());
    assert!(deliver(&mut in_order, &first).is_ok());
    assert_eq!(in_order.receive_messages(), vec![10, 20, 30]);
}

#[test]
fn ordered_receiver_waits_for_the_gap_to_close() {
    let mut receiver = OrderedReliableReceiver::new();
    receiver.buffer_message(2, 12u8);
    receiver.buffer_message(1, 11);
    receiver.buffer_message(1, 99);
    assert!(receiver.receive_messages().is_empty());
    receiver.buffer_message(0, 10);
    assert_eq!(receiver.receive_messages(), vec![10, 11, 12]);
    receiver.buffer_message(1, 98);
    receiver.buffer_message(4, 14);
    receiver.buffer_message(3, 13);
    assert_eq!(receiver.receive_messages(), vec![13, 14]);
    receiver.buffer_message(40000, 1);
    assert!(receiver.receive_messages().is_empty());
}

#[test]
fn reorder_buffer_releases_in_turn() {
    let mut buffer = Reorder::new();
    assert_eq!(buffer.accept(1, 'b'), Some(vec![]));
    assert_eq!(buffer.accept(1, 'x'), None);
    assert_eq!(buffer.accept(0, 'a'), Some(vec!['a', 'b']));
    assert_eq!(buffer.next_expected(), 2);
    assert_eq!(buffer.accept(0, 'y'), None);
    assert_eq!(buffer.accept(2, 'c'), Some(vec!['c']));
}

#[test]
fn unordered_reliable_receiver_hands_on_each_message_once() {
    let mut receiver = UnorderedReliableReceiver::new();
    receiver.buffer_message(1, 11u8);
    receiver.buffer_message(0, 10);
    receiver.buffer_message(1, 11);
    receiver.buffer_message(0, 10);
    receiver.buffer_message(3, 13);
    receiver.buffer_message(3, 13);
    assert_eq!(receiver.receive_messages(), vec![11, 10, 13]);
    receiver.buffer_message(2, 12);
    receiver.buffer_message(2, 12);
    receiver.buffer_message(3, 13);
    assert_eq!(receiver.receive_messages(), vec![12]);
}

#[test]
fn reliable_sender_sends_until_it_hears_of_the_arrival() {
    let mut sender = ReliableSender::new();
    sender.send_message(10u8);
    sender.send_message(20);
    assert!(!sender.has_messages());
    sender.collect_messages(0, 100);
    assert!(sender.has_messages());
    let (first, written) = packet(&mut sender);
    assert_eq!(written, Some(vec![0, 1]));
    assert!(!sender.has_messages());

    // The first wait is one and a half round trips.
    sender.collect_messages(149, 100);
    assert!(!sender.has_messages());
    sender.collect_messages(150, 100);
    let (second, written) = packet(&mut sender);
    assert_eq!(written, Some(vec![0, 1]));
    assert_eq!(first, second);

    // The second wait is twice as long.
    sender.notify_message_delivered(&0);
    sender.collect_messages(449, 100);
    assert!(!sender.has_messages());
    sender.collect_messages(450, 100);
    let (_, written) = packet(&mut sender);
    assert_eq!(written, Some(vec![1]));

    sender.notify_message_delivered(&1);
    sender.notify_message_delivered(&1);
    sender.collect_messages(100000, 100);
    assert!(!sender.has_messages());

    let mut receiver = UnorderedReliableReceiver::new();
    assert!(deliver(&mut receiver, &first).is_ok());
    assert!(deliver(&mut receiver, &second).is_ok());
    assert_eq!(receiver.receive_messages(), vec![10, 20]);
}

#[test]
fn a_message_that_arrives_between_gathering_and_writing_is_left_out() {
    let mut sender = ReliableSender::new();
    sender.send_message(10u8);
    sender.send_message(20);
    sender.collect_messages(0, 0);
    sender.collect_messages(0, 0);
    sender.notify_message_delivered(&0);
    let (_, written) = packet(&mut sender);
    assert_eq!(written, Some(vec![1]));
}

#[test]
fn an_empty_packet_is_no_list_of_messages() {
    let mut plain = UnorderedUnreliableReceiver::new();
    assert!(deliver(&mut plain, &[]).is_err());
    assert!(plain.receive_messages().is_empty());
    let mut sequenced = SequencedUnreliableReceiver::new();
    assert!(deliver(&mut sequenced, &[]).is_err());
    assert!(sequenced.receive_messages().is_empty());
    let mut ordered = OrderedReliableReceiver::new();
    assert!(deliver(&mut ordered, &[]).is_err());
    assert!(ordered.receive_messages().is_empty());
    let mut unordered = UnorderedReliableReceiver::new();
    assert!(deliver(&mut unordered, &[]).is_err());
    assert!(unordered.receive_messages().is_empty());
    let mut reliable = SequencedReliableReceiver::new();
    assert!(deliver(&mut reliable, &[]).is_err());
    assert!(reliable.receive_messages().is_empty());
}

#[test]
fn a_clear_mark_ends_the_list_and_takes_one_bit() {
    let bytes = [0b0000_0000u8, 0xff];
    let mut plain = UnorderedUnreliableReceiver::new();
    let mut reader = BitReader::new(&bytes);
    assert!(plain.read_messages(&Bytes, &mut reader).is_ok());
    assert_eq!(reader.bits_left(), 15);
    assert!(plain.receive_messages().is_empty());

    let mut ordered = OrderedReliableReceiver::new();
    let mut reader = BitReader::new(&bytes);
    assert!(ordered.read_messages(&Bytes, &mut reader).is_ok());
    assert_eq!(reader.bits_left(), 15);
    assert!(ordered.receive_messages().is_empty());

    // A reader that reads no message is not asked where no message follows.
    let mut sequenced = SequencedUnreliableReceiver::new();
    let mut reader = BitReader::new(&bytes);
    assert!(sequenced.read_messages(&Stuck, &mut reader).is_ok());
    assert_eq!(reader.bits_left(), 15);
}

#[test]
fn a_short_identifier_breaks_the_list_off() {
    // A set mark, and then fifteen bits where sixteen are called for.
    let bytes = [0b0000_0001u8, 0];
    let mut sequenced = SequencedUnreliableReceiver::new();
    assert!(deliver(&mut sequenced, &bytes).is_err());
    assert!(sequenced.receive_messages().is_empty());
    let mut ordered = OrderedReliableReceiver::new();
    assert!(deliver(&mut ordered, &bytes).is_err());
    assert!(ordered.receive_messages().is_empty());
    let mut unordered = UnorderedReliableReceiver::new();
    assert!(deliver(&mut unordered, &bytes).is_err());
    assert!(unordered.receive_messages().is_empty());
}

#[test]
fn a_message_that_cannot_be_read_breaks_the_list_off() {
    let mut sender = SequencedUnreliableSender::new();
    sender.send_message(10u8);
    let (bytes, _) = packet(&mut sender);
    let mut sequenced = SequencedUnreliableReceiver::new();
    let mut reader = BitReader::new(&bytes);
    assert!(sequenced.read_messages(&Stuck, &mut reader).is_err());
    assert!(sequenced.receive_messages().is_empty());
}

#[test]
fn reliable_sender_writes_mark_identifier_and_message() {
    let mut sender = ReliableSender::new();
    sender.send_message(10u8);
    sender.collect_messages(0, 100);
    let (bytes, written) = packet(&mut sender);
    assert_eq!(written, Some(vec![0]));
    // A set bit, sixteen clear bits for the identifier 0, the eight bits of
    // 10 from the least significant, and a clear bit.
    assert_eq!(bytes, vec![0b0000_0001, 0, 0b0001_0100, 0]);

    let mut none = ReliableSender::<u8>::new();
    let (bytes, written) = packet(&mut none);
    assert_eq!(written, Some(vec![]));
    assert_eq!(bytes, vec![0]);
}

#[test]
fn sequenced_sender_writes_mark_identifier_and_message() {
    let mut sender = SequencedUnreliableSender::new();
    sender.send_message(10u8);
    sender.send_message(0xff);
    let (bytes, _) = packet(&mut sender);
    // The second message has the identifier 1.
    assert_eq!(
        bytes,
        vec![0b0000_0001, 0, 0b0001_0100, 0b0000_0110, 0, 0b1111_1100, 0b0000_0011]
    );
}
