use naia_core::protocol::entity_handle::EntityHandle;
use naia_core::protocol::entity_property::{
    EntityHandleConverter, EntityProperty, FakeEntityConverter, NetEntityHandleConverter,
    VecDequeEntityProperty,
};
use naia_core::protocol::net_entity::NetEntity;
use naia_core::protocol::property::Property;
use naia_core::protocol::property_mutate::PropertyMutator;
use naia_core::wire::bit_reader::BitReader;
use naia_core::wire::bit_writer::BitWriter;
use naia_core::wire::serde::Serde;
use std::collections::VecDeque;

struct Offset(u64);

impl EntityHandleConverter<u32> for Offset {
    fn handle_to_entity(&self, entity_handle: &EntityHandle) -> u32 {
        (entity_handle.to_u64() - self.0) as u32
    }

    fn entity_to_handle(&self, entity: &u32) -> EntityHandle {
        EntityHandle::from_u64(*entity as u64 + self.0)
    }
}

struct Wire;

impl NetEntityHandleConverter for Wire {
    fn handle_to_net_entity(&self, entity_handle: &EntityHandle) -> NetEntity {
        NetEntity::from_u16((entity_handle.to_u64() + 1) as u16)
    }

    fn net_entity_to_handle(&self, net_entity: &NetEntity) -> EntityHandle {
        EntityHandle::from_u64(net_entity.to_u16() as u64 - 1)
    }
}

fn flushed(writer: &mut BitWriter) -> Vec<u8> {
    writer.flush().1
}

#[test]
fn entity_handle_is_its_number() {
    assert_eq!(EntityHandle::from_u64(9).to_u64(), 9);
    assert_eq!(EntityHandle::default().to_u64(), 0);
    assert_eq!(NetEntity::from_u16(4).to_u16(), 4);
}

#[test]
fn property_round_trip() {
    let property = Property::new(0xBEEFu16, 3);
    let mut writer = BitWriter::new();
    property.write(&mut writer);
    let bytes = flushed(&mut writer);
    assert_eq!(bytes, vec![0xEF, 0xBE]);
    let mut reader = BitReader::new(&bytes);
    let read = Property::<u16>::new_read(&mut reader, 3).unwrap();
    assert_eq!(*read.get(), 0xBEEF);
    assert!(read.equals(&property));
    let mut reader = BitReader::new(&bytes[..1]);
    assert!(Property::<u16>::new_read(&mut reader, 3).is_err());
}

#[test]
fn property_set_tells_the_mutator() {
    let mut property = Property::new(1u8, 5);
    property.set(2);
    assert!(property.take_marks().is_empty());
    property.set_mutator(&PropertyMutator::new());
    property.set(3);
    let other = Property::new(9u8, 0);
    property.mirror(&other);
    assert_eq!(*property.get(), 9);
    assert_eq!(property.take_marks(), vec![5, 5]);
    assert!(property.take_marks().is_empty());
}

#[test]
fn property_read_does_not_tell_the_mutator() {
    let mut property = Property::new(1u8, 5);
    property.set_mutator(&PropertyMutator::new());
    let bytes = vec![77u8];
    let mut reader = BitReader::new(&bytes);
    assert!(property.read(&mut reader).is_ok());
    assert_eq!(*property.get(), 77);
    assert!(property.take_marks().is_empty());
    assert!(property.read(&mut reader).is_err());
    assert_eq!(*property.get(), 77);
}

#[test]
fn property_read_write_copies_the_value() {
    let bytes = vec![0x12u8, 0x34];
    let mut reader = BitReader::new(&bytes);
    let mut writer = BitWriter::new();
    assert!(Property::<u16>::read_write(&mut reader, &mut writer).is_ok());
    assert_eq!(flushed(&mut writer), bytes);
    assert!(Property::<u16>::read_write(&mut reader, &mut writer).is_err());
}

#[test]
fn property_mutator_keeps_notes_in_order() {
    let mut mutator = PropertyMutator::new();
    mutator.mutate(3);
    mutator.mutate(1);
    let copy = mutator.clone();
    let mut fresh = mutator.clone_new();
    assert!(fresh.take_marks().is_empty());
    assert_eq!(mutator.take_marks(), vec![3, 1]);
    assert!(mutator.take_marks().is_empty());
    let mut copy = copy;
    assert_eq!(copy.take_marks(), vec![3, 1]);
}

#[test]
fn entity_property_get_and_set() {
    let handler = Offset(100);
    let mut property = EntityProperty::new(2);
    assert_eq!(property.handle(), None);
    assert_eq!(property.get(&handler), None);
    assert!(property.entities().is_empty());
    property.set(&handler, &5);
    assert_eq!(property.handle(), Some(EntityHandle::from_u64(105)));
    assert_eq!(property.get(&handler), Some(5));
    assert_eq!(property.entities(), vec![EntityHandle::from_u64(105)]);
    let mut other = EntityProperty::default();
    assert!(!other.equals(&property));
    other.mirror(&property);
    assert!(other.equals(&property));
    assert!(EntityProperty::new(0).equals(&EntityProperty::new(9)));
}

#[test]
fn entity_property_round_trip() {
    let handler = Offset(100);
    let mut property = EntityProperty::new(2);
    property.set(&handler, &5);
    let mut writer = BitWriter::new();
    property.write(&mut writer, &Wire);
    EntityProperty::new(0).write(&mut writer, &Wire);
    let bytes = flushed(&mut writer);
    // One bit for "present", then 106 in sixteen bits; then one bit for
    // "absent".
    assert_eq!(bytes, vec![0xD5, 0x00, 0x00]);
    let mut reader = BitReader::new(&bytes);
    let read = EntityProperty::new_read(&mut reader, 2, &Wire).unwrap();
    assert!(read.equals(&property));
    let read = EntityProperty::new_read(&mut reader, 2, &Wire).unwrap();
    assert_eq!(read.handle(), None);
}

#[test]
fn entity_property_read_tells_the_mutator() {
    let mut writer = BitWriter::new();
    Some(NetEntity::from_u16(8)).ser(&mut writer);
    let bytes = flushed(&mut writer);
    let mut property = EntityProperty::new(4);
    property.set_mutator(&PropertyMutator::new());
    let mut reader = BitReader::new(&bytes);
    assert!(property.read(&mut reader, &Wire).is_ok());
    assert_eq!(property.handle(), Some(EntityHandle::from_u64(7)));
    let empty: Vec<u8> = vec![];
    let mut reader = BitReader::new(&empty);
    assert!(property.read(&mut reader, &Wire).is_err());
    assert_eq!(property.handle(), Some(EntityHandle::from_u64(7)));
}

#[test]
fn entity_property_read_write_copies_the_reference() {
    let mut writer = BitWriter::new();
    Some(NetEntity::from_u16(8)).ser(&mut writer);
    let bytes = flushed(&mut writer);
    let mut reader = BitReader::new(&bytes);
    let mut copy = BitWriter::new();
    assert!(EntityProperty::read_write(&mut reader, &mut copy).is_ok());
    assert_eq!(flushed(&mut copy), bytes);
}

#[test]
fn fake_converter_reads_every_reference_as_zero() {
    let fake = FakeEntityConverter;
    let mut writer = BitWriter::new();
    Some(NetEntity::from_u16(8)).ser(&mut writer);
    let bytes = flushed(&mut writer);
    let mut reader = BitReader::new(&bytes);
    let read = EntityProperty::new_read(&mut reader, 0, &fake).unwrap();
    assert_eq!(read.handle(), Some(EntityHandle::from_u64(0)));
}

fn list_of(handler: &Offset, entities: &[u32]) -> VecDequeEntityProperty {
    let mut list = VecDequeEntityProperty::new(0);
    let entities: VecDeque<u32> = entities.iter().cloned().collect();
    list.set(handler, &entities);
    list
}

#[test]
fn entity_list_get_and_set() {
    let handler = Offset(100);
    let fresh = VecDequeEntityProperty::new(3);
    assert_eq!(fresh.inner().len(), 1);
    assert_eq!(fresh.get(&handler), VecDeque::from(vec![None]));
    let list = list_of(&handler, &[1, 2, 3]);
    assert_eq!(list.get(&handler), VecDeque::from(vec![Some(1), Some(2), Some(3)]));
    assert_eq!(
        list.entities(),
        vec![
            EntityHandle::from_u64(101),
            EntityHandle::from_u64(102),
            EntityHandle::from_u64(103)
        ]
    );
    assert_eq!(list.inner().len(), 3);
}

#[test]
fn entity_list_round_trip() {
    let handler = Offset(100);
    let list = list_of(&handler, &[1, 2, 3]);
    let mut writer = BitWriter::new();
    list.write(&mut writer, &Wire);
    let bytes = flushed(&mut writer);
    let mut reader = BitReader::new(&bytes);
    let read = VecDequeEntityProperty::new_read(&mut reader, 0, &Wire).unwrap();
    assert_eq!(read.get(&handler), list.get(&handler));
    assert!(read.equals(&list));

    let mut reader = BitReader::new(&bytes);
    let mut copy = BitWriter::new();
    assert!(VecDequeEntityProperty::read_write(&mut reader, &mut copy).is_ok());
    assert_eq!(flushed(&mut copy), bytes);

    let mut reader = BitReader::new(&bytes[..2]);
    assert!(VecDequeEntityProperty::new_read(&mut reader, 0, &Wire).is_err());
}

#[test]
fn entity_list_read_needs_the_same_length() {
    let handler = Offset(100);
    let source = list_of(&handler, &[7, 8]);
    let mut writer = BitWriter::new();
    source.write(&mut writer, &Wire);
    let bytes = flushed(&mut writer);

    let mut same_length = list_of(&handler, &[1, 2]);
    let mut reader = BitReader::new(&bytes);
    assert!(same_length.read(&mut reader, &Wire).is_ok());
    assert_eq!(same_length.get(&handler), VecDeque::from(vec![Some(7), Some(8)]));

    let mut other_length = list_of(&handler, &[1, 2, 3]);
    let mut reader = BitReader::new(&bytes);
    assert!(other_length.read(&mut reader, &Wire).is_err());
    assert_eq!(
        other_length.get(&handler),
        VecDeque::from(vec![Some(1), Some(2), Some(3)])
    );
}

#[test]
fn entity_list_mirror_and_equals_go_as_far_as_both_lists() {
    let handler = Offset(100);
    let mut long = list_of(&handler, &[1, 2, 3]);
    let short = list_of(&handler, &[9, 8]);
    assert!(!long.equals(&short));
    long.mirror(&short);
    assert_eq!(long.get(&handler), VecDeque::from(vec![Some(9), Some(8), Some(3)]));
    assert!(long.equals(&short));
    assert!(short.equals(&long));
    let mut marked = list_of(&handler, &[1]);
    marked.set_mutator(&PropertyMutator::new());
    assert_eq!(marked.get(&handler), VecDeque::from(vec![Some(1)]));
}

#[test]
fn empty_entity_list_round_trip() {
    let handler = Offset(100);
    let list = list_of(&handler, &[]);
    assert_eq!(list.inner().len(), 0);
    let mut writer = BitWriter::new();
    list.write(&mut writer, &Wire);
    let bytes = flushed(&mut writer);
    let mut reader = BitReader::new(&bytes);
    let read = VecDequeEntityProperty::new_read(&mut reader, 0, &Wire).unwrap();
    assert_eq!(read.inner().len(), 0);
    assert_eq!(read.entities(), Vec::<EntityHandle>::new());
}
