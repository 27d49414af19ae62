use naia_core::protocol::entity_handle::EntityHandle;
use naia_core::protocol::entity_property::{
    EntityConverter, EntityHandleConverter, FakeEntityConverter, NetEntityConverter,
    NetEntityHandleConverter,
};
use naia_core::protocol::net_entity::NetEntity;

struct Plus(u64);

impl EntityHandleConverter<u32> for Plus {
    fn handle_to_entity(&self, entity_handle: &EntityHandle) -> u32 {
        (entity_handle.to_u64() - self.0) as u32
    }

    fn entity_to_handle(&self, entity: &u32) -> EntityHandle {
        EntityHandle::from_u64(*entity as u64 + self.0)
    }
}

struct Halve;

impl NetEntityConverter<u32> for Halve {
    fn entity_to_net_entity(&self, entity: &u32) -> NetEntity {
        NetEntity::from_u16((*entity / 2) as u16)
    }

    fn net_entity_to_entity(&self, net_entity: &NetEntity) -> u32 {
        net_entity.to_u16() as u32 * 2
    }
}

#[test]
fn entity_converter_composes_both_ways() {
    let plus = Plus(100);
    let halve = Halve;
    let converter = EntityConverter::new(&plus, &halve);
    assert_eq!(converter.handle_to_net_entity(&EntityHandle::from_u64(108)), NetEntity::from_u16(4));
    assert_eq!(converter.net_entity_to_handle(&NetEntity::from_u16(4)), EntityHandle::from_u64(108));
}

#[test]
fn fake_converter_maps_to_zero() {
    let fake = FakeEntityConverter;
    assert_eq!(fake.handle_to_net_entity(&EntityHandle::from_u64(9)), NetEntity::from_u16(0));
    assert_eq!(fake.net_entity_to_handle(&NetEntity::from_u16(9)), EntityHandle::from_u64(0));
}
