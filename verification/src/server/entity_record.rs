use vstd::prelude::*;
use crate::server::keys::ComponentKey;
use crate::server::locality_status::LocalityStatus;
use crate::shared::types::LocalEntityKey;

verus! {

/// What an entity record says, as plain values.
pub struct EntityView {
    pub local_key: LocalEntityKey,
    pub status: LocalityStatus,
    pub components: Seq<ComponentKey>,
}

/// What one connection knows of one entity: its local key, where it stands
/// in its life, and its components, in the order in which they were added.
/// In a manager's records no component occurs twice among them.
pub struct EntityRecord {
    pub local_key: LocalEntityKey,
    pub status: LocalityStatus,
    pub components: Vec<ComponentKey>,
}

impl View for EntityRecord {
    type V = EntityView;

    open spec fn view(&self) -> EntityView {
        EntityView {
            local_key: self.local_key,
            status: self.status,
            components: self.components@,
        }
    }
}

impl EntityRecord {
    /// The record of an entity that is being created.
    pub fn new(local_key: LocalEntityKey, components: Vec<ComponentKey>) -> (record: EntityRecord)
        ensures
            record@ == (EntityView {
                local_key,
                status: LocalityStatus::Creating,
                components: components@,
            }),
    {
        EntityRecord { local_key, status: LocalityStatus::Creating, components }
    }
}

} // verus!
