use vstd::prelude::*;
use crate::server::entity_record::EntityView;
use crate::server::keys::canonical;
use crate::server::locality_status::LocalityStatus;
use crate::server::record_map::{accepts, same_slot, slot_insert};
use crate::server::replicate_action::ActionView;
use crate::server::replicate_record::RecordView;
use crate::shared::diff_mask::{all_clear, nand_masks, or_masks, with_bit, zeros};
use crate::shared::key_generator::KeyGeneratorView;
use crate::shared::replicate::Replicate;
use std::rc::Rc;

verus! {

/// The state of one connection's replication manager, as plain values.
pub struct ManagerView<R> {
    /// The record of each object and component that the connection has, by
    /// global key.
    pub records: Map<u64, RecordView>,
    /// The replicate of each object and component, by global key.
    pub replicas: Map<u64, Rc<R>>,
    /// The global key behind each local key.
    pub local_to_global: Map<u16, u64>,
    /// The objects whose deletion waits for the creation to be acknowledged.
    pub delayed_deletions: Set<u64>,
    /// The objects that are pawns of this connection.
    pub pawns: Set<u64>,
    /// The generator of local keys for objects and components.
    pub replicate_keys: KeyGeneratorView,
    /// The record of each entity that the connection has.
    pub entities: Map<u64, EntityView>,
    /// The global entity key behind each local entity key.
    pub local_to_global_entity: Map<u16, u64>,
    /// The entities that are pawns of this connection.
    pub pawn_entities: Set<u64>,
    /// The entities whose deletion waits for the creation to be acknowledged.
    pub delayed_entity_deletions: Set<u64>,
    /// The generator of local keys for entities.
    pub entity_keys: KeyGeneratorView,
    /// The actions that wait to be sent, first in, first out.
    pub queue: Seq<ActionView<R>>,
    /// The actions that each packet in flight carries.
    pub sent_actions: Map<u16, Seq<ActionView<R>>>,
    /// The diff mask that each packet in flight carries for each object.
    pub sent_updates: Map<u16, Map<u64, Seq<u8>>>,
    /// The packet that last began to carry updates.
    pub last_update_packet_index: u16,
    /// The packet that did so before that one.
    pub last_last_update_packet_index: u16,
    /// The diff mask that the last popped action took away.
    pub last_popped_diff_mask: Option<Seq<u8>>,
    /// The diff masks that the last popped entity creation took away.
    pub last_popped_diff_mask_list: Option<Seq<(u64, Seq<u8>)>>,
}

/// The index after `index`, wrapping.
pub open spec fn next_index(index: u16) -> u16 {
    if index == u16::MAX {
        0
    } else {
        (index + 1) as u16
    }
}

/// The number of steps from `from` up to `to`, wrapping.
pub open spec fn steps_between(from: u16, to: u16) -> int {
    (to as int - from as int) % 65536
}

/// What is left of `mask` once the masks that the packets from `from` up to,
/// but without, `last` carry for `key` are taken out of it.
pub open spec fn later_masked(
    sent_updates: Map<u16, Map<u64, Seq<u8>>>,
    key: u64,
    mask: Seq<u8>,
    from: u16,
    last: u16,
) -> Seq<u8>
    decreases steps_between(from, last),
{
    if from == last {
        mask
    } else {
        let rest = if sent_updates.contains_key(from) && sent_updates[from].contains_key(key) {
            nand_masks(mask, sent_updates[from][key])
        } else {
            mask
        };
        later_masked(sent_updates, key, rest, next_index(from), last)
    }
}

/// The bits of a dropped update that must be sent again: those that no packet
/// strictly between the dropped one and the last one that began to carry
/// updates has sent since.
pub open spec fn still_wanted(
    sent_updates: Map<u16, Map<u64, Seq<u8>>>,
    key: u64,
    mask: Seq<u8>,
    dropped: u16,
    last: u16,
) -> Seq<u8> {
    if dropped == last {
        mask
    } else {
        later_masked(sent_updates, key, mask, next_index(dropped), last)
    }
}

impl<R: Replicate> ManagerView<R> {
    /// The state of a manager that has nothing.
    pub open spec fn empty() -> Self {
        ManagerView {
            records: Map::empty(),
            replicas: Map::empty(),
            local_to_global: Map::empty(),
            delayed_deletions: Set::empty(),
            pawns: Set::empty(),
            replicate_keys: KeyGeneratorView { recycled: Seq::empty(), next_new: 0 },
            entities: Map::empty(),
            local_to_global_entity: Map::empty(),
            pawn_entities: Set::empty(),
            delayed_entity_deletions: Set::empty(),
            entity_keys: KeyGeneratorView { recycled: Seq::empty(), next_new: 0 },
            queue: Seq::empty(),
            sent_actions: Map::empty(),
            sent_updates: Map::empty(),
            last_update_packet_index: 0,
            last_last_update_packet_index: 0,
            last_popped_diff_mask: None,
            last_popped_diff_mask_list: None,
        }
    }

    /// Whether the connection has a record for the object or component `key`.
    pub open spec fn has_object(self, key: u64) -> bool {
        self.records.contains_key(canonical(key))
    }

    /// Whether the object `key` is a pawn of the connection.
    pub open spec fn has_pawn(self, key: u64) -> bool {
        self.pawns.contains(canonical(key))
    }

    /// Whether the connection has a record for the entity `key`.
    pub open spec fn has_entity(self, key: u64) -> bool {
        self.entities.contains_key(key)
    }

    /// Whether the entity `key` is a pawn of the connection.
    pub open spec fn has_pawn_entity(self, key: u64) -> bool {
        self.pawn_entities.contains(key)
    }

    /// The state with `action` added at the end of the queue.
    pub open spec fn pushed(self, action: ActionView<R>) -> Self {
        ManagerView { queue: self.queue.push(action), ..self }
    }

    /// The state with `record` in the place of the record of `key`, if there
    /// is one.
    pub open spec fn with_record(self, key: u64, record: RecordView) -> Self {
        if self.records.contains_key(key) {
            ManagerView { records: self.records.insert(key, record), ..self }
        } else {
            self
        }
    }

    /// The state with the status of `key` set, if it has a record.
    pub open spec fn with_status(self, key: u64, status: LocalityStatus) -> Self {
        self.with_record(key, RecordView { status, ..self.records[key] })
    }

    /// The state with the diff mask of `key` set, if it has a record.
    pub open spec fn with_mask(self, key: u64, mask: Seq<u8>) -> Self {
        self.with_record(key, RecordView { mask, ..self.records[key] })
    }

    /// The state with the diff mask of `key` cleared, if it has a record.
    pub open spec fn cleared(self, key: u64) -> Self {
        self.with_mask(key, zeros(self.records[key].mask.len()))
    }

    /// The state with the bits of `mask` added to the diff mask of `key`, if
    /// it has a record.
    pub open spec fn or_into(self, key: u64, mask: Seq<u8>) -> Self {
        self.with_mask(key, or_masks(self.records[key].mask, mask))
    }

    /// The state after property `index` of the object `key` changed: its bit
    /// is set in the object's diff mask, where the connection has the object.
    pub open spec fn mark_property(self, key: u64, index: u8) -> Self {
        let key = canonical(key);
        self.with_mask(key, with_bit(self.records[key].mask, index, true))
    }

    /// The local keys of the records that hold the slot of `key`.
    pub open spec fn slot_locals(self, key: u64) -> Set<u16> {
        Set::new(
            |local: u16|
                exists|held: u64|
                    #[trigger] same_slot(self.records, key).contains(held)
                        && self.records[held].local_key == local,
        )
    }

    /// The state after a record was made for `key`. Where the slot map does
    /// not take the key, nothing changes. The record that held the slot
    /// before is gone, and with it its replicate and its pawn mark; it is
    /// found no more under its local key, which is not handed out again.
    pub open spec fn replicate_init(self, key: u64, replicate: Rc<R>, status: LocalityStatus) -> Self {
        if accepts(self.records, key) {
            let local = self.replicate_keys.next_key();
            ManagerView {
                records: slot_insert(
                    self.records,
                    key,
                    RecordView { local_key: local, mask: zeros(replicate.mask_size() as nat), status },
                ),
                replicas: self.replicas.remove_keys(same_slot(self.records, key)).insert(
                    canonical(key),
                    replicate,
                ),
                local_to_global: self.local_to_global.remove_keys(self.slot_locals(key)).insert(
                    local,
                    canonical(key),
                ),
                pawns: self.pawns.difference(same_slot(self.records, key)),
                replicate_keys: self.replicate_keys.generated(),
                ..self
            }
        } else {
            self
        }
    }

    /// The state after an object was added: it has a record in `Creating`
    /// under a fresh local key, and its creation is queued.
    pub open spec fn add_object(self, key: u64, replicate: Rc<R>) -> Self {
        if accepts(self.records, key) {
            self.replicate_init(key, replicate, LocalityStatus::Creating).pushed(
                ActionView::CreateObject(canonical(key), self.replicate_keys.next_key(), replicate),
            )
        } else {
            self
        }
    }

    /// The state after the deletion of the record of `key` was queued: the
    /// record is `Deleting`, and a pawn no more.
    pub open spec fn replicate_delete(self, key: u64) -> Self {
        (ManagerView {
            pawns: self.pawns.remove(key),
            ..self.with_status(key, LocalityStatus::Deleting)
        }).pushed(ActionView::DeleteReplicate(key, self.records[key].local_key))
    }

    /// The state after the object `key` stopped being a pawn.
    pub open spec fn remove_pawn(self, key: u64) -> Self {
        let key = canonical(key);
        let less = ManagerView { pawns: self.pawns.remove(key), ..self };
        if self.records.contains_key(key) {
            less.pushed(ActionView::UnassignPawn(key, self.records[key].local_key))
        } else {
            less
        }
    }

    /// The state after the object `key` became a pawn; nothing changes where
    /// it is one already, or where its record is `Deleting`.
    pub open spec fn add_pawn(self, key: u64) -> Self {
        let key = canonical(key);
        if self.pawns.contains(key) || !self.records.contains_key(key) || self.records[key].status
            == LocalityStatus::Deleting {
            self
        } else {
            (ManagerView { pawns: self.pawns.insert(key), ..self }).pushed(
                ActionView::AssignPawn(key, self.records[key].local_key),
            )
        }
    }

    /// The state after the object `key` was removed: a pawn is unassigned
    /// first; then an object in `Creating` is noted for deletion once its
    /// creation is acknowledged, one in `Created` goes to `Deleting` and
    /// its deletion is queued, and one in `Deleting` stays as it is.
    pub open spec fn remove_object(self, key: u64) -> Self {
        let unassigned = if self.has_pawn(key) {
            self.remove_pawn(key)
        } else {
            self
        };
        let key = canonical(key);
        if !unassigned.records.contains_key(key) {
            unassigned
        } else {
            match unassigned.records[key].status {
                LocalityStatus::Creating => ManagerView {
                    delayed_deletions: unassigned.delayed_deletions.insert(key),
                    ..unassigned
                },
                LocalityStatus::Created => unassigned.replicate_delete(key),
                LocalityStatus::Deleting => unassigned,
            }
        }
    }

    /// The state after the first `upto` components of `list` got their
    /// records.
    pub open spec fn init_components(self, list: Seq<(u64, Rc<R>)>, upto: int) -> Self
        decreases upto,
    {
        if upto <= 0 {
            self
        } else {
            self.init_components(list, upto - 1).replicate_init(
                list[upto - 1].0,
                list[upto - 1].1,
                LocalityStatus::Creating,
            )
        }
    }

    /// The canonical keys of a list of components.
    pub open spec fn component_keys(list: Seq<(u64, Rc<R>)>) -> Seq<u64> {
        Seq::new(list.len(), |i: int| canonical(list[i].0))
    }

    /// The state after an entity was added with its components: each
    /// component has its record, the entity has a record in `Creating`
    /// under a fresh local key, and its creation is queued, without the
    /// components, which are gathered when the action is popped.
    pub open spec fn add_entity(self, key: u64, list: Seq<(u64, Rc<R>)>) -> Self {
        let made = self.init_components(list, list.len() as int);
        let local = made.entity_keys.next_key();
        (ManagerView {
            entity_keys: made.entity_keys.generated(),
            local_to_global_entity: made.local_to_global_entity.insert(local, key),
            entities: made.entities.insert(
                key,
                EntityView {
                    local_key: local,
                    status: LocalityStatus::Creating,
                    components: Self::component_keys(list),
                },
            ),
            ..made
        }).pushed(ActionView::CreateEntity(key, local, None))
    }

    /// The state after the entity `key` stopped being a pawn.
    pub open spec fn remove_pawn_entity(self, key: u64) -> Self {
        let less = ManagerView { pawn_entities: self.pawn_entities.remove(key), ..self };
        if self.entities.contains_key(key) {
            less.pushed(ActionView::UnassignPawnEntity(key, self.entities[key].local_key))
        } else {
            less
        }
    }

    /// The state after the entity `key` became a pawn; nothing changes where
    /// it is one already, where the connection does not have the entity, or
    /// where the entity is `Deleting`.
    pub open spec fn add_pawn_entity(self, key: u64) -> Self {
        if self.entities.contains_key(key) && !self.pawn_entities.contains(key)
            && self.entities[key].status != LocalityStatus::Deleting {
            (ManagerView { pawn_entities: self.pawn_entities.insert(key), ..self }).pushed(
                ActionView::AssignPawnEntity(key, self.entities[key].local_key),
            )
        } else {
            self
        }
    }

    /// The records with those of `components` set to `Deleting`.
    pub open spec fn records_deleting(self, components: Seq<u64>) -> Map<u64, RecordView> {
        Map::new(
            |key: u64| self.records.contains_key(key),
            |key: u64|
                if components.contains(key) {
                    RecordView { status: LocalityStatus::Deleting, ..self.records[key] }
                } else {
                    self.records[key]
                },
        )
    }

    /// The state after the deletion of the entity `key` was queued: the
    /// entity is `Deleting`, and a pawn no more.
    pub open spec fn entity_delete(self, key: u64) -> Self {
        (ManagerView {
            entities: self.entities.insert(
                key,
                EntityView { status: LocalityStatus::Deleting, ..self.entities[key] },
            ),
            pawn_entities: self.pawn_entities.remove(key),
            ..self
        }).pushed(ActionView::DeleteEntity(key, self.entities[key].local_key))
    }

    /// The state after the entity `key` was removed: a pawn is unassigned
    /// first; then an entity in `Creating` is noted for deletion once its
    /// creation is acknowledged; one in `Created` goes to `Deleting`, its
    /// deletion is queued, and each of its components stops being a pawn and
    /// goes to `Deleting`; one in `Deleting` stays as it is.
    pub open spec fn remove_entity(self, key: u64) -> Self {
        let unassigned = if self.has_pawn_entity(key) {
            self.remove_pawn_entity(key)
        } else {
            self
        };
        if !unassigned.entities.contains_key(key) {
            unassigned
        } else {
            match unassigned.entities[key].status {
                LocalityStatus::Creating => ManagerView {
                    delayed_entity_deletions: unassigned.delayed_entity_deletions.insert(key),
                    ..unassigned
                },
                LocalityStatus::Created => {
                    let queued = unassigned.entity_delete(key);
                    let components = unassigned.entities[key].components;
                    ManagerView {
                        pawns: queued.pawns.difference(components.to_set()),
                        records: queued.records_deleting(components),
                        ..queued
                    }
                },
                LocalityStatus::Deleting => unassigned,
            }
        }
    }

    /// The components of an entity with `component` added, if it is new.
    pub open spec fn with_component(components: Seq<u64>, component: u64) -> Seq<u64> {
        if components.contains(component) {
            components
        } else {
            components.push(component)
        }
    }

    /// The state after a component was added to an entity that the
    /// connection has: the component has a record in `Creating` and belongs
    /// to the entity. Where the entity is `Created`, the addition is queued;
    /// where it is `Creating`, the component goes out with the entity's
    /// creation; where it is `Deleting`, nothing is sent.
    pub open spec fn add_component(self, entity: u64, component: u64, replicate: Rc<R>) -> Self {
        if accepts(self.records, component) && self.entities.contains_key(entity) {
            let local = self.replicate_keys.next_key();
            let record = self.entities[entity];
            let made = self.replicate_init(component, replicate, LocalityStatus::Creating);
            let joined = ManagerView {
                entities: made.entities.insert(
                    entity,
                    EntityView {
                        components: Self::with_component(record.components, canonical(component)),
                        ..record
                    },
                ),
                ..made
            };
            if record.status == LocalityStatus::Created {
                joined.pushed(
                    ActionView::AddComponent(record.local_key, canonical(component), local, replicate),
                )
            } else {
                joined
            }
        } else {
            self
        }
    }

    /// Whether an update of `key` is due: the connection has it in
    /// `Created`, and its diff mask has a bit set.
    pub open spec fn needs_update(self, key: u64) -> bool {
        &&& self.records.contains_key(key)
        &&& self.records[key].status == LocalityStatus::Created
        &&& !all_clear(self.records[key].mask)
        &&& self.replicas.contains_key(key)
    }

    /// The update that is queued for `key`: for a pawn the whole state, for
    /// another object the changed properties.
    pub open spec fn update_action(self, key: u64) -> ActionView<R> {
        let record = self.records[key];
        if self.pawns.contains(key) {
            ActionView::UpdatePawn(key, record.local_key, record.mask, self.replicas[key])
        } else {
            ActionView::UpdateReplicate(
                key,
                record.local_key,
                record.mask,
                self.replicas[key],
            )
        }
    }

    /// Whether `added` is one round of updates for this state: one update
    /// for each object that needs one, and nothing else. The order is left
    /// open.
    pub open spec fn is_update_round(self, added: Seq<ActionView<R>>) -> bool {
        &&& forall|i: int|
            0 <= i < added.len() ==> self.needs_update((#[trigger] added[i]).update_key())
                && added[i] == self.update_action(added[i].update_key())
        &&& forall|i: int, j: int|
            0 <= i < j < added.len() ==> (#[trigger] added[i]).update_key() != (
            #[trigger] added[j]).update_key()
        &&& forall|key: u64| #[trigger]
            self.needs_update(key) ==> exists|i: int|
                0 <= i < added.len() && (#[trigger] added[i]).update_key() == key
    }

    /// Whether `after` is this state after one round of updates was queued.
    pub open spec fn collected(self, after: Self) -> bool {
        exists|added: Seq<ActionView<R>>|
            self.is_update_round(added) && after == (ManagerView {
                queue: self.queue + added,
                ..self
            })
    }

    /// The first `upto` components of an entity as they go out with its
    /// creation: each that has a record and a replicate, with its local key.
    pub open spec fn entity_components(self, components: Seq<u64>, upto: int) -> Seq<
        (u64, u16, Rc<R>),
    >
        decreases upto,
    {
        if upto <= 0 {
            Seq::empty()
        } else {
            let before = self.entity_components(components, upto - 1);
            let key = components[upto - 1];
            if self.records.contains_key(key) && self.replicas.contains_key(key) {
                before.push((key, self.records[key].local_key, self.replicas[key]))
            } else {
                before
            }
        }
    }

    /// The creation of an entity as it is sent: with the components that the
    /// entity has at this moment.
    pub open spec fn entity_creation(self, key: u64, local: u16) -> ActionView<R> {
        if self.entities.contains_key(key) {
            let components = self.entities[key].components;
            ActionView::CreateEntity(
                key,
                local,
                Some(self.entity_components(components, components.len() as int)),
            )
        } else {
            ActionView::CreateEntity(key, local, Some(Seq::empty()))
        }
    }

    /// The state with `action` noted as carried by packet `index`.
    pub open spec fn sent(self, index: u16, action: ActionView<R>) -> Self {
        let before = if self.sent_actions.contains_key(index) {
            self.sent_actions[index]
        } else {
            Seq::empty()
        };
        ManagerView { sent_actions: self.sent_actions.insert(index, before.push(action)), ..self }
    }

    /// The state after a creation of `key` was popped: its diff mask is
    /// saved and cleared, since the creation carries the whole value.
    pub open spec fn pop_create(self, key: u64) -> Self {
        if self.records.contains_key(key) {
            (ManagerView {
                last_popped_diff_mask: Some(self.records[key].mask),
                ..self
            }).cleared(key)
        } else {
            self
        }
    }

    /// The diff masks of the first `upto` components of `list`, as they are
    /// saved while each component is cleared in turn.
    pub open spec fn saved_masks(self, list: Seq<(u64, u16, Rc<R>)>, upto: int) -> Seq<
        (u64, Seq<u8>),
    >
        decreases upto,
    {
        if upto <= 0 {
            Seq::empty()
        } else {
            let before = self.saved_masks(list, upto - 1);
            let now = self.cleared_components(list, upto - 1);
            let key = list[upto - 1].0;
            if now.records.contains_key(key) {
                before.push((key, now.records[key].mask))
            } else {
                before
            }
        }
    }

    /// The state with the diff masks of the first `upto` components of
    /// `list` cleared.
    pub open spec fn cleared_components(self, list: Seq<(u64, u16, Rc<R>)>, upto: int) -> Self
        decreases upto,
    {
        if upto <= 0 {
            self
        } else {
            self.cleared_components(list, upto - 1).cleared(list[upto - 1].0)
        }
    }

    /// The state after the creation of an entity with the components `list`
    /// was popped: the diff mask of each component is saved and cleared.
    pub open spec fn pop_create_entity(self, list: Seq<(u64, u16, Rc<R>)>) -> Self {
        ManagerView {
            last_popped_diff_mask_list: Some(self.saved_masks(list, list.len() as int)),
            ..self.cleared_components(list, list.len() as int)
        }
    }

    /// The diff mask that an update of `key` carries when it is popped: the
    /// object's diff mask of that moment. An update of an object that the
    /// connection has no more carries the mask it was queued with.
    pub open spec fn locked_mask(self, key: u64, queued: Seq<u8>) -> Seq<u8> {
        if self.records.contains_key(key) {
            self.records[key].mask
        } else {
            queued
        }
    }

    /// The mask that is noted for an object once an update with the mask
    /// `locked` joins a packet: `locked`, with the bits that the packet is
    /// noted with for the object already.
    pub open spec fn joined(masks: Map<u64, Seq<u8>>, key: u64, locked: Seq<u8>) -> Seq<u8> {
        if masks.contains_key(key) {
            or_masks(locked, masks[key])
        } else {
            locked
        }
    }

    /// The state after an update of `key` was popped for packet `index`: the
    /// mask it carries is noted for the packet, beside what the packet is
    /// noted with for the object already, and it is saved, and cleared in
    /// the record.
    pub open spec fn process_update(self, index: u16, key: u64, locked: Seq<u8>) -> Self {
        let noted = if self.sent_updates.contains_key(index) {
            ManagerView {
                sent_updates: self.sent_updates.insert(
                    index,
                    self.sent_updates[index].insert(
                        key,
                        Self::joined(self.sent_updates[index], key, locked),
                    ),
                ),
                ..self
            }
        } else {
            ManagerView {
                sent_updates: self.sent_updates.insert(index, Map::empty().insert(key, locked)),
                last_last_update_packet_index: self.last_update_packet_index,
                last_update_packet_index: index,
                ..self
            }
        };
        (ManagerView { last_popped_diff_mask: Some(locked), ..noted }).cleared(key)
    }

    /// Whether a queued action is an update that is out of date: the
    /// connection has its object no more, or not in `Created`.
    pub open spec fn is_stale(self, action: ActionView<R>) -> bool {
        action.is_update() && !(self.records.contains_key(action.update_key())
            && self.records[action.update_key()].status == LocalityStatus::Created)
    }

    /// A queue without the updates at its head that are out of date.
    pub open spec fn fresh(self, queue: Seq<ActionView<R>>) -> Seq<ActionView<R>>
        decreases queue.len(),
    {
        if queue.len() > 0 && self.is_stale(queue[0]) {
            self.fresh(queue.drop_first())
        } else {
            queue
        }
    }

    /// The action that a pop gives, if one is left once the updates that are
    /// out of date have left the queue: the head of the queue, an entity
    /// creation with its components filled in, an update with the diff mask
    /// of this moment. An update is given only for a record in `Created`.
    pub open spec fn popped_action(self) -> Option<ActionView<R>> {
        let queue = self.fresh(self.queue);
        if queue.len() == 0 {
            None
        } else {
            Some(
                match queue[0] {
                    ActionView::CreateEntity(key, local, _) => self.entity_creation(key, local),
                    ActionView::UpdateReplicate(
                        key,
                        local,
                        queued,
                        replicate,
                    ) => ActionView::UpdateReplicate(
                        key,
                        local,
                        self.locked_mask(key, queued),
                        replicate,
                    ),
                    ActionView::UpdatePawn(key, local, queued, replicate) => ActionView::UpdatePawn(
                        key,
                        local,
                        self.locked_mask(key, queued),
                        replicate,
                    ),
                    other => other,
                },
            )
        }
    }

    /// The state after a pop for packet `index`: the updates at the head of
    /// the queue that are out of date are gone, without a note; the action
    /// after them is gone from the queue and noted as carried by the packet,
    /// and the diff masks that it sends are saved and cleared.
    pub open spec fn pop_outgoing_action(self, index: u16) -> Self {
        let queue = self.fresh(self.queue);
        match self.popped_action() {
            None => ManagerView { queue, ..self },
            Some(action) => {
                let taken = (ManagerView { queue: queue.drop_first(), ..self }).sent(
                    index,
                    action,
                );
                match action {
                    ActionView::CreateObject(key, _, _) => taken.pop_create(key),
                    ActionView::AddComponent(_, key, _, _) => taken.pop_create(key),
                    ActionView::CreateEntity(_, _, Some(list)) => taken.pop_create_entity(list),
                    ActionView::UpdateReplicate(key, _, locked, _) => taken.process_update(
                        index,
                        key,
                        locked,
                    ),
                    ActionView::UpdatePawn(key, _, locked, _) => taken.process_update(
                        index,
                        key,
                        locked,
                    ),
                    _ => taken,
                }
            },
        }
    }

    /// The state with the last action of packet `index` taken back from what
    /// the packet carries.
    pub open spec fn unsent(self, index: u16) -> Self {
        if self.sent_actions.contains_key(index) {
            if self.sent_actions[index].len() <= 1 {
                ManagerView { sent_actions: self.sent_actions.remove(index), ..self }
            } else {
                ManagerView {
                    sent_actions: self.sent_actions.insert(
                        index,
                        self.sent_actions[index].drop_last(),
                    ),
                    ..self
                }
            }
        } else {
            self
        }
    }

    /// The state with the saved diff mask put back into the record of `key`.
    pub open spec fn unpop_create(self, key: u64) -> Self {
        match self.last_popped_diff_mask {
            Some(mask) => self.or_into(key, mask),
            None => self,
        }
    }

    /// The state with the first `upto` of the saved masks put back into their
    /// records.
    pub open spec fn restored_components(self, saved: Seq<(u64, Seq<u8>)>, upto: int) -> Self
        decreases upto,
    {
        if upto <= 0 {
            self
        } else {
            self.restored_components(saved, upto - 1).or_into(saved[upto - 1].0, saved[upto - 1].1)
        }
    }

    /// The masks that a packet is noted with once an update of `key` with
    /// the mask `sent` was taken back from it: where the packet still
    /// carries an update of the object, the object's mask without the bits
    /// of `sent`; where not, no mask for the object.
    pub open spec fn without_update(self, index: u16, key: u64, sent: Seq<u8>) -> Map<u64, Seq<u8>> {
        let masks = self.sent_updates[index];
        if masks.contains_key(key) && self.carries_update(index, key) {
            masks.insert(key, nand_masks(masks[key], sent))
        } else {
            masks.remove(key)
        }
    }

    /// The state with the update of `key` for packet `index` undone, once
    /// the update is gone from the actions of the packet: the packet is
    /// noted without the bits of `sent` for the object, and the saved mask
    /// is back in the record.
    pub open spec fn undo_update(self, index: u16, key: u64, sent: Seq<u8>) -> Self {
        let forgotten = if self.sent_updates.contains_key(index) {
            let rest = self.without_update(index, key, sent);
            if rest.dom().finite() && rest.len() == 0 {
                self.sent_updates.remove(index)
            } else {
                self.sent_updates.insert(index, rest)
            }
        } else {
            self.sent_updates
        };
        (ManagerView {
            sent_updates: forgotten,
            last_update_packet_index: self.last_last_update_packet_index,
            ..self
        }).unpop_create(key)
    }

    /// The action that is taken back from packet `index`: the last one that
    /// the packet is noted with, or `given` where the packet is noted with
    /// none.
    pub open spec fn taken_back(self, index: u16, given: ActionView<R>) -> ActionView<R> {
        if self.sent_actions.contains_key(index) && self.sent_actions[index].len() > 0 {
            self.sent_actions[index].last()
        } else {
            given
        }
    }

    /// The state after the action popped last for packet `index` was taken
    /// back: it is at the head of the queue again, the packet carries it no
    /// more, and the diff masks that the pop cleared have their bits again.
    pub open spec fn unpop_outgoing_action(self, index: u16, given: ActionView<R>) -> Self {
        let action = self.taken_back(index, given);
        let taken = self.unsent(index);
        match action {
            ActionView::CreateObject(key, _, _) => {
                let back = taken.unpop_create(key);
                ManagerView { queue: seq![action] + back.queue, ..back }
            },
            ActionView::AddComponent(_, key, _, _) => {
                let back = taken.unpop_create(key);
                ManagerView { queue: seq![action] + back.queue, ..back }
            },
            ActionView::CreateEntity(_, _, _) => {
                let back = match taken.last_popped_diff_mask_list {
                    Some(saved) => taken.restored_components(saved, saved.len() as int),
                    None => taken,
                };
                ManagerView { queue: seq![action] + back.queue, ..back }
            },
            ActionView::UpdateReplicate(key, local, sent, replicate) => {
                let back = taken.undo_update(index, key, sent);
                ManagerView {
                    queue: seq![
                        ActionView::UpdateReplicate(
                            key,
                            local,
                            back.locked_mask(key, sent),
                            replicate,
                        ),
                    ] + back.queue,
                    ..back
                }
            },
            ActionView::UpdatePawn(key, local, sent, replicate) => {
                let back = taken.undo_update(index, key, sent);
                ManagerView {
                    queue: seq![
                        ActionView::UpdatePawn(key, local, back.locked_mask(key, sent), replicate),
                    ] + back.queue,
                    ..back
                }
            },
            _ => ManagerView { queue: seq![action] + taken.queue, ..taken },
        }
    }

    /// The state with the record of `key` set to `Created`, where it is
    /// `Creating`: no other record is promoted.
    pub open spec fn promoted(self, key: u64) -> Self {
        if self.records.contains_key(key) && self.records[key].status == LocalityStatus::Creating {
            self.with_status(key, LocalityStatus::Created)
        } else {
            self
        }
    }

    /// The state after the creation of `key` was acknowledged, where its
    /// record is `Creating`: a deletion that waited for this is queued now;
    /// else the record is `Created`. A record that is not `Creating` stays
    /// as it is.
    pub open spec fn created(self, key: u64) -> Self {
        if !self.records.contains_key(key) || self.records[key].status
            != LocalityStatus::Creating {
            self
        } else if self.delayed_deletions.contains(key) {
            (ManagerView {
                delayed_deletions: self.delayed_deletions.remove(key),
                ..self
            }).replicate_delete(key)
        } else {
            self.with_status(key, LocalityStatus::Created)
        }
    }

    /// The state with each of the first `upto` components of `list` that is
    /// `Creating` set to `Created`.
    pub open spec fn created_components(self, list: Seq<(u64, u16, Rc<R>)>, upto: int) -> Self
        decreases upto,
    {
        if upto <= 0 {
            self
        } else {
            self.created_components(list, upto - 1).promoted(list[upto - 1].0)
        }
    }

    /// The state after the addition of each of the first `upto` components
    /// that is still `Creating` was queued, for the entity with the local
    /// key `local`.
    pub open spec fn queued_additions(self, local: u16, components: Seq<u64>, upto: int) -> Self
        decreases upto,
    {
        if upto <= 0 {
            self
        } else {
            let before = self.queued_additions(local, components, upto - 1);
            let key = components[upto - 1];
            if before.records.contains_key(key) && before.records[key].status
                == LocalityStatus::Creating && before.replicas.contains_key(key) {
                before.pushed(
                    ActionView::AddComponent(
                        local,
                        key,
                        before.records[key].local_key,
                        before.replicas[key],
                    ),
                )
            } else {
                before
            }
        }
    }

    /// The state after the creation of the entity `key` with the components
    /// `list` was acknowledged, where the entity is `Creating`: a deletion
    /// that waited for this is queued now; else the entity is `Created`,
    /// the components that went out with it and are `Creating` are
    /// `Created`, and the addition of each component that joined since is
    /// queued. An entity that is not `Creating` stays as it is.
    pub open spec fn entity_created(self, key: u64, list: Option<Seq<(u64, u16, Rc<R>)>>) -> Self {
        if !self.entities.contains_key(key) || self.entities[key].status
            != LocalityStatus::Creating {
            self
        } else if self.delayed_entity_deletions.contains(key) {
            (ManagerView {
                delayed_entity_deletions: self.delayed_entity_deletions.remove(key),
                ..self
            }).entity_delete(key)
        } else {
            let record = self.entities[key];
            let marked = ManagerView {
                entities: self.entities.insert(
                    key,
                    EntityView { status: LocalityStatus::Created, ..record },
                ),
                ..self
            };
            let with_components = match list {
                Some(list) => marked.created_components(list, list.len() as int),
                None => marked,
            };
            with_components.queued_additions(
                record.local_key,
                record.components,
                record.components.len() as int,
            )
        }
    }

    /// The state after the deletion of the entity `key` was acknowledged: its
    /// record is gone and the local key that it had is free again. The
    /// components are cleaned up afterwards.
    pub open spec fn entity_deleted(self, key: u64) -> Self {
        if self.entities.contains_key(key) {
            let local = self.entities[key].local_key;
            ManagerView {
                entities: self.entities.remove(key),
                local_to_global_entity: self.local_to_global_entity.remove(local),
                entity_keys: self.entity_keys.recycled_key(local),
                pawn_entities: self.pawn_entities.remove(key),
                ..self
            }
        } else {
            self
        }
    }

    /// The state after the acknowledgement of one action of packet `index`.
    pub open spec fn delivered_action(self, index: u16, action: ActionView<R>) -> Self {
        match action {
            ActionView::CreateObject(key, _, _) => self.created(key),
            ActionView::AddComponent(_, key, _, _) => self.created(key),
            ActionView::UpdateReplicate(..) => ManagerView {
                sent_updates: self.sent_updates.remove(index),
                ..self
            },
            ActionView::UpdatePawn(..) => ManagerView {
                sent_updates: self.sent_updates.remove(index),
                ..self
            },
            ActionView::CreateEntity(key, _, list) => self.entity_created(key, list),
            ActionView::DeleteEntity(key, _) => self.entity_deleted(key),
            _ => self,
        }
    }

    /// The records that the acknowledgement of one action marks for cleanup:
    /// a deleted object, or the components of a deleted entity.
    pub open spec fn deleted_by(self, action: ActionView<R>) -> Seq<u64> {
        match action {
            ActionView::DeleteReplicate(key, _) => seq![key],
            ActionView::DeleteEntity(key, _) => if self.entities.contains_key(key) {
                self.entities[key].components
            } else {
                Seq::empty()
            },
            _ => Seq::empty(),
        }
    }

    /// The state after the acknowledgement of the first `upto` actions of
    /// `list`, before cleanup.
    pub open spec fn delivered_actions(self, index: u16, list: Seq<ActionView<R>>, upto: int) -> Self
        decreases upto,
    {
        if upto <= 0 {
            self
        } else {
            self.delivered_actions(index, list, upto - 1).delivered_action(index, list[upto - 1])
        }
    }

    /// The records that the acknowledgement of the first `upto` actions of
    /// `list` marks for cleanup, in order.
    pub open spec fn deleted_records(self, index: u16, list: Seq<ActionView<R>>, upto: int) -> Seq<
        u64,
    >
        decreases upto,
    {
        if upto <= 0 {
            Seq::empty()
        } else {
            self.deleted_records(index, list, upto - 1) + self.delivered_actions(
                index,
                list,
                upto - 1,
            ).deleted_by(list[upto - 1])
        }
    }

    /// The state after the record of `key` was cleaned up: the record, its
    /// replicate and its pawn mark are gone, and its local key is free
    /// again.
    pub open spec fn replicate_cleanup(self, key: u64) -> Self {
        if self.records.contains_key(key) {
            let local = self.records[key].local_key;
            ManagerView {
                records: self.records.remove(key),
                replicas: self.replicas.remove(key),
                local_to_global: self.local_to_global.remove(local),
                replicate_keys: self.replicate_keys.recycled_key(local),
                pawns: self.pawns.remove(key),
                ..self
            }
        } else {
            self
        }
    }

    /// The state after the first `upto` records of `deleted` were cleaned up.
    pub open spec fn cleaned_up(self, deleted: Seq<u64>, upto: int) -> Self
        decreases upto,
    {
        if upto <= 0 {
            self
        } else {
            self.cleaned_up(deleted, upto - 1).replicate_cleanup(deleted[upto - 1])
        }
    }

    /// The state after packet `index` was acknowledged: what it carried is
    /// forgotten, and each action in it has taken effect.
    pub open spec fn notify_packet_delivered(self, index: u16) -> Self {
        if self.sent_actions.contains_key(index) {
            let list = self.sent_actions[index];
            let start = ManagerView { sent_actions: self.sent_actions.remove(index), ..self };
            let deleted = start.deleted_records(index, list, list.len() as int);
            start.delivered_actions(index, list, list.len() as int).cleaned_up(
                deleted,
                deleted.len() as int,
            )
        } else {
            self
        }
    }

    /// The state after the loss of one action of packet `index`: an update
    /// gives its bits back to the record, as far as no later packet has sent
    /// them since; every other action goes to the end of the queue.
    pub open spec fn dropped_action(self, index: u16, action: ActionView<R>) -> Self {
        if action.is_update() {
            let key = action.update_key();
            if self.sent_updates.contains_key(index) && self.sent_updates[index].contains_key(key) {
                self.or_into(
                    key,
                    still_wanted(
                        self.sent_updates,
                        key,
                        self.sent_updates[index][key],
                        index,
                        self.last_update_packet_index,
                    ),
                )
            } else {
                self
            }
        } else {
            self.pushed(action)
        }
    }

    /// The state after the loss of the first `upto` actions of `list`.
    pub open spec fn dropped_actions(self, index: u16, list: Seq<ActionView<R>>, upto: int) -> Self
        decreases upto,
    {
        if upto <= 0 {
            self
        } else {
            self.dropped_actions(index, list, upto - 1).dropped_action(index, list[upto - 1])
        }
    }

    /// The state after packet `index` was given up as lost: each action in it
    /// is handled in order, and what the packet carried is forgotten.
    pub open spec fn notify_packet_dropped(self, index: u16) -> Self {
        if self.sent_actions.contains_key(index) {
            let list = self.sent_actions[index];
            let start = ManagerView { sent_actions: self.sent_actions.remove(index), ..self };
            let handled = start.dropped_actions(index, list, list.len() as int);
            ManagerView { sent_updates: handled.sent_updates.remove(index), ..handled }
        } else {
            self
        }
    }

    /// Whether the packet `index` is noted with an update of `key`.
    pub open spec fn carries_update(self, index: u16, key: u64) -> bool {
        self.sent_actions.contains_key(index) && exists|at: int|
            0 <= at < self.sent_actions[index].len() && (
            #[trigger] self.sent_actions[index][at]).is_update()
                && self.sent_actions[index][at].update_key() == key
    }

    /// Whether the local keys are in order: each record is found under its
    /// local key, and so is each entity, so that no two records share a
    /// local key, nor two entities; nothing else is found under a local key;
    /// and the generators take care of the local keys in use, so that the
    /// next key is held by no one.
    pub open spec fn keys_ok(self) -> bool {
        &&& self.replicate_keys.fresh_for(self.local_to_global.dom())
        &&& self.entity_keys.fresh_for(self.local_to_global_entity.dom())
        &&& forall|key: u64| #[trigger]
            self.records.contains_key(key) ==> self.local_to_global.contains_key(
                self.records[key].local_key,
            ) && self.local_to_global[self.records[key].local_key] == key
        &&& forall|key: u64| #[trigger]
            self.entities.contains_key(key) ==> self.local_to_global_entity.contains_key(
                self.entities[key].local_key,
            ) && self.local_to_global_entity[self.entities[key].local_key] == key
        &&& forall|local: u16| #[trigger]
            self.local_to_global.contains_key(local) ==> self.records.contains_key(
                self.local_to_global[local],
            ) && self.records[self.local_to_global[local]].local_key == local
        &&& forall|local: u16| #[trigger]
            self.local_to_global_entity.contains_key(local) ==> self.entities.contains_key(
                self.local_to_global_entity[local],
            ) && self.entities[self.local_to_global_entity[local]].local_key == local
    }

    /// Whether each pawn has a record that is not `Deleting`, and each pawn
    /// entity an entity record that is not `Deleting`.
    pub open spec fn pawns_ok(self) -> bool {
        &&& forall|key: u64| #[trigger]
            self.pawns.contains(key) ==> self.records.contains_key(key) && self.records[key].status
                != LocalityStatus::Deleting
        &&& forall|key: u64| #[trigger]
            self.pawn_entities.contains(key) ==> self.entities.contains_key(key)
                && self.entities[key].status != LocalityStatus::Deleting
    }

    /// What holds of the records and of each note by itself: the keys of the
    /// records are in the slot map's form, the store holds the replicate of
    /// each record and no other, the local keys are in order, each pawn has a record that
    /// is not `Deleting`, no component occurs twice
    /// among the components of an entity, and no packet is noted with an
    /// empty list of actions, nor with an empty set of diff masks.
    pub open spec fn base(self) -> bool {
        &&& crate::server::record_map::slots_ok(self.records)
        &&& self.keys_ok()
        &&& self.pawns_ok()
        &&& forall|entity: u64| #[trigger]
            self.entities.contains_key(entity) ==> self.entities[entity].components.no_duplicates()
        &&& forall|key: u64| #[trigger]
            self.records.contains_key(key) ==> self.replicas.contains_key(key)
        &&& forall|key: u64| #[trigger]
            self.replicas.contains_key(key) ==> self.records.contains_key(key)
        &&& forall|index: u16| #[trigger]
            self.sent_actions.contains_key(index) ==> self.sent_actions[index].len() > 0
        &&& forall|index: u16| #[trigger]
            self.sent_updates.contains_key(index) ==> self.sent_updates[index].dom().finite()
                && self.sent_updates[index].len() > 0
    }

    /// Whether each diff mask that is noted for a packet belongs to an update
    /// among the actions that the packet is noted with.
    pub open spec fn notes_ok(self) -> bool {
        forall|index: u16, key: u64|
            self.sent_updates.contains_key(index) && #[trigger] self.sent_updates[index].contains_key(
                key,
            ) ==> self.carries_update(index, key)
    }

    /// What holds of every state that the manager reaches.
    pub open spec fn wf(self) -> bool {
        self.base() && self.notes_ok()
    }
}

/// The components that go out with an entity's creation depend on the records
/// and the replicates alone.
pub proof fn lemma_entity_components_frame<R: Replicate>(
    a: ManagerView<R>,
    b: ManagerView<R>,
    components: Seq<u64>,
    upto: int,
)
    requires
        a.records == b.records,
        a.replicas == b.replicas,
    ensures
        a.entity_components(components, upto) == b.entity_components(components, upto),
    decreases upto,
{
    if upto > 0 {
        lemma_entity_components_frame(a, b, components, upto - 1);
    }
}

/// Whether each mask is noted for an update depends on the notes alone.
pub proof fn lemma_notes_frame<R: Replicate>(a: ManagerView<R>, b: ManagerView<R>)
    requires
        a.notes_ok(),
        b.sent_actions == a.sent_actions,
        b.sent_updates == a.sent_updates,
    ensures
        b.notes_ok(),
{
    assert forall|index: u16, key: u64|
        b.sent_updates.contains_key(index) && #[trigger] b.sent_updates[index].contains_key(
            key,
        ) implies b.carries_update(index, key) by {
        assert(a.carries_update(index, key));
    }
}

/// A packet that is noted with one more action is still noted with the
/// updates that its masks belong to.
pub proof fn lemma_sent_keeps_notes<R: Replicate>(
    state: ManagerView<R>,
    index: u16,
    action: ActionView<R>,
)
    requires
        state.notes_ok(),
    ensures
        state.sent(index, action).notes_ok(),
{
    let after = state.sent(index, action);
    assert forall|other: u16, key: u64|
        after.sent_updates.contains_key(other) && #[trigger] after.sent_updates[other].contains_key(
            key,
        ) implies after.carries_update(other, key) by {
        assert(state.carries_update(other, key));
        let at = choose|at: int|
            0 <= at < state.sent_actions[other].len() && (
            #[trigger] state.sent_actions[other][at]).is_update()
                && state.sent_actions[other][at].update_key() == key;
        assert(after.sent_actions[other][at] == state.sent_actions[other][at]);
    }
}

/// The mask of an update that was just noted for a packet belongs to that
/// update.
pub proof fn lemma_process_update_notes<R: Replicate>(
    state: ManagerView<R>,
    index: u16,
    key: u64,
    locked: Seq<u8>,
)
    requires
        state.notes_ok(),
        state.sent_actions.contains_key(index),
        state.sent_actions[index].len() > 0,
        state.sent_actions[index].last().is_update(),
        state.sent_actions[index].last().update_key() == key,
    ensures
        state.process_update(index, key, locked).notes_ok(),
{
    let after = state.process_update(index, key, locked);
    assert(after.sent_actions == state.sent_actions);
    assert forall|other: u16, noted: u64|
        after.sent_updates.contains_key(other) && #[trigger] after.sent_updates[other].contains_key(
            noted,
        ) implies after.carries_update(other, noted) by {
        if other == index && noted == key {
            let last = state.sent_actions[index].len() - 1;
            assert(state.sent_actions[index][last].is_update());
        } else {
            assert(state.sent_updates.contains_key(other));
            assert(state.sent_updates[other].contains_key(noted));
            assert(state.carries_update(other, noted));
        }
    }
}

/// Taking back the last action of a packet leaves each mask that stays
/// noted with its update.
pub proof fn lemma_unpop_notes<R: Replicate>(
    state: ManagerView<R>,
    after: ManagerView<R>,
    index: u16,
    given: ActionView<R>,
)
    requires
        state.wf(),
        after.sent_actions == state.unsent(index).sent_actions,
        after.sent_updates == (if state.taken_back(index, given).is_update() {
            state.unsent(index).undo_update(
                index,
                state.taken_back(index, given).update_key(),
                state.taken_back(index, given).update_mask(),
            ).sent_updates
        } else {
            state.sent_updates
        }),
    ensures
        after.notes_ok(),
{
    let action = state.taken_back(index, given);
    let taken = state.unsent(index);
    assert forall|other: u16, key: u64|
        after.sent_updates.contains_key(other) && #[trigger] after.sent_updates[other].contains_key(
            key,
        ) implies after.carries_update(other, key) by {
        if other == index && action.is_update() && key == action.update_key() {
            assert(taken.carries_update(index, key));
        } else {
            assert(state.sent_updates.contains_key(other));
            assert(state.sent_updates[other].contains_key(key));
            assert(state.carries_update(other, key));
            let at = choose|at: int|
                0 <= at < state.sent_actions[other].len() && (
                #[trigger] state.sent_actions[other][at]).is_update()
                    && state.sent_actions[other][at].update_key() == key;
            if other == index {
                let list = state.sent_actions[index];
                assert(action == list.last());
                assert(at != list.len() - 1);
                assert(after.sent_actions[index] == list.drop_last());
                assert(after.sent_actions[index][at] == list[at]);
            } else {
                assert(after.sent_actions[other] == state.sent_actions[other]);
            }
        }
    }
}

/// The action at the head of a queue without the updates that are out of
/// date is no such update.
pub proof fn lemma_fresh_head<R: Replicate>(state: ManagerView<R>, queue: Seq<ActionView<R>>)
    ensures
        state.fresh(queue).len() > 0 ==> !state.is_stale(state.fresh(queue)[0]),
        state.fresh(queue).len() <= queue.len(),
    decreases queue.len(),
{
    if queue.len() > 0 && state.is_stale(queue[0]) {
        lemma_fresh_head(state, queue.drop_first());
    }
}

} // verus!
