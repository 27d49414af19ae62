use vstd::prelude::*;
use crate::server::action_writer::{action_bytes, encode_action, writable};
use crate::server::entity_record::{EntityRecord, EntityView};
use crate::server::packet_writer::{PacketWriter, WriterView};
use crate::shared::manager_type::has_room;
use crate::shared::manifest::Manifest;
use crate::server::keys::{
    canonical, canonical_key, is_null_key, lemma_canonical, slot_index, slot_of, slot_version,
    ComponentKey, EntityKey, ObjectKey,
};
use crate::server::locality_status::LocalityStatus;
use crate::server::manager_view::{
    later_masked, lemma_entity_components_frame, lemma_notes_frame, lemma_process_update_notes,
    lemma_sent_keeps_notes, lemma_unpop_notes, next_index, steps_between, still_wanted,
    ManagerView,
};
use crate::server::record_map::{
    accepts, lemma_insert_present, lemma_slots_ok_kept, record_view, records_contains,
    records_get, records_insert, records_keys, records_new, records_remove, same_slot,
    slot_insert, slots_ok, RecordMap,
};
use crate::server::replicate_action::{
    actions_view, lemma_actions_view_parts, lemma_actions_view_push, ActionView, ReplicateAction,
};
use crate::server::replicate_record::{RecordView, ReplicateRecord};
use crate::shared::diff_mask::DiffMask;
use crate::shared::key_generator::{
    lemma_generated_is_fresh, lemma_recycled_is_fresh, KeyGenerator,
};
use crate::shared::replicate::{share, Replicate};
use crate::shared::types::{LocalEntityKey, LocalReplicateKey};
use std::collections::{HashMap, HashSet, VecDeque};
use std::rc::Rc;

verus! {

broadcast use vstd::std_specs::hash::group_hash_axioms;

/// The entity records of a map as plain values.
pub open spec fn entities_view(entities: Map<u64, EntityRecord>) -> Map<u64, EntityView> {
    Map::new(|key: u64| entities.contains_key(key), |key: u64| entities[key]@)
}

/// The replicates of a store that keeps, for each slot, the key that holds
/// the slot and the key's replicate: each replicate under its key.
pub open spec fn replicas_view<R>(store: Map<u64, (u64, Rc<R>)>) -> Map<u64, Rc<R>> {
    Map::new(
        |key: u64| store.contains_key(slot_index(key)) && store[slot_index(key)].0 == key,
        |key: u64| store[slot_index(key)].1,
    )
}

/// The actions that each packet carries, as plain values.
pub open spec fn sent_view<R>(sent: Map<u16, Vec<ReplicateAction<R>>>) -> Map<
    u16,
    Seq<ActionView<R>>,
> {
    Map::new(|index: u16| sent.contains_key(index), |index: u16| actions_view(sent[index]@))
}

/// The diff masks of a map as plain values.
pub open spec fn masks_view(masks: Map<u64, DiffMask>) -> Map<u64, Seq<u8>> {
    Map::new(|key: u64| masks.contains_key(key), |key: u64| masks[key]@)
}

/// The diff masks that each packet carries, as plain values.
pub open spec fn updates_view(updates: Map<u16, HashMap<u64, DiffMask>>) -> Map<
    u16,
    Map<u64, Seq<u8>>,
> {
    Map::new(|index: u16| updates.contains_key(index), |index: u16| masks_view(updates[index]@))
}

/// A list of saved diff masks as plain values.
pub open spec fn saved_view(saved: Seq<(u64, DiffMask)>) -> Seq<(u64, Seq<u8>)> {
    Seq::new(saved.len(), |i: int| (saved[i].0, saved[i].1@))
}

/// Keeps the objects, entities and components that one client connection
/// sees in sync with the server: it queues the actions that tell the client
/// of each change, notes which packet carries which action, and reacts when
/// a packet is acknowledged or given up as lost.
pub struct ReplicateManager<R: Replicate> {
    replicate_key_generator: KeyGenerator,
    local_replicate_store: HashMap<u64, (ObjectKey, Rc<R>)>,
    local_to_global_replicate_key_map: HashMap<LocalReplicateKey, ObjectKey>,
    replicate_records: RecordMap,
    delayed_replicate_deletions: HashSet<ObjectKey>,
    pawn_object_store: HashSet<ObjectKey>,
    entity_key_generator: KeyGenerator,
    local_entity_store: HashMap<EntityKey, EntityRecord>,
    local_to_global_entity_key_map: HashMap<LocalEntityKey, EntityKey>,
    pawn_entity_store: HashSet<EntityKey>,
    delayed_entity_deletions: HashSet<EntityKey>,
    queued_messages: VecDeque<ReplicateAction<R>>,
    sent_messages: HashMap<u16, Vec<ReplicateAction<R>>>,
    sent_updates: HashMap<u16, HashMap<ObjectKey, DiffMask>>,
    last_update_packet_index: u16,
    last_last_update_packet_index: u16,
    last_popped_diff_mask: Option<DiffMask>,
    last_popped_diff_mask_list: Option<Vec<(ComponentKey, DiffMask)>>,
}

impl<R: Replicate> View for ReplicateManager<R> {
    type V = ManagerView<R>;

    closed spec fn view(&self) -> ManagerView<R> {
        ManagerView {
            records: record_view(self.replicate_records),
            replicas: replicas_view(self.local_replicate_store@),
            local_to_global: self.local_to_global_replicate_key_map@,
            delayed_deletions: self.delayed_replicate_deletions@,
            pawns: self.pawn_object_store@,
            replicate_keys: self.replicate_key_generator@,
            entities: entities_view(self.local_entity_store@),
            local_to_global_entity: self.local_to_global_entity_key_map@,
            pawn_entities: self.pawn_entity_store@,
            delayed_entity_deletions: self.delayed_entity_deletions@,
            entity_keys: self.entity_key_generator@,
            queue: actions_view(self.queued_messages@),
            sent_actions: sent_view(self.sent_messages@),
            sent_updates: updates_view(self.sent_updates@),
            last_update_packet_index: self.last_update_packet_index,
            last_last_update_packet_index: self.last_last_update_packet_index,
            last_popped_diff_mask: match self.last_popped_diff_mask {
                Some(mask) => Some(mask@),
                None => None,
            },
            last_popped_diff_mask_list: match self.last_popped_diff_mask_list {
                Some(saved) => Some(saved_view(saved@)),
                None => None,
            },
        }
    }
}

impl<R: Replicate> ReplicateManager<R> {
    /// A manager for a connection that has nothing yet.
    pub fn new() -> (manager: Self)
        ensures
            manager@ == ManagerView::<R>::empty(),
            manager@.wf(),
    {
        let manager = ReplicateManager {
            replicate_key_generator: KeyGenerator::new(),
            local_replicate_store: HashMap::new(),
            local_to_global_replicate_key_map: HashMap::new(),
            replicate_records: records_new(),
            delayed_replicate_deletions: HashSet::new(),
            pawn_object_store: HashSet::new(),
            entity_key_generator: KeyGenerator::new(),
            local_entity_store: HashMap::new(),
            local_to_global_entity_key_map: HashMap::new(),
            pawn_entity_store: HashSet::new(),
            delayed_entity_deletions: HashSet::new(),
            queued_messages: VecDeque::new(),
            sent_messages: HashMap::new(),
            sent_updates: HashMap::new(),
            last_update_packet_index: 0,
            last_last_update_packet_index: 0,
            last_popped_diff_mask: None,
            last_popped_diff_mask_list: None,
        };
        proof {
            let view = manager@;
            let empty = ManagerView::<R>::empty();
            assert(view.entities =~= empty.entities);
            assert(view.replicas =~= empty.replicas);
            assert(view.queue =~= empty.queue);
            assert(view.sent_actions =~= empty.sent_actions);
            assert(view.sent_updates =~= empty.sent_updates);
        }
        manager
    }

    /// Whether actions wait to be sent.
    pub fn has_outgoing_actions(&self) -> (waiting: bool)
        ensures
            waiting == (self@.queue.len() != 0),
    {
        self.queued_messages.len() != 0
    }

    /// Whether the connection has the object or component `key`.
    pub fn has_object(&self, key: &ObjectKey) -> (has: bool)
        ensures
            has == self@.has_object(*key),
    {
        records_contains(&self.replicate_records, *key)
    }

    /// Whether the object `key` is a pawn of the connection.
    pub fn has_pawn(&self, key: &ObjectKey) -> (has: bool)
        ensures
            has == self@.has_pawn(*key),
    {
        let key = canonical_key(*key);
        self.pawn_object_store.contains(&key)
    }

    /// Whether local keys are left for `count` more objects and components:
    /// a connection holds fewer than 65536 of them at a time.
    pub fn has_local_keys(&self, count: usize) -> (has: bool)
        ensures
            has == (count <= self@.replicate_keys.left()),
    {
        self.replicate_key_generator.has_keys(count)
    }

    /// Whether a local key is left for one more entity.
    pub fn has_local_entity_key(&self) -> (has: bool)
        ensures
            has == (self@.entity_keys.left() > 0),
    {
        self.entity_key_generator.has_keys(1)
    }

    /// Whether the connection has the entity `key`.
    pub fn has_entity(&self, key: &EntityKey) -> (has: bool)
        ensures
            has == self@.has_entity(*key),
    {
        self.local_entity_store.contains_key(key)
    }

    /// Whether the entity `key` is a pawn of the connection.
    pub fn has_pawn_entity(&self, key: &EntityKey) -> (has: bool)
        ensures
            has == self@.has_pawn_entity(*key),
    {
        self.pawn_entity_store.contains(key)
    }

    /// The global key of the object or component with the local key
    /// `local_key`.
    pub fn get_global_key_from_local(&self, local_key: LocalReplicateKey) -> (key: Option<ObjectKey>)
        ensures
            key == (if self@.local_to_global.contains_key(local_key) {
                Some(self@.local_to_global[local_key])
            } else {
                None
            }),
    {
        match self.local_to_global_replicate_key_map.get(&local_key) {
            Some(key) => Some(*key),
            None => None,
        }
    }

    /// The global key of the entity with the local key `local_key`.
    pub fn get_global_entity_key_from_local(&self, local_key: LocalEntityKey) -> (key: Option<
        EntityKey,
    >)
        ensures
            key == (if self@.local_to_global_entity.contains_key(local_key) {
                Some(self@.local_to_global_entity[local_key])
            } else {
                None
            }),
    {
        match self.local_to_global_entity_key_map.get(&local_key) {
            Some(key) => Some(*key),
            None => None,
        }
    }

    /// The replicate of `key`, if the store has it.
    fn replicate_of(&self, key: u64) -> (found: Option<&Rc<R>>)
        ensures
            match found {
                Some(replicate) => self@.replicas.contains_key(key) && *replicate
                    == self@.replicas[key],
                None => !self@.replicas.contains_key(key),
            },
    {
        match self.local_replicate_store.get(&slot_of(key)) {
            Some(held) => if held.0 == key {
                Some(&held.1)
            } else {
                None
            },
            None => None,
        }
    }

    /// Puts `record` in the place of the record of `key`.
    fn put_record(&mut self, key: u64, record: ReplicateRecord)
        requires
            old(self)@.base(),
            canonical(key) == key,
            old(self)@.records.contains_key(key),
            record@.local_key == old(self)@.records[key].local_key,
            record@.status == LocalityStatus::Deleting ==> !old(self)@.pawns.contains(key),
        ensures
            final(self)@ == old(self)@.with_record(key, record@),
            final(self)@.base(),
    {
        proof {
            lemma_insert_present(record_view(self.replicate_records), key, record@);
            lemma_slots_ok_kept(record_view(self.replicate_records), key, record@);
        }
        let _ = records_insert(&mut self.replicate_records, key, record);
    }

    /// Sets the status of the record of `key`, if there is one.
    fn set_status(&mut self, key: u64, status: LocalityStatus)
        requires
            old(self)@.base(),
            status == LocalityStatus::Deleting ==> !old(self)@.pawns.contains(key),
        ensures
            final(self)@ == old(self)@.with_status(key, status),
            final(self)@.base(),
    {
        if canonical_key(key) != key {
            return;
        }
        let found = match records_get(&self.replicate_records, key) {
            Some(record) => Some(record.clone()),
            None => None,
        };
        if let Some(mut record) = found {
            record.status = status;
            self.put_record(key, record);
        }
    }

    /// Clears the diff mask of the record of `key`, if there is one.
    fn clear_replicate(&mut self, key: u64)
        requires
            old(self)@.base(),
        ensures
            final(self)@ == old(self)@.cleared(key),
            final(self)@.base(),
    {
        if canonical_key(key) != key {
            return;
        }
        let found = match records_get(&self.replicate_records, key) {
            Some(record) => Some(record.clone()),
            None => None,
        };
        if let Some(mut record) = found {
            record.diff_mask.clear();
            self.put_record(key, record);
        }
    }

    /// Adds the bits of `mask` to the diff mask of the record of `key`, if
    /// there is one.
    fn set_replicate(&mut self, key: u64, mask: &DiffMask)
        requires
            old(self)@.base(),
        ensures
            final(self)@ == old(self)@.or_into(key, mask@),
            final(self)@.base(),
    {
        if canonical_key(key) != key {
            return;
        }
        let found = match records_get(&self.replicate_records, key) {
            Some(record) => Some(record.clone()),
            None => None,
        };
        if let Some(mut record) = found {
            record.diff_mask.or(mask);
            self.put_record(key, record);
        }
    }

    /// Notes that property `index` of the object `key` has changed: its bit
    /// is set in the object's diff mask, where the connection has the object.
    pub fn mark_property(&mut self, key: &ObjectKey, index: u8)
        requires
            old(self)@.wf(),
        ensures
            final(self)@ == old(self)@.mark_property(*key, index),
            final(self)@.wf(),
    {
        proof {
            lemma_canonical(*key);
        }
        let key = canonical_key(*key);
        let found = match records_get(&self.replicate_records, key) {
            Some(record) => Some(record.clone()),
            None => None,
        };
        if let Some(mut record) = found {
            record.diff_mask.set_bit(index, true);
            self.put_record(key, record);
        }
        proof {
            lemma_notes_frame(old(self)@, self@);
        }
    }

    /// Adds `action` at the end of the queue.
    fn push_action(&mut self, action: ReplicateAction<R>)
        ensures
            final(self)@ == old(self)@.pushed(action@),
    {
        proof {
            lemma_actions_view_push(self.queued_messages@, action);
        }
        self.queued_messages.push_back(action);
    }
    /// Makes a record for `key` under a fresh local key, and gives the local
    /// key. Where the slot map does not take the key, nothing changes and
    /// nothing is given. Where the key takes the slot of an older record,
    /// that record goes with its replicate, its pawn mark and what was found
    /// under its local key.
    fn replicate_init(&mut self, key: &ObjectKey, replicate: &Rc<R>, status: LocalityStatus) -> (local:
        Option<LocalReplicateKey>)
        requires
            old(self)@.base(),
            old(self)@.replicate_keys.left() > 0,
        ensures
            final(self)@ == old(self)@.replicate_init(*key, *replicate, status),
            final(self)@.base(),
            final(self)@.replicate_keys.left() >= old(self)@.replicate_keys.left() - 1,
            local == (if accepts(old(self)@.records, *key) {
                Some(old(self)@.replicate_keys.next_key())
            } else {
                None
            }),
    {
        let size = replicate.get_diff_mask_size();
        let local = self.replicate_key_generator.peek();
        let record = ReplicateRecord::new(local, size, status);
        let stored = canonical_key(*key);
        proof {
            lemma_canonical(*key);
            lemma_slots_ok_kept(record_view(self.replicate_records), *key, record@);
            lemma_taken_iff_accepted(record_view(self.replicate_records), *key, record@);
            lemma_generated_is_fresh(self@.replicate_keys, self@.local_to_global.dom());
        }
        let slot = slot_of(stored);
        let holder = match self.local_replicate_store.get(&slot) {
            Some(held) => if slot_of(held.0) == slot {
                Some(held.0)
            } else {
                None
            },
            None => None,
        };
        let stale = match holder {
            Some(held) => match records_get(&self.replicate_records, held) {
                Some(record) => Some(record.local_key),
                None => None,
            },
            None => None,
        };
        proof {
            let records = old(self)@.records;
            assert forall|held: u64| same_slot(records, *key).contains(held) implies holder
                == Some(held) by {
                assert(records.contains_key(held));
                assert(old(self)@.replicas.contains_key(held));
            }
            if let Some(held) = holder {
                assert(old(self)@.replicas.contains_key(held));
                assert(records.contains_key(held));
                assert(same_slot(records, *key).contains(held));
                assert(old(self)@.slot_locals(*key) =~= set![records[held].local_key]);
            } else {
                assert(old(self)@.slot_locals(*key) =~= Set::<u16>::empty());
            }
        }
        let _ = records_insert(&mut self.replicate_records, *key, record);
        if records_contains(&self.replicate_records, stored) {
            if let Some(held) = holder {
                let _ = self.pawn_object_store.remove(&held);
            }
            assert(self@.pawns =~= old(self)@.pawns.difference(
                same_slot(old(self)@.records, *key),
            ));
            let _ = self.replicate_key_generator.generate();
            let _ = self.local_replicate_store.insert(slot_of(stored), (stored, share(replicate)));
            assert(self@.replicas =~= old(self)@.replicas.remove_keys(
                same_slot(old(self)@.records, *key),
            ).insert(stored, *replicate));
            if let Some(stale) = stale {
                let _ = self.local_to_global_replicate_key_map.remove(&stale);
            }
            let _ = self.local_to_global_replicate_key_map.insert(local, stored);
            assert(self@.local_to_global =~= old(self)@.local_to_global.remove_keys(
                old(self)@.slot_locals(*key),
            ).insert(local, stored));
            Some(local)
        } else {
            None
        }
    }

    /// Adds an object to the connection: it gets a record in `Creating`
    /// under a local key that no other record has, and its creation is
    /// queued. A key that the slot map does not take (the null key, or a key
    /// older than what its slot holds) changes nothing; a key that is newer
    /// than what its slot holds takes the slot, and the older record is
    /// gone. A local key must be left: a connection holds at most 65535
    /// objects and components.
    pub fn add_object(&mut self, key: &ObjectKey, replicate: &Rc<R>)
        requires
            old(self)@.wf(),
            !old(self)@.has_object(*key),
            old(self)@.replicate_keys.left() > 0,
        ensures
            final(self)@ == old(self)@.add_object(*key, *replicate),
            final(self)@.wf(),
    {
        match self.replicate_init(key, replicate, LocalityStatus::Creating) {
            Some(local) => {
                self.push_action(
                    ReplicateAction::CreateObject(canonical_key(*key), local, share(replicate)),
                );
            },
            None => {},
        }
        proof {
            lemma_notes_frame(old(self)@, self@);
        }
    }

    /// Sets the record of `key` to `Deleting` and queues its deletion.
    fn replicate_delete(&mut self, key: u64)
        requires
            old(self)@.base(),
            old(self)@.records.contains_key(key),
        ensures
            final(self)@ == old(self)@.replicate_delete(key),
            final(self)@.base(),
    {
        let local = match records_get(&self.replicate_records, key) {
            Some(record) => record.local_key,
            None => 0,
        };
        let _ = self.pawn_object_store.remove(&key);
        assert(self@ == (ManagerView { pawns: old(self)@.pawns.remove(key), ..old(self)@ }));
        self.set_status(key, LocalityStatus::Deleting);
        self.push_action(ReplicateAction::DeleteReplicate(key, local));
    }

    /// Removes an object from the connection. A pawn is unassigned first.
    /// Then an object in `Creating` is noted for deletion once its creation
    /// is acknowledged; one in `Created` goes to `Deleting` and its deletion
    /// is queued; one in `Deleting` stays as it is.
    pub fn remove_object(&mut self, key: &ObjectKey)
        requires
            old(self)@.wf(),
            old(self)@.has_object(*key),
        ensures
            final(self)@ == old(self)@.remove_object(*key),
            final(self)@.wf(),
    {
        if self.has_pawn(key) {
            self.remove_pawn(key);
        }
        let stored = canonical_key(*key);
        let status = match records_get(&self.replicate_records, stored) {
            Some(record) => Some(record.status),
            None => None,
        };
        proof {
            lemma_canonical(*key);
        }
        match status {
            Some(LocalityStatus::Creating) => {
                let _ = self.delayed_replicate_deletions.insert(stored);
            },
            Some(LocalityStatus::Created) => {
                self.replicate_delete(stored);
            },
            _ => {},
        }
        proof {
            lemma_notes_frame(old(self)@, self@);
        }
    }

    /// Makes the object `key` a pawn of the connection and queues the
    /// assignment. Nothing changes where it is a pawn already, or where its
    /// record is `Deleting`.
    pub fn add_pawn(&mut self, key: &ObjectKey)
        requires
            old(self)@.wf(),
            old(self)@.has_object(*key),
        ensures
            final(self)@ == old(self)@.add_pawn(*key),
            final(self)@.wf(),
    {
        let stored = canonical_key(*key);
        proof {
            lemma_canonical(*key);
        }
        if !self.pawn_object_store.contains(&stored) {
            let local = match records_get(&self.replicate_records, stored) {
                Some(record) => if record.status != LocalityStatus::Deleting {
                    Some(record.local_key)
                } else {
                    None
                },
                None => None,
            };
            if let Some(local) = local {
                let _ = self.pawn_object_store.insert(stored);
                self.push_action(ReplicateAction::AssignPawn(stored, local));
            }
        }
        proof {
            lemma_notes_frame(old(self)@, self@);
        }
    }

    /// Ends the pawn assignment of the object `key` and queues the
    /// unassignment.
    pub fn remove_pawn(&mut self, key: &ObjectKey)
        requires
            old(self)@.wf(),
            old(self)@.has_pawn(*key),
        ensures
            final(self)@ == old(self)@.remove_pawn(*key),
            final(self)@.wf(),
    {
        let stored = canonical_key(*key);
        proof {
            lemma_canonical(*key);
        }
        let _ = self.pawn_object_store.remove(&stored);
        let local = match records_get(&self.replicate_records, stored) {
            Some(record) => Some(record.local_key),
            None => None,
        };
        if let Some(local) = local {
            self.push_action(ReplicateAction::UnassignPawn(stored, local));
        }
        proof {
            lemma_notes_frame(old(self)@, self@);
        }
    }

    /// Puts `record` in the entity store under `key`.
    fn put_entity(&mut self, key: u64, record: EntityRecord)
        ensures
            final(self)@ == (ManagerView {
                entities: old(self)@.entities.insert(key, record@),
                ..old(self)@
            }),
    {
        let _ = self.local_entity_store.insert(key, record);
        assert(entities_view(self.local_entity_store@) =~= entities_view(
            old(self).local_entity_store@,
        ).insert(key, record@));
    }

    /// A copy of the record of the entity `key`, if the connection has it.
    fn entity_record(&self, key: u64) -> (found: Option<EntityRecord>)
        ensures
            match found {
                Some(record) => self@.entities.contains_key(key) && record@ == self@.entities[key],
                None => !self@.entities.contains_key(key),
            },
    {
        match self.local_entity_store.get(&key) {
            Some(record) => {
                let mut components: Vec<u64> = Vec::new();
                let mut i: usize = 0;
                while i < record.components.len()
                    invariant
                        i <= record.components@.len(),
                        components@ == record.components@.subrange(0, i as int),
                    decreases record.components@.len() - i,
                {
                    components.push(record.components[i]);
                    i += 1;
                    assert(components@ =~= record.components@.subrange(0, i as int));
                }
                assert(components@ =~= record.components@);
                Some(EntityRecord { local_key: record.local_key, status: record.status, components })
            },
            None => None,
        }
    }

    /// Adds an entity with its components to the connection. Each component
    /// gets its record, the entity gets a record in `Creating` under a local
    /// key that no other entity has, and the entity's creation is queued.
    /// The components that go out with it are gathered when the action is
    /// popped. Local keys must be left for the components and for the
    /// entity.
    pub fn add_entity(&mut self, global_key: &EntityKey, component_list: &Vec<(ComponentKey, Rc<R>)>)
        requires
            old(self)@.wf(),
            !old(self)@.has_entity(*global_key),
            forall|i: int|
                0 <= i < component_list@.len() ==> !old(self)@.has_object(
                    (#[trigger] component_list@[i]).0,
                ),
            forall|i: int, j: int|
                0 <= i < j < component_list@.len() ==> canonical((#[trigger] component_list@[i]).0)
                    != canonical((#[trigger] component_list@[j]).0),
            old(self)@.replicate_keys.left() >= component_list@.len(),
            old(self)@.entity_keys.left() > 0,
        ensures
            final(self)@ == old(self)@.add_entity(*global_key, component_list@),
            final(self)@.wf(),
    {
        let mut components: Vec<u64> = Vec::new();
        let mut i: usize = 0;
        while i < component_list.len()
            invariant
                i <= component_list@.len(),
                self@.base(),
                self@ == old(self)@.init_components(component_list@, i as int),
                self@.replicate_keys.left() >= component_list@.len() - i,
                self@.entity_keys == old(self)@.entity_keys,
                self@.local_to_global_entity == old(self)@.local_to_global_entity,
                self@.entities == old(self)@.entities,
                self@.pawn_entities == old(self)@.pawn_entities,
                self@.sent_actions == old(self)@.sent_actions,
                self@.sent_updates == old(self)@.sent_updates,
                components@ == ManagerView::<R>::component_keys(component_list@).subrange(
                    0,
                    i as int,
                ),
            decreases component_list@.len() - i,
        {
            let entry = &component_list[i];
            let _ = self.replicate_init(&entry.0, &entry.1, LocalityStatus::Creating);
            components.push(canonical_key(entry.0));
            i += 1;
            assert(components@ =~= ManagerView::<R>::component_keys(component_list@).subrange(
                0,
                i as int,
            ));
        }
        assert(components@ =~= ManagerView::<R>::component_keys(component_list@));
        proof {
            lemma_generated_is_fresh(self@.entity_keys, self@.local_to_global_entity.dom());
        }
        let local = self.entity_key_generator.generate();
        let _ = self.local_to_global_entity_key_map.insert(local, *global_key);
        self.put_entity(*global_key, EntityRecord::new(local, components));
        self.push_action(ReplicateAction::CreateEntity(*global_key, local, None));
        proof {
            lemma_notes_frame(old(self)@, self@);
        }
    }

    /// Sets the entity `key` to `Deleting` and queues its deletion.
    fn entity_delete(&mut self, key: u64)
        requires
            old(self)@.base(),
            old(self)@.entities.contains_key(key),
        ensures
            final(self)@ == old(self)@.entity_delete(key),
            final(self)@.base(),
    {
        if let Some(mut record) = self.entity_record(key) {
            let local = record.local_key;
            record.status = LocalityStatus::Deleting;
            let _ = self.pawn_entity_store.remove(&key);
            self.put_entity(key, record);
            self.push_action(ReplicateAction::DeleteEntity(key, local));
        }
    }

    /// Removes an entity from the connection. A pawn is unassigned first.
    /// Then an entity in `Creating` is noted for deletion once its creation
    /// is acknowledged; one in `Created` goes to `Deleting`, its deletion is
    /// queued, and each of its components stops being a pawn and goes to
    /// `Deleting`; one in `Deleting` changes nothing more.
    pub fn remove_entity(&mut self, key: &EntityKey)
        requires
            old(self)@.wf(),
            old(self)@.has_entity(*key),
        ensures
            final(self)@ == old(self)@.remove_entity(*key),
            final(self)@.wf(),
    {
        if self.has_pawn_entity(key) {
            self.remove_pawn_entity(key);
        }
        let ghost unassigned = self@;
        match self.entity_record(*key) {
            Some(record) => {
                match record.status {
                    LocalityStatus::Creating => {
                        let _ = self.delayed_entity_deletions.insert(*key);
                    },
                    LocalityStatus::Created => {
                        self.entity_delete(*key);
                        let ghost queued = self@;
                        let mut i: usize = 0;
                        proof {
                            let none = record.components@.subrange(0, 0);
                            assert(queued.pawns.difference(none.to_set()) =~= queued.pawns);
                            assert(queued.records_deleting(none) =~= queued.records);
                        }
                        while i < record.components.len()
                            invariant
                                i <= record.components@.len(),
                                self@.base(),
                                self@ == (ManagerView {
                                    pawns: queued.pawns.difference(
                                        record.components@.subrange(0, i as int).to_set(),
                                    ),
                                    records: queued.records_deleting(
                                        record.components@.subrange(0, i as int),
                                    ),
                                    ..queued
                                }),
                            decreases record.components@.len() - i,
                        {
                            let component = record.components[i];
                            let ghost before = self@;
                            let ghost done = record.components@.subrange(0, i as int);
                            let _ = self.pawn_object_store.remove(&component);
                            assert(self@ == (ManagerView {
                                pawns: before.pawns.remove(component),
                                ..before
                            }));
                            assert(self@.records == before.records);
                            assert(self@.sent_actions == before.sent_actions);
                            assert(self@.sent_updates == before.sent_updates);
                            self.set_status(component, LocalityStatus::Deleting);
                            i += 1;
                            proof {
                                let now = record.components@.subrange(0, i as int);
                                assert(now =~= done.push(component));
                                assert forall|k: u64| now.contains(k) <==> (done.contains(k) || k
                                    == component) by {
                                    if done.contains(k) {
                                        let j = choose|j: int| 0 <= j < done.len() && done[j] == k;
                                        assert(now[j] == k);
                                    }
                                    if k == component {
                                        assert(now[i as int - 1] == k);
                                    }
                                }
                                assert(self@.pawns =~= queued.pawns.difference(now.to_set()));
                                assert(self@.records =~= queued.records_deleting(now));
                            }
                        }
                        proof {
                            assert(record.components@.subrange(0, i as int) =~= record.components@);
                        }
                    },
                    LocalityStatus::Deleting => {},
                }
            },
            None => {},
        }
        proof {
            lemma_notes_frame(unassigned, self@);
        }
    }

    /// Makes the entity `key` a pawn of the connection and queues the
    /// assignment. Nothing changes where it is a pawn already, where the
    /// connection does not have the entity, or where the entity is
    /// `Deleting`.
    pub fn add_pawn_entity(&mut self, key: &EntityKey)
        requires
            old(self)@.wf(),
        ensures
            final(self)@ == old(self)@.add_pawn_entity(*key),
            final(self)@.wf(),
    {
        let local = match self.local_entity_store.get(key) {
            Some(record) => if record.status != LocalityStatus::Deleting {
                Some(record.local_key)
            } else {
                None
            },
            None => None,
        };
        if let Some(local) = local {
            if !self.pawn_entity_store.contains(key) {
                let _ = self.pawn_entity_store.insert(*key);
                self.push_action(ReplicateAction::AssignPawnEntity(*key, local));
            }
        }
        proof {
            lemma_notes_frame(old(self)@, self@);
        }
    }

    /// Ends the pawn assignment of the entity `key` and queues the
    /// unassignment.
    pub fn remove_pawn_entity(&mut self, key: &EntityKey)
        requires
            old(self)@.wf(),
            old(self)@.has_pawn_entity(*key),
        ensures
            final(self)@ == old(self)@.remove_pawn_entity(*key),
            final(self)@.wf(),
    {
        let _ = self.pawn_entity_store.remove(key);
        let local = match self.local_entity_store.get(key) {
            Some(record) => Some(record.local_key),
            None => None,
        };
        if let Some(local) = local {
            self.push_action(ReplicateAction::UnassignPawnEntity(*key, local));
        }
        proof {
            lemma_notes_frame(old(self)@, self@);
        }
    }

    /// Adds a component to an entity that the connection has. The component
    /// gets a record in `Creating` and belongs to the entity from now on.
    /// Where the entity is `Created`, the addition is queued; where it is
    /// `Creating`, the component goes out with the entity's creation; where
    /// it is `Deleting`, nothing is sent. A key that the slot map does not
    /// take changes nothing. A local key must be left.
    pub fn add_component(
        &mut self,
        entity_key: &EntityKey,
        component_key: &ComponentKey,
        component_ref: &Rc<R>,
    )
        requires
            old(self)@.wf(),
            old(self)@.has_entity(*entity_key),
            !old(self)@.has_object(*component_key),
            old(self)@.replicate_keys.left() > 0,
        ensures
            final(self)@ == old(self)@.add_component(*entity_key, *component_key, *component_ref),
            final(self)@.wf(),
    {
        let record = self.entity_record(*entity_key);
        let local = self.replicate_init(component_key, component_ref, LocalityStatus::Creating);
        match (local, record) {
            (Some(local), Some(mut record)) => {
                let stored = canonical_key(*component_key);
                let status = record.status;
                let entity_local = record.local_key;
                if !contains_key(&record.components, stored) {
                    record.components.push(stored);
                }
                self.put_entity(*entity_key, record);
                if status == LocalityStatus::Created {
                    self.push_action(
                        ReplicateAction::AddComponent(
                            entity_local,
                            stored,
                            local,
                            share(component_ref),
                        ),
                    );
                }
            },
            _ => {},
        }
        proof {
            lemma_notes_frame(old(self)@, self@);
        }
    }

    /// Queues an update for each object and component that the client has
    /// and whose diff mask has a bit set: for a pawn the whole state, for
    /// another the changed properties. Nothing is queued for a record in
    /// `Creating` or `Deleting`. The order of the updates is that in which
    /// the record map hands out its keys.
    pub fn collect_replicate_updates(&mut self)
        requires
            old(self)@.wf(),
        ensures
            old(self)@.collected(final(self)@),
            final(self)@.wf(),
    {
        let keys = records_keys(&self.replicate_records);
        let ghost start = self@;
        let ghost mut added: Seq<ActionView<R>> = Seq::empty();
        let mut i: usize = 0;
        assert(start.queue + added =~= start.queue);
        while i < keys.len()
            invariant
                i <= keys@.len(),
                start.base(),
                keys@.no_duplicates(),
                forall|key: u64| keys@.contains(key) <==> start.records.contains_key(key),
                self@ == (ManagerView { queue: start.queue + added, ..start }),
                forall|j: int|
                    0 <= j < added.len() ==> start.needs_update((#[trigger] added[j]).update_key())
                        && added[j] == start.update_action(added[j].update_key()),
                forall|j: int|
                    0 <= j < added.len() ==> exists|m: int|
                        0 <= m < i && keys@[m] == (#[trigger] added[j]).update_key(),
                forall|j: int, k: int|
                    0 <= j < k < added.len() ==> (#[trigger] added[j]).update_key() != (
                    #[trigger] added[k]).update_key(),
                forall|m: int|
                    0 <= m < i && start.needs_update(#[trigger] keys@[m]) ==> exists|j: int|
                        0 <= j < added.len() && (#[trigger] added[j]).update_key() == keys@[m],
            decreases keys@.len() - i,
        {
            let key = keys[i];
            assert(keys@.contains(key));
            let update = match records_get(&self.replicate_records, key) {
                Some(record) => {
                    if record.status == LocalityStatus::Created && !record.diff_mask.is_clear() {
                        match self.replicate_of(key) {
                            Some(replicate) => {
                                if self.pawn_object_store.contains(&key) {
                                    Some(
                                        ReplicateAction::UpdatePawn(
                                            key,
                                            record.local_key,
                                            record.diff_mask.clone(),
                                            share(replicate),
                                        ),
                                    )
                                } else {
                                    Some(
                                        ReplicateAction::UpdateReplicate(
                                            key,
                                            record.local_key,
                                            record.diff_mask.clone(),
                                            share(replicate),
                                        ),
                                    )
                                }
                            },
                            None => None,
                        }
                    } else {
                        None
                    }
                },
                None => None,
            };
            let ghost before = added;
            match update {
                Some(action) => {
                    proof {
                        added = added.push(action@);
                        assert(start.queue + added =~= (start.queue + before).push(action@));
                        assert(action@.update_key() == key);
                        assert forall|j: int| 0 <= j < added.len() implies exists|m: int|
                            0 <= m < i + 1 && keys@[m] == (#[trigger] added[j]).update_key() by {
                            if j < before.len() {
                                assert(added[j] == before[j]);
                                let m = choose|m: int|
                                    0 <= m < i && keys@[m] == before[j].update_key();
                                assert(0 <= m < i + 1 && keys@[m] == added[j].update_key());
                            } else {
                                assert(keys@[i as int] == added[j].update_key());
                            }
                        }
                        assert forall|j: int, k: int| 0 <= j < k < added.len() implies (
                        #[trigger] added[j]).update_key() != (#[trigger] added[k]).update_key() by {
                            if k == before.len() {
                                assert(added[j] == before[j]);
                                let m = choose|m: int|
                                    0 <= m < i && keys@[m] == before[j].update_key();
                                assert(keys@[m] != keys@[i as int]);
                            } else {
                                assert(added[j] == before[j] && added[k] == before[k]);
                            }
                        }
                        assert forall|m: int|
                            0 <= m < i + 1 && start.needs_update(
                                #[trigger] keys@[m],
                            ) implies exists|j: int|
                            0 <= j < added.len() && (#[trigger] added[j]).update_key()
                                == keys@[m] by {
                            if m < i {
                                let j = choose|j: int|
                                    0 <= j < before.len() && (#[trigger] before[j]).update_key()
                                        == keys@[m];
                                assert(added[j] == before[j]);
                            } else {
                                assert(added[before.len() as int].update_key() == keys@[m]);
                            }
                        }
                    }
                    self.push_action(action);
                },
                None => {
                    assert(!start.needs_update(key));
                    assert forall|j: int| 0 <= j < added.len() implies exists|m: int|
                        0 <= m < i + 1 && keys@[m] == (#[trigger] added[j]).update_key() by {
                        let m = choose|m: int| 0 <= m < i && keys@[m] == added[j].update_key();
                        assert(0 <= m < i + 1 && keys@[m] == added[j].update_key());
                    }
                },
            }
            i += 1;
        }
        proof {
            assert forall|key: u64| #[trigger] start.needs_update(key) implies exists|j: int|
                0 <= j < added.len() && (#[trigger] added[j]).update_key() == key by {
                assert(keys@.contains(key));
                let m = choose|m: int| 0 <= m < keys@.len() && keys@[m] == key;
                assert(start.needs_update(keys@[m]));
            }
            assert(start.is_update_round(added));
        }
    }

    /// The record of `key`, if there is one.
    fn find_record(&self, key: u64) -> (found: Option<&ReplicateRecord>)
        requires
            self@.base(),
        ensures
            match found {
                Some(record) => self@.records.contains_key(key) && record@ == self@.records[key],
                None => !self@.records.contains_key(key),
            },
    {
        if canonical_key(key) != key {
            None
        } else {
            records_get(&self.replicate_records, key)
        }
    }

    /// Notes `action` as carried by packet `index`.
    fn note_sent(&mut self, index: u16, action: ReplicateAction<R>)
        requires
            old(self)@.base(),
        ensures
            final(self)@ == old(self)@.sent(index, action@),
            final(self)@.base(),
    {
        let mut list = match self.sent_messages.remove(&index) {
            Some(list) => list,
            None => Vec::new(),
        };
        proof {
            lemma_actions_view_push(list@, action);
            lemma_actions_view_parts(list@, list@, action);
        }
        list.push(action);
        let _ = self.sent_messages.insert(index, list);
        assert(sent_view(self.sent_messages@) =~= old(self)@.sent(index, action@).sent_actions);
    }

    /// The components of the entity `key` as they go out with its creation.
    fn gather_components(&self, key: u64) -> (list: Vec<(ComponentKey, LocalReplicateKey, Rc<R>)>)
        requires
            self@.base(),
        ensures
            self@.entity_creation(key, 0) == ActionView::<R>::CreateEntity(key, 0, Some(list@)),
    {
        let mut list: Vec<(ComponentKey, LocalReplicateKey, Rc<R>)> = Vec::new();
        match self.local_entity_store.get(&key) {
            Some(entity) => {
                let mut i: usize = 0;
                while i < entity.components.len()
                    invariant
                        i <= entity.components@.len(),
                        self@.base(),
                        list@ == self@.entity_components(entity.components@, i as int),
                    decreases entity.components@.len() - i,
                {
                    let component = entity.components[i];
                    match self.find_record(component) {
                        Some(record) => {
                            match self.replicate_of(component) {
                                Some(replicate) => {
                                    list.push((component, record.local_key, share(replicate)));
                                },
                                None => {},
                            }
                        },
                        None => {},
                    }
                    i += 1;
                }
            },
            None => {},
        }
        list
    }

    /// The diff mask that an update of `key` carries when it is popped.
    fn lock_mask(&self, key: u64, queued: DiffMask) -> (locked: DiffMask)
        requires
            self@.base(),
        ensures
            locked@ == self@.locked_mask(key, queued@),
    {
        match self.find_record(key) {
            Some(record) => record.diff_mask.clone(),
            None => queued,
        }
    }

    /// Saves and clears the diff mask of `key`, whose creation goes out.
    fn pop_create_replicate_diff_mask(&mut self, key: u64)
        requires
            old(self)@.base(),
        ensures
            final(self)@ == old(self)@.pop_create(key),
            final(self)@.base(),
    {
        let saved = match self.find_record(key) {
            Some(record) => Some(record.diff_mask.clone()),
            None => None,
        };
        if let Some(mask) = saved {
            self.last_popped_diff_mask = Some(mask);
            self.clear_replicate(key);
        }
    }

    /// Saves and clears the diff mask of each component of `list`, which go
    /// out with their entity's creation.
    fn pop_create_entity_diff_masks(&mut self, list: &Vec<(ComponentKey, LocalReplicateKey, Rc<R>)>)
        requires
            old(self)@.base(),
        ensures
            final(self)@ == old(self)@.pop_create_entity(list@),
            final(self)@.base(),
            final(self)@.sent_actions == old(self)@.sent_actions,
            final(self)@.sent_updates == old(self)@.sent_updates,
    {
        let mut saved: Vec<(ComponentKey, DiffMask)> = Vec::new();
        let ghost start = self@;
        let mut i: usize = 0;
        assert(saved_view(saved@) =~= start.saved_masks(list@, 0));
        while i < list.len()
            invariant
                i <= list@.len(),
                self@.base(),
                self@ == start.cleared_components(list@, i as int),
                self@.sent_actions == start.sent_actions,
                self@.sent_updates == start.sent_updates,
                saved_view(saved@) == start.saved_masks(list@, i as int),
            decreases list@.len() - i,
        {
            let key = list[i].0;
            let ghost before = saved@;
            match self.find_record(key) {
                Some(record) => {
                    let mask = record.diff_mask.clone();
                    saved.push((key, mask));
                    assert(saved_view(saved@) =~= saved_view(before).push((key, mask@)));
                },
                None => {},
            }
            self.clear_replicate(key);
            i += 1;
        }
        self.last_popped_diff_mask_list = Some(saved);
    }

    /// Notes the diff mask that an update of `key` carries in packet
    /// `packet_index`, beside what the packet is noted with for the object
    /// already, saves it, and clears the record's diff mask.
    fn process_replicate_update(&mut self, packet_index: u16, key: u64, locked: &DiffMask)
        requires
            old(self)@.base(),
        ensures
            final(self)@ == old(self)@.process_update(packet_index, key, locked@),
            final(self)@.base(),
    {
        let ghost start = self@;
        let mut masks = match self.sent_updates.remove(&packet_index) {
            Some(masks) => masks,
            None => {
                self.last_last_update_packet_index = self.last_update_packet_index;
                self.last_update_packet_index = packet_index;
                HashMap::new()
            },
        };
        let ghost before = masks@;
        let mut noted = locked.clone();
        match masks.get(&key) {
            Some(other) => {
                noted.or(other);
            },
            None => {},
        }
        let _ = masks.insert(key, noted);
        assert(masks_view(masks@) =~= masks_view(before).insert(
            key,
            ManagerView::<R>::joined(masks_view(before), key, locked@),
        ));
        assert(masks_view(Map::<u64, DiffMask>::empty()) =~= Map::<u64, Seq<u8>>::empty());
        let _ = self.sent_updates.insert(packet_index, masks);
        assert(updates_view(self.sent_updates@) =~= start.sent_updates.insert(
            packet_index,
            masks_view(masks@),
        ));
        self.last_popped_diff_mask = Some(locked.clone());
        self.clear_replicate(key);
    }

    /// Whether a queued action is an update that is out of date.
    fn is_stale(&self, action: &ReplicateAction<R>) -> (stale: bool)
        requires
            self@.base(),
        ensures
            stale == self@.is_stale(action@),
    {
        let key = match action {
            ReplicateAction::UpdateReplicate(key, _, _, _) => Some(*key),
            ReplicateAction::UpdatePawn(key, _, _, _) => Some(*key),
            _ => None,
        };
        match key {
            Some(key) => {
                match self.find_record(key) {
                    Some(record) => record.status != LocalityStatus::Created,
                    None => true,
                }
            },
            None => false,
        }
    }

    /// Takes the updates that are out of date off the head of the queue, and
    /// then the action after them, which it gives.
    fn take_fresh(&mut self) -> (head: Option<ReplicateAction<R>>)
        requires
            old(self)@.base(),
        ensures
            final(self)@.base(),
            match head {
                Some(head) => old(self)@.fresh(old(self)@.queue).len() > 0 && !old(self)@.is_stale(
                    head@,
                ) && head@ == old(self)@.fresh(old(self)@.queue)[0] && final(self)@
                    == (ManagerView {
                    queue: old(self)@.fresh(old(self)@.queue).drop_first(),
                    ..old(self)@
                }),
                None => old(self)@.fresh(old(self)@.queue).len() == 0 && final(self)@
                    == (ManagerView { queue: Seq::empty(), ..old(self)@ }),
            },
    {
        loop
            invariant
                self@.base(),
                self@ == (ManagerView { queue: self@.queue, ..old(self)@ }),
                old(self)@.fresh(old(self)@.queue) == old(self)@.fresh(self@.queue),
            decreases self@.queue.len(),
        {
            let ghost before = self.queued_messages@;
            let ghost prev = self@;
            match self.queued_messages.pop_front() {
                Some(head) => {
                    proof {
                        lemma_actions_view_parts(before, before, head);
                        assert(head@ == actions_view(before)[0]);
                        assert(self@ == (ManagerView { queue: prev.queue.drop_first(), ..prev }));
                        assert(self@.is_stale(head@) == old(self)@.is_stale(head@));
                    }
                    if !self.is_stale(&head) {
                        return Some(head);
                    }
                },
                None => {
                    assert(self@.queue =~= Seq::<ActionView<R>>::empty());
                    return None;
                },
            }
        }
    }

    /// Takes the next action to send off the queue, for the packet
    /// `packet_index`, and gives it. An update at the head of the queue that
    /// is out of date, because the connection has its object no more or not
    /// in `Created`, leaves the queue without a note and is not given: an
    /// update is given only for a record in `Created`. Nothing is given
    /// where no action is left. The action given is noted as carried by the
    /// packet. An entity creation is given with the components that the
    /// entity has at this moment. An update is given with the diff mask of
    /// this moment, which is noted for the packet, beside what the packet
    /// is noted with for the object already. The diff masks of what a
    /// creation or an update sends are saved and cleared.
    pub fn pop_outgoing_action(&mut self, packet_index: u16) -> (action: Option<ReplicateAction<R>>)
        requires
            old(self)@.wf(),
        ensures
            final(self)@ == old(self)@.pop_outgoing_action(packet_index),
            final(self)@.wf(),
            match action {
                Some(action) => old(self)@.popped_action() == Some(action@) && (
                action@.is_update() ==> old(self)@.records.contains_key(action@.update_key())
                    && old(self)@.records[action@.update_key()].status
                    == LocalityStatus::Created),
                None => old(self)@.popped_action() is None,
            },
    {
        let head = match self.take_fresh() {
            Some(head) => head,
            None => {
                proof {
                    lemma_notes_frame(old(self)@, self@);
                    assert(old(self)@.fresh(old(self)@.queue) =~= Seq::<ActionView<R>>::empty());
                }
                return None;
            },
        };
        let ghost taken = self@;
        let ghost first = head@;
        assert(!old(self)@.is_stale(first));
        let message = match head {
            ReplicateAction::CreateEntity(key, local, _) => {
                let list = self.gather_components(key);
                assert(self@.entity_creation(key, local) == ActionView::<R>::CreateEntity(
                    key,
                    local,
                    Some(list@),
                ));
                proof {
                    if self@.entities.contains_key(key) {
                        let components = self@.entities[key].components;
                        lemma_entity_components_frame(
                            old(self)@,
                            self@,
                            components,
                            components.len() as int,
                        );
                    }
                }
                assert(old(self)@.entity_creation(key, local) == self@.entity_creation(key, local));
                ReplicateAction::CreateEntity(key, local, Some(list))
            },
            ReplicateAction::UpdateReplicate(key, local, queued, replicate) => {
                let locked = self.lock_mask(key, queued);
                assert(old(self)@.locked_mask(key, queued@) == locked@);
                ReplicateAction::UpdateReplicate(key, local, locked, replicate)
            },
            ReplicateAction::UpdatePawn(key, local, queued, replicate) => {
                let locked = self.lock_mask(key, queued);
                assert(old(self)@.locked_mask(key, queued@) == locked@);
                ReplicateAction::UpdatePawn(key, local, locked, replicate)
            },
            other => {
                assert(old(self)@.popped_action() == Some(other@));
                other
            },
        };
        assert(old(self)@.popped_action() == Some(message@));
        assert(message@.is_update() == first.is_update());
        assert(message@.is_update() ==> message@.update_key() == first.update_key());
        self.note_sent(packet_index, message.clone());
        let ghost noted = self@;
        proof {
            lemma_notes_frame(old(self)@, taken);
            lemma_sent_keeps_notes(taken, packet_index, message@);
        }
        match &message {
            ReplicateAction::CreateObject(key, _, _) => {
                self.pop_create_replicate_diff_mask(*key);
                proof {
                    lemma_notes_frame(noted, self@);
                }
            },
            ReplicateAction::AddComponent(_, key, _, _) => {
                self.pop_create_replicate_diff_mask(*key);
                proof {
                    lemma_notes_frame(noted, self@);
                }
            },
            ReplicateAction::CreateEntity(_, _, Some(list)) => {
                self.pop_create_entity_diff_masks(list);
                proof {
                    lemma_notes_frame(noted, self@);
                }
            },
            ReplicateAction::UpdateReplicate(key, _, locked, _) => {
                proof {
                    lemma_process_update_notes(noted, packet_index, *key, locked@);
                }
                self.process_replicate_update(packet_index, *key, locked);
            },
            ReplicateAction::UpdatePawn(key, _, locked, _) => {
                proof {
                    lemma_process_update_notes(noted, packet_index, *key, locked@);
                }
                self.process_replicate_update(packet_index, *key, locked);
            },
            _ => {},
        }
        Some(message)
    }

    /// Puts `action` at the head of the queue.
    fn push_front(&mut self, action: ReplicateAction<R>)
        ensures
            final(self)@ == (ManagerView {
                queue: seq![action@] + old(self)@.queue,
                ..old(self)@
            }),
    {
        proof {
            lemma_actions_view_parts(self.queued_messages@, self.queued_messages@, action);
        }
        self.queued_messages.push_front(action);
    }

    /// Takes the last action of packet `index` back from what the packet
    /// carries, and gives it.
    fn forget_sent(&mut self, index: u16) -> (removed: Option<ReplicateAction<R>>)
        requires
            old(self)@.base(),
        ensures
            final(self)@ == old(self)@.unsent(index),
            final(self)@.base(),
            match removed {
                Some(action) => old(self)@.sent_actions.contains_key(index) && action@ == old(
                    self,
                )@.sent_actions[index].last(),
                None => !old(self)@.sent_actions.contains_key(index),
            },
    {
        match self.sent_messages.remove(&index) {
            Some(mut list) => {
                let ghost before = list@;
                assert(old(self)@.sent_actions.contains_key(index));
                assert(actions_view(before).len() > 0);
                let removed = list.pop();
                if list.len() > 0 {
                    proof {
                        lemma_actions_view_parts(before, before, before[0]);
                        assert(list@ =~= before.drop_last());
                    }
                    let _ = self.sent_messages.insert(index, list);
                    assert(sent_view(self.sent_messages@) =~= old(self)@.unsent(index).sent_actions);
                } else {
                    assert(sent_view(self.sent_messages@) =~= old(self)@.unsent(index).sent_actions);
                }
                removed
            },
            None => {
                assert(sent_view(self.sent_messages@) =~= old(self)@.sent_actions);
                None
            },
        }
    }

    /// Puts the saved diff mask back into the record of `key`.
    fn unpop_create_replicate_diff_mask(&mut self, key: u64)
        requires
            old(self)@.base(),
        ensures
            final(self)@ == old(self)@.unpop_create(key),
            final(self)@.base(),
    {
        let saved = match &self.last_popped_diff_mask {
            Some(mask) => Some(mask.clone()),
            None => None,
        };
        if let Some(mask) = saved {
            self.set_replicate(key, &mask);
        }
    }

    /// A copy of the diff masks that the last popped entity creation saved.
    fn saved_masks(&self) -> (saved: Option<Vec<(ComponentKey, DiffMask)>>)
        ensures
            match saved {
                Some(list) => self@.last_popped_diff_mask_list == Some(saved_view(list@)),
                None => self@.last_popped_diff_mask_list is None,
            },
    {
        match &self.last_popped_diff_mask_list {
            Some(list) => {
                let mut copy: Vec<(ComponentKey, DiffMask)> = Vec::new();
                let mut i: usize = 0;
                while i < list.len()
                    invariant
                        i <= list@.len(),
                        copy@.len() == i,
                        forall|j: int|
                            0 <= j < i ==> (#[trigger] copy@[j]).0 == list@[j].0 && copy@[j].1@
                                == list@[j].1@,
                    decreases list@.len() - i,
                {
                    copy.push((list[i].0, list[i].1.clone()));
                    i += 1;
                }
                assert(saved_view(copy@) =~= saved_view(list@));
                Some(copy)
            },
            None => None,
        }
    }

    /// Whether the packet `index` is noted with an update of `key`.
    fn carries_update(&self, index: u16, key: u64) -> (carries: bool)
        ensures
            carries == self@.carries_update(index, key),
    {
        match self.sent_messages.get(&index) {
            Some(list) => {
                let mut i: usize = 0;
                while i < list.len()
                    invariant
                        i <= list@.len(),
                        self@.sent_actions.contains_key(index),
                        self@.sent_actions[index] == actions_view(list@),
                        forall|j: int|
                            0 <= j < i ==> !((#[trigger] actions_view(list@)[j]).is_update()
                                && actions_view(list@)[j].update_key() == key),
                    decreases list@.len() - i,
                {
                    let found = match &list[i] {
                        ReplicateAction::UpdateReplicate(other, _, _, _) => *other == key,
                        ReplicateAction::UpdatePawn(other, _, _, _) => *other == key,
                        _ => false,
                    };
                    if found {
                        assert(actions_view(list@)[i as int].is_update());
                        return true;
                    }
                    i += 1;
                }
                false
            },
            None => false,
        }
    }

    /// Undoes the update of `key` for packet `packet_index`, once the
    /// update is gone from the actions of the packet: the packet is noted
    /// without the bits of `sent` for the object, or with no mask for it
    /// where it carries no other update of it, and the saved mask is back in
    /// the record.
    fn undo_replicate_update(&mut self, packet_index: u16, key: u64, sent: &DiffMask)
        requires
            old(self)@.base(),
        ensures
            final(self)@ == old(self)@.undo_update(packet_index, key, sent@),
            final(self)@.base(),
    {
        let ghost start = self@;
        let carried = self.carries_update(packet_index, key);
        match self.sent_updates.remove(&packet_index) {
            Some(mut masks) => {
                let ghost before = masks@;
                let rest = match masks.get(&key) {
                    Some(noted) => if carried {
                        let mut rest = noted.clone();
                        rest.nand(sent);
                        Some(rest)
                    } else {
                        None
                    },
                    None => None,
                };
                match rest {
                    Some(rest) => {
                        let _ = masks.insert(key, rest);
                    },
                    None => {
                        let _ = masks.remove(&key);
                    },
                }
                proof {
                    assert(masks_view(before) == start.sent_updates[packet_index]);
                    assert(masks_view(masks@) =~= start.without_update(packet_index, key, sent@));
                    assert(masks_view(masks@).dom() =~= masks@.dom());
                }
                if masks.len() > 0 {
                    let _ = self.sent_updates.insert(packet_index, masks);
                    assert(updates_view(self.sent_updates@) =~= start.sent_updates.insert(
                        packet_index,
                        masks_view(masks@),
                    ));
                } else {
                    assert(updates_view(self.sent_updates@) =~= start.sent_updates.remove(
                        packet_index,
                    ));
                }
            },
            None => {
                assert(updates_view(self.sent_updates@) =~= start.sent_updates);
            },
        }
        self.last_update_packet_index = self.last_last_update_packet_index;
        self.unpop_create_replicate_diff_mask(key);
    }

    /// Takes back the action that was popped last for the packet
    /// `packet_index`, which the packet has no room for: the last action
    /// that the packet is noted with, or `message` where the packet is noted
    /// with none. The action is at the head of the queue again, the packet
    /// carries it no more, and the diff masks that the pop cleared have
    /// their bits again, beside those that were set since. An update goes
    /// back with the diff mask that the record has then; its bits leave
    /// what the packet is noted with for the object, and the note goes
    /// where the packet carries no other update of the object.
    pub fn unpop_outgoing_action(&mut self, packet_index: u16, message: &ReplicateAction<R>)
        requires
            old(self)@.wf(),
        ensures
            final(self)@ == old(self)@.unpop_outgoing_action(packet_index, message@),
            final(self)@.wf(),
    {
        let action = match self.forget_sent(packet_index) {
            Some(action) => action,
            None => message.clone(),
        };
        assert(action@ == old(self)@.taken_back(packet_index, message@));
        let ghost taken = self@;
        match &action {
            ReplicateAction::CreateObject(key, _, _) => {
                self.unpop_create_replicate_diff_mask(*key);
                self.push_front(action.clone());
            },
            ReplicateAction::AddComponent(_, key, _, _) => {
                self.unpop_create_replicate_diff_mask(*key);
                self.push_front(action.clone());
            },
            ReplicateAction::CreateEntity(_, _, _) => {
                match self.saved_masks() {
                    Some(saved) => {
                        let ghost start = self@;
                        let mut i: usize = 0;
                        while i < saved.len()
                            invariant
                                i <= saved@.len(),
                                self@.base(),
                                self@ == start.restored_components(saved_view(saved@), i as int),
                                self@.sent_actions == start.sent_actions,
                                self@.sent_updates == start.sent_updates,
                            decreases saved@.len() - i,
                        {
                            self.set_replicate(saved[i].0, &saved[i].1);
                            i += 1;
                        }
                    },
                    None => {},
                }
                self.push_front(action.clone());
            },
            ReplicateAction::UpdateReplicate(key, local, sent, replicate) => {
                self.undo_replicate_update(packet_index, *key, sent);
                let mask = self.lock_mask(*key, sent.clone());
                self.push_front(
                    ReplicateAction::UpdateReplicate(*key, *local, mask, share(replicate)),
                );
            },
            ReplicateAction::UpdatePawn(key, local, sent, replicate) => {
                self.undo_replicate_update(packet_index, *key, sent);
                let mask = self.lock_mask(*key, sent.clone());
                self.push_front(ReplicateAction::UpdatePawn(*key, *local, mask, share(replicate)));
            },
            _ => {
                self.push_front(action.clone());
            },
        }
        proof {
            lemma_unpop_notes(old(self)@, self@, packet_index, message@);
        }
    }

    /// Sets the record of `key` to `Created`, where it is `Creating`.
    fn promote(&mut self, key: u64)
        requires
            old(self)@.base(),
        ensures
            final(self)@ == old(self)@.promoted(key),
            final(self)@.base(),
    {
        let creating = match self.find_record(key) {
            Some(record) => record.status == LocalityStatus::Creating,
            None => false,
        };
        if creating {
            self.set_status(key, LocalityStatus::Created);
        }
    }

    /// Takes note that the creation of `key` was acknowledged, where its
    /// record is `Creating`: a deletion that waited for this is queued now;
    /// else the record is `Created`.
    fn created(&mut self, key: u64)
        requires
            old(self)@.base(),
        ensures
            final(self)@ == old(self)@.created(key),
            final(self)@.base(),
    {
        let found = match self.find_record(key) {
            Some(record) => record.status == LocalityStatus::Creating,
            None => false,
        };
        if found {
            let delayed = self.delayed_replicate_deletions.remove(&key);
            assert(delayed == old(self)@.delayed_deletions.contains(key));
            assert(self@ == (ManagerView {
                delayed_deletions: old(self)@.delayed_deletions.remove(key),
                ..old(self)@
            }));
            if delayed {
                self.replicate_delete(key);
            } else {
                assert(self@.delayed_deletions =~= old(self)@.delayed_deletions);
                self.set_status(key, LocalityStatus::Created);
            }
        }
    }

    /// Takes note that the creation of the entity `key` with the components
    /// `list` was acknowledged.
    fn entity_created(
        &mut self,
        key: u64,
        list: &Option<Vec<(ComponentKey, LocalReplicateKey, Rc<R>)>>,
    )
        requires
            old(self)@.base(),
        ensures
            final(self)@ == old(self)@.entity_created(
                key,
                match *list {
                    Some(list) => Some(list@),
                    None => None,
                },
            ),
            final(self)@.base(),
            final(self)@.sent_actions == old(self)@.sent_actions,
            final(self)@.sent_updates == old(self)@.sent_updates,
    {
        let record = match self.entity_record(key) {
            Some(record) => record,
            None => {
                return ;
            },
        };
        if record.status != LocalityStatus::Creating {
            return ;
        }
        if self.delayed_entity_deletions.remove(&key) {
            self.entity_delete(key);
            return ;
        }
        assert(self@.delayed_entity_deletions =~= old(self)@.delayed_entity_deletions);
        let local = record.local_key;
        let components = clone_keys(&record.components);
        let mut marked = record;
        marked.status = LocalityStatus::Created;
        self.put_entity(key, marked);
        let ghost start = self@;
        match list {
            Some(list) => {
                let mut i: usize = 0;
                while i < list.len()
                    invariant
                        i <= list@.len(),
                        self@.base(),
                        self@ == start.created_components(list@, i as int),
                        self@.sent_actions == start.sent_actions,
                        self@.sent_updates == start.sent_updates,
                    decreases list@.len() - i,
                {
                    self.promote(list[i].0);
                    i += 1;
                }
            },
            None => {},
        }
        let ghost with_components = self@;
        let mut i: usize = 0;
        while i < components.len()
            invariant
                i <= components@.len(),
                self@.base(),
                self@ == with_components.queued_additions(local, components@, i as int),
                self@.sent_actions == with_components.sent_actions,
                self@.sent_updates == with_components.sent_updates,
            decreases components@.len() - i,
        {
            let component = components[i];
            let addition = match self.find_record(component) {
                Some(record) => {
                    if record.status == LocalityStatus::Creating {
                        match self.replicate_of(component) {
                            Some(replicate) => Some(
                                ReplicateAction::AddComponent(
                                    local,
                                    component,
                                    record.local_key,
                                    share(replicate),
                                ),
                            ),
                            None => None,
                        }
                    } else {
                        None
                    }
                },
                None => None,
            };
            if let Some(action) = addition {
                self.push_action(action);
            }
            i += 1;
        }
    }

    /// Takes note that the deletion of the entity `key` was acknowledged,
    /// and gives the components whose records are to be cleaned up.
    fn entity_deleted(&mut self, key: u64, local: u16) -> (components: Vec<ComponentKey>)
        requires
            old(self)@.base(),
        ensures
            final(self)@ == old(self)@.entity_deleted(key),
            final(self)@.base(),
            components@ == old(self)@.deleted_by(ActionView::DeleteEntity(key, local)),
    {
        match self.local_entity_store.remove(&key) {
            Some(record) => {
                let local = record.local_key;
                proof {
                    lemma_recycled_is_fresh(
                        old(self)@.entity_keys,
                        old(self)@.local_to_global_entity.dom(),
                        local,
                    );
                }
                let _ = self.local_to_global_entity_key_map.remove(&local);
                self.entity_key_generator.recycle_key(&local);
                let _ = self.pawn_entity_store.remove(&key);
                assert(entities_view(self.local_entity_store@) =~= old(self)@.entities.remove(key));
                record.components
            },
            None => {
                assert(entities_view(self.local_entity_store@) =~= old(self)@.entities);
                Vec::new()
            },
        }
    }

    /// Cleans up the record of `key`: the record, its replicate and its pawn
    /// mark go, and its local key is free again.
    fn replicate_cleanup(&mut self, key: u64)
        requires
            old(self)@.base(),
        ensures
            final(self)@ == old(self)@.replicate_cleanup(key),
            final(self)@.base(),
    {
        let local = match self.find_record(key) {
            Some(record) => record.local_key,
            None => {
                return ;
            },
        };
        proof {
            lemma_slots_ok_kept(record_view(self.replicate_records), key, self@.records[key]);
            lemma_recycled_is_fresh(self@.replicate_keys, self@.local_to_global.dom(), local);
        }
        let _ = records_remove(&mut self.replicate_records, key);
        let _ = self.local_replicate_store.remove(&slot_of(key));
        assert(self@.replicas =~= old(self)@.replicas.remove(key));
        let _ = self.local_to_global_replicate_key_map.remove(&local);
        self.replicate_key_generator.recycle_key(&local);
        let _ = self.pawn_object_store.remove(&key);
    }

    /// Takes note that the packet `packet_index` has arrived. What it
    /// carried is forgotten, and each of its actions takes effect, in order:
    /// a created object, component or entity becomes `Created`, or has the
    /// deletion queued that waited for it; the additions of the components
    /// that joined a created entity since are queued; the diff masks noted
    /// for the packet are forgotten; a deleted entity loses its record.
    /// Afterwards the records of the deleted objects, and of the components
    /// of the deleted entities, are cleaned up.
    pub fn notify_packet_delivered(&mut self, packet_index: u16)
        requires
            old(self)@.wf(),
        ensures
            final(self)@ == old(self)@.notify_packet_delivered(packet_index),
            final(self)@.wf(),
    {
        let list = match self.sent_messages.remove(&packet_index) {
            Some(list) => list,
            None => {
                assert(sent_view(self.sent_messages@) =~= old(self)@.sent_actions);
                proof {
                    lemma_notes_frame(old(self)@, self@);
                }
                return ;
            },
        };
        assert(sent_view(self.sent_messages@) =~= old(self)@.sent_actions.remove(packet_index));
        let ghost start = self@;
        let ghost actions = actions_view(list@);
        assert(actions == old(self)@.sent_actions[packet_index]);
        let mut deleted: Vec<ObjectKey> = Vec::new();
        let mut i: usize = 0;
        while i < list.len()
            invariant
                i <= list@.len(),
                actions == actions_view(list@),
                self@.base(),
                self@ == start.delivered_actions(packet_index, actions, i as int),
                deleted@ == start.deleted_records(packet_index, actions, i as int),
                self@.sent_actions == start.sent_actions,
                self@.sent_updates == start.sent_updates || self@.sent_updates
                    == start.sent_updates.remove(packet_index),
                self@.sent_updates.contains_key(packet_index) ==> forall|j: int|
                    0 <= j < i ==> !(#[trigger] actions[j]).is_update(),
            decreases list@.len() - i,
        {
            let ghost before = self@;
            let ghost marked = deleted@;
            assert(actions[i as int] == list@[i as int]@);
            match &list[i] {
                ReplicateAction::CreateObject(key, _, _) => {
                    self.created(*key);
                },
                ReplicateAction::AddComponent(_, key, _, _) => {
                    self.created(*key);
                },
                ReplicateAction::DeleteReplicate(key, _) => {
                    deleted.push(*key);
                },
                ReplicateAction::UpdateReplicate(_, _, _, _) => {
                    let _ = self.sent_updates.remove(&packet_index);
                    assert(updates_view(self.sent_updates@) =~= before.sent_updates.remove(
                        packet_index,
                    ));
                },
                ReplicateAction::UpdatePawn(_, _, _, _) => {
                    let _ = self.sent_updates.remove(&packet_index);
                    assert(updates_view(self.sent_updates@) =~= before.sent_updates.remove(
                        packet_index,
                    ));
                },
                ReplicateAction::CreateEntity(key, _, components) => {
                    self.entity_created(*key, components);
                },
                ReplicateAction::DeleteEntity(key, local) => {
                    let components = self.entity_deleted(*key, *local);
                    let mut j: usize = 0;
                    while j < components.len()
                        invariant
                            j <= components@.len(),
                            deleted@ == marked + components@.subrange(0, j as int),
                        decreases components@.len() - j,
                    {
                        deleted.push(components[j]);
                        j += 1;
                        assert(deleted@ =~= marked + components@.subrange(0, j as int));
                    }
                    assert(components@.subrange(0, j as int) =~= components@);
                },
                _ => {},
            }
            assert(self@ == before.delivered_action(packet_index, actions[i as int]));
            assert(deleted@ =~= marked + before.deleted_by(actions[i as int]));
            i += 1;
        }
        let ghost handled = self@;
        let mut i: usize = 0;
        while i < deleted.len()
            invariant
                i <= deleted@.len(),
                self@.base(),
                self@ == handled.cleaned_up(deleted@, i as int),
                self@.sent_actions == handled.sent_actions,
                self@.sent_updates == handled.sent_updates,
            decreases deleted@.len() - i,
        {
            self.replicate_cleanup(deleted[i]);
            i += 1;
        }
        proof {
            let before = old(self)@;
            let after = self@;
            assert forall|other: u16, key: u64|
                after.sent_updates.contains_key(other)
                    && #[trigger] after.sent_updates[other].contains_key(
                    key,
                ) implies after.carries_update(other, key) by {
                assert(before.sent_updates.contains_key(other));
                assert(before.sent_updates[other].contains_key(key));
                assert(before.carries_update(other, key));
                let at = choose|at: int|
                    0 <= at < before.sent_actions[other].len() && (
                    #[trigger] before.sent_actions[other][at]).is_update()
                        && before.sent_actions[other][at].update_key() == key;
                if other == packet_index {
                    assert(actions[at].is_update());
                } else {
                    assert(after.sent_actions[other] == before.sent_actions[other]);
                }
            }
        }
    }

    /// The bits of the update of `key` in the lost packet `dropped` that
    /// must be sent again.
    fn wanted_mask(&self, key: u64, dropped: u16, mask: DiffMask) -> (wanted: DiffMask)
        ensures
            wanted@ == still_wanted(
                self@.sent_updates,
                key,
                mask@,
                dropped,
                self@.last_update_packet_index,
            ),
    {
        let mut wanted = mask;
        let last = self.last_update_packet_index;
        if dropped != last {
            let mut index: u16 = dropped.wrapping_add(1);
            while index != last
                invariant
                    last == self@.last_update_packet_index,
                    later_masked(self@.sent_updates, key, wanted@, index, last) == later_masked(
                        self@.sent_updates,
                        key,
                        mask@,
                        next_index(dropped),
                        last,
                    ),
                decreases steps_between(index, last),
            {
                match self.sent_updates.get(&index) {
                    Some(masks) => {
                        match masks.get(&key) {
                            Some(later) => {
                                wanted.nand(later);
                            },
                            None => {},
                        }
                    },
                    None => {},
                }
                index = index.wrapping_add(1);
            }
        }
        wanted
    }

    /// Takes note that the packet `dropped_packet_index` is given up as
    /// lost. Each of its actions is handled in order: an update gives its
    /// bits back to the record's diff mask, as far as no packet strictly
    /// between the lost one and the last one that began to carry updates has
    /// sent them since; every other action goes to the end of the queue, to
    /// be sent again. Then what the packet carried is forgotten.
    pub fn notify_packet_dropped(&mut self, dropped_packet_index: u16)
        requires
            old(self)@.wf(),
        ensures
            final(self)@ == old(self)@.notify_packet_dropped(dropped_packet_index),
            final(self)@.wf(),
    {
        let list = match self.sent_messages.remove(&dropped_packet_index) {
            Some(list) => list,
            None => {
                assert(sent_view(self.sent_messages@) =~= old(self)@.sent_actions);
                proof {
                    lemma_notes_frame(old(self)@, self@);
                }
                return ;
            },
        };
        assert(sent_view(self.sent_messages@) =~= old(self)@.sent_actions.remove(
            dropped_packet_index,
        ));
        let ghost start = self@;
        let ghost actions = actions_view(list@);
        let mut i: usize = 0;
        while i < list.len()
            invariant
                i <= list@.len(),
                actions == actions_view(list@),
                self@.base(),
                self@ == start.dropped_actions(dropped_packet_index, actions, i as int),
                self@.sent_actions == start.sent_actions,
                self@.sent_updates == start.sent_updates,
            decreases list@.len() - i,
        {
            let ghost before = self@;
            assert(actions[i as int] == list@[i as int]@);
            let key = match &list[i] {
                ReplicateAction::UpdateReplicate(key, _, _, _) => Some(*key),
                ReplicateAction::UpdatePawn(key, _, _, _) => Some(*key),
                _ => None,
            };
            match key {
                Some(key) => {
                    let sent = match self.sent_updates.get(&dropped_packet_index) {
                        Some(masks) => {
                            match masks.get(&key) {
                                Some(mask) => Some(mask.clone()),
                                None => None,
                            }
                        },
                        None => None,
                    };
                    if let Some(mask) = sent {
                        let wanted = self.wanted_mask(key, dropped_packet_index, mask);
                        self.set_replicate(key, &wanted);
                    }
                },
                None => {
                    self.push_action(list[i].clone());
                },
            }
            assert(self@ == before.dropped_action(dropped_packet_index, actions[i as int]));
            i += 1;
        }
        let ghost handled = self@;
        let _ = self.sent_updates.remove(&dropped_packet_index);
        assert(updates_view(self.sent_updates@) =~= handled.sent_updates.remove(
            dropped_packet_index,
        ));
        proof {
            let before = old(self)@;
            let after = self@;
            assert forall|other: u16, key: u64|
                after.sent_updates.contains_key(other)
                    && #[trigger] after.sent_updates[other].contains_key(
                    key,
                ) implies after.carries_update(other, key) by {
                assert(before.sent_updates.contains_key(other));
                assert(before.sent_updates[other].contains_key(key));
                assert(before.carries_update(other, key));
                assert(after.sent_actions[other] == before.sent_actions[other]);
            }
        }
    }

    /// Writes an action into the packet, if the packet has room for it, and
    /// says whether it did. The action takes the bytes that its wire form
    /// has. It has room where the payload does not exceed the limit of a
    /// packet, counting two bytes for the section header with the first action, and
    /// where the packet holds fewer than 255 actions. An action that has no
    /// room leaves the packet as it is: the caller takes the pop back.
    pub fn write_replicate_action(
        &self,
        packet_writer: &mut PacketWriter,
        manifest: &Manifest,
        message: &ReplicateAction<R>,
    ) -> (wrote: bool)
        requires
            writable(manifest@, message@),
        ensures
            wrote == has_room(
                old(packet_writer)@.bytes_number(),
                action_bytes(manifest@, message@).len() as int,
                old(packet_writer)@.action_count,
            ),
            final(packet_writer)@ == (if wrote {
                WriterView {
                    action_bytes: old(packet_writer)@.action_bytes + action_bytes(
                        manifest@,
                        message@,
                    ),
                    action_count: (old(packet_writer)@.action_count + 1) as u8,
                    ..old(packet_writer)@
                }
            } else {
                old(packet_writer)@
            }),
    {
        let replicate_total_bytes = encode_action(manifest, message);
        packet_writer.write_action_bytes(&replicate_total_bytes)
    }

    /// Where the record of the object or component `key` stands in its life.
    pub fn get_status(&self, key: &ObjectKey) -> (status: Option<LocalityStatus>)
        ensures
            status == (if self@.has_object(*key) {
                Some(self@.records[canonical(*key)].status)
            } else {
                None
            }),
    {
        match records_get(&self.replicate_records, *key) {
            Some(record) => Some(record.status),
            None => None,
        }
    }

    /// The local key of the object or component `key`.
    pub fn get_local_key(&self, key: &ObjectKey) -> (local: Option<LocalReplicateKey>)
        ensures
            local == (if self@.has_object(*key) {
                Some(self@.records[canonical(*key)].local_key)
            } else {
                None
            }),
    {
        match records_get(&self.replicate_records, *key) {
            Some(record) => Some(record.local_key),
            None => None,
        }
    }

    /// A copy of the diff mask of the object or component `key`.
    pub fn get_diff_mask(&self, key: &ObjectKey) -> (mask: Option<DiffMask>)
        ensures
            match mask {
                Some(mask) => self@.has_object(*key) && mask@ == self@.records[canonical(
                    *key,
                )].mask,
                None => !self@.has_object(*key),
            },
    {
        match records_get(&self.replicate_records, *key) {
            Some(record) => Some(record.diff_mask.clone()),
            None => None,
        }
    }

    /// The number of actions that are noted as carried by the packet
    /// `packet_index`: none for a packet that carries nothing, that has
    /// arrived, or that was given up.
    pub fn sent_actions_number(&self, packet_index: u16) -> (number: usize)
        ensures
            number == (if self@.sent_actions.contains_key(packet_index) {
                self@.sent_actions[packet_index].len()
            } else {
                0
            }),
    {
        match self.sent_messages.get(&packet_index) {
            Some(list) => list.len(),
            None => 0,
        }
    }

    /// The number of actions that wait to be sent.
    pub fn queued_actions_number(&self) -> (number: usize)
        ensures
            number == self@.queue.len(),
    {
        self.queued_messages.len()
    }

    /// Where the record of the entity `key` stands in its life.
    pub fn get_entity_status(&self, key: &EntityKey) -> (status: Option<LocalityStatus>)
        ensures
            status == (if self@.has_entity(*key) {
                Some(self@.entities[*key].status)
            } else {
                None
            }),
    {
        match self.local_entity_store.get(key) {
            Some(record) => Some(record.status),
            None => None,
        }
    }
}

/// A copy of a list of keys.
fn clone_keys(keys: &Vec<u64>) -> (copy: Vec<u64>)
    ensures
        copy@ == keys@,
{
    let mut copy: Vec<u64> = Vec::new();
    let mut i: usize = 0;
    while i < keys.len()
        invariant
            i <= keys@.len(),
            copy@ == keys@.subrange(0, i as int),
        decreases keys@.len() - i,
    {
        copy.push(keys[i]);
        i += 1;
        assert(copy@ =~= keys@.subrange(0, i as int));
    }
    assert(copy@ =~= keys@);
    copy
}

/// Whether `key` is among `keys`.
fn contains_key(keys: &Vec<u64>, key: u64) -> (found: bool)
    ensures
        found == keys@.contains(key),
{
    let mut i: usize = 0;
    while i < keys.len()
        invariant
            i <= keys@.len(),
            forall|j: int| 0 <= j < i ==> keys@[j] != key,
        decreases keys@.len() - i,
    {
        if keys[i] == key {
            return true;
        }
        i += 1;
    }
    false
}

/// A record given under a key is in the map afterwards exactly where the
/// map takes the key.
pub proof fn lemma_taken_iff_accepted(records: Map<u64, RecordView>, key: u64, record: RecordView)
    requires
        slots_ok(records),
    ensures
        slot_insert(records, key, record).contains_key(canonical(key)) <==> accepts(records, key),
{
    lemma_canonical(key);
    if !accepts(records, key) && records.contains_key(canonical(key)) {
        if !is_null_key(key) {
            let other = choose|other: u64|
                #![trigger records.contains_key(other)]
                records.contains_key(other) && slot_index(other) == slot_index(key)
                    && slot_version(other) != slot_version(key);
            assert(records.contains_key(other) && records.contains_key(canonical(key)));
        }
    }
}

} // verus!
