use naia_core::server::keys::canonical_key;
use naia_core::server::locality_status::LocalityStatus;
use naia_core::server::replicate_action::ReplicateAction;
use naia_core::server::replicate_manager::ReplicateManager;
use naia_core::shared::diff_mask::DiffMask;
use naia_core::shared::replicate::Replicate;
use slotmap::{DefaultKey, Key, SlotMap};
use std::rc::Rc;

struct Point {
    x: u8,
    y: u8,
}

impl Replicate for Point {
    fn get_diff_mask_size(&self) -> u8 {
        1
    }

    fn get_type_id(&self) -> u64 {
        77
    }

    fn write(&self, out: &mut Vec<u8>) {
        out.push(self.x);
        out.push(self.y);
    }

    fn write_partial(&self, diff_mask: &DiffMask, out: &mut Vec<u8>) {
        if diff_mask.bit(0) == Some(true) {
            out.push(self.x);
        }
        if diff_mask.bit(1) == Some(true) {
            out.push(self.y);
        }
    }
}

fn point(x: u8, y: u8) -> Rc<Point> {
    Rc::new(Point { x, y })
}

fn pop_all(manager: &mut ReplicateManager<Point>, packet: u16) -> Vec<ReplicateAction<Point>> {
    let mut out = Vec::new();
    while let Some(action) = manager.pop_outgoing_action(packet) {
        out.push(action);
    }
    out
}

#[test]
fn new_manager_has_nothing() {
    let mut manager: ReplicateManager<Point> = ReplicateManager::new();
    assert!(!manager.has_outgoing_actions());
    assert!(!manager.has_object(&7));
    assert!(!manager.has_pawn(&7));
    assert!(!manager.has_entity(&7));
    assert!(!manager.has_pawn_entity(&7));
    assert!(manager.pop_outgoing_action(0).is_none());
    assert_eq!(manager.get_global_key_from_local(0), None);
    assert_eq!(manager.get_global_entity_key_from_local(0), None);
}

#[test]
fn add_object_queues_creation_with_fresh_local_key() {
    let mut manager = ReplicateManager::new();
    let value = point(1, 2);
    manager.add_object(&7, &value);
    assert!(manager.has_object(&7));
    assert!(manager.has_outgoing_actions());
    assert_eq!(manager.get_status(&7), Some(LocalityStatus::Creating));
    assert_eq!(manager.get_local_key(&7), Some(0));
    assert_eq!(manager.get_global_key_from_local(0), Some(canonical_key(7)));
    match manager.pop_outgoing_action(1) {
        Some(ReplicateAction::CreateObject(key, local, replicate)) => {
            assert_eq!(key, canonical_key(7));
            assert_eq!(local, 0);
            assert!(Rc::ptr_eq(&replicate, &value));
        }
        _ => panic!("a creation was expected"),
    }
    assert!(!manager.has_outgoing_actions());
}

#[test]
fn create_then_immediate_delete_under_loss() {
    let mut manager = ReplicateManager::new();
    manager.add_object(&6, &point(0, 0));
    let value = point(3, 4);
    manager.add_object(&7, &value);
    assert_eq!(manager.get_local_key(&7), Some(1));

    let first = pop_all(&mut manager, 100);
    assert_eq!(first.len(), 2);
    manager.notify_packet_dropped(100);

    manager.remove_object(&7);
    assert_eq!(manager.get_status(&7), Some(LocalityStatus::Creating));

    let again = pop_all(&mut manager, 103);
    assert_eq!(again.len(), 2);
    match &again[1] {
        ReplicateAction::CreateObject(key, local, replicate) => {
            assert_eq!(*key, canonical_key(7));
            assert_eq!(*local, 1);
            assert!(Rc::ptr_eq(replicate, &value));
        }
        _ => panic!("the creation was expected again"),
    }

    manager.notify_packet_delivered(103);
    assert_eq!(manager.get_status(&6), Some(LocalityStatus::Created));
    assert_eq!(manager.get_status(&7), Some(LocalityStatus::Deleting));
    match manager.pop_outgoing_action(104) {
        Some(ReplicateAction::DeleteReplicate(key, local)) => {
            assert_eq!(key, canonical_key(7));
            assert_eq!(local, 1);
        }
        _ => panic!("the deletion was expected"),
    }
    assert!(manager.pop_outgoing_action(104).is_none());

    manager.notify_packet_delivered(104);
    assert!(!manager.has_object(&7));
    assert_eq!(manager.get_global_key_from_local(1), None);
    assert!(manager.has_object(&6));
}

fn created_object(manager: &mut ReplicateManager<Point>, key: u64) {
    manager.add_object(&key, &point(9, 9));
    let _ = pop_all(manager, 1);
    manager.notify_packet_delivered(1);
    assert_eq!(manager.get_status(&key), Some(LocalityStatus::Created));
}

fn update_mask(action: &ReplicateAction<Point>) -> u8 {
    match action {
        ReplicateAction::UpdateReplicate(_, _, mask, _) => mask.byte(0),
        ReplicateAction::UpdatePawn(_, _, mask, _) => mask.byte(0),
        _ => panic!("an update was expected"),
    }
}

#[test]
fn update_coalescing_under_drop() {
    let mut manager = ReplicateManager::new();
    created_object(&mut manager, 7);
    assert_eq!(manager.get_diff_mask(&7).unwrap().byte(0), 0b0000_0000);

    manager.mark_property(&7, 0);
    manager.mark_property(&7, 2);
    assert_eq!(manager.get_diff_mask(&7).unwrap().byte(0), 0b0000_0101);
    manager.collect_replicate_updates();
    let first = pop_all(&mut manager, 10);
    assert_eq!(first.len(), 1);
    assert_eq!(update_mask(&first[0]), 0b0000_0101);
    assert_eq!(manager.get_diff_mask(&7).unwrap().byte(0), 0);

    manager.mark_property(&7, 3);
    assert_eq!(manager.get_diff_mask(&7).unwrap().byte(0), 0b0000_1000);
    manager.collect_replicate_updates();
    let second = pop_all(&mut manager, 11);
    assert_eq!(second.len(), 1);
    assert_eq!(update_mask(&second[0]), 0b0000_1000);

    manager.notify_packet_dropped(10);
    assert_eq!(manager.get_diff_mask(&7).unwrap().byte(0), 0b0000_0101);
    manager.collect_replicate_updates();
    let third = pop_all(&mut manager, 12);
    assert_eq!(third.len(), 1);
    assert_eq!(update_mask(&third[0]), 0b0000_0101);
}

#[test]
fn dropped_update_leaves_out_bits_sent_in_between() {
    let mut manager = ReplicateManager::new();
    created_object(&mut manager, 7);
    manager.mark_property(&7, 0);
    manager.mark_property(&7, 1);
    manager.collect_replicate_updates();
    let _ = pop_all(&mut manager, 10);
    manager.mark_property(&7, 1);
    manager.collect_replicate_updates();
    let _ = pop_all(&mut manager, 11);
    manager.mark_property(&7, 4);
    manager.collect_replicate_updates();
    let _ = pop_all(&mut manager, 12);
    manager.notify_packet_dropped(10);
    assert_eq!(manager.get_diff_mask(&7).unwrap().byte(0), 0b0000_0001);
}

#[test]
fn delivered_update_forgets_the_packet() {
    let mut manager = ReplicateManager::new();
    created_object(&mut manager, 7);
    manager.mark_property(&7, 5);
    manager.collect_replicate_updates();
    let _ = pop_all(&mut manager, 10);
    manager.notify_packet_delivered(10);
    manager.notify_packet_dropped(10);
    assert_eq!(manager.get_diff_mask(&7).unwrap().byte(0), 0);
    manager.collect_replicate_updates();
    assert!(!manager.has_outgoing_actions());
}

#[test]
fn entity_creation_atomicity() {
    let mut manager = ReplicateManager::new();
    let c1 = point(1, 1);
    let c2 = point(2, 2);
    let c3 = point(3, 3);
    manager.add_entity(&50, &vec![(11, c1.clone()), (12, c2.clone())]);
    manager.add_component(&50, &13, &c3);
    assert!(manager.has_entity(&50));

    let popped = pop_all(&mut manager, 5);
    assert_eq!(popped.len(), 1);
    match &popped[0] {
        ReplicateAction::CreateEntity(key, local, Some(list)) => {
            assert_eq!(*key, 50);
            assert_eq!(*local, 0);
            assert_eq!(list.len(), 3);
            assert_eq!((list[0].0, list[0].1), (canonical_key(11), 0));
            assert_eq!((list[1].0, list[1].1), (canonical_key(12), 1));
            assert_eq!((list[2].0, list[2].1), (canonical_key(13), 2));
            assert!(Rc::ptr_eq(&list[0].2, &c1));
            assert!(Rc::ptr_eq(&list[1].2, &c2));
            assert!(Rc::ptr_eq(&list[2].2, &c3));
        }
        _ => panic!("an entity creation with its components was expected"),
    }

    manager.notify_packet_delivered(5);
    assert_eq!(manager.get_entity_status(&50), Some(LocalityStatus::Created));
    assert_eq!(manager.get_status(&11), Some(LocalityStatus::Created));
    assert_eq!(manager.get_status(&12), Some(LocalityStatus::Created));
    assert_eq!(manager.get_status(&13), Some(LocalityStatus::Created));
    assert!(!manager.has_outgoing_actions());
}

#[test]
fn component_added_after_pop_is_sent_on_delivery() {
    let mut manager = ReplicateManager::new();
    manager.add_entity(&50, &vec![(11, point(1, 1))]);
    let _ = pop_all(&mut manager, 5);
    let late = point(4, 4);
    manager.add_component(&50, &14, &late);
    assert!(!manager.has_outgoing_actions());
    manager.notify_packet_delivered(5);
    match manager.pop_outgoing_action(6) {
        Some(ReplicateAction::AddComponent(entity, key, local, replicate)) => {
            assert_eq!(entity, 0);
            assert_eq!(key, canonical_key(14));
            assert_eq!(local, 1);
            assert!(Rc::ptr_eq(&replicate, &late));
        }
        _ => panic!("the addition of the late component was expected"),
    }
    assert_eq!(manager.get_status(&14), Some(LocalityStatus::Creating));
    manager.notify_packet_delivered(6);
    assert_eq!(manager.get_status(&14), Some(LocalityStatus::Created));
}

#[test]
fn add_component_to_created_entity_queues_addition() {
    let mut manager = ReplicateManager::new();
    manager.add_entity(&50, &vec![]);
    let _ = pop_all(&mut manager, 5);
    manager.notify_packet_delivered(5);
    manager.add_component(&50, &21, &point(0, 0));
    match manager.pop_outgoing_action(6) {
        Some(ReplicateAction::AddComponent(entity, key, local, _)) => {
            assert_eq!((entity, key, local), (0, canonical_key(21), 0));
        }
        _ => panic!("an addition was expected"),
    }
}

#[test]
fn remove_entity_cascades_to_components() {
    let mut manager = ReplicateManager::new();
    manager.add_entity(&50, &vec![(11, point(1, 1)), (12, point(2, 2))]);
    let _ = pop_all(&mut manager, 5);
    manager.notify_packet_delivered(5);
    manager.add_pawn(&11);
    let _ = pop_all(&mut manager, 6);
    manager.remove_entity(&50);
    assert_eq!(manager.get_entity_status(&50), Some(LocalityStatus::Deleting));
    assert_eq!(manager.get_status(&11), Some(LocalityStatus::Deleting));
    assert_eq!(manager.get_status(&12), Some(LocalityStatus::Deleting));
    assert!(!manager.has_pawn(&11));
    match manager.pop_outgoing_action(7) {
        Some(ReplicateAction::DeleteEntity(key, local)) => assert_eq!((key, local), (50, 0)),
        _ => panic!("the deletion of the entity was expected"),
    }
    manager.notify_packet_delivered(7);
    assert!(!manager.has_entity(&50));
    assert!(!manager.has_object(&11));
    assert!(!manager.has_object(&12));
    assert_eq!(manager.get_global_entity_key_from_local(0), None);
}

#[test]
fn remove_entity_while_creating_is_deferred() {
    let mut manager = ReplicateManager::new();
    manager.add_entity(&50, &vec![(11, point(1, 1))]);
    manager.remove_entity(&50);
    assert_eq!(manager.get_entity_status(&50), Some(LocalityStatus::Creating));
    let popped = pop_all(&mut manager, 5);
    assert_eq!(popped.len(), 1);
    manager.notify_packet_delivered(5);
    assert_eq!(manager.get_entity_status(&50), Some(LocalityStatus::Deleting));
    match manager.pop_outgoing_action(6) {
        Some(ReplicateAction::DeleteEntity(key, _)) => assert_eq!(key, 50),
        _ => panic!("the deferred deletion was expected"),
    }
}

#[test]
fn pawn_assignment_follows_last_call() {
    let mut manager = ReplicateManager::new();
    created_object(&mut manager, 7);
    manager.add_pawn(&7);
    assert!(manager.has_pawn(&7));
    manager.add_pawn(&7);
    manager.remove_pawn(&7);
    assert!(!manager.has_pawn(&7));
    manager.add_pawn(&7);
    assert!(manager.has_pawn(&7));
    let popped = pop_all(&mut manager, 9);
    assert_eq!(popped.len(), 3);
    assert!(matches!(popped[0], ReplicateAction::AssignPawn(_, 0)));
    assert!(matches!(popped[1], ReplicateAction::UnassignPawn(_, 0)));
    assert!(matches!(popped[2], ReplicateAction::AssignPawn(_, 0)));
}

#[test]
fn pawn_updates_carry_whole_state() {
    let mut manager = ReplicateManager::new();
    created_object(&mut manager, 7);
    manager.add_pawn(&7);
    let _ = pop_all(&mut manager, 2);
    manager.mark_property(&7, 1);
    manager.collect_replicate_updates();
    match manager.pop_outgoing_action(3) {
        Some(ReplicateAction::UpdatePawn(key, local, mask, _)) => {
            assert_eq!((key, local), (canonical_key(7), 0));
            assert_eq!(mask.byte(0), 0b10);
        }
        _ => panic!("a pawn update was expected"),
    }
}

#[test]
fn pawn_entity_assignment() {
    let mut manager: ReplicateManager<Point> = ReplicateManager::new();
    manager.add_pawn_entity(&50);
    assert!(!manager.has_pawn_entity(&50));
    manager.add_entity(&50, &vec![]);
    manager.add_pawn_entity(&50);
    manager.add_pawn_entity(&50);
    assert!(manager.has_pawn_entity(&50));
    manager.remove_pawn_entity(&50);
    assert!(!manager.has_pawn_entity(&50));
    let popped = pop_all(&mut manager, 1);
    assert_eq!(popped.len(), 3);
    assert!(matches!(popped[1], ReplicateAction::AssignPawnEntity(50, 0)));
    assert!(matches!(popped[2], ReplicateAction::UnassignPawnEntity(50, 0)));
}

#[test]
fn remove_object_unassigns_pawn_first() {
    let mut manager = ReplicateManager::new();
    created_object(&mut manager, 7);
    manager.add_pawn(&7);
    let _ = pop_all(&mut manager, 2);
    manager.remove_object(&7);
    let popped = pop_all(&mut manager, 3);
    assert_eq!(popped.len(), 2);
    assert!(matches!(popped[0], ReplicateAction::UnassignPawn(_, 0)));
    assert!(matches!(popped[1], ReplicateAction::DeleteReplicate(_, 0)));
    manager.remove_object(&7);
    assert!(!manager.has_outgoing_actions());
}

#[test]
fn no_update_for_creating_or_deleting_records() {
    let mut manager = ReplicateManager::new();
    manager.add_object(&7, &point(0, 0));
    manager.mark_property(&7, 0);
    let _ = pop_all(&mut manager, 1);
    manager.mark_property(&7, 1);
    manager.collect_replicate_updates();
    assert!(!manager.has_outgoing_actions());
    manager.notify_packet_delivered(1);
    manager.remove_object(&7);
    let _ = pop_all(&mut manager, 2);
    manager.collect_replicate_updates();
    assert!(!manager.has_outgoing_actions());
}

#[test]
fn creation_pop_clears_mask_and_unpop_restores_it() {
    let mut manager = ReplicateManager::new();
    manager.add_object(&7, &point(0, 0));
    manager.mark_property(&7, 2);
    let action = manager.pop_outgoing_action(4).unwrap();
    assert_eq!(manager.get_diff_mask(&7).unwrap().byte(0), 0);
    manager.mark_property(&7, 0);
    manager.unpop_outgoing_action(4, &action);
    assert_eq!(manager.get_diff_mask(&7).unwrap().byte(0), 0b101);
    assert!(manager.has_outgoing_actions());
    manager.notify_packet_delivered(4);
    assert_eq!(manager.get_status(&7), Some(LocalityStatus::Creating));
    assert!(matches!(
        manager.pop_outgoing_action(5),
        Some(ReplicateAction::CreateObject(_, 0, _))
    ));
}

#[test]
fn update_unpop_restores_mask_and_queue() {
    let mut manager = ReplicateManager::new();
    created_object(&mut manager, 7);
    manager.mark_property(&7, 6);
    manager.collect_replicate_updates();
    let action = manager.pop_outgoing_action(10).unwrap();
    assert_eq!(manager.get_diff_mask(&7).unwrap().byte(0), 0);
    manager.unpop_outgoing_action(10, &action);
    assert_eq!(manager.get_diff_mask(&7).unwrap().byte(0), 0b0100_0000);
    manager.notify_packet_dropped(10);
    assert_eq!(manager.get_diff_mask(&7).unwrap().byte(0), 0b0100_0000);
    let again = manager.pop_outgoing_action(11).unwrap();
    assert_eq!(update_mask(&again), 0b0100_0000);
}

#[test]
fn dropped_reliable_actions_keep_their_order() {
    let mut manager = ReplicateManager::new();
    manager.add_object(&1, &point(0, 0));
    manager.add_object(&2, &point(0, 0));
    manager.add_object(&3, &point(0, 0));
    let _ = pop_all(&mut manager, 1);
    manager.add_object(&4, &point(0, 0));
    manager.notify_packet_dropped(1);
    let popped = pop_all(&mut manager, 2);
    let locals: Vec<u16> = popped
        .iter()
        .map(|action| match action {
            ReplicateAction::CreateObject(_, local, _) => *local,
            _ => panic!("a creation was expected"),
        })
        .collect();
    assert_eq!(locals, vec![3, 0, 1, 2]);
}

#[test]
fn local_keys_are_recycled_after_cleanup() {
    let mut manager = ReplicateManager::new();
    created_object(&mut manager, 7);
    manager.remove_object(&7);
    let _ = pop_all(&mut manager, 2);
    manager.notify_packet_delivered(2);
    assert!(!manager.has_object(&7));
    manager.add_object(&8, &point(0, 0));
    manager.add_object(&9, &point(0, 0));
    assert_eq!(manager.get_local_key(&8), Some(0));
    assert_eq!(manager.get_local_key(&9), Some(1));
}

#[test]
fn slot_map_keys_carry_their_version() {
    let mut slots: SlotMap<DefaultKey, ()> = SlotMap::new();
    let old = slots.insert(());
    slots.remove(old);
    let new = slots.insert(());
    let old_key = old.data().as_ffi();
    let new_key = new.data().as_ffi();
    assert_ne!(old_key, new_key);
    assert_eq!(canonical_key(old_key), old_key);

    let mut manager = ReplicateManager::new();
    manager.add_object(&new_key, &point(0, 0));
    assert!(manager.has_object(&new_key));
    assert!(!manager.has_object(&old_key));

    // An older version of a slot that holds a newer one is not taken.
    manager.add_object(&old_key, &point(0, 0));
    assert!(!manager.has_object(&old_key));
    assert!(manager.has_object(&new_key));
    let popped = pop_all(&mut manager, 1);
    assert_eq!(popped.len(), 1);
}

#[test]
fn newer_slot_version_takes_the_place_of_the_older() {
    let mut slots: SlotMap<DefaultKey, ()> = SlotMap::new();
    let old = slots.insert(());
    slots.remove(old);
    let new = slots.insert(());
    let mut manager = ReplicateManager::new();
    manager.add_object(&old.data().as_ffi(), &point(0, 0));
    manager.add_object(&new.data().as_ffi(), &point(0, 0));
    assert!(!manager.has_object(&old.data().as_ffi()));
    assert!(manager.has_object(&new.data().as_ffi()));
    assert_eq!(manager.get_local_key(&new.data().as_ffi()), Some(1));
}

#[test]
fn null_key_is_not_taken() {
    let mut manager = ReplicateManager::new();
    let null = DefaultKey::null().data().as_ffi();
    manager.add_object(&null, &point(0, 0));
    assert!(!manager.has_object(&null));
    assert!(!manager.has_outgoing_actions());
}

#[test]
fn a_key_without_version_bit_names_the_same_object() {
    let mut manager = ReplicateManager::new();
    manager.add_object(&7, &point(0, 0));
    assert!(manager.has_object(&canonical_key(7)));
    assert_eq!(canonical_key(7), (1u64 << 32) | 7);
}

#[test]
fn a_packet_is_noted_while_it_is_in_flight() {
    let mut manager = ReplicateManager::new();
    manager.add_object(&1, &point(0, 0));
    manager.add_object(&2, &point(0, 0));
    assert_eq!(manager.queued_actions_number(), 2);
    assert_eq!(manager.sent_actions_number(5), 0);
    let first = manager.pop_outgoing_action(5).unwrap();
    let second = manager.pop_outgoing_action(5).unwrap();
    assert_eq!(manager.sent_actions_number(5), 2);
    manager.unpop_outgoing_action(5, &second);
    assert_eq!(manager.sent_actions_number(5), 1);
    manager.unpop_outgoing_action(5, &first);
    assert_eq!(manager.sent_actions_number(5), 0);
    assert_eq!(manager.queued_actions_number(), 2);

    let _ = pop_all(&mut manager, 6);
    assert_eq!(manager.sent_actions_number(6), 2);
    manager.notify_packet_delivered(6);
    assert_eq!(manager.sent_actions_number(6), 0);

    manager.add_object(&3, &point(0, 0));
    let _ = pop_all(&mut manager, 7);
    assert_eq!(manager.sent_actions_number(7), 1);
    manager.notify_packet_dropped(7);
    assert_eq!(manager.sent_actions_number(7), 0);
    assert_eq!(manager.queued_actions_number(), 1);
}

#[test]
fn acknowledged_addition_does_not_promote_a_deleting_component() {
    let mut manager = ReplicateManager::new();
    manager.add_entity(&50, &vec![]);
    let _ = pop_all(&mut manager, 1);
    manager.notify_packet_delivered(1);
    manager.add_component(&50, &21, &point(0, 0));
    let popped = pop_all(&mut manager, 2);
    assert!(matches!(popped[0], ReplicateAction::AddComponent(0, _, 0, _)));
    manager.remove_entity(&50);
    assert_eq!(manager.get_status(&21), Some(LocalityStatus::Deleting));
    manager.notify_packet_delivered(2);
    assert_eq!(manager.get_status(&21), Some(LocalityStatus::Deleting));
    assert_eq!(manager.get_entity_status(&50), Some(LocalityStatus::Deleting));
}

#[test]
fn acknowledged_creation_promotes_only_creating_records() {
    let mut manager = ReplicateManager::new();
    manager.add_entity(&50, &vec![(11, point(1, 1)), (12, point(2, 2))]);
    let _ = pop_all(&mut manager, 1);
    manager.notify_packet_dropped(1);
    manager.notify_packet_delivered(1);
    assert_eq!(manager.get_entity_status(&50), Some(LocalityStatus::Creating));
    assert_eq!(manager.get_status(&11), Some(LocalityStatus::Creating));
    let _ = pop_all(&mut manager, 2);
    manager.notify_packet_delivered(2);
    assert_eq!(manager.get_entity_status(&50), Some(LocalityStatus::Created));
    assert_eq!(manager.get_status(&11), Some(LocalityStatus::Created));
    assert_eq!(manager.get_status(&12), Some(LocalityStatus::Created));
}

#[test]
fn an_update_of_a_deleting_object_is_not_popped() {
    let mut manager = ReplicateManager::new();
    created_object(&mut manager, 7);
    manager.mark_property(&7, 1);
    manager.collect_replicate_updates();
    assert_eq!(manager.queued_actions_number(), 1);
    manager.remove_object(&7);
    assert_eq!(manager.get_status(&7), Some(LocalityStatus::Deleting));
    let popped = pop_all(&mut manager, 9);
    assert_eq!(popped.len(), 1);
    assert!(matches!(popped[0], ReplicateAction::DeleteReplicate(_, 0)));
    assert_eq!(manager.sent_actions_number(9), 1);
    manager.notify_packet_dropped(9);
    let again = pop_all(&mut manager, 10);
    assert_eq!(again.len(), 1);
    assert!(matches!(again[0], ReplicateAction::DeleteReplicate(_, 0)));
}

#[test]
fn updates_of_a_removed_entity_leave_the_queue() {
    let mut manager = ReplicateManager::new();
    manager.add_entity(&50, &vec![(11, point(1, 1))]);
    let _ = pop_all(&mut manager, 1);
    manager.notify_packet_delivered(1);
    created_object(&mut manager, 7);
    manager.mark_property(&11, 0);
    manager.mark_property(&7, 0);
    manager.collect_replicate_updates();
    manager.remove_entity(&50);
    let popped = pop_all(&mut manager, 3);
    assert_eq!(popped.len(), 2);
    let updates = popped
        .iter()
        .filter(|action| matches!(action, ReplicateAction::UpdateReplicate(_, _, _, _)))
        .count();
    assert_eq!(updates, 1);
    assert!(popped.iter().any(|action| matches!(action, ReplicateAction::DeleteEntity(50, _))));
    match popped.iter().find(|action| matches!(action, ReplicateAction::UpdateReplicate(_, _, _, _))) {
        Some(ReplicateAction::UpdateReplicate(key, _, _, _)) => assert_eq!(*key, canonical_key(7)),
        _ => panic!("the update of the object was expected"),
    }
    let mut lonely: ReplicateManager<Point> = ReplicateManager::new();
    created_object(&mut lonely, 7);
    lonely.mark_property(&7, 0);
    lonely.collect_replicate_updates();
    lonely.remove_object(&7);
    let _ = pop_all(&mut lonely, 2);
    lonely.notify_packet_delivered(2);
    assert!(lonely.pop_outgoing_action(3).is_none());
    assert_eq!(lonely.queued_actions_number(), 0);
}

#[test]
fn unpop_takes_back_what_the_packet_is_noted_with() {
    let mut manager = ReplicateManager::new();
    manager.add_object(&1, &point(0, 0));
    manager.add_object(&2, &point(0, 0));
    let first = manager.pop_outgoing_action(5).unwrap();
    let _second = manager.pop_outgoing_action(5).unwrap();
    // Whatever is handed in, the last action of the packet goes back.
    manager.unpop_outgoing_action(5, &first);
    assert_eq!(manager.sent_actions_number(5), 1);
    match manager.pop_outgoing_action(6) {
        Some(ReplicateAction::CreateObject(key, 1, _)) => assert_eq!(key, canonical_key(2)),
        _ => panic!("the second creation was expected back"),
    }
}

#[test]
fn no_two_records_share_a_local_key() {
    let mut manager = ReplicateManager::new();
    for key in 1..=20u64 {
        manager.add_object(&key, &point(0, 0));
    }
    manager.add_entity(&100, &vec![(30, point(0, 0)), (31, point(0, 0))]);
    manager.add_component(&100, &32, &point(0, 0));
    let mut locals: Vec<u16> = Vec::new();
    for key in (1..=20u64).chain(30..=32) {
        let local = manager.get_local_key(&key).unwrap();
        assert!(!locals.contains(&local));
        assert_eq!(manager.get_global_key_from_local(local), Some(canonical_key(key)));
        locals.push(local);
    }
    assert_eq!(locals.len(), 23);
}

#[test]
fn a_recycled_local_key_is_held_by_no_other_record() {
    let mut manager = ReplicateManager::new();
    created_object(&mut manager, 7);
    created_object(&mut manager, 8);
    manager.remove_object(&7);
    let _ = pop_all(&mut manager, 2);
    manager.notify_packet_delivered(2);
    assert!(!manager.has_object(&7));
    assert_eq!(manager.get_global_key_from_local(0), None);
    manager.add_object(&9, &point(0, 0));
    assert_eq!(manager.get_local_key(&9), Some(0));
    assert_eq!(manager.get_local_key(&8), Some(1));
    assert_eq!(manager.get_global_key_from_local(0), Some(canonical_key(9)));
}

#[test]
fn local_keys_are_counted() {
    let mut manager = ReplicateManager::new();
    assert!(manager.has_local_keys(0));
    assert!(manager.has_local_keys(65535));
    assert!(!manager.has_local_keys(65536));
    assert!(manager.has_local_entity_key());
    manager.add_object(&7, &point(0, 0));
    assert!(manager.has_local_keys(65534));
    assert!(!manager.has_local_keys(65535));
}

#[test]
fn a_deleting_object_becomes_no_pawn() {
    let mut manager = ReplicateManager::new();
    created_object(&mut manager, 7);
    manager.remove_object(&7);
    assert_eq!(manager.get_status(&7), Some(LocalityStatus::Deleting));
    let waiting = manager.queued_actions_number();
    manager.add_pawn(&7);
    assert!(!manager.has_pawn(&7));
    assert_eq!(manager.queued_actions_number(), waiting);
}

#[test]
fn a_pawn_whose_deletion_waited_is_no_pawn_once_it_is_deleting() {
    let mut manager = ReplicateManager::new();
    manager.add_object(&7, &point(0, 0));
    let _ = pop_all(&mut manager, 1);
    manager.remove_object(&7);
    manager.add_pawn(&7);
    assert!(manager.has_pawn(&7));
    manager.notify_packet_delivered(1);
    assert_eq!(manager.get_status(&7), Some(LocalityStatus::Deleting));
    assert!(!manager.has_pawn(&7));
}

#[test]
fn a_deleting_entity_becomes_no_pawn() {
    let mut manager = ReplicateManager::new();
    manager.add_entity(&100, &vec![(30, point(0, 0))]);
    let _ = pop_all(&mut manager, 1);
    manager.notify_packet_delivered(1);
    manager.add_pawn_entity(&100);
    assert!(manager.has_pawn_entity(&100));
    manager.remove_entity(&100);
    assert_eq!(manager.get_entity_status(&100), Some(LocalityStatus::Deleting));
    assert!(!manager.has_pawn_entity(&100));
    manager.add_pawn_entity(&100);
    assert!(!manager.has_pawn_entity(&100));
}

#[test]
fn the_record_that_loses_its_slot_is_no_pawn_any_more() {
    let mut slots: SlotMap<DefaultKey, ()> = SlotMap::new();
    let old = slots.insert(());
    slots.remove(old);
    let new = slots.insert(());
    let (old, new) = (old.data().as_ffi(), new.data().as_ffi());
    let mut manager = ReplicateManager::new();
    manager.add_object(&old, &point(0, 0));
    manager.add_pawn(&old);
    assert!(manager.has_pawn(&old));
    manager.add_object(&new, &point(0, 0));
    assert!(!manager.has_object(&old));
    assert!(!manager.has_pawn(&old));
    assert!(!manager.has_pawn(&new));
    // The older record is found no more under its local key.
    assert_eq!(manager.get_global_key_from_local(0), None);
    assert_eq!(manager.get_local_key(&new), Some(1));
    assert_eq!(manager.get_global_key_from_local(1), Some(new));
}

#[test]
fn two_updates_of_one_object_in_one_packet_are_both_noted() {
    let mut manager = ReplicateManager::new();
    created_object(&mut manager, 7);
    manager.mark_property(&7, 0);
    manager.collect_replicate_updates();
    manager.collect_replicate_updates();
    assert_eq!(manager.queued_actions_number(), 2);
    let first = manager.pop_outgoing_action(10).unwrap();
    assert_eq!(update_mask(&first), 0b0000_0001);
    manager.mark_property(&7, 2);
    let second = manager.pop_outgoing_action(10).unwrap();
    assert_eq!(update_mask(&second), 0b0000_0100);
    assert_eq!(manager.get_diff_mask(&7).unwrap().byte(0), 0);
    manager.notify_packet_dropped(10);
    assert_eq!(manager.get_diff_mask(&7).unwrap().byte(0), 0b0000_0101);
}

#[test]
fn taking_back_the_second_update_keeps_the_note_of_the_first() {
    let mut manager = ReplicateManager::new();
    created_object(&mut manager, 7);
    manager.mark_property(&7, 0);
    manager.collect_replicate_updates();
    manager.collect_replicate_updates();
    let _ = manager.pop_outgoing_action(10).unwrap();
    manager.mark_property(&7, 2);
    let second = manager.pop_outgoing_action(10).unwrap();
    manager.unpop_outgoing_action(10, &second);
    assert_eq!(manager.get_diff_mask(&7).unwrap().byte(0), 0b0000_0100);
    assert_eq!(manager.sent_actions_number(10), 1);
    manager.notify_packet_dropped(10);
    assert_eq!(manager.get_diff_mask(&7).unwrap().byte(0), 0b0000_0101);
}

#[test]
fn the_record_that_loses_its_slot_lets_go_of_its_replicate() {
    let mut slots: SlotMap<DefaultKey, ()> = SlotMap::new();
    let old = slots.insert(());
    slots.remove(old);
    let new = slots.insert(());
    let (old, new) = (old.data().as_ffi(), new.data().as_ffi());
    let mut manager = ReplicateManager::new();
    let value = point(1, 2);
    manager.add_object(&old, &value);
    let _ = pop_all(&mut manager, 1);
    manager.notify_packet_delivered(1);
    assert_eq!(Rc::strong_count(&value), 2);
    manager.add_object(&new, &point(3, 4));
    assert_eq!(Rc::strong_count(&value), 1);
    manager.mark_property(&new, 0);
    let _ = pop_all(&mut manager, 2);
    manager.notify_packet_delivered(2);
    manager.mark_property(&new, 1);
    manager.collect_replicate_updates();
    match manager.pop_outgoing_action(3) {
        Some(ReplicateAction::UpdateReplicate(key, _, _, replicate)) => {
            assert_eq!(key, new);
            assert_eq!((replicate.x, replicate.y), (3, 4));
        }
        _ => panic!("an update was expected"),
    }
}
