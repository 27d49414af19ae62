use naia_core::server::action_writer::{can_write, encode_action};
use naia_core::server::packet_fill::{fill_packet, write_packet};
use naia_core::server::packet_writer::PacketWriter;
use naia_core::server::replicate_action::{ReplicateAction, ReplicateActionType};
use naia_core::server::replicate_manager::ReplicateManager;
use naia_core::shared::diff_mask::DiffMask;
use naia_core::shared::manifest::Manifest;
use naia_core::shared::replicate::Replicate;
use std::rc::Rc;

struct Point {
    x: u8,
    y: u8,
}

impl Replicate for Point {
    fn get_diff_mask_size(&self) -> u8 {
        1
    }

    fn get_type_id(&self) -> u64 {
        77
    }

    fn write(&self, out: &mut Vec<u8>) {
        out.push(self.x);
        out.push(self.y);
    }

    fn write_partial(&self, diff_mask: &DiffMask, out: &mut Vec<u8>) {
        if diff_mask.bit(0) == Some(true) {
            out.push(self.x);
        }
        if diff_mask.bit(1) == Some(true) {
            out.push(self.y);
        }
    }
}

fn point(x: u8, y: u8) -> Rc<Point> {
    Rc::new(Point { x, y })
}

fn manifest() -> Manifest {
    let mut manifest = Manifest::new();
    manifest.register(11);
    manifest.register(77);
    manifest
}

fn mask(bits: &[u8]) -> DiffMask {
    let mut mask = DiffMask::new(2);
    for bit in bits {
        mask.set_bit(*bit, true);
    }
    mask
}

#[test]
fn action_types_have_their_codes() {
    let kinds = [
        ReplicateActionType::CreateObject,
        ReplicateActionType::DeleteReplicate,
        ReplicateActionType::UpdateReplicate,
        ReplicateActionType::AssignPawn,
        ReplicateActionType::UnassignPawn,
        ReplicateActionType::UpdatePawn,
        ReplicateActionType::CreateEntity,
        ReplicateActionType::DeleteEntity,
        ReplicateActionType::AssignPawnEntity,
        ReplicateActionType::UnassignPawnEntity,
        ReplicateActionType::AddComponent,
    ];
    for (code, kind) in kinds.iter().enumerate() {
        assert_eq!(kind.to_u8(), code as u8);
        assert_eq!(ReplicateActionType::from_u8(code as u8), Some(*kind));
    }
    assert_eq!(ReplicateActionType::from_u8(11), None);
    let action: ReplicateAction<Point> = ReplicateAction::DeleteEntity(1, 2);
    assert_eq!(action.as_type(), ReplicateActionType::DeleteEntity);
}

#[test]
fn wire_form_of_each_action() {
    let manifest = manifest();
    let cases: Vec<(ReplicateAction<Point>, Vec<u8>)> = vec![
        (
            ReplicateAction::CreateObject(1, 0x0102, point(3, 4)),
            vec![0, 0, 1, 1, 2, 3, 4],
        ),
        (ReplicateAction::DeleteReplicate(1, 0x0A0B), vec![1, 0x0A, 0x0B]),
        (
            ReplicateAction::UpdateReplicate(1, 1, mask(&[0, 2]), point(3, 4)),
            vec![2, 0, 1, 1, 0b101, 3],
        ),
        (
            ReplicateAction::UpdateReplicate(1, 1, mask(&[1, 8]), point(3, 4)),
            vec![2, 0, 1, 2, 0b10, 1, 4],
        ),
        (ReplicateAction::AssignPawn(1, 7), vec![3, 0, 7]),
        (ReplicateAction::UnassignPawn(1, 7), vec![4, 0, 7]),
        (
            ReplicateAction::UpdatePawn(1, 1, mask(&[0]), point(3, 4)),
            vec![5, 0, 1, 3, 4],
        ),
        (
            ReplicateAction::CreateEntity(5, 9, Some(vec![(1, 0, point(1, 1)), (2, 1, point(2, 2))])),
            vec![6, 0, 9, 2, 0, 1, 0, 0, 1, 1, 0, 1, 0, 1, 2, 2],
        ),
        (ReplicateAction::CreateEntity(5, 9, Some(vec![])), vec![6, 0, 9, 0]),
        (ReplicateAction::CreateEntity(5, 9, None), vec![6, 0, 9, 0]),
        (ReplicateAction::DeleteEntity(5, 9), vec![7, 0, 9]),
        (ReplicateAction::AssignPawnEntity(5, 9), vec![8, 0, 9]),
        (ReplicateAction::UnassignPawnEntity(5, 9), vec![9, 0, 9]),
        (
            ReplicateAction::AddComponent(9, 1, 2, point(5, 6)),
            vec![10, 0, 9, 0, 1, 0, 2, 5, 6],
        ),
    ];
    for (action, expected) in cases {
        assert!(can_write(&manifest, &action));
        assert_eq!(encode_action(&manifest, &action), expected);
        let copy = action.clone();
        assert_eq!(encode_action(&manifest, &copy), expected);
    }
}

#[test]
fn unregistered_types_cannot_be_written() {
    let empty = Manifest::new();
    let creation: ReplicateAction<Point> = ReplicateAction::CreateObject(1, 1, point(0, 0));
    assert!(!can_write(&empty, &creation));
    let entity: ReplicateAction<Point> =
        ReplicateAction::CreateEntity(1, 1, Some(vec![(1, 1, point(0, 0))]));
    assert!(!can_write(&empty, &entity));
    let deletion: ReplicateAction<Point> = ReplicateAction::DeleteReplicate(1, 1);
    assert!(can_write(&empty, &deletion));
    let crowded: ReplicateAction<Point> = ReplicateAction::CreateEntity(
        1,
        1,
        Some((0..256).map(|i| (i as u64, i as u16, point(0, 0))).collect()),
    );
    assert!(!can_write(&manifest(), &crowded));
}

#[test]
fn actions_go_into_the_packet_until_it_is_full() {
    let manager: ReplicateManager<Point> = ReplicateManager::new();
    let manifest = manifest();
    let mut writer = PacketWriter::new();
    assert!(!writer.has_bytes());
    let action: ReplicateAction<Point> = ReplicateAction::DeleteReplicate(1, 0x0102);
    let mut written = 0;
    while manager.write_replicate_action(&mut writer, &manifest, &action) {
        written += 1;
    }
    assert_eq!(written, 169);
    assert_eq!(writer.replicate_action_count(), 169);
    assert_eq!(writer.bytes_number(), 507);
    assert!(writer.has_bytes());
    let payload = writer.get_bytes();
    assert_eq!(payload.len(), 509);
    assert_eq!(&payload[..5], &[2, 169, 1, 1, 2]);
    assert!(!writer.has_bytes());
    assert_eq!(writer.bytes_number(), 0);
}

#[test]
fn an_action_that_does_not_fit_leaves_the_packet_alone() {
    let manager: ReplicateManager<Point> = ReplicateManager::new();
    let manifest = manifest();
    let mut writer = PacketWriter::new();
    assert!(writer.write_action_bytes(&vec![0; 502]));
    let action: ReplicateAction<Point> = ReplicateAction::CreateObject(1, 1, point(1, 2));
    assert!(!manager.write_replicate_action(&mut writer, &manifest, &action));
    assert_eq!(writer.bytes_number(), 502);
    assert_eq!(writer.replicate_action_count(), 1);
    let small: ReplicateAction<Point> = ReplicateAction::AssignPawn(1, 1);
    assert!(manager.write_replicate_action(&mut writer, &manifest, &small));
    assert_eq!(writer.bytes_number(), 505);
    assert!(manager.write_replicate_action(&mut writer, &manifest, &small));
    assert_eq!(writer.bytes_number(), 508);
    assert!(!manager.write_replicate_action(&mut writer, &manifest, &small));
}

#[test]
fn a_packet_holds_at_most_255_actions() {
    let mut writer = PacketWriter::new();
    for _ in 0..255 {
        assert!(writer.write_action_bytes(&vec![7]));
    }
    assert!(!writer.write_action_bytes(&vec![7]));
    assert_eq!(writer.replicate_action_count(), 255);
    let payload = writer.get_bytes();
    assert_eq!(payload.len(), 257);
    assert_eq!(&payload[..2], &[2, 255]);
}

#[test]
fn messages_come_before_actions_in_the_payload() {
    let manifest = manifest();
    let mut writer = PacketWriter::new();
    assert!(writer.write_action_bytes(&vec![9, 9]));
    assert!(writer.write_message(&manifest, &Point { x: 1, y: 2 }));
    assert_eq!(writer.bytes_number(), 6);
    assert_eq!(writer.get_bytes(), vec![1, 1, 0, 1, 1, 2, 2, 1, 9, 9]);
}

#[test]
fn popped_update_is_written_with_its_mask() {
    let mut manager = ReplicateManager::new();
    let manifest = manifest();
    manager.add_object(&7, &point(3, 4));
    let creation = manager.pop_outgoing_action(1).unwrap();
    manager.notify_packet_delivered(1);
    manager.mark_property(&7, 1);
    manager.collect_replicate_updates();
    let update = manager.pop_outgoing_action(2).unwrap();
    let mut writer = PacketWriter::new();
    assert!(manager.write_replicate_action(&mut writer, &manifest, &creation));
    assert!(manager.write_replicate_action(&mut writer, &manifest, &update));
    assert_eq!(
        writer.get_bytes(),
        vec![2, 2, 0, 0, 1, 0, 0, 3, 4, 2, 0, 0, 1, 0b10, 4]
    );
}

#[test]
fn an_action_that_fills_the_packet_exactly_is_written() {
    let manager: ReplicateManager<Point> = ReplicateManager::new();
    let manifest = manifest();
    // With the two bytes of the section header the first action makes 508.
    let mut writer = PacketWriter::new();
    assert!(writer.write_action_bytes(&vec![0; 506]));
    assert_eq!(writer.get_bytes().len(), 508);
    assert!(!PacketWriter::new().write_action_bytes(&vec![0; 507]));
    // Seven bytes beside 501 make 508.
    let mut writer = PacketWriter::new();
    assert!(writer.write_action_bytes(&vec![0; 501]));
    let action: ReplicateAction<Point> = ReplicateAction::CreateObject(1, 1, point(1, 2));
    assert!(manager.write_replicate_action(&mut writer, &manifest, &action));
    assert_eq!(writer.bytes_number(), 508);
    assert_eq!(writer.replicate_action_count(), 2);
}

#[test]
fn a_packet_is_filled_until_an_action_has_no_room() {
    let mut manager: ReplicateManager<Point> = ReplicateManager::new();
    let manifest = manifest();
    for key in 1..=200u64 {
        manager.add_object(&key, &point(1, 2));
    }
    while manager.pop_outgoing_action(1).is_some() {}
    manager.notify_packet_delivered(1);
    for key in 1..=200u64 {
        manager.remove_object(&key);
    }
    assert_eq!(manager.queued_actions_number(), 200);
    let (payload, stuck) = write_packet(&mut manager, 5, &manifest);
    assert!(stuck.is_none());
    assert_eq!(payload.len(), 509);
    assert_eq!(&payload[..3], &[2, 169, 1]);
    assert_eq!(manager.sent_actions_number(5), 169);
    assert_eq!(manager.queued_actions_number(), 31);
    let (payload, stuck) = write_packet(&mut manager, 6, &manifest);
    assert!(stuck.is_none());
    assert_eq!(payload.len(), 2 + 31 * 3);
    assert_eq!(manager.sent_actions_number(6), 31);
    assert!(!manager.has_outgoing_actions());
    let (payload, stuck) = write_packet(&mut manager, 7, &manifest);
    assert!(stuck.is_none());
    assert!(payload.is_empty());
}

#[test]
fn filling_goes_on_in_a_packet_that_holds_something() {
    let mut manager: ReplicateManager<Point> = ReplicateManager::new();
    let manifest = manifest();
    manager.add_object(&1, &point(1, 2));
    manager.add_object(&2, &point(3, 4));
    let mut writer = PacketWriter::new();
    assert!(writer.write_action_bytes(&vec![0; 495]));
    let stuck = fill_packet(&mut manager, &mut writer, 3, &manifest);
    assert!(stuck.is_none());
    // One creation of seven bytes has room; the second is taken back.
    assert_eq!(writer.replicate_action_count(), 2);
    assert_eq!(writer.bytes_number(), 502);
    assert_eq!(manager.sent_actions_number(3), 1);
    assert_eq!(manager.queued_actions_number(), 1);
}

#[test]
fn an_action_of_an_unknown_type_stops_the_filling() {
    let mut manager: ReplicateManager<Point> = ReplicateManager::new();
    let manifest = Manifest::new();
    manager.add_object(&1, &point(1, 2));
    manager.add_object(&2, &point(3, 4));
    let (payload, stuck) = write_packet(&mut manager, 5, &manifest);
    assert!(matches!(stuck, Some(ReplicateAction::CreateObject(_, 0, _))));
    assert!(payload.is_empty());
    assert_eq!(manager.sent_actions_number(5), 1);
    assert_eq!(manager.queued_actions_number(), 1);
}
