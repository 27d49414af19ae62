use vstd::prelude::*;
use crate::server::action_writer::{action_bytes, can_write, writable};
use crate::server::manager_laws::lemma_cleared_components_keeps_sent;
use crate::server::manager_view::{lemma_fresh_head, ManagerView};
use crate::server::packet_writer::{PacketWriter, WriterView};
use crate::server::replicate_action::{ActionView, ReplicateAction};
use crate::server::replicate_manager::ReplicateManager;
use crate::shared::manager_type::has_room;
use crate::shared::manifest::Manifest;
use crate::shared::replicate::Replicate;

verus! {

/// How the filling of a packet ends: the state of the manager, what the
/// writer holds, and the action that stopped the filling because it cannot
/// be written at all, if there is one.
pub struct Filled<R> {
    pub state: ManagerView<R>,
    pub writer: WriterView,
    pub stuck: Option<ActionView<R>>,
}

/// The writer after `action` was written into it.
pub open spec fn with_action<R: Replicate>(
    writer: WriterView,
    manifest: Seq<u64>,
    action: ActionView<R>,
) -> WriterView {
    WriterView {
        action_bytes: writer.action_bytes + action_bytes(manifest, action),
        action_count: (writer.action_count + 1) as u8,
        ..writer
    }
}

/// Whether the writer has room for `action`.
pub open spec fn takes<R: Replicate>(writer: WriterView, manifest: Seq<u64>, action: ActionView<R>) -> bool {
    has_room(writer.bytes_number(), action_bytes(manifest, action).len() as int, writer.action_count)
}

/// How the filling of packet `index` ends. The actions are popped in the
/// order of the queue and written, until the queue has no more, or until
/// one has no room in the packet: that one is taken back, and nothing
/// after it is looked at. An action that cannot be written at all stops the
/// filling as it is popped.
pub open spec fn filled<R: Replicate>(
    state: ManagerView<R>,
    writer: WriterView,
    index: u16,
    manifest: Seq<u64>,
) -> Filled<R>
    decreases state.queue.len(),
    via filled_ends::<R>
{
    let popped = state.pop_outgoing_action(index);
    match state.popped_action() {
        None => Filled { state: popped, writer, stuck: None },
        Some(action) => {
            if !writable(manifest, action) {
                Filled { state: popped, writer, stuck: Some(action) }
            } else if !takes(writer, manifest, action) {
                Filled { state: popped.unpop_outgoing_action(index, action), writer, stuck: None }
            } else {
                filled(popped, with_action(writer, manifest, action), index, manifest)
            }
        },
    }
}

/// The filling comes to an end: each action that is written has left the
/// queue shorter.
#[via_fn]
proof fn filled_ends<R: Replicate>(
    state: ManagerView<R>,
    writer: WriterView,
    index: u16,
    manifest: Seq<u64>,
) {
    if state.popped_action() is Some {
        lemma_pop_shortens_queue(state, index);
    }
}

/// A pop that gives an action leaves the queue shorter.
pub proof fn lemma_pop_shortens_queue<R: Replicate>(state: ManagerView<R>, index: u16)
    requires
        state.popped_action() is Some,
    ensures
        state.pop_outgoing_action(index).queue.len() < state.queue.len(),
{
    lemma_fresh_head(state, state.queue);
    let queue = state.fresh(state.queue);
    let action = state.popped_action()->0;
    let taken = (ManagerView { queue: queue.drop_first(), ..state }).sent(index, action);
    if let ActionView::CreateEntity(_, _, Some(list)) = action {
        lemma_cleared_components_keeps_sent(taken, list, list.len() as int);
    }
}

/// Fills the packet `packet_index` with the actions that wait: each is
/// popped and written, until none is left or one has no room, which is
/// taken back. An action that the manifest cannot write stops the filling
/// and is given; it stays noted for the packet.
pub fn fill_packet<R: Replicate>(
    manager: &mut ReplicateManager<R>,
    writer: &mut PacketWriter,
    packet_index: u16,
    manifest: &Manifest,
) -> (stuck: Option<ReplicateAction<R>>)
    requires
        old(manager)@.wf(),
    ensures
        final(manager)@.wf(),
        final(manager)@ == filled(old(manager)@, old(writer)@, packet_index, manifest@).state,
        final(writer)@ == filled(old(manager)@, old(writer)@, packet_index, manifest@).writer,
        match stuck {
            Some(action) => filled(old(manager)@, old(writer)@, packet_index, manifest@).stuck
                == Some(action@),
            None => filled(old(manager)@, old(writer)@, packet_index, manifest@).stuck is None,
        },
{
    loop
        invariant
            manager@.wf(),
            filled(manager@, writer@, packet_index, manifest@) == filled(
                old(manager)@,
                old(writer)@,
                packet_index,
                manifest@,
            ),
        decreases manager@.queue.len(),
    {
        let ghost before = manager@;
        let ghost held = writer@;
        let action = match manager.pop_outgoing_action(packet_index) {
            Some(action) => action,
            None => {
                return None;
            },
        };
        proof {
            lemma_pop_shortens_queue(before, packet_index);
        }
        if !can_write(manifest, &action) {
            return Some(action);
        }
        if !manager.write_replicate_action(writer, manifest, &action) {
            manager.unpop_outgoing_action(packet_index, &action);
            return None;
        }
        assert(writer@ == with_action(held, manifest@, action@));
    }
}

/// Writes one packet: a round of updates is queued, the packet
/// `packet_index` is filled with the actions that wait, and its payload is
/// given, with the action that the manifest cannot write, if one stopped
/// the filling.
pub fn write_packet<R: Replicate>(
    manager: &mut ReplicateManager<R>,
    packet_index: u16,
    manifest: &Manifest,
) -> (packet: (Vec<u8>, Option<ReplicateAction<R>>))
    requires
        old(manager)@.wf(),
    ensures
        final(manager)@.wf(),
        exists|queued: ManagerView<R>|
            old(manager)@.collected(queued) && final(manager)@ == (#[trigger] filled(
                queued,
                PacketWriter::empty_view(),
                packet_index,
                manifest@,
            )).state && packet.0@ == filled(
                queued,
                PacketWriter::empty_view(),
                packet_index,
                manifest@,
            ).writer.payload() && (match packet.1 {
                Some(action) => filled(
                    queued,
                    PacketWriter::empty_view(),
                    packet_index,
                    manifest@,
                ).stuck == Some(action@),
                None => filled(queued, PacketWriter::empty_view(), packet_index, manifest@).stuck
                    is None,
            }),
{
    let mut writer = PacketWriter::new();
    manager.collect_replicate_updates();
    let ghost queued = manager@;
    let stuck = fill_packet(manager, &mut writer, packet_index, manifest);
    let bytes = writer.get_bytes();
    assert(old(manager)@.collected(queued));
    (bytes, stuck)
}

} // verus!
