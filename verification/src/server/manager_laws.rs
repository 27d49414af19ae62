use vstd::prelude::*;
use crate::server::keys::{canonical, lemma_canonical};
use crate::server::locality_status::LocalityStatus;
use crate::server::manager_view::{later_masked, next_index, steps_between, still_wanted, ManagerView};
use crate::server::record_map::accepts;
use crate::server::replicate_action::ActionView;
use crate::server::replicate_record::RecordView;
use crate::shared::key_generator::lemma_generated_is_fresh;
use crate::shared::diff_mask::{
    all_clear, lemma_nand_bits, lemma_or_bits, lemma_with_bit, mask_bit, nand_masks, or_masks,
    zeros,
};
use crate::shared::replicate::Replicate;
use std::rc::Rc;

verus! {

/// Acknowledging the actions of a packet leaves alone what the packets carry.
pub proof fn lemma_delivered_keeps_sent<R: Replicate>(
    state: ManagerView<R>,
    index: u16,
    list: Seq<ActionView<R>>,
    upto: int,
)
    ensures
        state.delivered_actions(index, list, upto).sent_actions == state.sent_actions,
    decreases upto,
{
    if upto > 0 {
        lemma_delivered_keeps_sent(state, index, list, upto - 1);
        let before = state.delivered_actions(index, list, upto - 1);
        match list[upto - 1] {
            ActionView::CreateEntity(key, _, components) => {
                if before.entities.contains_key(key) && !before.delayed_entity_deletions.contains(
                    key,
                ) {
                    let record = before.entities[key];
                    let marked = ManagerView {
                        entities: before.entities.insert(
                            key,
                            crate::server::entity_record::EntityView {
                                status: LocalityStatus::Created,
                                ..record
                            },
                        ),
                        ..before
                    };
                    let with_components = match components {
                        Some(c) => {
                            lemma_created_components_keeps_sent(marked, c, c.len() as int);
                            marked.created_components(c, c.len() as int)
                        },
                        None => marked,
                    };
                    lemma_queued_additions_keeps_sent(
                        with_components,
                        record.local_key,
                        record.components,
                        record.components.len() as int,
                    );
                }
            },
            _ => {},
        }
    }
}

/// Setting components to `Created` leaves alone what the packets carry.
pub proof fn lemma_created_components_keeps_sent<R: Replicate>(
    state: ManagerView<R>,
    list: Seq<(u64, u16, std::rc::Rc<R>)>,
    upto: int,
)
    ensures
        state.created_components(list, upto).sent_actions == state.sent_actions,
    decreases upto,
{
    if upto > 0 {
        lemma_created_components_keeps_sent(state, list, upto - 1);
    }
}

/// Queueing the additions of components leaves alone what the packets carry.
pub proof fn lemma_queued_additions_keeps_sent<R: Replicate>(
    state: ManagerView<R>,
    local: u16,
    components: Seq<u64>,
    upto: int,
)
    ensures
        state.queued_additions(local, components, upto).sent_actions == state.sent_actions,
    decreases upto,
{
    if upto > 0 {
        lemma_queued_additions_keeps_sent(state, local, components, upto - 1);
    }
}

/// Cleaning up records leaves alone what the packets carry.
pub proof fn lemma_cleaned_up_keeps_sent<R: Replicate>(
    state: ManagerView<R>,
    deleted: Seq<u64>,
    upto: int,
)
    ensures
        state.cleaned_up(deleted, upto).sent_actions == state.sent_actions,
    decreases upto,
{
    if upto > 0 {
        lemma_cleaned_up_keeps_sent(state, deleted, upto - 1);
    }
}

/// Handling the lost actions of a packet leaves alone what the packets
/// carry, actions and diff masks, and the packet that last began to carry
/// updates.
pub proof fn lemma_dropped_keeps_sent<R: Replicate>(
    state: ManagerView<R>,
    index: u16,
    list: Seq<ActionView<R>>,
    upto: int,
)
    ensures
        state.dropped_actions(index, list, upto).sent_actions == state.sent_actions,
        state.dropped_actions(index, list, upto).sent_updates == state.sent_updates,
        state.dropped_actions(index, list, upto).last_update_packet_index
            == state.last_update_packet_index,
        state.dropped_actions(index, list, upto).records.dom() == state.records.dom(),
    decreases upto,
{
    if upto > 0 {
        lemma_dropped_keeps_sent(state, index, list, upto - 1);
        let before = state.dropped_actions(index, list, upto - 1);
        let after = before.dropped_action(index, list[upto - 1]);
        assert(after.records.dom() =~= before.records.dom());
    }
}

/// The list of actions that a packet is noted with is empty exactly where
/// the packet is not noted at all: a pop notes the packet with the action it
/// gives, and once a packet was acknowledged or given up, it is noted no
/// more. In between, taking a pop back takes the last action off the list,
/// and the note with it where the list runs empty.
pub proof fn lemma_sent_actions_life<R: Replicate>(state: ManagerView<R>, index: u16)
    requires
        state.wf(),
    ensures
        state.sent_actions.contains_key(index) ==> state.sent_actions[index].len() > 0,
        match state.popped_action() {
            Some(action) => {
                let after = state.pop_outgoing_action(index);
                &&& after.sent_actions.contains_key(index)
                &&& after.sent_actions[index].len() > 0
                &&& after.sent_actions[index].last() == action
            },
            None => state.pop_outgoing_action(index).sent_actions == state.sent_actions,
        },
        !state.notify_packet_delivered(index).sent_actions.contains_key(index),
        !state.notify_packet_dropped(index).sent_actions.contains_key(index),
        forall|other: u16|
            other != index && state.sent_actions.contains_key(other) ==> {
                &&& #[trigger] state.notify_packet_delivered(index).sent_actions.contains_key(other)
                &&& state.notify_packet_delivered(index).sent_actions[other]
                    == state.sent_actions[other]
                &&& state.notify_packet_dropped(index).sent_actions.contains_key(other)
                &&& state.notify_packet_dropped(index).sent_actions[other]
                    == state.sent_actions[other]
            },
{
    match state.popped_action() {
        Some(action) => {
            let taken = (ManagerView {
                queue: state.fresh(state.queue).drop_first(),
                ..state
            }).sent(index, action);
            match action {
                ActionView::CreateEntity(_, _, Some(list)) => {
                    lemma_cleared_components_keeps_sent(taken, list, list.len() as int);
                },
                _ => {},
            }
        },
        None => {},
    }
    if state.sent_actions.contains_key(index) {
        let list = state.sent_actions[index];
        let start = ManagerView { sent_actions: state.sent_actions.remove(index), ..state };
        lemma_delivered_keeps_sent(start, index, list, list.len() as int);
        let deleted = start.deleted_records(index, list, list.len() as int);
        lemma_cleaned_up_keeps_sent(
            start.delivered_actions(index, list, list.len() as int),
            deleted,
            deleted.len() as int,
        );
        lemma_dropped_keeps_sent(start, index, list, list.len() as int);
    }
}

/// Clearing the diff masks of components leaves alone what the packets
/// carry, and the queue.
pub proof fn lemma_cleared_components_keeps_sent<R: Replicate>(
    state: ManagerView<R>,
    list: Seq<(u64, u16, std::rc::Rc<R>)>,
    upto: int,
)
    ensures
        state.cleared_components(list, upto).sent_actions == state.sent_actions,
        state.cleared_components(list, upto).queue == state.queue,
    decreases upto,
{
    if upto > 0 {
        lemma_cleared_components_keeps_sent(state, list, upto - 1);
    }
}

/// No update is queued for a record in `Deleting`, nor for one in
/// `Creating`: each update of a round is for a record in `Created`, and
/// carries that record's diff mask, which has a bit set.
pub proof fn lemma_updates_only_for_created<R: Replicate>(
    state: ManagerView<R>,
    added: Seq<ActionView<R>>,
    i: int,
)
    requires
        state.is_update_round(added),
        0 <= i < added.len(),
    ensures
        added[i].is_update(),
        state.records.contains_key(added[i].update_key()),
        state.records[added[i].update_key()].status == LocalityStatus::Created,
        match added[i] {
            ActionView::UpdateReplicate(key, _, mask, _) => mask == state.records[key].mask,
            ActionView::UpdatePawn(key, _, mask, _) => mask == state.records[key].mask,
            _ => false,
        },
{
    let key = added[i].update_key();
    assert(state.needs_update(key));
    assert(added[i] == state.update_action(key));
}

/// The pawn status of `key` that a client reaches from `status` by applying
/// the first `upto` actions of `actions` in order.
pub open spec fn observed_pawn<R>(actions: Seq<ActionView<R>>, key: u64, status: bool, upto: int) -> bool
    decreases upto,
{
    if upto <= 0 {
        status
    } else {
        match actions[upto - 1] {
            ActionView::AssignPawn(assigned, _) => if assigned == key {
                true
            } else {
                observed_pawn(actions, key, status, upto - 1)
            },
            ActionView::UnassignPawn(unassigned, _) => if unassigned == key {
                false
            } else {
                observed_pawn(actions, key, status, upto - 1)
            },
            _ => observed_pawn(actions, key, status, upto - 1),
        }
    }
}

/// No two records share a local key, nor two entities; each is found again
/// under its local key, and what is found under a local key is a record
/// with that local key.
pub proof fn lemma_local_keys_differ<R: Replicate>(state: ManagerView<R>, a: u64, b: u64)
    requires
        state.wf(),
        a != b,
    ensures
        forall|local: u16| #[trigger]
            state.local_to_global.contains_key(local) ==> state.records.contains_key(
                state.local_to_global[local],
            ) && state.records[state.local_to_global[local]].local_key == local,
        forall|local: u16| #[trigger]
            state.local_to_global_entity.contains_key(local) ==> state.entities.contains_key(
                state.local_to_global_entity[local],
            ) && state.entities[state.local_to_global_entity[local]].local_key == local,
        state.records.contains_key(a) && state.records.contains_key(b) ==> state.records[a].local_key
            != state.records[b].local_key,
        state.entities.contains_key(a) && state.entities.contains_key(b)
            ==> state.entities[a].local_key != state.entities[b].local_key,
        state.records.contains_key(a) ==> state.local_to_global[state.records[a].local_key] == a,
        state.entities.contains_key(a) ==> state.local_to_global_entity[state.entities[a].local_key]
            == a,
{
}

/// An object that is added has a record in `Creating` with a clear diff
/// mask, under a local key that no other record has and under which it is
/// found again, and its creation is the one action that is queued. This
/// holds of a key that the slot map takes, while a local key is left.
pub proof fn lemma_added_object_is_fresh<R: Replicate>(
    state: ManagerView<R>,
    key: u64,
    replicate: Rc<R>,
    other: u64,
)
    requires
        state.wf(),
        !state.has_object(key),
        accepts(state.records, key),
        state.replicate_keys.left() > 0,
    ensures
        state.add_object(key, replicate).has_object(key),
        state.add_object(key, replicate).records[canonical(key)] == (RecordView {
            local_key: state.replicate_keys.next_key(),
            mask: zeros(replicate.mask_size() as nat),
            status: LocalityStatus::Creating,
        }),
        state.add_object(key, replicate).queue == state.queue.push(
            ActionView::CreateObject(canonical(key), state.replicate_keys.next_key(), replicate),
        ),
        state.add_object(key, replicate).local_to_global[state.replicate_keys.next_key()]
            == canonical(key),
        state.add_object(key, replicate).records.contains_key(other) && other != canonical(key)
            ==> state.add_object(key, replicate).records[other].local_key
            != state.replicate_keys.next_key(),
        !state.local_to_global.contains_key(state.replicate_keys.next_key()),
{
    lemma_canonical(key);
    lemma_generated_is_fresh(state.replicate_keys, state.local_to_global.dom());
    let after = state.add_object(key, replicate);
    if after.records.contains_key(other) && other != canonical(key) {
        assert(state.records.contains_key(other));
    }
}

/// A pawn has a record that is not `Deleting`, and so has a pawn entity.
pub proof fn lemma_pawn_has_record<R: Replicate>(state: ManagerView<R>, key: u64)
    requires
        state.wf(),
    ensures
        state.has_pawn(key) ==> state.has_object(key) && state.records[canonical(key)].status
            != LocalityStatus::Deleting,
        state.has_pawn_entity(key) ==> state.has_entity(key) && state.entities[key].status
            != LocalityStatus::Deleting,
{
}

/// A client whose pawn status for an object agrees with the server's, and
/// that applies what a call of `add_pawn` or `remove_pawn` has queued,
/// agrees with the server again; and the server's status is what the call
/// asked for. This holds of an object that is not `Deleting`: one that is
/// becomes no pawn.
pub proof fn lemma_pawn_status_follows_last_call<R: Replicate>(state: ManagerView<R>, key: u64)
    requires
        state.has_object(key),
        state.records[canonical(key)].status != LocalityStatus::Deleting,
    ensures
        state.add_pawn(key).has_pawn(key),
        !state.remove_pawn(key).has_pawn(key),
        ({
            let after = state.add_pawn(key);
            let queued = after.queue.subrange(state.queue.len() as int, after.queue.len() as int);
            observed_pawn(queued, canonical(key), state.has_pawn(key), queued.len() as int)
        }),
        ({
            let after = state.remove_pawn(key);
            let queued = after.queue.subrange(state.queue.len() as int, after.queue.len() as int);
            !observed_pawn(queued, canonical(key), state.has_pawn(key), queued.len() as int)
        }),
{
    let stored = canonical(key);
    let added = state.add_pawn(key);
    let queued = added.queue.subrange(state.queue.len() as int, added.queue.len() as int);
    if !state.pawns.contains(stored) {
        assert(queued[0] == ActionView::<R>::AssignPawn(stored, state.records[stored].local_key));
    }
    let removed = state.remove_pawn(key);
    let unqueued = removed.queue.subrange(state.queue.len() as int, removed.queue.len() as int);
    assert(unqueued[0] == ActionView::<R>::UnassignPawn(stored, state.records[stored].local_key));
}

/// Whether a change of property `bit` of the object `key` is still on its
/// way to the client: the bit is set in the object's diff mask, or in the
/// diff mask that a packet in flight carries for the object.
pub open spec fn pending<R: Replicate>(state: ManagerView<R>, key: u64, bit: int) -> bool {
    ||| state.records.contains_key(key) && mask_bit(state.records[key].mask, bit)
    ||| exists|index: u16| in_flight(state, index, key, bit)
}

/// Whether the packet `index` is noted with the bit `bit` under the key
/// `key`.
pub open spec fn noted<R: Replicate>(state: ManagerView<R>, index: u16, key: u64, bit: int) -> bool {
    &&& state.sent_updates.contains_key(index)
    &&& state.sent_updates[index].contains_key(key)
    &&& mask_bit(state.sent_updates[index][key], bit)
}

/// Whether the packet `index` carries the bit `bit` for the object `key`
/// that the connection has: the bit is noted for the packet, in a diff mask
/// of the size of the object's own. A mask that is left over from an object
/// that the connection has no more is no change of an object.
pub open spec fn in_flight<R: Replicate>(state: ManagerView<R>, index: u16, key: u64, bit: int) -> bool {
    &&& noted(state, index, key, bit)
    &&& state.records.contains_key(key)
    &&& state.records[key].mask.len() == state.sent_updates[index][key].len()
}

/// A property that changes is on its way from then on, and no other change
/// is forgotten over it.
pub proof fn lemma_mark_property_pending<R: Replicate>(state: ManagerView<R>, key: u64, index: u8)
    requires
        state.has_object(key),
        index as int / 8 < state.records[canonical(key)].mask.len(),
    ensures
        pending(state.mark_property(key, index), canonical(key), index as int),
        forall|other: u64, bit: int|
            pending(state, other, bit) ==> #[trigger] pending(
                state.mark_property(key, index),
                other,
                bit,
            ),
{
    let stored = canonical(key);
    let after = state.mark_property(key, index);
    lemma_with_bit(state.records[stored].mask, index, true, index as int);
    assert forall|other: u64, bit: int| pending(state, other, bit) implies #[trigger] pending(
        after,
        other,
        bit,
    ) by {
        if state.records.contains_key(other) && mask_bit(state.records[other].mask, bit) {
            if other == stored {
                lemma_with_bit(state.records[stored].mask, index, true, bit);
            }
        } else {
            let at = choose|at: u16| in_flight(state, at, other, bit);
            assert(in_flight(after, at, other, bit));
        }
    }
}

/// Popping an update forgets no change: the bits that the update takes out
/// of the object's diff mask are noted for the packet, beside those that
/// the packet is noted with for the object already. It holds as well of the
/// pop of any action that is no creation.
pub proof fn lemma_pop_keeps_pending<R: Replicate>(state: ManagerView<R>, index: u16)
    requires
        state.popped_action() is Some,
        !(state.popped_action()->0 is CreateObject),
        !(state.popped_action()->0 is AddComponent),
        !(state.popped_action()->0 is CreateEntity),
    ensures
        forall|key: u64, bit: int|
            pending(state, key, bit) ==> #[trigger] pending(
                state.pop_outgoing_action(index),
                key,
                bit,
            ),
{
    let action = state.popped_action()->0;
    let after = state.pop_outgoing_action(index);
    assert forall|key: u64, bit: int| pending(state, key, bit) implies #[trigger] pending(
        after,
        key,
        bit,
    ) by {
        if action.is_update() {
            let updated = action.update_key();
            if key == updated && state.sent_updates.contains_key(index)
                && state.sent_updates[index].contains_key(key) {
                let locked = action.update_mask();
                if locked.len() == state.sent_updates[index][key].len() {
                    lemma_or_bits(locked, state.sent_updates[index][key], bit);
                }
            }
            if state.records.contains_key(key) && mask_bit(state.records[key].mask, bit) {
                if key == updated {
                    assert(in_flight(after, index, key, bit));
                }
            } else {
                let at = choose|at: u16| in_flight(state, at, key, bit);
                assert(in_flight(after, at, key, bit));
            }
        } else {
            if !(state.records.contains_key(key) && mask_bit(state.records[key].mask, bit)) {
                let at = choose|at: u16| in_flight(state, at, key, bit);
                assert(in_flight(after, at, key, bit));
            }
        }
    }
}

/// A bit that the walk over the later packets takes out of a mask is carried
/// by one of those packets, and that packet is not `avoid`, which the walk
/// does not reach.
pub proof fn lemma_later_masked_bits(
    sent_updates: Map<u16, Map<u64, Seq<u8>>>,
    key: u64,
    mask: Seq<u8>,
    from: u16,
    last: u16,
    avoid: u16,
    bit: int,
)
    requires
        mask_bit(mask, bit),
        !mask_bit(later_masked(sent_updates, key, mask, from, last), bit),
        steps_between(from, avoid) >= steps_between(from, last),
    ensures
        exists|at: u16|
            at != avoid && #[trigger] sent_updates.contains_key(at) && sent_updates[at].contains_key(
                key,
            ) && mask_bit(sent_updates[at][key], bit) && sent_updates[at][key].len()
                == mask.len(),
    decreases steps_between(from, last),
{
    if from != last {
        let carried = sent_updates.contains_key(from) && sent_updates[from].contains_key(key);
        let rest = if carried {
            nand_masks(mask, sent_updates[from][key])
        } else {
            mask
        };
        if mask_bit(rest, bit) {
            assert(rest.len() == mask.len());
            lemma_later_masked_bits(sent_updates, key, rest, next_index(from), last, avoid, bit);
        } else {
            assert(carried);
            if mask.len() == sent_updates[from][key].len() {
                lemma_nand_bits(mask, sent_updates[from][key], bit);
            }
            assert(sent_updates.contains_key(from) && from != avoid);
        }
    }
}

/// The walk over the later packets keeps the size of a mask.
pub proof fn lemma_later_masked_len(
    sent_updates: Map<u16, Map<u64, Seq<u8>>>,
    key: u64,
    mask: Seq<u8>,
    from: u16,
    last: u16,
)
    ensures
        later_masked(sent_updates, key, mask, from, last).len() == mask.len(),
    decreases steps_between(from, last),
{
    if from != last {
        let rest = if sent_updates.contains_key(from) && sent_updates[from].contains_key(key) {
            nand_masks(mask, sent_updates[from][key])
        } else {
            mask
        };
        lemma_later_masked_len(sent_updates, key, rest, next_index(from), last);
    }
}

/// Handling lost actions takes no bit out of a diff mask, and keeps its size.
pub proof fn lemma_dropped_masks_grow<R: Replicate>(
    state: ManagerView<R>,
    index: u16,
    list: Seq<ActionView<R>>,
    upto: int,
    key: u64,
    bit: int,
)
    requires
        state.records.contains_key(key),
    ensures
        state.dropped_actions(index, list, upto).records.contains_key(key),
        state.dropped_actions(index, list, upto).records[key].mask.len()
            == state.records[key].mask.len(),
        mask_bit(state.records[key].mask, bit) ==> mask_bit(
            state.dropped_actions(index, list, upto).records[key].mask,
            bit,
        ),
    decreases upto,
{
    if upto > 0 {
        lemma_dropped_masks_grow(state, index, list, upto - 1, key, bit);
        let before = state.dropped_actions(index, list, upto - 1);
        let action = list[upto - 1];
        if action.is_update() && action.update_key() == key && before.sent_updates.contains_key(
            index,
        ) && before.sent_updates[index].contains_key(key) {
            let wanted = still_wanted(
                before.sent_updates,
                key,
                before.sent_updates[index][key],
                index,
                before.last_update_packet_index,
            );
            if before.records[key].mask.len() == wanted.len() {
                lemma_or_bits(before.records[key].mask, wanted, bit);
            }
        }
    }
}

/// Once the lost update of `key` at position `at` was handled, each bit that
/// the lost packet carried for the object is in the object's diff mask, or
/// in the mask that another packet in flight carries for it.
pub proof fn lemma_dropped_update_restored<R: Replicate>(
    state: ManagerView<R>,
    index: u16,
    list: Seq<ActionView<R>>,
    upto: int,
    at: int,
    key: u64,
    bit: int,
)
    requires
        0 <= at < upto <= list.len(),
        list[at].is_update(),
        list[at].update_key() == key,
        state.sent_updates.contains_key(index),
        state.sent_updates[index].contains_key(key),
        state.records.contains_key(key),
        state.records[key].mask.len() == state.sent_updates[index][key].len(),
        mask_bit(state.sent_updates[index][key], bit),
    ensures
        mask_bit(state.dropped_actions(index, list, upto).records[key].mask, bit) || exists|
            other: u16,
        |
            other != index && #[trigger] state.sent_updates.contains_key(other)
                && state.sent_updates[other].contains_key(key) && mask_bit(
                state.sent_updates[other][key],
                bit,
            ) && state.sent_updates[other][key].len() == state.records[key].mask.len(),
    decreases upto,
{
    let before = state.dropped_actions(index, list, upto - 1);
    lemma_dropped_keeps_sent(state, index, list, upto - 1);
    lemma_dropped_masks_grow(state, index, list, upto - 1, key, bit);
    if at < upto - 1 {
        lemma_dropped_update_restored(state, index, list, upto - 1, at, key, bit);
        if mask_bit(before.records[key].mask, bit) {
            lemma_dropped_masks_grow(before, index, list.subrange(upto - 1, upto), 1, key, bit);
            assert(list.subrange(upto - 1, upto)[0] == list[upto - 1]);
            assert(before.dropped_actions(index, list.subrange(upto - 1, upto), 0) == before);
        }
    } else {
        let sent = state.sent_updates[index][key];
        let last = state.last_update_packet_index;
        let wanted = still_wanted(state.sent_updates, key, sent, index, last);
        if index != last {
            lemma_later_masked_len(state.sent_updates, key, sent, next_index(index), last);
        }
        lemma_or_bits(before.records[key].mask, wanted, bit);
        if !mask_bit(wanted, bit) {
            lemma_later_masked_bits(
                state.sent_updates,
                key,
                sent,
                next_index(index),
                last,
                index,
                bit,
            );
        }
    }
}

/// Giving up a packet forgets no change: each bit that the lost packet
/// carried for an object is back in the object's diff mask, or is carried by
/// a later packet in flight; and whatever else was on its way still is.
pub proof fn lemma_drop_keeps_pending<R: Replicate>(state: ManagerView<R>, index: u16)
    requires
        state.wf(),
    ensures
        forall|key: u64, bit: int|
            pending(state, key, bit) ==> #[trigger] pending(
                state.notify_packet_dropped(index),
                key,
                bit,
            ),
{
    let after = state.notify_packet_dropped(index);
    if state.sent_actions.contains_key(index) {
        let list = state.sent_actions[index];
        let start = ManagerView { sent_actions: state.sent_actions.remove(index), ..state };
        let handled = start.dropped_actions(index, list, list.len() as int);
        lemma_dropped_keeps_sent(start, index, list, list.len() as int);
        assert forall|key: u64, bit: int| pending(state, key, bit) implies #[trigger] pending(
            after,
            key,
            bit,
        ) by {
            if state.records.contains_key(key) {
                lemma_dropped_masks_grow(start, index, list, list.len() as int, key, bit);
            }
            if state.records.contains_key(key) && mask_bit(state.records[key].mask, bit) {
            } else {
                let carrier = choose|carrier: u16| in_flight(state, carrier, key, bit);
                if carrier != index {
                    assert(in_flight(after, carrier, key, bit));
                } else {
                    assert(state.carries_update(index, key));
                    let at = choose|at: int|
                        0 <= at < list.len() && (#[trigger] list[at]).is_update()
                            && list[at].update_key() == key;
                    lemma_dropped_update_restored(
                        start,
                        index,
                        list,
                        list.len() as int,
                        at,
                        key,
                        bit,
                    );
                    if !mask_bit(handled.records[key].mask, bit) {
                        let other = choose|other: u16|
                            other != index && #[trigger] start.sent_updates.contains_key(other)
                                && start.sent_updates[other].contains_key(key) && mask_bit(
                                start.sent_updates[other][key],
                                bit,
                            ) && start.sent_updates[other][key].len() == start.records[key].mask.len();
                        assert(in_flight(after, other, key, bit));
                    }
                }
            }
        }
    } else {
        assert(state.notes_ok());
        assert forall|key: u64, bit: int| pending(state, key, bit) implies #[trigger] pending(
            after,
            key,
            bit,
        ) by {
            if !(state.records.contains_key(key) && mask_bit(state.records[key].mask, bit)) {
                let carrier = choose|carrier: u16| in_flight(state, carrier, key, bit);
                assert(state.carries_update(carrier, key));
            }
        }
    }
}

/// Taking back the pop of an update puts the state back: the record has its
/// diff mask again, the packet is noted with what it carried before, and the
/// update is at the head of the queue, behind which nothing has changed.
/// This holds where the object has a record and the packet did not carry an
/// update of it before the pop.
pub proof fn lemma_unpop_restores_update<R: Replicate>(state: ManagerView<R>, index: u16)
    requires
        state.wf(),
        state.popped_action() is Some,
        state.popped_action()->0.is_update(),
        state.records.contains_key(state.popped_action()->0.update_key()),
        !state.carries_update(index, state.popped_action()->0.update_key()),
    ensures
        ({
            let action = state.popped_action()->0;
            let back = state.pop_outgoing_action(index).unpop_outgoing_action(index, action);
            &&& back.records == state.records
            &&& back.sent_actions == state.sent_actions
            &&& back.sent_updates == state.sent_updates
            &&& back.queue == state.fresh(state.queue).update(0, action)
        }),
{
    let action = state.popped_action()->0;
    let key = action.update_key();
    let popped = state.pop_outgoing_action(index);
    let back = popped.unpop_outgoing_action(index, action);
    let mask = state.records[key].mask;
    assert(or_masks(zeros(mask.len()), mask) =~= mask) by {
        assert forall|i: int| 0 <= i < mask.len() implies (0u8 | mask[i]) == mask[i] by {
            let byte = mask[i];
            assert(0u8 | byte == byte) by (bit_vector);
        }
    }
    assert(back.records =~= state.records);
    assert(back.sent_actions =~= state.sent_actions) by {
        if state.sent_actions.contains_key(index) {
            assert(state.sent_actions[index].push(action).drop_last()
                =~= state.sent_actions[index]);
        }
    }
    assert(popped.unsent(index).sent_actions =~= state.sent_actions) by {
        if state.sent_actions.contains_key(index) {
            assert(state.sent_actions[index].push(action).drop_last()
                =~= state.sent_actions[index]);
        }
    }
    assert(!popped.unsent(index).carries_update(index, key));
    assert(back.sent_updates =~= state.sent_updates) by {
        if state.sent_updates.contains_key(index) {
            let noted = state.sent_updates[index];
            assert(!noted.contains_key(key)) by {
                if noted.contains_key(key) {
                    assert(state.carries_update(index, key));
                }
            }
            assert(noted.insert(key, mask).remove(key) =~= noted);
        } else {
            let alone = Map::<u64, Seq<u8>>::empty().insert(key, mask);
            assert(alone.remove(key) =~= Map::<u64, Seq<u8>>::empty());
        }
    }
    assert(popped.taken_back(index, action) == action);
    assert(back.queue =~= state.fresh(state.queue).update(0, action));
}

/// Whether `after` has, of the diff masks in the records and in flight,
/// all that `before` has, but for the masks that the packet `index` carries
/// and for the records that are gone.
pub open spec fn keeps_masks<R: Replicate>(
    before: ManagerView<R>,
    after: ManagerView<R>,
    index: u16,
) -> bool {
    &&& forall|key: u64| #[trigger]
        after.records.contains_key(key) ==> before.records.contains_key(key)
            && after.records[key].mask == before.records[key].mask
    &&& forall|other: u16|
        other != index && #[trigger] before.sent_updates.contains_key(other)
            ==> after.sent_updates.contains_key(other) && after.sent_updates[other]
            == before.sent_updates[other]
}

/// Acknowledging the actions of a packet changes no diff mask of a record,
/// makes no record, and forgets of the masks in flight only those of the
/// packet itself.
pub proof fn lemma_delivered_keeps_masks<R: Replicate>(
    state: ManagerView<R>,
    index: u16,
    list: Seq<ActionView<R>>,
    upto: int,
)
    ensures
        keeps_masks(state, state.delivered_actions(index, list, upto), index),
        state.delivered_actions(index, list, upto).records.dom() == state.records.dom(),
    decreases upto,
{
    if upto > 0 {
        lemma_delivered_keeps_masks(state, index, list, upto - 1);
        let before = state.delivered_actions(index, list, upto - 1);
        let after = before.delivered_action(index, list[upto - 1]);
        match list[upto - 1] {
            ActionView::CreateEntity(key, _, components) => {
                if before.entities.contains_key(key) && !before.delayed_entity_deletions.contains(
                    key,
                ) {
                    let record = before.entities[key];
                    let marked = ManagerView {
                        entities: before.entities.insert(
                            key,
                            crate::server::entity_record::EntityView {
                                status: LocalityStatus::Created,
                                ..record
                            },
                        ),
                        ..before
                    };
                    let with_components = match components {
                        Some(c) => {
                            lemma_created_components_keeps_masks(marked, c, c.len() as int);
                            marked.created_components(c, c.len() as int)
                        },
                        None => marked,
                    };
                    lemma_queued_additions_keeps_masks(
                        with_components,
                        record.local_key,
                        record.components,
                        record.components.len() as int,
                    );
                }
            },
            _ => {},
        }
        assert(after.records.dom() =~= before.records.dom());
        assert(keeps_masks(before, after, index));
    }
}

/// Setting components to `Created` changes no diff mask.
pub proof fn lemma_created_components_keeps_masks<R: Replicate>(
    state: ManagerView<R>,
    list: Seq<(u64, u16, std::rc::Rc<R>)>,
    upto: int,
)
    ensures
        state.created_components(list, upto).sent_updates == state.sent_updates,
        state.created_components(list, upto).records.dom() == state.records.dom(),
        forall|key: u64| #[trigger]
            state.records.contains_key(key) ==> state.created_components(
                list,
                upto,
            ).records[key].mask == state.records[key].mask,
    decreases upto,
{
    if upto > 0 {
        lemma_created_components_keeps_masks(state, list, upto - 1);
        let before = state.created_components(list, upto - 1);
        let after = before.with_status(list[upto - 1].0, LocalityStatus::Created);
        assert(after.records.dom() =~= before.records.dom());
    }
}

/// Queueing the additions of components changes no diff mask.
pub proof fn lemma_queued_additions_keeps_masks<R: Replicate>(
    state: ManagerView<R>,
    local: u16,
    components: Seq<u64>,
    upto: int,
)
    ensures
        state.queued_additions(local, components, upto).sent_updates == state.sent_updates,
        state.queued_additions(local, components, upto).records == state.records,
    decreases upto,
{
    if upto > 0 {
        lemma_queued_additions_keeps_masks(state, local, components, upto - 1);
    }
}

/// Cleaning up records changes no diff mask of a record that stays, and
/// none in flight.
pub proof fn lemma_cleaned_up_keeps_masks<R: Replicate>(
    state: ManagerView<R>,
    deleted: Seq<u64>,
    upto: int,
)
    ensures
        state.cleaned_up(deleted, upto).sent_updates == state.sent_updates,
        forall|key: u64| #[trigger]
            state.cleaned_up(deleted, upto).records.contains_key(key)
                ==> state.records.contains_key(key) && state.cleaned_up(
                deleted,
                upto,
            ).records[key] == state.records[key],
    decreases upto,
{
    if upto > 0 {
        lemma_cleaned_up_keeps_masks(state, deleted, upto - 1);
    }
}

/// The arrival of a packet takes away only what has arrived: no record that
/// stays has its diff mask changed, and what another packet carries stays
/// noted for it.
pub proof fn lemma_delivery_keeps_other_pending<R: Replicate>(state: ManagerView<R>, index: u16)
    ensures
        forall|key: u64| #[trigger]
            state.notify_packet_delivered(index).records.contains_key(key)
                ==> state.records.contains_key(key) && state.notify_packet_delivered(
                index,
            ).records[key].mask == state.records[key].mask,
        forall|other: u16, key: u64, bit: int|
            other != index && noted(state, other, key, bit) ==> #[trigger] noted(
                state.notify_packet_delivered(index),
                other,
                key,
                bit,
            ),
{
    let after = state.notify_packet_delivered(index);
    if state.sent_actions.contains_key(index) {
        let list = state.sent_actions[index];
        let start = ManagerView { sent_actions: state.sent_actions.remove(index), ..state };
        let handled = start.delivered_actions(index, list, list.len() as int);
        let deleted = start.deleted_records(index, list, list.len() as int);
        lemma_delivered_keeps_masks(start, index, list, list.len() as int);
        lemma_cleaned_up_keeps_masks(handled, deleted, deleted.len() as int);
        assert forall|key: u64| #[trigger] after.records.contains_key(key) implies state.records.contains_key(
            key,
        ) && after.records[key].mask == state.records[key].mask by {
            assert(handled.records.contains_key(key));
        }
        assert forall|other: u16, key: u64, bit: int|
            other != index && noted(state, other, key, bit) implies #[trigger] noted(
            after,
            other,
            key,
            bit,
        ) by {
            assert(start.sent_updates.contains_key(other));
        }
    }
}

/// Under what holds of every state, an update of an object is due exactly
/// where the connection has the object in `Created` with a bit set in its
/// diff mask: so a round of updates leaves out no such object, and holds an
/// update for no other.
pub proof fn lemma_round_is_complete<R: Replicate>(
    state: ManagerView<R>,
    added: Seq<ActionView<R>>,
    key: u64,
)
    requires
        state.base(),
        state.is_update_round(added),
    ensures
        state.needs_update(key) <==> state.records.contains_key(key) && state.records[key].status
            == LocalityStatus::Created && !all_clear(state.records[key].mask),
        (exists|i: int| 0 <= i < added.len() && (#[trigger] added[i]).update_key() == key)
            <==> state.records.contains_key(key) && state.records[key].status
            == LocalityStatus::Created && !all_clear(state.records[key].mask),
{
    if exists|i: int| 0 <= i < added.len() && (#[trigger] added[i]).update_key() == key {
        let i = choose|i: int| 0 <= i < added.len() && (#[trigger] added[i]).update_key() == key;
        assert(state.needs_update(added[i].update_key()));
    }
}

/// Whether a status may follow another when a packet arrives: a status
/// stays, or `Creating` gives way to `Created`, or to `Deleting` where a
/// deletion waited for the creation.
pub open spec fn may_follow(before: LocalityStatus, after: LocalityStatus) -> bool {
    after == before || (before == LocalityStatus::Creating && after != LocalityStatus::Creating)
}

/// Whether each record and each entity that `after` has is one that
/// `before` has, with a status that may follow the one it had.
pub open spec fn statuses_follow<R: Replicate>(before: ManagerView<R>, after: ManagerView<R>) -> bool {
    &&& forall|key: u64| #[trigger]
        after.records.contains_key(key) ==> before.records.contains_key(key) && may_follow(
            before.records[key].status,
            after.records[key].status,
        )
    &&& forall|key: u64| #[trigger]
        after.entities.contains_key(key) ==> before.entities.contains_key(key) && may_follow(
            before.entities[key].status,
            after.entities[key].status,
        )
}

/// Promoting the components that went out with an entity moves no status
/// but from `Creating` to `Created`.
pub proof fn lemma_created_components_statuses<R: Replicate>(
    state: ManagerView<R>,
    list: Seq<(u64, u16, std::rc::Rc<R>)>,
    upto: int,
)
    ensures
        statuses_follow(state, state.created_components(list, upto)),
        state.created_components(list, upto).entities == state.entities,
        state.created_components(list, upto).records.dom() == state.records.dom(),
    decreases upto,
{
    if upto > 0 {
        lemma_created_components_statuses(state, list, upto - 1);
        let before = state.created_components(list, upto - 1);
        let after = before.promoted(list[upto - 1].0);
        assert(after.records.dom() =~= before.records.dom());
    }
}

/// Queueing the additions of components changes no record and no entity.
pub proof fn lemma_queued_additions_statuses<R: Replicate>(
    state: ManagerView<R>,
    local: u16,
    components: Seq<u64>,
    upto: int,
)
    ensures
        state.queued_additions(local, components, upto).records == state.records,
        state.queued_additions(local, components, upto).entities == state.entities,
    decreases upto,
{
    if upto > 0 {
        lemma_queued_additions_statuses(state, local, components, upto - 1);
    }
}

/// The acknowledgement of one action moves no status but that of a record
/// or an entity in `Creating`.
pub proof fn lemma_delivered_action_statuses<R: Replicate>(
    state: ManagerView<R>,
    index: u16,
    action: ActionView<R>,
)
    ensures
        statuses_follow(state, state.delivered_action(index, action)),
{
    let after = state.delivered_action(index, action);
    match action {
        ActionView::CreateEntity(key, _, components) => {
            if state.entities.contains_key(key) && state.entities[key].status
                == LocalityStatus::Creating && !state.delayed_entity_deletions.contains(key) {
                let record = state.entities[key];
                let marked = ManagerView {
                    entities: state.entities.insert(
                        key,
                        crate::server::entity_record::EntityView {
                            status: LocalityStatus::Created,
                            ..record
                        },
                    ),
                    ..state
                };
                let with_components = match components {
                    Some(c) => {
                        lemma_created_components_statuses(marked, c, c.len() as int);
                        marked.created_components(c, c.len() as int)
                    },
                    None => marked,
                };
                lemma_queued_additions_statuses(
                    with_components,
                    record.local_key,
                    record.components,
                    record.components.len() as int,
                );
                assert(statuses_follow(state, marked));
                assert(statuses_follow(marked, with_components));
                assert(statuses_follow(state, after));
            }
        },
        _ => {},
    }
}

/// The acknowledgement of the actions of a packet moves no status but that
/// of a record or an entity in `Creating`.
pub proof fn lemma_delivered_statuses<R: Replicate>(
    state: ManagerView<R>,
    index: u16,
    list: Seq<ActionView<R>>,
    upto: int,
)
    ensures
        statuses_follow(state, state.delivered_actions(index, list, upto)),
    decreases upto,
{
    if upto > 0 {
        lemma_delivered_statuses(state, index, list, upto - 1);
        let before = state.delivered_actions(index, list, upto - 1);
        lemma_delivered_action_statuses(before, index, list[upto - 1]);
        let after = before.delivered_action(index, list[upto - 1]);
        assert(statuses_follow(state, after));
    }
}

/// Cleaning up records moves no status.
pub proof fn lemma_cleaned_up_statuses<R: Replicate>(
    state: ManagerView<R>,
    deleted: Seq<u64>,
    upto: int,
)
    ensures
        statuses_follow(state, state.cleaned_up(deleted, upto)),
    decreases upto,
{
    if upto > 0 {
        lemma_cleaned_up_statuses(state, deleted, upto - 1);
        lemma_cleaned_up_keeps_masks(state, deleted, upto);
        lemma_cleaned_up_keeps_masks(state, deleted, upto - 1);
        let before = state.cleaned_up(deleted, upto - 1);
        let after = before.replicate_cleanup(deleted[upto - 1]);
        assert(after.entities == before.entities);
        assert(statuses_follow(before, after));
    }
}

/// The arrival of a packet promotes only what is `Creating`: a record or an
/// entity that is `Created` afterwards was `Created` or `Creating` before,
/// none goes back to `Creating`, and none that is `Deleting` becomes
/// `Created`.
pub proof fn lemma_delivery_promotes_only_creating<R: Replicate>(state: ManagerView<R>, index: u16)
    ensures
        statuses_follow(state, state.notify_packet_delivered(index)),
{
    if state.sent_actions.contains_key(index) {
        let list = state.sent_actions[index];
        let start = ManagerView { sent_actions: state.sent_actions.remove(index), ..state };
        let handled = start.delivered_actions(index, list, list.len() as int);
        let deleted = start.deleted_records(index, list, list.len() as int);
        lemma_delivered_statuses(start, index, list, list.len() as int);
        lemma_cleaned_up_statuses(handled, deleted, deleted.len() as int);
        let after = handled.cleaned_up(deleted, deleted.len() as int);
        assert(statuses_follow(start, after));
    }
}

/// Whether one of the first `upto` actions of a list is an update of `key`.
pub open spec fn has_update_of<R: Replicate>(list: Seq<ActionView<R>>, key: u64, upto: int) -> bool
    decreases upto,
{
    upto > 0 && (has_update_of(list, key, upto - 1) || (list[upto - 1].is_update()
        && list[upto - 1].update_key() == key))
}

/// An update at a position of a list is one of the updates of the list.
pub proof fn lemma_has_update_of<R: Replicate>(list: Seq<ActionView<R>>, key: u64, upto: int, at: int)
    requires
        0 <= at < upto,
        list[at].is_update(),
        list[at].update_key() == key,
    ensures
        has_update_of(list, key, upto),
    decreases upto,
{
    if at < upto - 1 {
        lemma_has_update_of(list, key, upto - 1, at);
    }
}

/// Adding the same bits twice adds nothing more.
pub proof fn lemma_or_twice(mask: Seq<u8>, more: Seq<u8>)
    ensures
        or_masks(or_masks(mask, more), more) == or_masks(mask, more),
{
    if mask.len() == more.len() {
        assert forall|i: int| 0 <= i < mask.len() implies ((mask[i] | more[i]) | more[i]) == (
        mask[i] | more[i]) by {
            let x = mask[i];
            let w = more[i];
            assert((x | w) | w == x | w) by (bit_vector);
        }
        assert(or_masks(or_masks(mask, more), more) =~= or_masks(mask, more));
    }
}

/// While the lost actions of a packet are handled, the diff mask of an
/// object that the packet carried an update for is what it was, until the
/// first update of the object is handled; from then on it is what it was,
/// with the bits that are still wanted.
pub proof fn lemma_dropped_mask<R: Replicate>(
    state: ManagerView<R>,
    index: u16,
    list: Seq<ActionView<R>>,
    upto: int,
    key: u64,
)
    requires
        0 <= upto <= list.len(),
        state.sent_updates.contains_key(index),
        state.sent_updates[index].contains_key(key),
        state.records.contains_key(key),
    ensures
        state.dropped_actions(index, list, upto).records.contains_key(key),
        state.dropped_actions(index, list, upto).records[key].mask == (if has_update_of(
            list,
            key,
            upto,
        ) {
            or_masks(
                state.records[key].mask,
                still_wanted(
                    state.sent_updates,
                    key,
                    state.sent_updates[index][key],
                    index,
                    state.last_update_packet_index,
                ),
            )
        } else {
            state.records[key].mask
        }),
    decreases upto,
{
    if upto > 0 {
        lemma_dropped_mask(state, index, list, upto - 1, key);
        lemma_dropped_keeps_sent(state, index, list, upto - 1);
        let before = state.dropped_actions(index, list, upto - 1);
        let action = list[upto - 1];
        let sent = state.sent_updates[index][key];
        let last = state.last_update_packet_index;
        let wanted = still_wanted(state.sent_updates, key, sent, index, last);
        if index != last {
            lemma_later_masked_len(state.sent_updates, key, sent, next_index(index), last);
        }
        if action.is_update() && action.update_key() == key {
            lemma_or_twice(state.records[key].mask, wanted);
        }
    }
}

/// The diff mask that a lost update gives back: the object's diff mask after
/// the packet was given up is what it was, with those bits of the lost mask
/// that no packet strictly between the lost one and the last one that began
/// to carry updates has sent since. This holds of each object that the
/// connection has; a lost mask of another size than the object's gives
/// nothing back, and no record comes or goes. What the packet carried is
/// forgotten, and what the other packets carry stays.
pub proof fn lemma_drop_restores_mask<R: Replicate>(state: ManagerView<R>, index: u16, key: u64)
    requires
        state.wf(),
        state.sent_updates.contains_key(index),
        state.sent_updates[index].contains_key(key),
    ensures
        state.notify_packet_dropped(index).records.dom() == state.records.dom(),
        state.records.contains_key(key) ==> state.notify_packet_dropped(index).records[key].mask
            == or_masks(
            state.records[key].mask,
            still_wanted(
                state.sent_updates,
                key,
                state.sent_updates[index][key],
                index,
                state.last_update_packet_index,
            ),
        ),
        state.notify_packet_dropped(index).sent_updates == state.sent_updates.remove(index),
        state.notify_packet_dropped(index).sent_actions == state.sent_actions.remove(index),
{
    assert(state.carries_update(index, key));
    let list = state.sent_actions[index];
    let at = choose|at: int|
        0 <= at < list.len() && (#[trigger] list[at]).is_update() && list[at].update_key() == key;
    let start = ManagerView { sent_actions: state.sent_actions.remove(index), ..state };
    lemma_has_update_of(list, key, list.len() as int, at);
    if state.records.contains_key(key) {
        lemma_dropped_mask(start, index, list, list.len() as int, key);
    }
    lemma_dropped_keeps_sent(start, index, list, list.len() as int);
}

} // verus!
