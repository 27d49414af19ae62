use vstd::prelude::*;
use crate::server::replicate_action::{ActionView, ReplicateAction};
use crate::shared::byte_io::{be_bytes, put_u16, put_u8};
use crate::shared::diff_mask::wire_form;
use crate::shared::manifest::{naia_id_of, Manifest};
use crate::shared::replicate::Replicate;
use std::rc::Rc;

verus! {

/// A replicate as it is created on the wire: the identifier of its type, its
/// local key, and its whole payload.
pub open spec fn creation_bytes<R: Replicate>(manifest: Seq<u64>, local: u16, replicate: Rc<R>) -> Seq<
    u8,
> {
    be_bytes(naia_id_of(manifest, replicate.type_id()).unwrap()) + be_bytes(local)
        + replicate.payload()
}

/// The first `upto` components of an entity's creation on the wire, one after
/// the other.
pub open spec fn components_bytes<R: Replicate>(
    manifest: Seq<u64>,
    list: Seq<(u64, u16, Rc<R>)>,
    upto: int,
) -> Seq<u8>
    decreases upto,
{
    if upto <= 0 {
        Seq::empty()
    } else {
        components_bytes(manifest, list, upto - 1) + creation_bytes(
            manifest,
            list[upto - 1].1,
            list[upto - 1].2,
        )
    }
}

/// What follows the kind byte of an action on the wire. All numbers of two
/// bytes go most significant byte first.
pub open spec fn action_body<R: Replicate>(manifest: Seq<u64>, action: ActionView<R>) -> Seq<u8> {
    match action {
        ActionView::CreateObject(_, local, replicate) => creation_bytes(manifest, local, replicate),
        ActionView::DeleteReplicate(_, local) => be_bytes(local),
        ActionView::UpdateReplicate(_, local, mask, replicate) => be_bytes(local) + wire_form(mask)
            + replicate.partial_payload(mask),
        ActionView::AssignPawn(_, local) => be_bytes(local),
        ActionView::UnassignPawn(_, local) => be_bytes(local),
        ActionView::UpdatePawn(_, local, _, replicate) => be_bytes(local) + replicate.payload(),
        ActionView::CreateEntity(_, local, Some(list)) => be_bytes(local) + seq![list.len() as u8]
            + components_bytes(manifest, list, list.len() as int),
        ActionView::CreateEntity(_, local, None) => be_bytes(local) + seq![0u8],
        ActionView::DeleteEntity(_, local) => be_bytes(local),
        ActionView::AssignPawnEntity(_, local) => be_bytes(local),
        ActionView::UnassignPawnEntity(_, local) => be_bytes(local),
        ActionView::AddComponent(entity, _, local, replicate) => be_bytes(entity) + creation_bytes(
            manifest,
            local,
            replicate,
        ),
    }
}

/// An action on the wire: the byte of its kind, then what the kind calls for.
pub open spec fn action_bytes<R: Replicate>(manifest: Seq<u64>, action: ActionView<R>) -> Seq<u8> {
    seq![action.kind().code()] + action_body(manifest, action)
}

/// Whether an action can be written: the manifest knows the type of each
/// replicate in it, and an entity goes out with at most 255 components.
pub open spec fn writable<R: Replicate>(manifest: Seq<u64>, action: ActionView<R>) -> bool {
    match action {
        ActionView::CreateObject(_, _, replicate) => naia_id_of(manifest, replicate.type_id())
            is Some,
        ActionView::AddComponent(_, _, _, replicate) => naia_id_of(manifest, replicate.type_id())
            is Some,
        ActionView::CreateEntity(_, _, Some(list)) => list.len() <= 255 && forall|i: int|
            0 <= i < list.len() ==> naia_id_of(manifest, (#[trigger] list[i]).2.type_id()) is Some,
        _ => true,
    }
}

/// Appends a replicate's creation to `out`.
fn write_creation<R: Replicate>(out: &mut Vec<u8>, manifest: &Manifest, local: u16, replicate: &Rc<R>)
    requires
        naia_id_of(manifest@, replicate.type_id()) is Some,
    ensures
        final(out)@ == old(out)@ + creation_bytes(manifest@, local, *replicate),
{
    let type_id = replicate.get_type_id();
    let naia_id = match manifest.get_naia_id(&type_id) {
        Some(naia_id) => naia_id,
        None => 0,
    };
    put_u16(out, naia_id);
    put_u16(out, local);
    replicate.write(out);
    assert(out@ =~= old(out)@ + creation_bytes(manifest@, local, *replicate));
}

/// Whether an action can be written with this manifest.
pub fn can_write<R: Replicate>(manifest: &Manifest, action: &ReplicateAction<R>) -> (can: bool)
    ensures
        can == writable(manifest@, action@),
{
    match action {
        ReplicateAction::CreateObject(_, _, replicate) => {
            let type_id = replicate.get_type_id();
            manifest.get_naia_id(&type_id).is_some()
        },
        ReplicateAction::AddComponent(_, _, _, replicate) => {
            let type_id = replicate.get_type_id();
            manifest.get_naia_id(&type_id).is_some()
        },
        ReplicateAction::CreateEntity(key, local, Some(list)) => {
            if list.len() > 255 {
                return false;
            }
            let mut i: usize = 0;
            while i < list.len()
                invariant
                    i <= list@.len(),
                    list@.len() <= 255,
                    action@ == ActionView::<R>::CreateEntity(*key, *local, Some(list@)),
                    forall|j: int|
                        0 <= j < i ==> naia_id_of(manifest@, (#[trigger] list@[j]).2.type_id())
                            is Some,
                decreases list@.len() - i,
            {
                let type_id = list[i].2.get_type_id();
                if manifest.get_naia_id(&type_id).is_none() {
                    assert(naia_id_of(manifest@, list@[i as int].2.type_id()) is None);
                    return false;
                }
                i += 1;
            }
            true
        },
        _ => true,
    }
}

/// The bytes that stand for an action on the wire.
pub fn encode_action<R: Replicate>(manifest: &Manifest, action: &ReplicateAction<R>) -> (bytes: Vec<
    u8,
>)
    requires
        writable(manifest@, action@),
    ensures
        bytes@ == action_bytes(manifest@, action@),
{
    let mut bytes: Vec<u8> = Vec::new();
    put_u8(&mut bytes, action.as_type().to_u8());
    match action {
        ReplicateAction::CreateObject(_, local, replicate) => {
            write_creation(&mut bytes, manifest, *local, replicate);
        },
        ReplicateAction::DeleteReplicate(_, local) => {
            put_u16(&mut bytes, *local);
        },
        ReplicateAction::UpdateReplicate(_, local, diff_mask, replicate) => {
            put_u16(&mut bytes, *local);
            diff_mask.write(&mut bytes);
            replicate.write_partial(diff_mask, &mut bytes);
        },
        ReplicateAction::AssignPawn(_, local) => {
            put_u16(&mut bytes, *local);
        },
        ReplicateAction::UnassignPawn(_, local) => {
            put_u16(&mut bytes, *local);
        },
        ReplicateAction::UpdatePawn(_, local, _, replicate) => {
            put_u16(&mut bytes, *local);
            replicate.write(&mut bytes);
        },
        ReplicateAction::CreateEntity(_, local, components) => {
            put_u16(&mut bytes, *local);
            match components {
                Some(list) => {
                    put_u8(&mut bytes, list.len() as u8);
                    let ghost head = bytes@;
                    let mut i: usize = 0;
                    assert(bytes@ =~= head + components_bytes(manifest@, list@, 0));
                    while i < list.len()
                        invariant
                            i <= list@.len(),
                            forall|j: int|
                                0 <= j < list@.len() ==> naia_id_of(
                                    manifest@,
                                    (#[trigger] list@[j]).2.type_id(),
                                ) is Some,
                            bytes@ == head + components_bytes(manifest@, list@, i as int),
                        decreases list@.len() - i,
                    {
                        write_creation(&mut bytes, manifest, list[i].1, &list[i].2);
                        i += 1;
                        assert(bytes@ =~= head + components_bytes(manifest@, list@, i as int));
                    }
                },
                None => {
                    put_u8(&mut bytes, 0);
                },
            }
        },
        ReplicateAction::DeleteEntity(_, local) => {
            put_u16(&mut bytes, *local);
        },
        ReplicateAction::AssignPawnEntity(_, local) => {
            put_u16(&mut bytes, *local);
        },
        ReplicateAction::UnassignPawnEntity(_, local) => {
            put_u16(&mut bytes, *local);
        },
        ReplicateAction::AddComponent(entity, _, local, replicate) => {
            put_u16(&mut bytes, *entity);
            write_creation(&mut bytes, manifest, *local, replicate);
        },
    }
    assert(bytes@ =~= action_bytes(manifest@, action@));
    bytes
}

} // verus!
