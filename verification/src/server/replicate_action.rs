use vstd::prelude::*;
use crate::server::keys::{ComponentKey, EntityKey, ObjectKey};
use crate::shared::diff_mask::DiffMask;
use crate::shared::replicate::share;
use crate::shared::types::{LocalComponentKey, LocalEntityKey, LocalObjectKey};
use std::rc::Rc;

verus! {

/// The kind of a replication action, as its first byte on the wire says it.
#[derive(PartialEq, Eq, Structural, Clone, Copy, Debug)]
pub enum ReplicateActionType {
    CreateObject,
    DeleteReplicate,
    UpdateReplicate,
    AssignPawn,
    UnassignPawn,
    UpdatePawn,
    CreateEntity,
    DeleteEntity,
    AssignPawnEntity,
    UnassignPawnEntity,
    AddComponent,
}

impl ReplicateActionType {
    /// The byte that stands for the kind on the wire.
    pub open spec fn code(self) -> u8 {
        match self {
            ReplicateActionType::CreateObject => 0,
            ReplicateActionType::DeleteReplicate => 1,
            ReplicateActionType::UpdateReplicate => 2,
            ReplicateActionType::AssignPawn => 3,
            ReplicateActionType::UnassignPawn => 4,
            ReplicateActionType::UpdatePawn => 5,
            ReplicateActionType::CreateEntity => 6,
            ReplicateActionType::DeleteEntity => 7,
            ReplicateActionType::AssignPawnEntity => 8,
            ReplicateActionType::UnassignPawnEntity => 9,
            ReplicateActionType::AddComponent => 10,
        }
    }

    /// The byte that stands for the kind on the wire.
    pub fn to_u8(&self) -> (byte: u8)
        ensures
            byte == self.code(),
    {
        match self {
            ReplicateActionType::CreateObject => 0,
            ReplicateActionType::DeleteReplicate => 1,
            ReplicateActionType::UpdateReplicate => 2,
            ReplicateActionType::AssignPawn => 3,
            ReplicateActionType::UnassignPawn => 4,
            ReplicateActionType::UpdatePawn => 5,
            ReplicateActionType::CreateEntity => 6,
            ReplicateActionType::DeleteEntity => 7,
            ReplicateActionType::AssignPawnEntity => 8,
            ReplicateActionType::UnassignPawnEntity => 9,
            ReplicateActionType::AddComponent => 10,
        }
    }

    /// The kind that a byte stands for, if it stands for one.
    pub fn from_u8(byte: u8) -> (kind: Option<ReplicateActionType>)
        ensures
            match kind {
                Some(kind) => kind.code() == byte,
                None => byte > 10,
            },
    {
        match byte {
            0 => Some(ReplicateActionType::CreateObject),
            1 => Some(ReplicateActionType::DeleteReplicate),
            2 => Some(ReplicateActionType::UpdateReplicate),
            3 => Some(ReplicateActionType::AssignPawn),
            4 => Some(ReplicateActionType::UnassignPawn),
            5 => Some(ReplicateActionType::UpdatePawn),
            6 => Some(ReplicateActionType::CreateEntity),
            7 => Some(ReplicateActionType::DeleteEntity),
            8 => Some(ReplicateActionType::AssignPawnEntity),
            9 => Some(ReplicateActionType::UnassignPawnEntity),
            10 => Some(ReplicateActionType::AddComponent),
            _ => None,
        }
    }
}

/// A replication action as plain values.
pub enum ActionView<R> {
    CreateObject(ObjectKey, LocalObjectKey, Rc<R>),
    DeleteReplicate(ObjectKey, LocalObjectKey),
    UpdateReplicate(ObjectKey, LocalObjectKey, Seq<u8>, Rc<R>),
    AssignPawn(ObjectKey, LocalObjectKey),
    UnassignPawn(ObjectKey, LocalObjectKey),
    UpdatePawn(ObjectKey, LocalObjectKey, Seq<u8>, Rc<R>),
    CreateEntity(EntityKey, LocalEntityKey, Option<Seq<(ComponentKey, LocalComponentKey, Rc<R>)>>),
    DeleteEntity(EntityKey, LocalEntityKey),
    AssignPawnEntity(EntityKey, LocalEntityKey),
    UnassignPawnEntity(EntityKey, LocalEntityKey),
    AddComponent(LocalEntityKey, ComponentKey, LocalComponentKey, Rc<R>),
}

impl<R> ActionView<R> {
    /// The kind of the action.
    pub open spec fn kind(self) -> ReplicateActionType {
        match self {
            ActionView::CreateObject(..) => ReplicateActionType::CreateObject,
            ActionView::DeleteReplicate(..) => ReplicateActionType::DeleteReplicate,
            ActionView::UpdateReplicate(..) => ReplicateActionType::UpdateReplicate,
            ActionView::AssignPawn(..) => ReplicateActionType::AssignPawn,
            ActionView::UnassignPawn(..) => ReplicateActionType::UnassignPawn,
            ActionView::UpdatePawn(..) => ReplicateActionType::UpdatePawn,
            ActionView::CreateEntity(..) => ReplicateActionType::CreateEntity,
            ActionView::DeleteEntity(..) => ReplicateActionType::DeleteEntity,
            ActionView::AssignPawnEntity(..) => ReplicateActionType::AssignPawnEntity,
            ActionView::UnassignPawnEntity(..) => ReplicateActionType::UnassignPawnEntity,
            ActionView::AddComponent(..) => ReplicateActionType::AddComponent,
        }
    }

    /// Whether the action carries an update, which is sent again only as far
    /// as its bits are still wanted; every other action is sent until it
    /// arrives.
    pub open spec fn is_update(self) -> bool {
        self is UpdateReplicate || self is UpdatePawn
    }

    /// The key of the object that an update is about.
    pub open spec fn update_key(self) -> ObjectKey {
        match self {
            ActionView::UpdateReplicate(key, _, _, _) => key,
            ActionView::UpdatePawn(key, _, _, _) => key,
            _ => 0,
        }
    }

    /// The diff mask that an update carries.
    pub open spec fn update_mask(self) -> Seq<u8> {
        match self {
            ActionView::UpdateReplicate(_, _, mask, _) => mask,
            ActionView::UpdatePawn(_, _, mask, _) => mask,
            _ => Seq::empty(),
        }
    }
}

/// One step of the replication stream from the server to one client.
pub enum ReplicateAction<R> {
    CreateObject(ObjectKey, LocalObjectKey, Rc<R>),
    DeleteReplicate(ObjectKey, LocalObjectKey),
    UpdateReplicate(ObjectKey, LocalObjectKey, DiffMask, Rc<R>),
    AssignPawn(ObjectKey, LocalObjectKey),
    UnassignPawn(ObjectKey, LocalObjectKey),
    UpdatePawn(ObjectKey, LocalObjectKey, DiffMask, Rc<R>),
    CreateEntity(EntityKey, LocalEntityKey, Option<Vec<(ComponentKey, LocalComponentKey, Rc<R>)>>),
    DeleteEntity(EntityKey, LocalEntityKey),
    AssignPawnEntity(EntityKey, LocalEntityKey),
    UnassignPawnEntity(EntityKey, LocalEntityKey),
    AddComponent(LocalEntityKey, ComponentKey, LocalComponentKey, Rc<R>),
}

impl<R> View for ReplicateAction<R> {
    type V = ActionView<R>;

    open spec fn view(&self) -> ActionView<R> {
        match *self {
            ReplicateAction::CreateObject(key, local, replicate) => ActionView::CreateObject(
                key,
                local,
                replicate,
            ),
            ReplicateAction::DeleteReplicate(key, local) => ActionView::DeleteReplicate(key, local),
            ReplicateAction::UpdateReplicate(
                key,
                local,
                mask,
                replicate,
            ) => ActionView::UpdateReplicate(key, local, mask@, replicate),
            ReplicateAction::AssignPawn(key, local) => ActionView::AssignPawn(key, local),
            ReplicateAction::UnassignPawn(key, local) => ActionView::UnassignPawn(key, local),
            ReplicateAction::UpdatePawn(key, local, mask, replicate) => ActionView::UpdatePawn(
                key,
                local,
                mask@,
                replicate,
            ),
            ReplicateAction::CreateEntity(key, local, components) => ActionView::CreateEntity(
                key,
                local,
                match components {
                    Some(list) => Some(list@),
                    None => None,
                },
            ),
            ReplicateAction::DeleteEntity(key, local) => ActionView::DeleteEntity(key, local),
            ReplicateAction::AssignPawnEntity(key, local) => ActionView::AssignPawnEntity(
                key,
                local,
            ),
            ReplicateAction::UnassignPawnEntity(key, local) => ActionView::UnassignPawnEntity(
                key,
                local,
            ),
            ReplicateAction::AddComponent(entity, key, local, replicate) => ActionView::AddComponent(
                entity,
                key,
                local,
                replicate,
            ),
        }
    }
}

/// A list of actions as plain values.
pub open spec fn actions_view<R>(actions: Seq<ReplicateAction<R>>) -> Seq<ActionView<R>> {
    Seq::new(actions.len(), |i: int| actions[i]@)
}

/// Copies a list of components; the replicates are shared, not copied.
pub fn clone_components<R>(list: &Vec<(ComponentKey, LocalComponentKey, Rc<R>)>) -> (copy: Vec<
    (ComponentKey, LocalComponentKey, Rc<R>),
>)
    ensures
        copy@ == list@,
{
    let mut copy: Vec<(ComponentKey, LocalComponentKey, Rc<R>)> = Vec::new();
    let mut i: usize = 0;
    while i < list.len()
        invariant
            i <= list@.len(),
            copy@ == list@.subrange(0, i as int),
        decreases list@.len() - i,
    {
        let entry = &list[i];
        copy.push((entry.0, entry.1, share(&entry.2)));
        i += 1;
        assert(copy@ =~= list@.subrange(0, i as int));
    }
    assert(copy@ =~= list@);
    copy
}

impl<R> ReplicateAction<R> {
    /// The kind of the action.
    pub fn as_type(&self) -> (kind: ReplicateActionType)
        ensures
            kind == self@.kind(),
    {
        match self {
            ReplicateAction::CreateObject(_, _, _) => ReplicateActionType::CreateObject,
            ReplicateAction::DeleteReplicate(_, _) => ReplicateActionType::DeleteReplicate,
            ReplicateAction::UpdateReplicate(_, _, _, _) => ReplicateActionType::UpdateReplicate,
            ReplicateAction::AssignPawn(_, _) => ReplicateActionType::AssignPawn,
            ReplicateAction::UnassignPawn(_, _) => ReplicateActionType::UnassignPawn,
            ReplicateAction::UpdatePawn(_, _, _, _) => ReplicateActionType::UpdatePawn,
            ReplicateAction::CreateEntity(_, _, _) => ReplicateActionType::CreateEntity,
            ReplicateAction::DeleteEntity(_, _) => ReplicateActionType::DeleteEntity,
            ReplicateAction::AssignPawnEntity(_, _) => ReplicateActionType::AssignPawnEntity,
            ReplicateAction::UnassignPawnEntity(_, _) => ReplicateActionType::UnassignPawnEntity,
            ReplicateAction::AddComponent(_, _, _, _) => ReplicateActionType::AddComponent,
        }
    }
}

impl<R> Clone for ReplicateAction<R> {
    /// Copies the action; the replicates in it are shared, not copied.
    fn clone(&self) -> (copy: ReplicateAction<R>)
        ensures
            copy@ == self@,
    {
        match self {
            ReplicateAction::CreateObject(key, local, replicate) => ReplicateAction::CreateObject(
                *key,
                *local,
                share(replicate),
            ),
            ReplicateAction::DeleteReplicate(key, local) => ReplicateAction::DeleteReplicate(
                *key,
                *local,
            ),
            ReplicateAction::UpdateReplicate(
                key,
                local,
                mask,
                replicate,
            ) => ReplicateAction::UpdateReplicate(*key, *local, mask.clone(), share(replicate)),
            ReplicateAction::AssignPawn(key, local) => ReplicateAction::AssignPawn(*key, *local),
            ReplicateAction::UnassignPawn(key, local) => ReplicateAction::UnassignPawn(
                *key,
                *local,
            ),
            ReplicateAction::UpdatePawn(key, local, mask, replicate) => ReplicateAction::UpdatePawn(
                *key,
                *local,
                mask.clone(),
                share(replicate),
            ),
            ReplicateAction::CreateEntity(key, local, components) => {
                let list = match components {
                    Some(list) => Some(clone_components(list)),
                    None => None,
                };
                ReplicateAction::CreateEntity(*key, *local, list)
            },
            ReplicateAction::DeleteEntity(key, local) => ReplicateAction::DeleteEntity(
                *key,
                *local,
            ),
            ReplicateAction::AssignPawnEntity(key, local) => ReplicateAction::AssignPawnEntity(
                *key,
                *local,
            ),
            ReplicateAction::UnassignPawnEntity(
                key,
                local,
            ) => ReplicateAction::UnassignPawnEntity(*key, *local),
            ReplicateAction::AddComponent(
                entity,
                key,
                local,
                replicate,
            ) => ReplicateAction::AddComponent(*entity, *key, *local, share(replicate)),
        }
    }
}

/// Adding an action at the end of a list adds its view at the end of the
/// list's view.
pub proof fn lemma_actions_view_push<R>(actions: Seq<ReplicateAction<R>>, action: ReplicateAction<R>)
    ensures
        actions_view(actions.push(action)) == actions_view(actions).push(action@),
{
    assert(actions_view(actions.push(action)) =~= actions_view(actions).push(action@));
}

/// Views go along with taking out the first or the last action, with putting
/// one in front, and with joining lists.
pub proof fn lemma_actions_view_parts<R>(
    actions: Seq<ReplicateAction<R>>,
    more: Seq<ReplicateAction<R>>,
    action: ReplicateAction<R>,
)
    ensures
        actions.len() > 0 ==> actions_view(actions.drop_first()) == actions_view(
            actions,
        ).drop_first(),
        actions.len() > 0 ==> actions_view(actions.drop_last()) == actions_view(
            actions,
        ).drop_last(),
        actions_view(seq![action] + actions) == seq![action@] + actions_view(actions),
        actions_view(actions + more) == actions_view(actions) + actions_view(more),
        actions_view(Seq::<ReplicateAction<R>>::empty()) == Seq::<ActionView<R>>::empty(),
{
    if actions.len() > 0 {
        assert(actions_view(actions.drop_first()) =~= actions_view(actions).drop_first());
        assert(actions_view(actions.drop_last()) =~= actions_view(actions).drop_last());
    }
    assert(actions_view(seq![action] + actions) =~= seq![action@] + actions_view(actions));
    assert(actions_view(actions + more) =~= actions_view(actions) + actions_view(more));
    assert(actions_view(Seq::<ReplicateAction<R>>::empty()) =~= Seq::<ActionView<R>>::empty());
}

} // verus!
