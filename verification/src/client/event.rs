use vstd::prelude::*;
use crate::shared::types::{LocalComponentKey, LocalEntityKey, LocalObjectKey};

verus! {

/// What the client's replication applier has done with an action of the
/// server. `T` is the type of the replicated values.
pub enum ReplicateAction<T> {
    CreateObject(LocalObjectKey),
    DeleteObject(LocalObjectKey, T),
    UpdateObject(LocalObjectKey),
    AssignPawn(LocalObjectKey),
    UnassignPawn(LocalObjectKey),
    ResetPawn(LocalObjectKey),
    CreateEntity(LocalEntityKey, Vec<LocalComponentKey>),
    DeleteEntity(LocalEntityKey),
    AssignPawnEntity(LocalEntityKey),
    UnassignPawnEntity(LocalEntityKey),
    ResetPawnEntity(LocalEntityKey),
    AddComponent(LocalEntityKey, LocalComponentKey),
    UpdateComponent(LocalEntityKey, LocalComponentKey),
    RemoveComponent(LocalEntityKey, LocalComponentKey, T),
}

/// A key of a pawn: of an object, or of an entity.
#[derive(PartialEq, Eq, Structural, Clone, Copy, Debug)]
pub enum PawnKey {
    Object(LocalObjectKey),
    Entity(LocalEntityKey),
}

impl PawnKey {
    /// The number of the key.
    pub open spec fn number(self) -> u16 {
        match self {
            PawnKey::Object(key) => key,
            PawnKey::Entity(key) => key,
        }
    }

    /// The byte that says on the wire which kind of pawn a command is for.
    pub open spec fn kind_byte(self) -> u8 {
        match self {
            PawnKey::Object(_) => 0,
            PawnKey::Entity(_) => 255,
        }
    }

    /// The number of the key.
    pub fn to_u16(&self) -> (number: u16)
        ensures
            number == self.number(),
    {
        match self {
            PawnKey::Object(key) => *key,
            PawnKey::Entity(key) => *key,
        }
    }
}

/// What the client tells the application.
pub enum Event<T> {
    /// The server has accepted the connection.
    Connection,
    /// The connection is lost.
    Disconnection,
    /// The client's tick has moved.
    Tick,
    /// A message of the server.
    Message(T),
    CreateObject(LocalObjectKey),
    UpdateObject(LocalObjectKey),
    /// An object is gone; the value is what it last was.
    DeleteObject(LocalObjectKey, T),
    AssignPawn(LocalObjectKey),
    UnassignPawn(LocalObjectKey),
    /// The server's state of a pawn took the place of the predicted one.
    ResetPawn(LocalObjectKey),
    CreateEntity(LocalEntityKey, Vec<LocalComponentKey>),
    DeleteEntity(LocalEntityKey),
    AssignPawnEntity(LocalEntityKey),
    UnassignPawnEntity(LocalEntityKey),
    ResetPawnEntity(LocalEntityKey),
    AddComponent(LocalEntityKey, LocalComponentKey),
    UpdateComponent(LocalEntityKey, LocalComponentKey),
    /// A component is gone; the value is what it last was.
    RemoveComponent(LocalEntityKey, LocalComponentKey, T),
    /// A command of this client for an object, to be carried out now.
    NewCommand(LocalObjectKey, T),
    /// A command of this client for an object, to be carried out again on
    /// the server's state.
    ReplayCommand(LocalObjectKey, T),
    NewCommandEntity(LocalEntityKey, T),
    ReplayCommandEntity(LocalEntityKey, T),
}

/// The event that tells the application of an action.
pub open spec fn event_of<T>(action: ReplicateAction<T>) -> Event<T> {
    match action {
        ReplicateAction::CreateObject(key) => Event::CreateObject(key),
        ReplicateAction::DeleteObject(key, value) => Event::DeleteObject(key, value),
        ReplicateAction::UpdateObject(key) => Event::UpdateObject(key),
        ReplicateAction::AssignPawn(key) => Event::AssignPawn(key),
        ReplicateAction::UnassignPawn(key) => Event::UnassignPawn(key),
        ReplicateAction::ResetPawn(key) => Event::ResetPawn(key),
        ReplicateAction::CreateEntity(key, components) => Event::CreateEntity(key, components),
        ReplicateAction::DeleteEntity(key) => Event::DeleteEntity(key),
        ReplicateAction::AssignPawnEntity(key) => Event::AssignPawnEntity(key),
        ReplicateAction::UnassignPawnEntity(key) => Event::UnassignPawnEntity(key),
        ReplicateAction::ResetPawnEntity(key) => Event::ResetPawnEntity(key),
        ReplicateAction::AddComponent(entity, component) => Event::AddComponent(entity, component),
        ReplicateAction::UpdateComponent(entity, component) => Event::UpdateComponent(
            entity,
            component,
        ),
        ReplicateAction::RemoveComponent(entity, component, value) => Event::RemoveComponent(
            entity,
            component,
            value,
        ),
    }
}

/// The event that tells the application of an action of the replication
/// applier.
pub fn action_event<T>(action: ReplicateAction<T>) -> (event: Event<T>)
    ensures
        event == event_of(action),
{
    match action {
        ReplicateAction::CreateObject(key) => Event::CreateObject(key),
        ReplicateAction::DeleteObject(key, value) => Event::DeleteObject(key, value),
        ReplicateAction::UpdateObject(key) => Event::UpdateObject(key),
        ReplicateAction::AssignPawn(key) => Event::AssignPawn(key),
        ReplicateAction::UnassignPawn(key) => Event::UnassignPawn(key),
        ReplicateAction::ResetPawn(key) => Event::ResetPawn(key),
        ReplicateAction::CreateEntity(key, components) => Event::CreateEntity(key, components),
        ReplicateAction::DeleteEntity(key) => Event::DeleteEntity(key),
        ReplicateAction::AssignPawnEntity(key) => Event::AssignPawnEntity(key),
        ReplicateAction::UnassignPawnEntity(key) => Event::UnassignPawnEntity(key),
        ReplicateAction::ResetPawnEntity(key) => Event::ResetPawnEntity(key),
        ReplicateAction::AddComponent(entity, component) => Event::AddComponent(entity, component),
        ReplicateAction::UpdateComponent(entity, component) => Event::UpdateComponent(
            entity,
            component,
        ),
        ReplicateAction::RemoveComponent(entity, component, value) => Event::RemoveComponent(
            entity,
            component,
            value,
        ),
    }
}

/// The event for a command of this client that comes up again for replay.
pub fn replay_event<T>(pawn_key: PawnKey, command: T) -> (event: Event<T>)
    ensures
        event == (match pawn_key {
            PawnKey::Object(key) => Event::ReplayCommand(key, command),
            PawnKey::Entity(key) => Event::ReplayCommandEntity(key, command),
        }),
{
    match pawn_key {
        PawnKey::Object(key) => Event::ReplayCommand(key, command),
        PawnKey::Entity(key) => Event::ReplayCommandEntity(key, command),
    }
}

/// The event for a command of this client that is due.
pub fn command_event<T>(pawn_key: PawnKey, command: T) -> (event: Event<T>)
    ensures
        event == (match pawn_key {
            PawnKey::Object(key) => Event::NewCommand(key, command),
            PawnKey::Entity(key) => Event::NewCommandEntity(key, command),
        }),
{
    match pawn_key {
        PawnKey::Object(key) => Event::NewCommand(key, command),
        PawnKey::Entity(key) => Event::NewCommandEntity(key, command),
    }
}

} // verus!
