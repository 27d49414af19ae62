use vstd::prelude::*;
use crate::protocol::entity_handle::EntityHandle;
use crate::protocol::net_entity::{lemma_net_entity_round_trips, NetEntity};
use crate::protocol::property_mutate::{mark, marked, marks_of, PropertyMutator};
use crate::wire::bit_reader::BitReader;
use crate::wire::bit_writer::BitWriter;
use crate::wire::error::SerdeErr;
use crate::wire::integer::{lemma_variable_integer_round_trips, UnsignedVariableInteger};
use crate::wire::serde::{lemma_option_round_trips, Serde};
use std::collections::VecDeque;

verus! {

/// Converts between entity handles and the application's entity type.
///
/// The spec functions of the three converter traits name what the methods
/// give. An implementation written outside the verifier leaves them as they
/// are.
pub trait EntityHandleConverter<E: Copy> {
    /// The entity that a handle stands for.
    open spec fn entity_of(&self, entity_handle: EntityHandle) -> E {
        arbitrary()
    }

    /// The handle that stands for an entity.
    open spec fn handle_of(&self, entity: E) -> EntityHandle {
        arbitrary()
    }

    fn handle_to_entity(&self, entity_handle: &EntityHandle) -> (entity: E)
        ensures
            entity == self.entity_of(*entity_handle),
    ;

    fn entity_to_handle(&self, entity: &E) -> (entity_handle: EntityHandle)
        ensures
            entity_handle == self.handle_of(*entity),
    ;
}

/// Converts between entity handles and their wire form.
pub trait NetEntityHandleConverter {
    /// The wire form of a handle.
    open spec fn net_of_handle(&self, entity_handle: EntityHandle) -> NetEntity {
        arbitrary()
    }

    /// The handle that a wire form denotes.
    open spec fn handle_of_net(&self, net_entity: NetEntity) -> EntityHandle {
        arbitrary()
    }

    fn handle_to_net_entity(&self, entity_handle: &EntityHandle) -> (net_entity: NetEntity)
        ensures
            net_entity == self.net_of_handle(*entity_handle),
    ;

    fn net_entity_to_handle(&self, net_entity: &NetEntity) -> (entity_handle: EntityHandle)
        ensures
            entity_handle == self.handle_of_net(*net_entity),
    ;
}

/// Converts between the application's entity type and the wire form.
pub trait NetEntityConverter<E: Copy> {
    /// The wire form of an entity.
    open spec fn net_of_entity(&self, entity: E) -> NetEntity {
        arbitrary()
    }

    /// The entity that a wire form denotes.
    open spec fn entity_of_net(&self, net_entity: NetEntity) -> E {
        arbitrary()
    }

    fn entity_to_net_entity(&self, entity: &E) -> (net_entity: NetEntity)
        ensures
            net_entity == self.net_of_entity(*entity),
    ;

    fn net_entity_to_entity(&self, net_entity: &NetEntity) -> (entity: E)
        ensures
            entity == self.entity_of_net(*net_entity),
    ;
}

/// A converter that maps everything to zero.
pub struct FakeEntityConverter;

impl NetEntityHandleConverter for FakeEntityConverter {
    open spec fn net_of_handle(&self, entity_handle: EntityHandle) -> NetEntity {
        NetEntity(0)
    }

    open spec fn handle_of_net(&self, net_entity: NetEntity) -> EntityHandle {
        EntityHandle(0)
    }

    fn handle_to_net_entity(&self, entity_handle: &EntityHandle) -> (net_entity: NetEntity) {
        NetEntity::from_u16(0)
    }

    fn net_entity_to_handle(&self, net_entity: &NetEntity) -> (entity_handle: EntityHandle) {
        EntityHandle::from_u64(0)
    }
}

/// Goes from handles to the wire form, and back, through the application's
/// entity type.
pub struct EntityConverter<'a, 'b, E: Copy, H: EntityHandleConverter<E>, N: NetEntityConverter<E>> {
    pub handle_converter: &'a H,
    pub net_entity_converter: &'b N,
    pub entity: core::marker::PhantomData<E>,
}

impl<'a, 'b, E: Copy, H: EntityHandleConverter<E>, N: NetEntityConverter<E>> EntityConverter<'a, 'b, E, H, N> {
    pub fn new(handle_converter: &'a H, net_entity_converter: &'b N) -> (converter: Self)
        ensures
            *converter.handle_converter == *handle_converter,
            *converter.net_entity_converter == *net_entity_converter,
    {
        Self { handle_converter, net_entity_converter, entity: core::marker::PhantomData }
    }
}

impl<'a, 'b, E: Copy, H: EntityHandleConverter<E>, N: NetEntityConverter<E>> NetEntityHandleConverter for EntityConverter<'a, 'b, E, H, N> {
    open spec fn net_of_handle(&self, entity_handle: EntityHandle) -> NetEntity {
        self.net_entity_converter.net_of_entity(self.handle_converter.entity_of(entity_handle))
    }

    open spec fn handle_of_net(&self, net_entity: NetEntity) -> EntityHandle {
        self.handle_converter.handle_of(self.net_entity_converter.entity_of_net(net_entity))
    }

    fn handle_to_net_entity(&self, entity_handle: &EntityHandle) -> (net_entity: NetEntity) {
        let entity = self.handle_converter.handle_to_entity(entity_handle);
        self.net_entity_converter.entity_to_net_entity(&entity)
    }

    fn net_entity_to_handle(&self, net_entity: &NetEntity) -> (entity_handle: EntityHandle) {
        let entity = self.net_entity_converter.net_entity_to_entity(net_entity);
        self.handle_converter.entity_to_handle(&entity)
    }
}

/// What an entity property holds, as plain values: the handle of the entity
/// it refers to, if any, its index among the properties of its replicate,
/// and the notes of its mutator, if it has one.
pub struct EntityPropertyView {
    pub handle: Option<EntityHandle>,
    pub index: u8,
    pub marks: Option<Seq<u8>>,
}

/// The wire form of a reference to an entity: that of the entity's handle,
/// if there is one.
pub open spec fn net_form<C: NetEntityHandleConverter>(
    handle: Option<EntityHandle>,
    converter: C,
) -> Option<NetEntity> {
    match handle {
        Some(handle) => Some(converter.net_of_handle(handle)),
        None => None,
    }
}

/// The handle that a wire form denotes, if it denotes one.
pub open spec fn handle_form<C: NetEntityHandleConverter>(
    net_entity: Option<NetEntity>,
    converter: C,
) -> Option<EntityHandle> {
    match net_entity {
        Some(net_entity) => Some(converter.handle_of_net(net_entity)),
        None => None,
    }
}

/// A property of a replicate that refers to an entity.
pub struct EntityProperty {
    handle: Option<EntityHandle>,
    mutator: Option<PropertyMutator>,
    mutator_index: u8,
}

impl View for EntityProperty {
    type V = EntityPropertyView;

    closed spec fn view(&self) -> EntityPropertyView {
        EntityPropertyView {
            handle: self.handle,
            index: self.mutator_index,
            marks: marks_of(self.mutator),
        }
    }
}

impl EntityProperty {
    /// The handle of the entity that the property refers to.
    pub fn handle(&self) -> (handle: Option<EntityHandle>)
        ensures
            handle == self@.handle,
    {
        self.handle
    }

    /// The entity that the property refers to.
    pub fn get<E: Copy, H: EntityHandleConverter<E>>(&self, handler: &H) -> (entity: Option<E>)
        ensures
            entity == (match self@.handle {
                Some(handle) => Some(handler.entity_of(handle)),
                None => None,
            }),
    {
        match &self.handle {
            Some(handle) => Some(handler.handle_to_entity(handle)),
            None => None,
        }
    }

    /// Makes the property refer to `entity`, and tells the mutator.
    pub fn set<E: Copy, H: EntityHandleConverter<E>>(&mut self, handler: &H, entity: &E)
        ensures
            final(self)@ == (EntityPropertyView {
                handle: Some(handler.handle_of(*entity)),
                index: old(self)@.index,
                marks: marked(old(self)@.marks, old(self)@.index),
            }),
    {
        let new_handle = handler.entity_to_handle(entity);
        mark(&mut self.mutator, self.mutator_index);
        self.handle = Some(new_handle);
    }

    /// A property that refers to no entity, with the index `mutator_index`
    /// and without a mutator.
    pub fn new(mutator_index: u8) -> (property: Self)
        ensures
            property@ == (EntityPropertyView { handle: None, index: mutator_index, marks: None }),
    {
        EntityProperty { handle: None, mutator: None, mutator_index }
    }

    /// Takes over what another property refers to, and tells the mutator.
    pub fn mirror(&mut self, other: &Self)
        ensures
            final(self)@ == (EntityPropertyView {
                handle: other@.handle,
                index: old(self)@.index,
                marks: marked(old(self)@.marks, old(self)@.index),
            }),
    {
        mark(&mut self.mutator, self.mutator_index);
        self.handle = other.handle;
    }

    /// Writes the reference in its wire form.
    pub fn write<C: NetEntityHandleConverter>(&self, writer: &mut BitWriter, converter: &C)
        requires
            old(writer).wf(),
        ensures
            final(writer).wf(),
            final(writer)@ == old(writer)@ + net_form(self@.handle, *converter).bits(),
    {
        let net_entity = match &self.handle {
            Some(handle) => Some(converter.handle_to_net_entity(handle)),
            None => None,
        };
        net_entity.ser(writer);
    }

    /// Reads a reference and makes a property of it, with the index
    /// `mutator_index` and without a mutator.
    pub fn new_read<C: NetEntityHandleConverter>(
        reader: &mut BitReader,
        mutator_index: u8,
        converter: &C,
    ) -> (read: Result<Self, SerdeErr>)
        requires
            old(reader).wf(),
        ensures
            final(reader).wf(),
            match (Option::<NetEntity>::parsed(old(reader)@), read) {
                (Some((net_entity, used)), Ok(property)) => property@ == (EntityPropertyView {
                    handle: handle_form(net_entity, *converter),
                    index: mutator_index,
                    marks: None,
                }) && 0 <= used <= old(reader)@.len() && final(reader)@ == old(reader)@.skip(used),
                (None, Err(_)) => true,
                _ => false,
            },
    {
        match Option::<NetEntity>::de(reader) {
            Ok(Some(net_entity)) => {
                let handle = converter.net_entity_to_handle(&net_entity);
                Ok(EntityProperty { handle: Some(handle), mutator: None, mutator_index })
            },
            Ok(None) => Ok(EntityProperty { handle: None, mutator: None, mutator_index }),
            Err(error) => Err(error),
        }
    }

    /// Reads a reference and writes it again at once, to keep an update for
    /// later.
    pub fn read_write(reader: &mut BitReader, writer: &mut BitWriter) -> (read: Result<(), SerdeErr>)
        requires
            old(reader).wf(),
            old(writer).wf(),
        ensures
            final(reader).wf(),
            final(writer).wf(),
            match (Option::<NetEntity>::parsed(old(reader)@), read) {
                (Some((net_entity, used)), Ok(_)) => final(writer)@ == old(writer)@
                    + net_entity.bits() && 0 <= used <= old(reader)@.len() && final(reader)@
                    == old(reader)@.skip(used),
                (None, Err(_)) => final(writer)@ == old(writer)@,
                _ => false,
            },
    {
        match Option::<NetEntity>::de(reader) {
            Ok(net_entity) => {
                net_entity.ser(writer);
                Ok(())
            },
            Err(error) => Err(error),
        }
    }

    /// Reads a reference into the property, and tells the mutator. A failed
    /// read leaves the property as it is.
    pub fn read<C: NetEntityHandleConverter>(&mut self, reader: &mut BitReader, converter: &C) -> (read:
        Result<(), SerdeErr>)
        requires
            old(reader).wf(),
        ensures
            final(reader).wf(),
            match (Option::<NetEntity>::parsed(old(reader)@), read) {
                (Some((net_entity, used)), Ok(_)) => final(self)@ == (EntityPropertyView {
                    handle: handle_form(net_entity, *converter),
                    index: old(self)@.index,
                    marks: marked(old(self)@.marks, old(self)@.index),
                }) && 0 <= used <= old(reader)@.len() && final(reader)@ == old(reader)@.skip(used),
                (None, Err(_)) => final(self)@ == old(self)@,
                _ => false,
            },
    {
        match Option::<NetEntity>::de(reader) {
            Ok(Some(net_entity)) => {
                let handle = converter.net_entity_to_handle(&net_entity);
                mark(&mut self.mutator, self.mutator_index);
                self.handle = Some(handle);
                Ok(())
            },
            Ok(None) => {
                mark(&mut self.mutator, self.mutator_index);
                self.handle = None;
                Ok(())
            },
            Err(error) => Err(error),
        }
    }

    /// Whether two properties refer to the same entity, or both to none.
    pub fn equals(&self, other: &EntityProperty) -> (equal: bool)
        ensures
            equal == (self@.handle == other@.handle),
    {
        match (self.handle, other.handle) {
            (Some(mine), Some(theirs)) => mine == theirs,
            (None, None) => true,
            _ => false,
        }
    }

    /// The handles that the property holds: one, or none.
    pub fn entities(&self) -> (handles: Vec<EntityHandle>)
        ensures
            handles@ == (match self@.handle {
                Some(handle) => seq![handle],
                None => Seq::empty(),
            }),
    {
        let mut output: Vec<EntityHandle> = Vec::new();
        if let Some(handle) = self.handle {
            output.push(handle);
        }
        output
    }

    /// Gives the property a mutator of the kind of `mutator`, without notes.
    pub fn set_mutator(&mut self, mutator: &PropertyMutator)
        ensures
            final(self)@ == (EntityPropertyView { marks: Some(Seq::empty()), ..old(self)@ }),
    {
        self.mutator = Some(mutator.clone_new());
    }
}

impl Clone for EntityProperty {
    fn clone(&self) -> (copy: EntityProperty)
        ensures
            copy@ == self@,
    {
        EntityProperty {
            handle: self.handle,
            mutator: match &self.mutator {
                Some(mutator) => Some(mutator.clone()),
                None => None,
            },
            mutator_index: self.mutator_index,
        }
    }
}

impl Default for EntityProperty {
    fn default() -> (property: EntityProperty)
        ensures
            property@ == (EntityPropertyView { handle: None, index: 0, marks: None }),
    {
        EntityProperty { handle: None, mutator: None, mutator_index: 0 }
    }
}

/// A reference to an entity that is written and read back refers to the
/// same entity, where the converter finds each handle again behind its wire
/// form.
pub proof fn lemma_entity_reference_round_trip<C: NetEntityHandleConverter>(
    handle: Option<EntityHandle>,
    converter: C,
    tail: Seq<bool>,
)
    requires
        handle is Some ==> converter.handle_of_net(converter.net_of_handle(handle->0))
            == handle->0,
    ensures
        ({
            let written = net_form(handle, converter);
            &&& Option::<NetEntity>::parsed(written.bits() + tail) == Some(
                (written, written.bits().len() as int),
            )
            &&& handle_form(written, converter) == handle
        }),
{
    let written = net_form(handle, converter);
    if written is Some {
        lemma_net_entity_round_trips(written->0);
    }
    lemma_option_round_trips(written);
}

/// A list of entity properties as plain values.
pub open spec fn properties_view(list: Seq<EntityProperty>) -> Seq<EntityPropertyView> {
    Seq::new(list.len(), |i: int| list[i]@)
}

/// The bits of the first `upto` references of a list, one after the other.
pub open spec fn references_bits<C: NetEntityHandleConverter>(
    list: Seq<EntityPropertyView>,
    converter: C,
    upto: int,
) -> Seq<bool>
    decreases upto,
{
    if upto <= 0 {
        Seq::empty()
    } else {
        references_bits(list, converter, upto - 1) + net_form(list[upto - 1].handle, converter).bits()
    }
}

/// The `count` references that `input` begins with, as wire forms, and the
/// number of bits they take.
pub open spec fn references_parsed(input: Seq<bool>, count: nat) -> Option<
    (Seq<Option<NetEntity>>, int),
>
    decreases count,
{
    if count == 0 {
        Some((Seq::empty(), 0))
    } else {
        match Option::<NetEntity>::parsed(input) {
            Some((first, used)) => match references_parsed(input.skip(used), (count - 1) as nat) {
                Some((rest, more)) => Some((seq![first] + rest, used + more)),
                None => None,
            },
            None => None,
        }
    }
}

/// A list with its length in front, as `input` begins with it.
pub open spec fn list_parsed(input: Seq<bool>) -> Option<(Seq<Option<NetEntity>>, int)> {
    match UnsignedVariableInteger::<5>::parsed(input) {
        Some((length, used)) => match references_parsed(input.skip(used), length.inner as nat) {
            Some((list, more)) => Some((list, used + more)),
            None => None,
        },
        None => None,
    }
}

/// The properties that are made of a list of wire forms.
pub open spec fn read_properties<C: NetEntityHandleConverter>(
    list: Seq<Option<NetEntity>>,
    index: u8,
    converter: C,
) -> Seq<EntityPropertyView> {
    Seq::new(
        list.len(),
        |i: int|
            EntityPropertyView { handle: handle_form(list[i], converter), index, marks: None },
    )
}

/// A property of a replicate that refers to a list of entities.
pub struct VecDequeEntityProperty(pub VecDeque<EntityProperty>);

impl View for VecDequeEntityProperty {
    type V = Seq<EntityPropertyView>;

    open spec fn view(&self) -> Seq<EntityPropertyView> {
        properties_view(self.0@)
    }
}

impl VecDequeEntityProperty {
    /// A copy of the properties in the list.
    pub fn inner(&self) -> (list: VecDeque<EntityProperty>)
        ensures
            properties_view(list@) == self@,
    {
        let mut list: VecDeque<EntityProperty> = VecDeque::new();
        let mut i: usize = 0;
        while i < self.0.len()
            invariant
                i <= self.0@.len(),
                list@.len() == i,
                forall|j: int| 0 <= j < i ==> (#[trigger] list@[j])@ == self.0@[j]@,
            decreases self.0@.len() - i,
        {
            list.push_back(self.0[i].clone());
            i += 1;
        }
        assert(properties_view(list@) =~= self@);
        list
    }

    /// The entities that the list refers to.
    pub fn get<E: Copy, H: EntityHandleConverter<E>>(&self, handler: &H) -> (entities: VecDeque<
        Option<E>,
    >)
        ensures
            entities@.len() == self@.len(),
            forall|i: int|
                0 <= i < self@.len() ==> #[trigger] entities@[i] == (match self@[i].handle {
                    Some(handle) => Some(handler.entity_of(handle)),
                    None => None,
                }),
    {
        let mut entities: VecDeque<Option<E>> = VecDeque::new();
        let mut i: usize = 0;
        while i < self.0.len()
            invariant
                i <= self.0@.len(),
                entities@.len() == i,
                forall|j: int|
                    0 <= j < i ==> #[trigger] entities@[j] == (match self.0@[j]@.handle {
                        Some(handle) => Some(handler.entity_of(handle)),
                        None => None,
                    }),
            decreases self.0@.len() - i,
        {
            entities.push_back(self.0[i].get(handler));
            i += 1;
        }
        entities
    }

    /// Makes the list refer to `entities`, one new property for each.
    pub fn set<E: Copy, H: EntityHandleConverter<E>>(&mut self, handler: &H, entities: &VecDeque<E>)
        ensures
            final(self)@.len() == entities@.len(),
            forall|i: int|
                0 <= i < entities@.len() ==> #[trigger] final(self)@[i] == (EntityPropertyView {
                    handle: Some(handler.handle_of(entities@[i])),
                    index: 0,
                    marks: None,
                }),
    {
        let mut queue: VecDeque<EntityProperty> = VecDeque::new();
        let mut i: usize = 0;
        while i < entities.len()
            invariant
                i <= entities@.len(),
                queue@.len() == i,
                forall|j: int|
                    0 <= j < i ==> (#[trigger] queue@[j])@ == (EntityPropertyView {
                        handle: Some(handler.handle_of(entities@[j])),
                        index: 0,
                        marks: None,
                    }),
            decreases entities@.len() - i,
        {
            let mut entity = EntityProperty::default();
            entity.set(handler, &entities[i]);
            queue.push_back(entity);
            i += 1;
        }
        self.0 = queue;
    }

    /// A list of one property that refers to no entity.
    pub fn new(mutator_index: u8) -> (list: Self)
        ensures
            list@ == seq![
                EntityPropertyView { handle: None, index: mutator_index, marks: None },
            ],
    {
        let mut queue: VecDeque<EntityProperty> = VecDeque::new();
        queue.push_back(EntityProperty::new(mutator_index));
        let list = VecDequeEntityProperty(queue);
        assert(list@ =~= seq![
            EntityPropertyView { handle: None, index: mutator_index, marks: None },
        ]);
        list
    }

    /// Takes over, place by place, what the properties of another list refer
    /// to, as far as both lists go, and tells the mutators.
    pub fn mirror(&mut self, other: &Self)
        ensures
            final(self)@.len() == old(self)@.len(),
            forall|i: int|
                0 <= i < old(self)@.len() ==> #[trigger] final(self)@[i] == (if i < other@.len() {
                    EntityPropertyView {
                        handle: other@[i].handle,
                        index: old(self)@[i].index,
                        marks: marked(old(self)@[i].marks, old(self)@[i].index),
                    }
                } else {
                    old(self)@[i]
                }),
    {
        let mut queue: VecDeque<EntityProperty> = VecDeque::new();
        let mut i: usize = 0;
        let size = self.0.len();
        while i < size
            invariant
                i <= size,
                size == old(self).0@.len(),
                self.0@.len() == size - i,
                queue@.len() == i,
                forall|j: int|
                    0 <= j < size - i ==> (#[trigger] self.0@[j])@ == old(self).0@[j + i]@,
                forall|j: int|
                    0 <= j < i ==> (#[trigger] queue@[j])@ == (if j < other@.len() {
                        EntityPropertyView {
                            handle: other@[j].handle,
                            index: old(self)@[j].index,
                            marks: marked(old(self)@[j].marks, old(self)@[j].index),
                        }
                    } else {
                        old(self)@[j]
                    }),
            decreases size - i,
        {
            match self.0.pop_front() {
                Some(mut entity) => {
                    if i < other.0.len() {
                        entity.mirror(&other.0[i]);
                    }
                    queue.push_back(entity);
                },
                None => {},
            }
            i += 1;
        }
        self.0 = queue;
    }

    /// Writes the list: its length, and then each reference in its wire form.
    pub fn write<C: NetEntityHandleConverter>(&self, writer: &mut BitWriter, converter: &C)
        requires
            old(writer).wf(),
        ensures
            final(writer).wf(),
            final(writer)@ == old(writer)@ + (UnsignedVariableInteger::<5> {
                inner: self@.len() as u64,
            }).bits() + references_bits(self@, *converter, self@.len() as int),
    {
        let length = UnsignedVariableInteger::<5>::new(self.0.len() as u64);
        length.ser(writer);
        let ghost head = writer@;
        let mut i: usize = 0;
        assert(writer@ =~= head + references_bits(self@, *converter, 0));
        while i < self.0.len()
            invariant
                i <= self.0@.len(),
                writer.wf(),
                writer@ == head + references_bits(self@, *converter, i as int),
            decreases self.0@.len() - i,
        {
            self.0[i].write(writer, converter);
            i += 1;
            assert(writer@ =~= head + references_bits(self@, *converter, i as int));
        }
    }

    /// Reads a list, and makes a property of each reference, with the index
    /// `mutator_index` and without a mutator.
    pub fn new_read<C: NetEntityHandleConverter>(
        reader: &mut BitReader,
        mutator_index: u8,
        converter: &C,
    ) -> (read: Result<Self, SerdeErr>)
        requires
            old(reader).wf(),
        ensures
            final(reader).wf(),
            match (list_parsed(old(reader)@), read) {
                (Some((list, used)), Ok(property)) => property@ == read_properties(
                    list,
                    mutator_index,
                    *converter,
                ) && final(reader)@ == old(reader)@.skip(used),
                (None, Err(_)) => true,
                _ => false,
            },
    {
        let length = match UnsignedVariableInteger::<5>::de(reader) {
            Ok(length) => length.get(),
            Err(error) => {
                return Err(error);
            },
        };
        let ghost start = reader@;
        let ghost head_used = UnsignedVariableInteger::<5>::parsed(old(reader)@).unwrap().1;
        let mut output: VecDeque<EntityProperty> = VecDeque::new();
        let ghost mut done: Seq<Option<NetEntity>> = Seq::empty();
        let ghost mut consumed: int = 0;
        let mut i: u64 = 0;
        assert(start.skip(0) =~= start);
        while i < length
            invariant
                i <= length,
                reader.wf(),
                start == old(reader)@.skip(head_used),
                UnsignedVariableInteger::<5>::parsed(old(reader)@) == Some(
                    (UnsignedVariableInteger::<5> { inner: length }, head_used),
                ),
                0 <= consumed <= start.len(),
                reader@ == start.skip(consumed),
                done.len() == i,
                output@.len() == i,
                properties_view(output@) == read_properties(done, mutator_index, *converter),
                match references_parsed(reader@, (length - i) as nat) {
                    Some((rest, more)) => references_parsed(start, length as nat) == Some(
                        (done + rest, consumed + more),
                    ),
                    None => references_parsed(start, length as nat) is None,
                },
            decreases length - i,
        {
            let ghost current = reader@;
            let ghost before = properties_view(output@);
            let ghost done_before = done;
            match EntityProperty::new_read(reader, mutator_index, converter) {
                Ok(entity) => {
                    proof {
                        let (first, used) = Option::<NetEntity>::parsed(current).unwrap();
                        assert(current.skip(used) =~= start.skip(consumed + used));
                        match references_parsed(current.skip(used), (length - i - 1) as nat) {
                            Some((rest, more)) => {
                                assert((done.push(first)) + rest =~= done + (seq![first] + rest));
                            },
                            None => {},
                        }
                        done = done.push(first);
                        consumed = consumed + used;
                    }
                    output.push_back(entity);
                    proof {
                        let now = properties_view(output@);
                        let want = read_properties(done, mutator_index, *converter);
                        assert forall|j: int| 0 <= j < now.len() implies now[j] == want[j] by {
                            if j < i {
                                assert(now[j] == before[j]);
                                assert(want[j] == read_properties(
                                    done_before,
                                    mutator_index,
                                    *converter,
                                )[j]);
                            }
                        }
                        assert(now =~= want);
                    }
                },
                Err(error) => {
                    assert(references_parsed(current, (length - i) as nat) is None);
                    return Err(error);
                },
            }
            i += 1;
        }
        proof {
            assert(done + Seq::<Option<NetEntity>>::empty() =~= done);
            assert(start.skip(consumed) =~= old(reader)@.skip(head_used + consumed));
        }
        Ok(VecDequeEntityProperty(output))
    }

    /// Reads a list and writes it again at once, to keep an update for later.
    pub fn read_write(reader: &mut BitReader, writer: &mut BitWriter) -> (read: Result<(), SerdeErr>)
        requires
            old(reader).wf(),
            old(writer).wf(),
        ensures
            final(reader).wf(),
            final(writer).wf(),
            match (list_parsed(old(reader)@), read) {
                (Some((list, used)), Ok(_)) => final(writer)@ == old(writer)@ + (
                UnsignedVariableInteger::<5> { inner: list.len() as u64 }).bits() + forms_bits(
                    list,
                    list.len() as int,
                ) && final(reader)@ == old(reader)@.skip(used),
                (None, Err(_)) => true,
                _ => false,
            },
    {
        let length_int = match UnsignedVariableInteger::<5>::de(reader) {
            Ok(length) => length,
            Err(error) => {
                return Err(error);
            },
        };
        length_int.ser(writer);
        let length = length_int.get();
        let ghost start = reader@;
        let ghost head = writer@;
        let ghost head_used = UnsignedVariableInteger::<5>::parsed(old(reader)@).unwrap().1;
        let ghost mut done: Seq<Option<NetEntity>> = Seq::empty();
        let ghost mut consumed: int = 0;
        let mut i: u64 = 0;
        assert(start.skip(0) =~= start);
        assert(writer@ =~= head + forms_bits(done, 0));
        while i < length
            invariant
                i <= length,
                reader.wf(),
                writer.wf(),
                start == old(reader)@.skip(head_used),
                UnsignedVariableInteger::<5>::parsed(old(reader)@) == Some(
                    (UnsignedVariableInteger::<5> { inner: length }, head_used),
                ),
                0 <= consumed <= start.len(),
                reader@ == start.skip(consumed),
                done.len() == i,
                writer@ == head + forms_bits(done, i as int),
                match references_parsed(reader@, (length - i) as nat) {
                    Some((rest, more)) => references_parsed(start, length as nat) == Some(
                        (done + rest, consumed + more),
                    ),
                    None => references_parsed(start, length as nat) is None,
                },
            decreases length - i,
        {
            let ghost current = reader@;
            let ghost done_before = done;
            match EntityProperty::read_write(reader, writer) {
                Ok(_) => {
                    proof {
                        let (first, used) = Option::<NetEntity>::parsed(current).unwrap();
                        assert(current.skip(used) =~= start.skip(consumed + used));
                        match references_parsed(current.skip(used), (length - i - 1) as nat) {
                            Some((rest, more)) => {
                                assert((done.push(first)) + rest =~= done + (seq![first] + rest));
                            },
                            None => {},
                        }
                        done = done.push(first);
                        consumed = consumed + used;
                        lemma_forms_bits_prefix(done_before, done, i as int);
                        assert(writer@ =~= head + forms_bits(done, i as int + 1));
                    }
                },
                Err(error) => {
                    assert(references_parsed(current, (length - i) as nat) is None);
                    return Err(error);
                },
            }
            i += 1;
        }
        proof {
            assert(done + Seq::<Option<NetEntity>>::empty() =~= done);
            assert(start.skip(consumed) =~= old(reader)@.skip(head_used + consumed));
        }
        Ok(())
    }

    /// Reads a list of the same length into the list, place by place, and
    /// tells the mutators. It fails where the list that is read has another
    /// length; a failed read leaves the list as it is.
    pub fn read<C: NetEntityHandleConverter>(&mut self, reader: &mut BitReader, converter: &C) -> (read:
        Result<(), SerdeErr>)
        requires
            old(reader).wf(),
        ensures
            final(reader).wf(),
            match (list_parsed(old(reader)@), read) {
                (Some((list, used)), Ok(_)) => list.len() == old(self)@.len() && final(self)@
                    == updated_properties(old(self)@, list, *converter) && final(reader)@ == old(
                    reader,
                )@.skip(used),
                (_, Err(_)) => final(self)@ == old(self)@,
                _ => false,
            },
            read is Err ==> list_parsed(old(reader)@) is None || list_parsed(
                old(reader)@,
            ).unwrap().0.len() != old(self)@.len(),
    {
        let length = match UnsignedVariableInteger::<5>::de(reader) {
            Ok(length) => length.get(),
            Err(error) => {
                return Err(error);
            },
        };
        let ghost start = reader@;
        let ghost head_used = UnsignedVariableInteger::<5>::parsed(old(reader)@).unwrap().1;
        proof {
            lemma_references_parsed_len(start, length as nat);
        }
        if length != self.0.len() as u64 {
            return Err(SerdeErr);
        }
        let mut output: VecDeque<EntityProperty> = VecDeque::new();
        let ghost mut done: Seq<Option<NetEntity>> = Seq::empty();
        let ghost mut consumed: int = 0;
        let mut i: usize = 0;
        assert(start.skip(0) =~= start);
        while i < self.0.len()
            invariant
                i <= self.0@.len(),
                length == self.0@.len(),
                reader.wf(),
                start == old(reader)@.skip(head_used),
                UnsignedVariableInteger::<5>::parsed(old(reader)@) == Some(
                    (UnsignedVariableInteger::<5> { inner: length }, head_used),
                ),
                0 <= consumed <= start.len(),
                reader@ == start.skip(consumed),
                done.len() == i,
                output@.len() == i,
                forall|j: int|
                    0 <= j < i ==> (#[trigger] output@[j])@ == (EntityPropertyView {
                        handle: handle_form(done[j], *converter),
                        index: self@[j].index,
                        marks: marked(self@[j].marks, self@[j].index),
                    }),
                match references_parsed(reader@, (length - i) as nat) {
                    Some((rest, more)) => references_parsed(start, length as nat) == Some(
                        (done + rest, consumed + more),
                    ),
                    None => references_parsed(start, length as nat) is None,
                },
            decreases self.0@.len() - i,
        {
            let ghost current = reader@;
            let mut entity = self.0[i].clone();
            match entity.read(reader, converter) {
                Ok(_) => {
                    proof {
                        let (first, used) = Option::<NetEntity>::parsed(current).unwrap();
                        assert(current.skip(used) =~= start.skip(consumed + used));
                        match references_parsed(current.skip(used), (length - i - 1) as nat) {
                            Some((rest, more)) => {
                                assert((done.push(first)) + rest =~= done + (seq![first] + rest));
                            },
                            None => {},
                        }
                        done = done.push(first);
                        consumed = consumed + used;
                    }
                    output.push_back(entity);
                },
                Err(error) => {
                    assert(references_parsed(current, (length - i) as nat) is None);
                    return Err(error);
                },
            }
            i += 1;
        }
        proof {
            assert(done + Seq::<Option<NetEntity>>::empty() =~= done);
            assert(start.skip(consumed) =~= old(reader)@.skip(head_used + consumed));
            assert(properties_view(output@) =~= updated_properties(old(self)@, done, *converter));
        }
        self.0 = output;
        Ok(())
    }

    /// Whether the properties of two lists refer to the same entities, place
    /// by place, as far as both lists go.
    pub fn equals(&self, other: &Self) -> (equal: bool)
        ensures
            equal == (forall|i: int|
                0 <= i < self@.len() && i < other@.len() ==> (#[trigger] self@[i]).handle
                    == other@[i].handle),
    {
        let mut i: usize = 0;
        while i < self.0.len() && i < other.0.len()
            invariant
                i <= self.0@.len(),
                i <= other.0@.len(),
                forall|j: int| 0 <= j < i ==> (#[trigger] self@[j]).handle == other@[j].handle,
            decreases self.0@.len() - i,
        {
            if !self.0[i].equals(&other.0[i]) {
                assert(self@[i as int].handle != other@[i as int].handle);
                return false;
            }
            i += 1;
        }
        true
    }

    /// The handles that the list holds, in order.
    pub fn entities(&self) -> (handles: Vec<EntityHandle>)
        ensures
            handles@ == held_handles(self@, self@.len() as int),
    {
        let mut output: Vec<EntityHandle> = Vec::new();
        let mut i: usize = 0;
        while i < self.0.len()
            invariant
                i <= self.0@.len(),
                output@ == held_handles(self@, i as int),
            decreases self.0@.len() - i,
        {
            if let Some(handle) = self.0[i].handle() {
                output.push(handle);
            }
            i += 1;
        }
        output
    }

    /// Gives each property of the list a mutator of the kind of `mutator`,
    /// without notes.
    pub fn set_mutator(&mut self, mutator: &PropertyMutator)
        ensures
            final(self)@.len() == old(self)@.len(),
            forall|i: int|
                0 <= i < old(self)@.len() ==> #[trigger] final(self)@[i] == (EntityPropertyView {
                    marks: Some(Seq::empty()),
                    ..old(self)@[i]
                }),
    {
        let mut queue: VecDeque<EntityProperty> = VecDeque::new();
        let mut i: usize = 0;
        let size = self.0.len();
        while i < size
            invariant
                i <= size,
                size == old(self).0@.len(),
                self.0@.len() == size - i,
                queue@.len() == i,
                forall|j: int|
                    0 <= j < size - i ==> (#[trigger] self.0@[j])@ == old(self).0@[j + i]@,
                forall|j: int|
                    0 <= j < i ==> (#[trigger] queue@[j])@ == (EntityPropertyView {
                        marks: Some(Seq::empty()),
                        ..old(self)@[j]
                    }),
            decreases size - i,
        {
            match self.0.pop_front() {
                Some(mut entity) => {
                    entity.set_mutator(mutator);
                    queue.push_back(entity);
                },
                None => {},
            }
            i += 1;
        }
        self.0 = queue;
    }
}

/// The handles that the first `upto` properties of a list hold, in order.
pub open spec fn held_handles(list: Seq<EntityPropertyView>, upto: int) -> Seq<EntityHandle>
    decreases upto,
{
    if upto <= 0 {
        Seq::empty()
    } else {
        match list[upto - 1].handle {
            Some(handle) => held_handles(list, upto - 1).push(handle),
            None => held_handles(list, upto - 1),
        }
    }
}

/// The bits of the first `upto` wire forms of a list, one after the other.
pub open spec fn forms_bits(list: Seq<Option<NetEntity>>, upto: int) -> Seq<bool>
    decreases upto,
{
    if upto <= 0 {
        Seq::empty()
    } else {
        forms_bits(list, upto - 1) + list[upto - 1].bits()
    }
}

/// The properties of a list after a list of wire forms was read into them,
/// place by place.
pub open spec fn updated_properties<C: NetEntityHandleConverter>(
    properties: Seq<EntityPropertyView>,
    list: Seq<Option<NetEntity>>,
    converter: C,
) -> Seq<EntityPropertyView> {
    Seq::new(
        properties.len(),
        |i: int|
            EntityPropertyView {
                handle: handle_form(list[i], converter),
                index: properties[i].index,
                marks: marked(properties[i].marks, properties[i].index),
            },
    )
}

/// The bits of the first wire forms of a list do not depend on what follows
/// them in the list.
pub proof fn lemma_forms_bits_prefix(
    short: Seq<Option<NetEntity>>,
    long: Seq<Option<NetEntity>>,
    upto: int,
)
    requires
        upto <= short.len() <= long.len(),
        forall|i: int| 0 <= i < short.len() ==> short[i] == long[i],
    ensures
        forms_bits(short, upto) == forms_bits(long, upto),
    decreases upto,
{
    if upto > 0 {
        lemma_forms_bits_prefix(short, long, upto - 1);
    }
}

/// As many references are read as were asked for.
pub proof fn lemma_references_parsed_len(input: Seq<bool>, count: nat)
    ensures
        references_parsed(input, count) is Some ==> references_parsed(input, count).unwrap().0.len()
            == count,
    decreases count,
{
    if count > 0 {
        match Option::<NetEntity>::parsed(input) {
            Some((first, used)) => {
                lemma_references_parsed_len(input.skip(used), (count - 1) as nat);
            },
            None => {},
        }
    }
}

/// The wire forms that a list of properties is written as.
pub open spec fn written_forms<C: NetEntityHandleConverter>(
    list: Seq<EntityPropertyView>,
    converter: C,
) -> Seq<Option<NetEntity>> {
    Seq::new(list.len(), |i: int| net_form(list[i].handle, converter))
}

/// What is read takes no more bits than there are.
pub proof fn lemma_references_parsed_bounds(input: Seq<bool>, count: nat)
    ensures
        references_parsed(input, count) is Some ==> 0 <= references_parsed(
            input,
            count,
        ).unwrap().1 <= input.len(),
    decreases count,
{
    if count > 0 {
        match Option::<NetEntity>::parsed(input) {
            Some((first, used)) => {
                lemma_references_parsed_bounds(input.skip(used), (count - 1) as nat);
            },
            None => {},
        }
    }
}

/// Where `count` references are read and one more follows them, `count + 1`
/// are read: the same ones, and then that one.
pub proof fn lemma_references_parsed_snoc(input: Seq<bool>, count: nat)
    requires
        references_parsed(input, count) is Some,
        Option::<NetEntity>::parsed(
            input.skip(references_parsed(input, count).unwrap().1),
        ) is Some,
    ensures
        ({
            let (list, used) = references_parsed(input, count).unwrap();
            let (last, more) = Option::<NetEntity>::parsed(input.skip(used)).unwrap();
            references_parsed(input, count + 1) == Some((list.push(last), used + more))
        }),
    decreases count,
{
    let (list, used) = references_parsed(input, count).unwrap();
    let (last, more) = Option::<NetEntity>::parsed(input.skip(used)).unwrap();
    if count == 0 {
        assert(input.skip(0) =~= input);
        assert(list =~= Seq::<Option<NetEntity>>::empty());
        assert(used == 0);
        assert(references_parsed(input.skip(more), 0) == Some(
            (Seq::<Option<NetEntity>>::empty(), 0int),
        ));
        assert(seq![last] + Seq::<Option<NetEntity>>::empty() =~= list.push(last));
        assert(references_parsed(input, 1) == Some((list.push(last), used + more)));
    } else {
        let (first, taken) = Option::<NetEntity>::parsed(input).unwrap();
        let after = input.skip(taken);
        let (rest, further) = references_parsed(after, (count - 1) as nat).unwrap();
        assert(list == seq![first] + rest);
        assert(used == taken + further);
        assert(taken >= 1);
        lemma_references_parsed_bounds(after, (count - 1) as nat);
        assert(after.skip(further) =~= input.skip(used));
        lemma_references_parsed_snoc(after, (count - 1) as nat);
        assert(((count - 1) as nat + 1) as nat == count);
        assert(references_parsed(after, count) == Some((rest.push(last), further + more)));
        assert(seq![first] + rest.push(last) =~= list.push(last));
        assert(((count + 1) - 1) as nat == count);
        assert(references_parsed(input, count + 1) == Some(
            (seq![first] + rest.push(last), taken + (further + more)),
        ));
    }
}

/// The first `upto` references of a list that are written are read back as
/// the wire forms that they were written as.
pub proof fn lemma_references_round_trip<C: NetEntityHandleConverter>(
    list: Seq<EntityPropertyView>,
    converter: C,
    upto: int,
    tail: Seq<bool>,
)
    requires
        0 <= upto <= list.len(),
    ensures
        references_parsed(references_bits(list, converter, upto) + tail, upto as nat) == Some(
            (
                written_forms(list, converter).subrange(0, upto),
                references_bits(list, converter, upto).len() as int,
            ),
        ),
    decreases upto,
{
    if upto == 0 {
        assert(written_forms(list, converter).subrange(0, 0) =~= Seq::<Option<NetEntity>>::empty());
    } else {
        let written = net_form(list[upto - 1].handle, converter);
        let before = references_bits(list, converter, upto - 1);
        let input = references_bits(list, converter, upto) + tail;
        assert(input =~= before + (written.bits() + tail));
        lemma_references_round_trip(list, converter, upto - 1, written.bits() + tail);
        assert(input.skip(before.len() as int) =~= written.bits() + tail);
        if written is Some {
            lemma_net_entity_round_trips(written->0);
        }
        lemma_option_round_trips(written);
        assert(Option::<NetEntity>::parsed(written.bits() + tail) == Some(
            (written, written.bits().len() as int),
        ));
        lemma_references_parsed_snoc(input, (upto - 1) as nat);
        assert(written_forms(list, converter).subrange(0, upto - 1).push(written)
            =~= written_forms(list, converter).subrange(0, upto));
    }
}

/// A list of references that is written and read back refers to the same
/// entities, in the same order: the reader finds as many references as were
/// written, takes exactly the bits that were written, and, where the
/// converter finds each handle again behind its wire form, each property
/// that is made of them holds the handle that was written.
pub proof fn lemma_entity_list_round_trip<C: NetEntityHandleConverter>(
    list: Seq<EntityPropertyView>,
    converter: C,
    mutator_index: u8,
    tail: Seq<bool>,
)
    requires
        list.len() <= u64::MAX,
        forall|i: int|
            0 <= i < list.len() && (#[trigger] list[i]).handle is Some ==> converter.handle_of_net(
                converter.net_of_handle(list[i].handle->0),
            ) == list[i].handle->0,
    ensures
        ({
            let written = (UnsignedVariableInteger::<5> { inner: list.len() as u64 }).bits()
                + references_bits(list, converter, list.len() as int);
            let read = read_properties(written_forms(list, converter), mutator_index, converter);
            &&& list_parsed(written + tail) == Some(
                (written_forms(list, converter), written.len() as int),
            )
            &&& read.len() == list.len()
            &&& forall|i: int| 0 <= i < list.len() ==> (#[trigger] read[i]).handle == list[i].handle
        }),
{
    let length = UnsignedVariableInteger::<5> { inner: list.len() as u64 };
    let references = references_bits(list, converter, list.len() as int);
    let written = length.bits() + references;
    lemma_variable_integer_round_trips(length);
    assert(written + tail =~= length.bits() + (references + tail));
    assert(UnsignedVariableInteger::<5>::parsed(length.bits() + (references + tail)) == Some(
        (length, length.bits().len() as int),
    ));
    assert((written + tail).skip(length.bits().len() as int) =~= references + tail);
    lemma_references_round_trip(list, converter, list.len() as int, tail);
    assert(written_forms(list, converter).subrange(0, list.len() as int) =~= written_forms(
        list,
        converter,
    ));
    let read = read_properties(written_forms(list, converter), mutator_index, converter);
    assert forall|i: int| 0 <= i < list.len() implies (#[trigger] read[i]).handle
        == list[i].handle by {
        assert(written_forms(list, converter)[i] == net_form(list[i].handle, converter));
    }
}

} // verus!
