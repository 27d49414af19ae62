use vstd::prelude::*;
use crate::protocol::property_mutate::{mark, marked, marks_of, PropertyMutator};
use crate::wire::bit_reader::BitReader;
use crate::wire::bit_writer::BitWriter;
use crate::wire::error::SerdeErr;
use crate::wire::serde::{round_trips, Serde};

verus! {

/// What a property holds, as plain values: its value, its index among the
/// properties of its replicate, and the notes of its mutator, if it has one.
pub struct PropertyView<T> {
    pub value: T,
    pub index: u8,
    pub marks: Option<Seq<u8>>,
}

/// A property of a replicate: a value that is tracked for changes. Setting
/// the value tells the mutator, under the index that the property was made
/// with.
pub struct Property<T: Serde> {
    inner: T,
    mutator: Option<PropertyMutator>,
    mutator_index: u8,
}

impl<T: Serde> View for Property<T> {
    type V = PropertyView<T>;

    closed spec fn view(&self) -> PropertyView<T> {
        PropertyView {
            value: self.inner,
            index: self.mutator_index,
            marks: marks_of(self.mutator),
        }
    }
}

impl<T: Serde> Property<T> {
    /// A property with the value `value` and the index `mutator_index`,
    /// without a mutator.
    pub fn new(value: T, mutator_index: u8) -> (property: Self)
        ensures
            property@ == (PropertyView { value, index: mutator_index, marks: None }),
    {
        Property { inner: value, mutator: None, mutator_index }
    }

    /// The value.
    pub fn get(&self) -> (value: &T)
        ensures
            *value == self@.value,
    {
        &self.inner
    }

    /// Sets the value, and tells the mutator of the change.
    pub fn set(&mut self, value: T)
        ensures
            final(self)@ == (PropertyView {
                value,
                index: old(self)@.index,
                marks: marked(old(self)@.marks, old(self)@.index),
            }),
    {
        mark(&mut self.mutator, self.mutator_index);
        self.inner = value;
    }

    /// Writes the value.
    pub fn write(&self, writer: &mut BitWriter)
        requires
            old(writer).wf(),
        ensures
            final(writer).wf(),
            final(writer)@ == old(writer)@ + self@.value.bits(),
    {
        self.inner.ser(writer);
    }

    /// Reads a value and makes a property of it, with the index
    /// `mutator_index` and without a mutator.
    pub fn new_read(reader: &mut BitReader, mutator_index: u8) -> (read: Result<Self, SerdeErr>)
        requires
            old(reader).wf(),
        ensures
            final(reader).wf(),
            match (T::parsed(old(reader)@), read) {
                (Some((value, used)), Ok(property)) => property@ == (PropertyView {
                    value,
                    index: mutator_index,
                    marks: None,
                }) && 0 <= used <= old(reader)@.len() && final(reader)@ == old(reader)@.skip(used),
                (None, Err(_)) => true,
                _ => false,
            },
    {
        match T::de(reader) {
            Ok(inner) => Ok(Property { inner, mutator: None, mutator_index }),
            Err(error) => Err(error),
        }
    }

    /// Reads a value and writes it again at once, to keep an update for
    /// later.
    pub fn read_write(reader: &mut BitReader, writer: &mut BitWriter) -> (read: Result<(), SerdeErr>)
        requires
            old(reader).wf(),
            old(writer).wf(),
        ensures
            final(reader).wf(),
            final(writer).wf(),
            match (T::parsed(old(reader)@), read) {
                (Some((value, used)), Ok(_)) => final(writer)@ == old(writer)@ + value.bits() && 0
                    <= used <= old(reader)@.len() && final(reader)@ == old(reader)@.skip(used),
                (None, Err(_)) => final(writer)@ == old(writer)@,
                _ => false,
            },
    {
        match T::de(reader) {
            Ok(value) => {
                value.ser(writer);
                Ok(())
            },
            Err(error) => Err(error),
        }
    }

    /// Reads a value into the property. The mutator is not told: the value
    /// comes from the other host. A failed read leaves the property as it
    /// is.
    pub fn read(&mut self, reader: &mut BitReader) -> (read: Result<(), SerdeErr>)
        requires
            old(reader).wf(),
        ensures
            final(reader).wf(),
            match (T::parsed(old(reader)@), read) {
                (Some((value, used)), Ok(_)) => final(self)@ == (PropertyView {
                    value,
                    ..old(self)@
                }) && 0 <= used <= old(reader)@.len() && final(reader)@ == old(reader)@.skip(used),
                (None, Err(_)) => final(self)@ == old(self)@,
                _ => false,
            },
    {
        match T::de(reader) {
            Ok(value) => {
                self.inner = value;
                Ok(())
            },
            Err(error) => Err(error),
        }
    }

    /// Whether two properties have the same value.
    pub fn equals(&self, other: &Self) -> (equal: bool)
        ensures
            equal == (self@.value == other@.value),
    {
        self.inner.same(&other.inner)
    }

    /// Gives the property a mutator of the kind of `mutator`, without notes.
    pub fn set_mutator(&mut self, mutator: &PropertyMutator)
        ensures
            final(self)@ == (PropertyView { marks: Some(Seq::empty()), ..old(self)@ }),
    {
        self.mutator = Some(mutator.clone_new());
    }

    /// Gives the notes of the mutator and starts them over; nothing where
    /// the property has no mutator.
    pub fn take_marks(&mut self) -> (marks: Vec<u8>)
        ensures
            marks@ == (match old(self)@.marks {
                Some(marks) => marks,
                None => Seq::empty(),
            }),
            final(self)@ == (PropertyView {
                marks: match old(self)@.marks {
                    Some(_) => Some(Seq::empty()),
                    None => None,
                },
                ..old(self)@
            }),
    {
        match self.mutator.take() {
            Some(mut mutator) => {
                let marks = mutator.take_marks();
                self.mutator = Some(mutator);
                marks
            },
            None => Vec::new(),
        }
    }
}

impl<T: Serde + Copy> Property<T> {
    /// Takes over the value of another property, and tells the mutator.
    pub fn mirror(&mut self, other: &Self)
        ensures
            final(self)@ == (PropertyView {
                value: other@.value,
                index: old(self)@.index,
                marks: marked(old(self)@.marks, old(self)@.index),
            }),
    {
        self.set(other.inner);
    }
}

/// A value that is written and read back is the value that was written:
/// where the bits of a value round-trip, the reader finds the value behind
/// whatever was written before it, takes exactly its bits, and leaves what
/// follows.
pub proof fn lemma_written_value_is_read_back<T: Serde>(value: T, before: Seq<bool>, after: Seq<bool>)
    requires
        round_trips(value),
    ensures
        T::parsed((before + value.bits() + after).skip(before.len() as int)) == Some(
            (value, value.bits().len() as int),
        ),
        (before + value.bits() + after).skip(before.len() as int).skip(value.bits().len() as int)
            == after,
{
    let rest = (before + value.bits() + after).skip(before.len() as int);
    assert(rest =~= value.bits() + after);
    assert(rest.skip(value.bits().len() as int) =~= after);
}

} // verus!
