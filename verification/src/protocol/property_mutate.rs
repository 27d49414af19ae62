use vstd::prelude::*;

verus! {

/// Keeps note of the properties of a replicate that were changed, by their
/// index, in the order of the changes. Whoever owns the replicate takes the
/// notes out and marks the diff masks of the connections with them.
pub struct PropertyMutator {
    marks: Vec<u8>,
}

impl View for PropertyMutator {
    type V = Seq<u8>;

    closed spec fn view(&self) -> Seq<u8> {
        self.marks@
    }
}

impl PropertyMutator {
    /// A mutator without notes.
    pub fn new() -> (mutator: PropertyMutator)
        ensures
            mutator@ == Seq::<u8>::empty(),
    {
        PropertyMutator { marks: Vec::new() }
    }

    /// Takes note that the property `property_index` was changed.
    pub fn mutate(&mut self, property_index: u8)
        ensures
            final(self)@ == old(self)@.push(property_index),
    {
        self.marks.push(property_index);
    }

    /// A new mutator of the same kind, without notes.
    pub fn clone_new(&self) -> (mutator: PropertyMutator)
        ensures
            mutator@ == Seq::<u8>::empty(),
    {
        PropertyMutator { marks: Vec::new() }
    }

    /// Gives the notes and starts over.
    pub fn take_marks(&mut self) -> (marks: Vec<u8>)
        ensures
            marks@ == old(self)@,
            final(self)@ == Seq::<u8>::empty(),
    {
        let mut marks: Vec<u8> = Vec::new();
        core::mem::swap(&mut marks, &mut self.marks);
        marks
    }
}

impl Clone for PropertyMutator {
    fn clone(&self) -> (copy: PropertyMutator)
        ensures
            copy@ == self@,
    {
        let mut marks: Vec<u8> = Vec::new();
        let mut i: usize = 0;
        while i < self.marks.len()
            invariant
                i <= self.marks@.len(),
                marks@ == self.marks@.subrange(0, i as int),
            decreases self.marks@.len() - i,
        {
            marks.push(self.marks[i]);
            i += 1;
            assert(marks@ =~= self.marks@.subrange(0, i as int));
        }
        assert(marks@ =~= self.marks@);
        PropertyMutator { marks }
    }
}

/// The notes of a mutator that may be missing, as plain values.
pub open spec fn marks_of(mutator: Option<PropertyMutator>) -> Option<Seq<u8>> {
    match mutator {
        Some(mutator) => Some(mutator@),
        None => None,
    }
}

/// The notes after one more change of the property `index`.
pub open spec fn marked(marks: Option<Seq<u8>>, index: u8) -> Option<Seq<u8>> {
    match marks {
        Some(marks) => Some(marks.push(index)),
        None => None,
    }
}

/// Takes note of a change of the property `index`, where there is a mutator.
pub fn mark(mutator: &mut Option<PropertyMutator>, index: u8)
    ensures
        marks_of(*final(mutator)) == marked(marks_of(*old(mutator)), index),
{
    match mutator.take() {
        Some(mut inner) => {
            inner.mutate(index);
            *mutator = Some(inner);
        },
        None => {},
    }
}

} // verus!
