use vstd::prelude::*;

verus! {

/// An opaque handle by which a replicated component refers to an entity.
#[derive(PartialEq, Eq, Structural, Hash, Clone, Copy, Debug)]
pub struct EntityHandle(pub u64);

impl EntityHandle {
    /// The integer behind the handle.
    pub fn to_u64(&self) -> (value: u64)
        ensures
            value == self.0,
    {
        self.0
    }

    /// The handle that stands for `value`.
    pub fn from_u64(value: u64) -> (handle: Self)
        ensures
            handle.0 == value,
    {
        EntityHandle(value)
    }
}

impl Default for EntityHandle {
    fn default() -> (handle: Self)
        ensures
            handle.0 == 0,
    {
        EntityHandle(0)
    }
}

} // verus!
