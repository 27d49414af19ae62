use vstd::prelude::*;

verus! {

/// Where a record stands in its life on one connection.
#[derive(PartialEq, Eq, Structural, Clone, Copy, Debug)]
pub enum LocalityStatus {
    /// Its creation was queued or sent, and not yet acknowledged.
    Creating,
    /// The client has it.
    Created,
    /// Its deletion was queued or sent, and not yet acknowledged.
    Deleting,
}

} // verus!
