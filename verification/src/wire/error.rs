use vstd::prelude::*;

verus! {

/// The one error of the codec: the input does not hold what was to be read.
#[derive(PartialEq, Eq, Structural, Clone, Copy, Debug)]
pub struct SerdeErr;

} // verus!
