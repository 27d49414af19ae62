use vstd::prelude::*;
use crate::shared::diff_mask::DiffMask;
use std::rc::Rc;

verus! {

/// A value that is kept in sync between hosts: an object, or a component of
/// an entity. The application implements it for its own types.
///
/// The four spec functions name what the methods give. An implementation
/// written outside the verifier leaves them as they are.
pub trait Replicate {
    /// The number of bytes of the value's diff mask.
    open spec fn mask_size(&self) -> u8 {
        arbitrary()
    }

    /// The identifier of the value's type in the manifest.
    open spec fn type_id(&self) -> u64 {
        arbitrary()
    }

    /// The bytes that stand for the whole value.
    open spec fn payload(&self) -> Seq<u8> {
        arbitrary()
    }

    /// The bytes that stand for the properties named by `mask`.
    open spec fn partial_payload(&self, mask: Seq<u8>) -> Seq<u8> {
        arbitrary()
    }

    /// The number of bytes that a diff mask for this value needs: one bit for
    /// each property.
    fn get_diff_mask_size(&self) -> (size: u8)
        ensures
            size == self.mask_size(),
    ;

    /// The identifier under which the value's type is registered.
    fn get_type_id(&self) -> (id: u64)
        ensures
            id == self.type_id(),
    ;

    /// Appends the whole value to `out`.
    fn write(&self, out: &mut Vec<u8>)
        ensures
            final(out)@ == old(out)@ + self.payload(),
    ;

    /// Appends to `out` the properties whose bit is set in `diff_mask`.
    fn write_partial(&self, diff_mask: &DiffMask, out: &mut Vec<u8>)
        ensures
            final(out)@ == old(out)@ + self.partial_payload(diff_mask@),
    ;
}

/// Makes one more handle to a shared value, by `Rc::clone`. The new handle
/// points to the same value as the old one.
#[verifier::external_body]
pub(crate) fn share<T>(value: &Rc<T>) -> (handle: Rc<T>)
    ensures
        handle == *value,
{
    value.clone()
}

} // verus!
