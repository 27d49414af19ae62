use vstd::prelude::*;

verus! {

/// The server's key for an object or a component: a slot map key in its
/// 64-bit form, the slot's index in the low half and the slot's version in the
/// high half.
pub type ReplicateKey = u64;

/// The server's key for an object.
pub type ObjectKey = u64;

/// The server's key for a component.
pub type ComponentKey = u64;

/// The server's key for an entity.
pub type EntityKey = u64;

/// The index of the slot that a key names.
pub open spec fn slot_index(key: u64) -> u64 {
    key & 0xffff_ffff
}

/// The version of the slot that a key names. A version is odd.
pub open spec fn slot_version(key: u64) -> u64 {
    (key >> 32) | 1
}

/// The key with its version made odd: the form in which a slot map reads
/// every key.
pub open spec fn canonical(key: u64) -> u64 {
    key | 0x1_0000_0000
}

/// Whether a key is the null key, which names no slot.
pub open spec fn is_null_key(key: u64) -> bool {
    slot_index(key) == 0xffff_ffff
}

/// Whether version `a` is older than version `b`, where versions wrap at 32 bits.
pub open spec fn is_older_version(a: u64, b: u64) -> bool {
    (a as int - b as int) % 0x1_0000_0000 >= 0x8000_0000
}

/// Brings a key into the form in which a slot map reads it.
pub fn canonical_key(key: u64) -> (out: u64)
    ensures
        out == canonical(key),
{
    key | 0x1_0000_0000
}

/// The index of the slot that a key names.
pub fn slot_of(key: u64) -> (index: u64)
    ensures
        index == slot_index(key),
{
    key & 0xffff_ffff
}

/// Whether a key is the null key.
pub fn key_is_null(key: u64) -> (null: bool)
    ensures
        null == is_null_key(key),
{
    key & 0xffff_ffff == 0xffff_ffff
}

/// The canonical form keeps the slot and the version, and is its own
/// canonical form.
pub proof fn lemma_canonical(key: u64)
    ensures
        slot_index(canonical(key)) == slot_index(key),
        slot_version(canonical(key)) == slot_version(key),
        canonical(canonical(key)) == canonical(key),
        is_null_key(canonical(key)) == is_null_key(key),
        canonical(key) == (slot_version(key) << 32) | slot_index(key),
{
    assert((key | 0x1_0000_0000) & 0xffff_ffff == key & 0xffff_ffff) by (bit_vector);
    assert(((key | 0x1_0000_0000) >> 32) | 1 == (key >> 32) | 1) by (bit_vector);
    assert((key | 0x1_0000_0000) | 0x1_0000_0000 == key | 0x1_0000_0000) by (bit_vector);
    assert(key | 0x1_0000_0000 == (((key >> 32) | 1) << 32) | (key & 0xffff_ffff))
        by (bit_vector);
}

} // verus!
