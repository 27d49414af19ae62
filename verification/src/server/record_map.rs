use vstd::prelude::*;
use crate::server::keys::{
    canonical, is_null_key, is_older_version, lemma_canonical, slot_index, slot_version,
};
use crate::server::replicate_record::{RecordView, ReplicateRecord};
use slotmap::{DefaultKey, Key, KeyData, SparseSecondaryMap};

verus! {

/// The records of one connection, in a sparse secondary map of the slot map
/// crate. A secondary map keeps at most one value for each slot: the value
/// of the newest version of the slot that it was given.
#[verifier::external_body]
pub struct RecordMap {
    inner: SparseSecondaryMap<DefaultKey, ReplicateRecord>,
}

/// What the map holds: each stored record under the 64-bit form of its key.
pub uninterp spec fn record_view(map: RecordMap) -> Map<u64, RecordView>;

/// The map without records.
pub open spec fn no_records() -> Map<u64, RecordView> {
    Map::empty()
}

/// Whether the map holds a record for a newer version of the slot of `key`,
/// which keeps `key` from being stored.
pub open spec fn blocked(records: Map<u64, RecordView>, key: u64) -> bool {
    exists|other: u64|
        #![trigger records.contains_key(other)]
        records.contains_key(other) && slot_index(other) == slot_index(key) && slot_version(other)
            != slot_version(key) && is_older_version(slot_version(key), slot_version(other))
}

/// Whether a record given under `key` is stored.
pub open spec fn accepts(records: Map<u64, RecordView>, key: u64) -> bool {
    !is_null_key(key) && !blocked(records, key)
}

/// The keys in the map that name the slot of `key`.
pub open spec fn same_slot(records: Map<u64, RecordView>, key: u64) -> Set<u64> {
    Set::new(|other: u64| records.contains_key(other) && slot_index(other) == slot_index(key))
}

/// The map after a record was given under `key`. The null key and a key
/// older than what the slot holds change nothing. Otherwise the record takes
/// the slot, and what the slot held before is gone.
pub open spec fn slot_insert(records: Map<u64, RecordView>, key: u64, record: RecordView) -> Map<
    u64,
    RecordView,
> {
    if accepts(records, key) {
        records.remove_keys(same_slot(records, key)).insert(canonical(key), record)
    } else {
        records
    }
}

/// What holds of the keys of every map: each is in canonical form, none is
/// null, and no two name one slot.
pub open spec fn slots_ok(records: Map<u64, RecordView>) -> bool {
    &&& forall|key: u64| #[trigger]
        records.contains_key(key) ==> canonical(key) == key && !is_null_key(key)
    &&& forall|a: u64, b: u64|
        #![trigger records.contains_key(a), records.contains_key(b)]
        records.contains_key(a) && records.contains_key(b) && slot_index(a) == slot_index(b) ==> a
            == b
}

/// Makes an empty map, by `SparseSecondaryMap::new`.
#[verifier::external_body]
pub(crate) fn records_new() -> (map: RecordMap)
    ensures
        record_view(map) == no_records(),
{
    RecordMap { inner: SparseSecondaryMap::new() }
}

/// Calls `SparseSecondaryMap::contains_key`, which says whether the slot of
/// the key holds a value of the key's own version.
#[verifier::external_body]
pub(crate) fn records_contains(map: &RecordMap, key: u64) -> (found: bool)
    ensures
        found == record_view(*map).contains_key(canonical(key)),
{
    map.inner.contains_key(DefaultKey::from(KeyData::from_ffi(key)))
}

/// Calls `SparseSecondaryMap::get`, which gives the value in the slot of the
/// key where it is of the key's own version.
#[verifier::external_body]
pub(crate) fn records_get(map: &RecordMap, key: u64) -> (found: Option<&ReplicateRecord>)
    ensures
        match found {
            Some(record) => record_view(*map).contains_key(canonical(key)) && record@
                == record_view(*map)[canonical(key)],
            None => !record_view(*map).contains_key(canonical(key)),
        },
{
    map.inner.get(DefaultKey::from(KeyData::from_ffi(key)))
}

/// Calls `SparseSecondaryMap::insert`. That function stores nothing under
/// the null key, nor under a key whose version is older than the one in the
/// slot; else it puts the value in the slot, in place of what was there.
/// It gives back the old value only where that had the key's own version.
#[verifier::external_body]
pub(crate) fn records_insert(map: &mut RecordMap, key: u64, record: ReplicateRecord) -> (previous:
    Option<ReplicateRecord>)
    ensures
        record_view(*final(map)) == slot_insert(record_view(*old(map)), key, record@),
        match previous {
            Some(before) => !is_null_key(key) && record_view(*old(map)).contains_key(
                canonical(key),
            ) && before@ == record_view(*old(map))[canonical(key)],
            None => is_null_key(key) || !record_view(*old(map)).contains_key(canonical(key)),
        },
{
    map.inner.insert(DefaultKey::from(KeyData::from_ffi(key)), record)
}

/// Calls `SparseSecondaryMap::remove`, which takes the value out of the slot
/// of the key where it is of the key's own version, and gives it back.
#[verifier::external_body]
pub(crate) fn records_remove(map: &mut RecordMap, key: u64) -> (removed: Option<ReplicateRecord>)
    ensures
        record_view(*final(map)) == record_view(*old(map)).remove(canonical(key)),
        match removed {
            Some(before) => record_view(*old(map)).contains_key(canonical(key)) && before@
                == record_view(*old(map))[canonical(key)],
            None => !record_view(*old(map)).contains_key(canonical(key)),
        },
{
    map.inner.remove(DefaultKey::from(KeyData::from_ffi(key)))
}

/// Walks `SparseSecondaryMap::keys` and gives each key in its 64-bit form.
/// The order is that of a hash map, so the contract says only that each
/// stored key comes once.
#[verifier::external_body]
pub(crate) fn records_keys(map: &RecordMap) -> (keys: Vec<u64>)
    ensures
        keys@.no_duplicates(),
        forall|key: u64| keys@.contains(key) <==> record_view(*map).contains_key(key),
{
    map.inner.keys().map(|key| key.data().as_ffi()).collect()
}

/// A record given under a key that the map holds takes the place of the one
/// that was there, and nothing else changes.
pub proof fn lemma_insert_present(records: Map<u64, RecordView>, key: u64, record: RecordView)
    requires
        slots_ok(records),
        records.contains_key(canonical(key)),
    ensures
        slot_insert(records, key, record) == records.insert(canonical(key), record),
        accepts(records, key),
{
    lemma_canonical(key);
    let c = canonical(key);
    assert forall|other: u64| #[trigger]
        records.contains_key(other) && slot_index(other) == slot_index(key) implies other
        == c by {
        assert(records.contains_key(c));
    }
    assert(!blocked(records, key));
    assert(same_slot(records, key) =~= set![c]);
    assert(records.remove_keys(same_slot(records, key)).insert(c, record) =~= records.insert(
        c,
        record,
    ));
}

/// Giving a record and taking a key out both keep what holds of every map.
pub proof fn lemma_slots_ok_kept(records: Map<u64, RecordView>, key: u64, record: RecordView)
    requires
        slots_ok(records),
    ensures
        slots_ok(slot_insert(records, key, record)),
        slots_ok(records.remove(key)),
        slots_ok(no_records()),
{
    lemma_canonical(key);
    let after = slot_insert(records, key, record);
    if accepts(records, key) {
        assert forall|a: u64, b: u64|
            #![trigger after.contains_key(a), after.contains_key(b)]
            after.contains_key(a) && after.contains_key(b) && slot_index(a) == slot_index(
                b,
            ) implies a == b by {
            if a != canonical(key) && b != canonical(key) {
                assert(records.contains_key(a) && records.contains_key(b));
            } else if a != canonical(key) {
                assert(records.contains_key(a));
                assert(!same_slot(records, key).contains(a));
            } else if b != canonical(key) {
                assert(records.contains_key(b));
                assert(!same_slot(records, key).contains(b));
            }
        }
        assert forall|k: u64| #[trigger] after.contains_key(k) implies canonical(k) == k
            && !is_null_key(k) by {
            if k != canonical(key) {
                assert(records.contains_key(k));
            }
        }
    }
    let less = records.remove(key);
    assert forall|a: u64, b: u64|
        #![trigger less.contains_key(a), less.contains_key(b)]
        less.contains_key(a) && less.contains_key(b) && slot_index(a) == slot_index(b) implies a
        == b by {
        assert(records.contains_key(a) && records.contains_key(b));
    }
    assert forall|k: u64| #[trigger] less.contains_key(k) implies canonical(k) == k
        && !is_null_key(k) by {
        assert(records.contains_key(k));
    }
}

} // verus!
