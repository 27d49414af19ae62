use vstd::prelude::*;
use crate::server::locality_status::LocalityStatus;
use crate::shared::diff_mask::{zeros, DiffMask};
use crate::shared::types::LocalReplicateKey;

verus! {

/// What a record says, as plain values.
pub struct RecordView {
    pub local_key: LocalReplicateKey,
    pub mask: Seq<u8>,
    pub status: LocalityStatus,
}

/// What one connection knows of one object or component: its local key, the
/// properties that changed and were not yet sent, and where it stands in its
/// life.
pub struct ReplicateRecord {
    pub local_key: LocalReplicateKey,
    pub diff_mask: DiffMask,
    pub status: LocalityStatus,
}

impl View for ReplicateRecord {
    type V = RecordView;

    open spec fn view(&self) -> RecordView {
        RecordView { local_key: self.local_key, mask: self.diff_mask@, status: self.status }
    }
}

impl ReplicateRecord {
    /// A record with a clear diff mask of `diff_mask_size` bytes.
    pub fn new(local_key: LocalReplicateKey, diff_mask_size: u8, status: LocalityStatus) -> (record:
        ReplicateRecord)
        ensures
            record@ == (RecordView {
                local_key,
                mask: zeros(diff_mask_size as nat),
                status,
            }),
    {
        ReplicateRecord { local_key, diff_mask: DiffMask::new(diff_mask_size), status }
    }

    /// The record's diff mask.
    pub fn get_diff_mask(&self) -> (mask: &DiffMask)
        ensures
            mask@ == self@.mask,
    {
        &self.diff_mask
    }
}

impl Clone for ReplicateRecord {
    fn clone(&self) -> (copy: ReplicateRecord)
        ensures
            copy@ == self@,
    {
        ReplicateRecord {
            local_key: self.local_key,
            diff_mask: self.diff_mask.clone(),
            status: self.status,
        }
    }
}

} // verus!
