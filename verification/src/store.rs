//! Model of the transactional record store as the purger sees it: the
//! pending beacon and witness records and the entropy entries, each
//! class keyed 1:1 by its identity. The purger only observes and
//! deletes; the ingestion pipeline around the library creates records.

use vstd::prelude::*;
use crate::records::{
    distinct_ids, entropy_views, pending_views, EntropyRecord, EntropyRecordV, PendingRecord,
    PendingRecordV,
};

verus! {

/// The store's pending state.
pub struct StoreModel {
    pub beacons: Vec<PendingRecord>,
    pub witnesses: Vec<PendingRecord>,
    pub entropy: Vec<EntropyRecord>,
}

/// Ghost image of the store.
pub struct StoreModelV {
    pub beacons: Seq<PendingRecordV>,
    pub witnesses: Seq<PendingRecordV>,
    pub entropy: Seq<EntropyRecordV>,
}

impl View for StoreModel {
    type V = StoreModelV;

    open spec fn view(&self) -> StoreModelV {
        StoreModelV {
            beacons: pending_views(self.beacons@),
            witnesses: pending_views(self.witnesses@),
            entropy: entropy_views(self.entropy@),
        }
    }
}

impl StoreModel {
    /// Records are stored 1:1 by their ingest identifier within each
    /// class.
    pub open spec fn wf(self) -> bool {
        distinct_ids(self@.beacons) && distinct_ids(self@.witnesses)
    }

    /// An empty store.
    pub fn new() -> (s: StoreModel)
        ensures
            s@.beacons.len() == 0,
            s@.witnesses.len() == 0,
            s@.entropy.len() == 0,
            s.wf(),
    {
        StoreModel { beacons: Vec::new(), witnesses: Vec::new(), entropy: Vec::new() }
    }

    /// How many beacon records are pending.
    pub fn beacon_count(&self) -> (n: usize)
        ensures
            n == self@.beacons.len(),
    {
        self.beacons.len()
    }

    /// How many witness records are pending.
    pub fn witness_count(&self) -> (n: usize)
        ensures
            n == self@.witnesses.len(),
    {
        self.witnesses.len()
    }

    /// How many entropy entries are pending.
    pub fn entropy_count(&self) -> (n: usize)
        ensures
            n == self@.entropy.len(),
    {
        self.entropy.len()
    }
}

} // verus!
