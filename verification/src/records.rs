//! Data model of the stale record purger: pending beacon and witness
//! records awaiting verification, entropy entries, and the archival
//! entries written to the sink before a record may be deleted.

use vstd::prelude::*;
use crate::bytes::clone_bytes;

verus! {

/// The two record classes that are archived before deletion. Entropy
/// entries form a third class with no archival representation.
#[derive(Clone, Copy, PartialEq, Eq, Structural, Debug)]
pub enum RecordClass {
    Beacon,
    Witness,
}

/// Why a record was archived. The purger only ever archives records
/// because they went stale.
#[derive(Clone, Copy, PartialEq, Eq, Structural, Debug)]
pub enum PurgeReason {
    Stale,
}

impl PurgeReason {
    /// The tag value attached to an archival write for this reason.
    pub fn as_str_name(&self) -> (r: &'static str)
        ensures
            r@ == "stale"@,
    {
        "stale"
    }
}

/// A pending record (beacon or witness) held by the transactional record
/// store: its content-derived ingest identifier, the raw encoded report
/// payload (opaque to the purger), and the time it was received.
pub struct PendingRecord {
    pub ingest_id: Vec<u8>,
    pub payload: Vec<u8>,
    pub received_ts: u64,
}

/// Ghost image of a pending record.
pub struct PendingRecordV {
    pub ingest_id: Seq<u8>,
    pub payload: Seq<u8>,
    pub received_ts: u64,
}

impl View for PendingRecord {
    type V = PendingRecordV;

    open spec fn view(&self) -> PendingRecordV {
        PendingRecordV {
            ingest_id: self.ingest_id@,
            payload: self.payload@,
            received_ts: self.received_ts,
        }
    }
}

impl PendingRecord {
    /// Copy the record.
    pub fn duplicate(&self) -> (r: PendingRecord)
        ensures
            r@ == self@,
    {
        PendingRecord {
            ingest_id: clone_bytes(&self.ingest_id),
            payload: clone_bytes(&self.payload),
            received_ts: self.received_ts,
        }
    }
}

/// An entropy entry: an opaque randomness-batch key and its creation
/// time. Entropy is deleted once stale, with no archival step.
pub struct EntropyRecord {
    pub key: Vec<u8>,
    pub created_ts: u64,
}

/// Ghost image of an entropy entry.
pub struct EntropyRecordV {
    pub key: Seq<u8>,
    pub created_ts: u64,
}

impl View for EntropyRecord {
    type V = EntropyRecordV;

    open spec fn view(&self) -> EntropyRecordV {
        EntropyRecordV { key: self.key@, created_ts: self.created_ts }
    }
}

/// One archival entry handed to the sink: the record class, the original
/// report payload, the time the report was received, and the reason tag.
pub struct ArchiveEntry {
    pub class: RecordClass,
    pub payload: Vec<u8>,
    pub received_ts: u64,
    pub reason: PurgeReason,
}

/// Ghost image of an archival entry.
pub struct ArchiveEntryV {
    pub class: RecordClass,
    pub payload: Seq<u8>,
    pub received_ts: u64,
    pub reason: PurgeReason,
}

impl View for ArchiveEntry {
    type V = ArchiveEntryV;

    open spec fn view(&self) -> ArchiveEntryV {
        ArchiveEntryV {
            class: self.class,
            payload: self.payload@,
            received_ts: self.received_ts,
            reason: self.reason,
        }
    }
}

/// The archival entry a stale record of the given class gives rise to:
/// it carries the original payload and is tagged stale.
pub open spec fn stale_entry_of(r: PendingRecordV, class: RecordClass) -> ArchiveEntryV {
    ArchiveEntryV {
        class,
        payload: r.payload,
        received_ts: r.received_ts,
        reason: PurgeReason::Stale,
    }
}

/// Build the "invalid because stale" archival entry for a record.
pub fn build_stale_entry(record: &PendingRecord, class: RecordClass) -> (e: ArchiveEntry)
    ensures
        e@ == stale_entry_of(record@, class),
{
    ArchiveEntry {
        class,
        payload: clone_bytes(&record.payload),
        received_ts: record.received_ts,
        reason: PurgeReason::Stale,
    }
}

/// The views of a sequence of pending records, element by element.
pub open spec fn pending_views(rs: Seq<PendingRecord>) -> Seq<PendingRecordV> {
    rs.map_values(|r: PendingRecord| r@)
}

/// The views of a sequence of entropy entries, element by element.
pub open spec fn entropy_views(es: Seq<EntropyRecord>) -> Seq<EntropyRecordV> {
    es.map_values(|e: EntropyRecord| e@)
}

/// The views of a sequence of archival entries, element by element.
pub open spec fn archive_views(es: Seq<ArchiveEntry>) -> Seq<ArchiveEntryV> {
    es.map_values(|e: ArchiveEntry| e@)
}

/// Pairwise-distinct ingest identifiers: the store keeps records 1:1 by
/// their content-derived identity.
pub open spec fn distinct_ids(rs: Seq<PendingRecordV>) -> bool {
    forall|i: int, j: int|
        0 <= i < j < rs.len() ==> rs[i].ingest_id != rs[j].ingest_id
}

} // verus!
