//! The stale record purger: a periodic control loop that, on each tick,
//! finds beacon and witness records older than a staleness threshold,
//! writes an "invalid because stale" archival entry for each to its
//! class's sink, and deletes the record from the store — committing the
//! sink before the store transaction, so a crash between the two commits
//! can only archive twice, never delete an unarchived record. Entropy
//! entries are purged with no archival step. Per-item failures are
//! contained at the item: a record whose decode, archival write or row
//! delete failed stays in the store and becomes eligible again on the
//! next tick. Cycle-level failures are contained at the cycle: the loop
//! logs them and waits for the next tick; only cancellation stops it.

use vstd::prelude::*;
use crate::bytes::{clone_bytes, contains_bytes, has_bytes, views_of_bytes};
use crate::config::{
    is_stale, PurgeConfig, BEACON_STALE_OFFSET_SECS, ENTROPY_STALE_OFFSET_SECS,
    WITNESS_STALE_OFFSET_SECS,
};
use crate::faults::{CycleFaults, CycleFaultsV};
use crate::records::{
    build_stale_entry, distinct_ids, entropy_views, pending_views, stale_entry_of, ArchiveEntryV,
    EntropyRecord, EntropyRecordV, PendingRecord, PendingRecordV, RecordClass,
};
use crate::sink::{SinkModel, SinkModelV};
use crate::store::{StoreModel, StoreModelV};

verus! {

/// Why one record's purge attempt failed; the cycle logs it and goes on
/// with the other records of the batch.
#[derive(Clone, Copy, PartialEq, Eq, Structural, Debug)]
pub enum ItemError {
    /// The stored payload did not decode.
    Decode,
    /// The archival sink failed the write.
    SinkWrite,
    /// The row delete failed.
    StoreDelete,
}

/// Why a whole purge cycle was abandoned; the timer loop logs it and
/// waits for the next tick.
#[derive(Clone, Copy, PartialEq, Eq, Structural, Debug)]
pub enum CycleError {
    /// The store could not be queried or no transaction could be opened.
    StoreUnavailable,
    /// The archival sink failed to commit its buffered writes; the store
    /// transaction is dropped, so no row is deleted.
    SinkCommitFailed,
    /// The store transaction failed to commit; the archival entries are
    /// durable but every record stays, to be archived again next tick.
    TxCommitFailed,
}

/// What one class's purge pass found and removed.
#[derive(Clone, Copy, PartialEq, Eq, Structural, Debug)]
pub struct ClassOutcome {
    /// How many records had reached the staleness threshold.
    pub stale: usize,
    /// How many of them were archived and deleted this cycle.
    pub purged: usize,
}

/// What one full purge cycle found and removed.
#[derive(Clone, Copy, PartialEq, Eq, Structural, Debug)]
pub struct CycleStats {
    pub beacons: ClassOutcome,
    pub witnesses: ClassOutcome,
}

/// Whether a record has reached age `threshold` at time `now`.
pub open spec fn rec_is_stale(r: PendingRecordV, threshold: u64, now: u64) -> bool {
    r.received_ts + threshold <= now
}

/// Whether the external decoder rejects the record's stored payload.
pub open spec fn decode_fails(r: PendingRecordV, f: CycleFaultsV) -> bool {
    has_bytes(f.bad_payloads, r.payload)
}

/// Whether the sink fails the archival write for this record.
pub open spec fn sink_rejects_rec(r: PendingRecordV, f: CycleFaultsV) -> bool {
    has_bytes(f.sink_rejects, r.payload)
}

/// Whether the row delete fails for this record.
pub open spec fn delete_fails(r: PendingRecordV, f: CycleFaultsV) -> bool {
    has_bytes(f.delete_rejects, r.ingest_id)
}

/// The record is stale and its archival entry reaches the sink's buffer
/// this cycle: it decoded and the sink accepted the write.
pub open spec fn rec_archivable(r: PendingRecordV, f: CycleFaultsV, threshold: u64, now: u64) -> bool {
    rec_is_stale(r, threshold, now) && !decode_fails(r, f) && !sink_rejects_rec(r, f)
}

/// The record is archived and its row delete succeeds: it leaves the
/// store when the cycle commits.
pub open spec fn rec_purgeable(r: PendingRecordV, f: CycleFaultsV, threshold: u64, now: u64) -> bool {
    rec_archivable(r, f, threshold, now) && !delete_fails(r, f)
}

/// The result of one record's purge attempt, determined by which of the
/// decode, archival write and row delete succeed.
pub open spec fn item_result(r: PendingRecordV, f: CycleFaultsV) -> Result<(), ItemError> {
    if decode_fails(r, f) {
        Err(ItemError::Decode)
    } else if sink_rejects_rec(r, f) {
        Err(ItemError::SinkWrite)
    } else if delete_fails(r, f) {
        Err(ItemError::StoreDelete)
    } else {
        Ok(())
    }
}

/// The records a class keeps after one purge cycle: exactly those that
/// were not purgeable, in their original order.
pub open spec fn surviving(rs: Seq<PendingRecordV>, f: CycleFaultsV, threshold: u64, now: u64) -> Seq<
    PendingRecordV,
>
    decreases rs.len(),
{
    if rs.len() == 0 {
        Seq::empty()
    } else {
        let rest = surviving(rs.drop_last(), f, threshold, now);
        if rec_purgeable(rs.last(), f, threshold, now) {
            rest
        } else {
            rest.push(rs.last())
        }
    }
}

/// The archival entries one purge cycle buffers for a class: one stale
/// entry per archivable record, in record order.
pub open spec fn archived_entries(
    rs: Seq<PendingRecordV>,
    class: RecordClass,
    f: CycleFaultsV,
    threshold: u64,
    now: u64,
) -> Seq<ArchiveEntryV>
    decreases rs.len(),
{
    if rs.len() == 0 {
        Seq::empty()
    } else {
        let rest = archived_entries(rs.drop_last(), class, f, threshold, now);
        if rec_archivable(rs.last(), f, threshold, now) {
            rest.push(stale_entry_of(rs.last(), class))
        } else {
            rest
        }
    }
}

/// The ingest identifiers one purge cycle hands to the store for
/// deletion: one per purgeable record, in record order.
pub open spec fn purged_ids(rs: Seq<PendingRecordV>, f: CycleFaultsV, threshold: u64, now: u64) -> Seq<
    Seq<u8>,
>
    decreases rs.len(),
{
    if rs.len() == 0 {
        Seq::empty()
    } else {
        let rest = purged_ids(rs.drop_last(), f, threshold, now);
        if rec_purgeable(rs.last(), f, threshold, now) {
            rest.push(rs.last().ingest_id)
        } else {
            rest
        }
    }
}

/// How many records of the class have reached the staleness threshold.
pub open spec fn count_stale(rs: Seq<PendingRecordV>, threshold: u64, now: u64) -> int
    decreases rs.len(),
{
    if rs.len() == 0 {
        0
    } else {
        count_stale(rs.drop_last(), threshold, now) + if rec_is_stale(
            rs.last(),
            threshold,
            now,
        ) {
            1int
        } else {
            0int
        }
    }
}

/// Whether an entropy entry has reached age `threshold` at time `now`.
pub open spec fn entropy_is_stale(e: EntropyRecordV, threshold: u64, now: u64) -> bool {
    e.created_ts + threshold <= now
}

/// The entropy entries kept after one purge cycle: exactly those not yet
/// stale, in their original order.
pub open spec fn entropy_surviving(es: Seq<EntropyRecordV>, threshold: u64, now: u64) -> Seq<
    EntropyRecordV,
>
    decreases es.len(),
{
    if es.len() == 0 {
        Seq::empty()
    } else {
        let rest = entropy_surviving(es.drop_last(), threshold, now);
        if entropy_is_stale(es.last(), threshold, now) {
            rest
        } else {
            rest.push(es.last())
        }
    }
}

/// One worker's step for one stale record: hand the payload to the
/// decoder, build the stale archival entry, write it to the sink, and on
/// success add the record's ingest identifier to the batch of rows to
/// delete. A failure at any step leaves the record in the store; a
/// failure after the sink write leaves the entry buffered, which at
/// worst archives the record twice.
pub fn purge_item(
    record: &PendingRecord,
    class: RecordClass,
    sink: &mut SinkModel,
    deletes: &mut Vec<Vec<u8>>,
    faults: &CycleFaults,
) -> (r: Result<(), ItemError>)
    ensures
        r == item_result(record@, faults@),
        final(sink)@.committed == old(sink)@.committed,
        !decode_fails(record@, faults@) && !sink_rejects_rec(record@, faults@) ==> final(sink)@.buffered
            == old(sink)@.buffered.push(stale_entry_of(record@, class)),
        decode_fails(record@, faults@) || sink_rejects_rec(record@, faults@) ==> final(sink)@.buffered
            == old(sink)@.buffered,
        r is Ok ==> views_of_bytes(final(deletes)@) == views_of_bytes(old(deletes)@).push(
            record@.ingest_id,
        ),
        !(r is Ok) ==> final(deletes)@ == old(deletes)@,
{
    if contains_bytes(&faults.bad_payloads, &record.payload) {
        return Err(ItemError::Decode);
    }
    let entry = build_stale_entry(record, class);
    if !sink.write(entry, faults) {
        return Err(ItemError::SinkWrite);
    }
    if contains_bytes(&faults.delete_rejects, &record.ingest_id) {
        return Err(ItemError::StoreDelete);
    }
    let ghost pre = deletes@;
    deletes.push(clone_bytes(&record.ingest_id));
    proof {
        assert(views_of_bytes(deletes@) =~= views_of_bytes(pre).push(record@.ingest_id));
    }
    Ok(())
}

/// What one class's purge pass leaves behind, for each possible result.
pub open spec fn class_post(
    rs0: Seq<PendingRecordV>,
    rs1: Seq<PendingRecordV>,
    s0: SinkModelV,
    s1: SinkModelV,
    class: RecordClass,
    f: CycleFaultsV,
    threshold: u64,
    now: u64,
    r: Result<ClassOutcome, CycleError>,
) -> bool {
    match r {
        Ok(out) => {
            &&& !f.store_unavailable && !f.sink_commit_fails && !f.tx_commit_fails
            &&& rs1 == surviving(rs0, f, threshold, now)
            &&& s1.committed == s0.committed + s0.buffered + archived_entries(
                rs0,
                class,
                f,
                threshold,
                now,
            )
            &&& s1.buffered.len() == 0
            &&& out.stale == count_stale(rs0, threshold, now)
            &&& out.purged == purged_ids(rs0, f, threshold, now).len()
        },
        Err(CycleError::StoreUnavailable) => {
            &&& f.store_unavailable
            &&& rs1 == rs0
            &&& s1 == s0
        },
        Err(CycleError::SinkCommitFailed) => {
            &&& !f.store_unavailable && f.sink_commit_fails
            &&& rs1 == rs0
            &&& s1.committed == s0.committed
            &&& s1.buffered == s0.buffered + archived_entries(rs0, class, f, threshold, now)
        },
        Err(CycleError::TxCommitFailed) => {
            &&& !f.store_unavailable && !f.sink_commit_fails && f.tx_commit_fails
            &&& rs1 == rs0
            &&& s1.committed == s0.committed + s0.buffered + archived_entries(
                rs0,
                class,
                f,
                threshold,
                now,
            )
            &&& s1.buffered.len() == 0
        },
    }
}

/// One class's purge pass: query the snapshot of records at the
/// threshold age or older, fan the batch out (here: in record order),
/// archive each to the sink, collect the ingest identifiers whose
/// archival write succeeded, commit the sink, and only then commit the
/// deletes. Per-item failures skip the item and keep going; a commit
/// failure abandons the pass with every record still in the store.
pub fn purge_class(
    records: &mut Vec<PendingRecord>,
    sink: &mut SinkModel,
    class: RecordClass,
    threshold: u64,
    now: u64,
    faults: &CycleFaults,
) -> (r: Result<ClassOutcome, CycleError>)
    requires
        distinct_ids(pending_views(old(records)@)),
    ensures
        class_post(
            pending_views(old(records)@),
            pending_views(final(records)@),
            old(sink)@,
            final(sink)@,
            class,
            faults@,
            threshold,
            now,
            r,
        ),
        distinct_ids(pending_views(final(records)@)),
{
    let ghost rs0 = pending_views(records@);
    if faults.store_unavailable {
        return Err(CycleError::StoreUnavailable);
    }
    let mut deletes: Vec<Vec<u8>> = Vec::new();
    let mut stale_count: usize = 0;
    let n = records.len();
    let mut i: usize = 0;
    while i < n
        invariant
            records@ == old(records)@,
            rs0 == pending_views(records@),
            n == records@.len(),
            0 <= i <= n,
            stale_count <= i,
            sink@.committed == old(sink)@.committed,
            sink@.buffered == old(sink)@.buffered + archived_entries(
                rs0.subrange(0, i as int),
                class,
                faults@,
                threshold,
                now,
            ),
            views_of_bytes(deletes@) == purged_ids(
                rs0.subrange(0, i as int),
                faults@,
                threshold,
                now,
            ),
            stale_count == count_stale(rs0.subrange(0, i as int), threshold, now),
        decreases n - i,
    {
        let ghost prefix = rs0.subrange(0, i as int);
        let ghost longer = rs0.subrange(0, i + 1 as int);
        proof {
            assert(longer.drop_last() =~= prefix);
            assert(longer.last() == rs0[i as int]);
            assert(rs0[i as int] == records@[i as int]@);
        }
        if is_stale(records[i].received_ts, threshold, now) {
            stale_count += 1;
            let _item_res = purge_item(&records[i], class, sink, &mut deletes, faults);
            proof {
                assert(rec_is_stale(rs0[i as int], threshold, now));
                if rec_archivable(rs0[i as int], faults@, threshold, now) {
                    assert(sink@.buffered == old(sink)@.buffered + archived_entries(
                        prefix,
                        class,
                        faults@,
                        threshold,
                        now,
                    ).push(stale_entry_of(rs0[i as int], class)));
                    assert((old(sink)@.buffered + archived_entries(
                        prefix,
                        class,
                        faults@,
                        threshold,
                        now,
                    )).push(stale_entry_of(rs0[i as int], class)) =~= old(sink)@.buffered
                        + archived_entries(longer, class, faults@, threshold, now));
                }
            }
        } else {
            proof {
                assert(!rec_is_stale(rs0[i as int], threshold, now));
            }
        }
        i += 1;
    }
    proof {
        assert(rs0.subrange(0, n as int) =~= rs0);
    }
    if !sink.commit(faults) {
        return Err(CycleError::SinkCommitFailed);
    }
    proof {
        assert(sink@.committed =~= old(sink)@.committed + old(sink)@.buffered + archived_entries(
            rs0,
            class,
            faults@,
            threshold,
            now,
        ));
    }
    if faults.tx_commit_fails {
        return Err(CycleError::TxCommitFailed);
    }
    let purged = deletes.len();
    remove_by_ids(records, &deletes);
    proof {
        lemma_remove_purged(rs0, faults@, threshold, now);
        lemma_surviving_distinct(rs0, faults@, threshold, now);
        assert(purged == purged_ids(rs0, faults@, threshold, now).len());
    }
    Ok(ClassOutcome { stale: stale_count, purged })
}

/// The records kept when the rows named by `ids` are deleted: exactly
/// those whose ingest identifier is not in `ids`, in order.
pub open spec fn remove_ids_spec(rs: Seq<PendingRecordV>, ids: Seq<Seq<u8>>) -> Seq<PendingRecordV>
    decreases rs.len(),
{
    if rs.len() == 0 {
        Seq::empty()
    } else {
        let rest = remove_ids_spec(rs.drop_last(), ids);
        if has_bytes(ids, rs.last().ingest_id) {
            rest
        } else {
            rest.push(rs.last())
        }
    }
}

/// Apply the batch of deletes: keep exactly the records whose ingest
/// identifier is not named.
fn remove_by_ids(records: &mut Vec<PendingRecord>, ids: &Vec<Vec<u8>>)
    ensures
        pending_views(final(records)@) == remove_ids_spec(
            pending_views(old(records)@),
            views_of_bytes(ids@),
        ),
{
    let ghost rs0 = pending_views(records@);
    let ghost idsv = views_of_bytes(ids@);
    let mut kept: Vec<PendingRecord> = Vec::new();
    let n = records.len();
    let mut i: usize = 0;
    while i < n
        invariant
            records@ == old(records)@,
            rs0 == pending_views(records@),
            idsv == views_of_bytes(ids@),
            n == records@.len(),
            0 <= i <= n,
            pending_views(kept@) == remove_ids_spec(rs0.subrange(0, i as int), idsv),
        decreases n - i,
    {
        let ghost prefix = rs0.subrange(0, i as int);
        let ghost longer = rs0.subrange(0, i + 1 as int);
        proof {
            assert(longer.drop_last() =~= prefix);
            assert(longer.last() == rs0[i as int]);
            assert(rs0[i as int] == records@[i as int]@);
        }
        if !contains_bytes(ids, &records[i].ingest_id) {
            let ghost kept0 = pending_views(kept@);
            kept.push(records[i].duplicate());
            proof {
                assert(pending_views(kept@) =~= kept0.push(rs0[i as int]));
            }
        }
        i += 1;
    }
    proof {
        assert(rs0.subrange(0, n as int) =~= rs0);
    }
    *records = kept;
}

/// Which identifiers the delete batch holds: exactly the identifiers of
/// the purgeable records.
proof fn lemma_purged_ids_contains(
    rs: Seq<PendingRecordV>,
    f: CycleFaultsV,
    threshold: u64,
    now: u64,
    id: Seq<u8>,
)
    ensures
        has_bytes(purged_ids(rs, f, threshold, now), id) <==> exists|i: int|
            0 <= i < rs.len() && rs[i].ingest_id == id && rec_purgeable(rs[i], f, threshold, now),
    decreases rs.len(),
{
    if rs.len() == 0 {
    } else {
        let prev = rs.drop_last();
        let ids_prev = purged_ids(prev, f, threshold, now);
        let ids_all = purged_ids(rs, f, threshold, now);
        lemma_purged_ids_contains(prev, f, threshold, now, id);
        let last = rs.last();
        if rec_purgeable(last, f, threshold, now) {
            assert(ids_all == ids_prev.push(last.ingest_id));
            if has_bytes(ids_all, id) {
                let j = choose|j: int| 0 <= j < ids_all.len() && ids_all[j] == id;
                if j < ids_prev.len() {
                    assert(ids_prev[j] == id);
                    assert(has_bytes(ids_prev, id));
                    let i = choose|i: int|
                        0 <= i < prev.len() && prev[i].ingest_id == id && rec_purgeable(
                            prev[i],
                            f,
                            threshold,
                            now,
                        );
                    assert(rs[i] == prev[i]);
                } else {
                    assert(id == last.ingest_id);
                    assert(rs[rs.len() - 1] == last);
                }
            }
            if exists|i: int|
                0 <= i < rs.len() && rs[i].ingest_id == id && rec_purgeable(rs[i], f, threshold, now) {
                let i = choose|i: int|
                    0 <= i < rs.len() && rs[i].ingest_id == id && rec_purgeable(
                        rs[i],
                        f,
                        threshold,
                        now,
                    );
                if i < prev.len() {
                    assert(prev[i] == rs[i]);
                    assert(has_bytes(ids_prev, id));
                    let j = choose|j: int| 0 <= j < ids_prev.len() && ids_prev[j] == id;
                    assert(ids_all[j] == id);
                } else {
                    assert(ids_all[ids_prev.len() as int] == id);
                }
            }
        } else {
            assert(ids_all == ids_prev);
            if has_bytes(ids_all, id) {
                let i = choose|i: int|
                    0 <= i < prev.len() && prev[i].ingest_id == id && rec_purgeable(
                        prev[i],
                        f,
                        threshold,
                        now,
                    );
                assert(rs[i] == prev[i]);
            }
            if exists|i: int|
                0 <= i < rs.len() && rs[i].ingest_id == id && rec_purgeable(rs[i], f, threshold, now) {
                let i = choose|i: int|
                    0 <= i < rs.len() && rs[i].ingest_id == id && rec_purgeable(
                        rs[i],
                        f,
                        threshold,
                        now,
                    );
                assert(i < prev.len());
                assert(prev[i] == rs[i]);
                assert(has_bytes(ids_prev, id));
            }
        }
    }
}

/// When deletion by identifier agrees pointwise with purgeability,
/// deleting the batch leaves exactly the surviving records.
proof fn lemma_remove_matches_surviving(
    rs: Seq<PendingRecordV>,
    ids: Seq<Seq<u8>>,
    f: CycleFaultsV,
    threshold: u64,
    now: u64,
)
    requires
        forall|i: int|
            0 <= i < rs.len() ==> (has_bytes(ids, #[trigger] rs[i].ingest_id) <==> rec_purgeable(
                rs[i],
                f,
                threshold,
                now,
            )),
    ensures
        remove_ids_spec(rs, ids) == surviving(rs, f, threshold, now),
    decreases rs.len(),
{
    if rs.len() == 0 {
    } else {
        let prev = rs.drop_last();
        assert forall|i: int|
            0 <= i < prev.len() implies (has_bytes(ids, #[trigger] prev[i].ingest_id)
            <==> rec_purgeable(prev[i], f, threshold, now)) by {
            assert(prev[i] == rs[i]);
        }
        lemma_remove_matches_surviving(prev, ids, f, threshold, now);
        assert(rs[rs.len() - 1] == rs.last());
    }
}

/// Deleting exactly the purgeable identifiers leaves exactly the
/// surviving records, because identifiers are 1:1 with records.
proof fn lemma_remove_purged(rs: Seq<PendingRecordV>, f: CycleFaultsV, threshold: u64, now: u64)
    requires
        distinct_ids(rs),
    ensures
        remove_ids_spec(rs, purged_ids(rs, f, threshold, now)) == surviving(rs, f, threshold, now),
{
    let ids = purged_ids(rs, f, threshold, now);
    assert forall|i: int|
        0 <= i < rs.len() implies (has_bytes(ids, #[trigger] rs[i].ingest_id) <==> rec_purgeable(
        rs[i],
        f,
        threshold,
        now,
    )) by {
        lemma_purged_ids_contains(rs, f, threshold, now, rs[i].ingest_id);
        if has_bytes(ids, rs[i].ingest_id) {
            let j = choose|j: int|
                0 <= j < rs.len() && rs[j].ingest_id == rs[i].ingest_id && rec_purgeable(
                    rs[j],
                    f,
                    threshold,
                    now,
                );
            if j != i {
                if j < i {
                    assert(rs[j].ingest_id != rs[i].ingest_id);
                } else {
                    assert(rs[i].ingest_id != rs[j].ingest_id);
                }
            }
        }
        if rec_purgeable(rs[i], f, threshold, now) {
            assert(exists|j: int|
                0 <= j < rs.len() && rs[j].ingest_id == rs[i].ingest_id && rec_purgeable(
                    rs[j],
                    f,
                    threshold,
                    now,
                ));
        }
    }
    lemma_remove_matches_surviving(rs, ids, f, threshold, now);
}

/// Survivors keep 1:1 identifiers: the surviving records are records of
/// the store, and distinctness carries over.
proof fn lemma_surviving_distinct(rs: Seq<PendingRecordV>, f: CycleFaultsV, threshold: u64, now: u64)
    requires
        distinct_ids(rs),
    ensures
        distinct_ids(surviving(rs, f, threshold, now)),
        forall|k: int|
            0 <= k < surviving(rs, f, threshold, now).len() ==> exists|i: int|
                0 <= i < rs.len() && #[trigger] surviving(rs, f, threshold, now)[k] == rs[i],
    decreases rs.len(),
{
    if rs.len() == 0 {
    } else {
        let prev = rs.drop_last();
        assert(distinct_ids(prev)) by {
            assert forall|i: int, j: int|
                0 <= i < j < prev.len() implies prev[i].ingest_id != prev[j].ingest_id by {
                assert(prev[i] == rs[i] && prev[j] == rs[j]);
            }
        }
        lemma_surviving_distinct(prev, f, threshold, now);
        let sv_prev = surviving(prev, f, threshold, now);
        let sv = surviving(rs, f, threshold, now);
        let last = rs.last();
        assert forall|k: int| 0 <= k < sv_prev.len() implies exists|i: int|
            0 <= i < rs.len() && #[trigger] sv_prev[k] == rs[i] by {
            let i = choose|i: int| 0 <= i < prev.len() && sv_prev[k] == prev[i];
            assert(sv_prev[k] == rs[i]);
        }
        if rec_purgeable(last, f, threshold, now) {
            assert(sv == sv_prev);
        } else {
            assert(sv == sv_prev.push(last));
            assert(rs[rs.len() - 1] == last);
            assert forall|k1: int, k2: int|
                0 <= k1 < k2 < sv.len() implies sv[k1].ingest_id != sv[k2].ingest_id by {
                if k2 < sv_prev.len() {
                    assert(sv[k1] == sv_prev[k1] && sv[k2] == sv_prev[k2]);
                } else {
                    assert(sv[k2] == last);
                    assert(sv[k1] == sv_prev[k1]);
                    let i = choose|i: int| 0 <= i < prev.len() && sv_prev[k1] == prev[i];
                    assert(prev[i] == rs[i]);
                    assert(rs[i].ingest_id != rs[rs.len() - 1].ingest_id);
                }
            }
        }
    }
}

/// The purger's loop state. A tick is handled inside one call, so the
/// transient purging phase is never observable between calls; only
/// cancellation reaches the terminal state.
#[derive(Clone, Copy, PartialEq, Eq, Structural, Debug)]
pub enum PurgerState {
    /// Waiting for the next timer tick or the cancellation signal.
    Idle,
    /// Cancelled; no further tick is handled.
    Stopped,
}

/// An event the purger's loop wakes on: a timer tick at some time, or
/// the cancellation signal.
#[derive(Clone, Copy, PartialEq, Eq, Structural, Debug)]
pub enum PurgerEvent {
    Tick { now: u64 },
    Shutdown,
}

/// The stale record purger.
pub struct Purger {
    pub cfg: PurgeConfig,
    pub state: PurgerState,
}

/// What one full purge cycle leaves behind, for each possible result:
/// beacons first, then witnesses, then entropy, in that fixed order, so
/// a cycle-level failure in the beacon pass leaves the later classes
/// untouched. Thresholds are recomputed from `now` on every tick.
pub open spec fn tick_post(
    cfg: PurgeConfig,
    s0: StoreModelV,
    s1: StoreModelV,
    b0: SinkModelV,
    b1: SinkModelV,
    w0: SinkModelV,
    w1: SinkModelV,
    f: CycleFaultsV,
    now: u64,
    r: Result<CycleStats, CycleError>,
) -> bool {
    let bth = (cfg.base_stale_period + BEACON_STALE_OFFSET_SECS) as u64;
    let wth = (cfg.base_stale_period + WITNESS_STALE_OFFSET_SECS) as u64;
    let eth = (cfg.base_stale_period + ENTROPY_STALE_OFFSET_SECS) as u64;
    match r {
        Ok(stats) => {
            &&& !f.store_unavailable && !f.sink_commit_fails && !f.tx_commit_fails
            &&& s1.beacons == surviving(s0.beacons, f, bth, now)
            &&& s1.witnesses == surviving(s0.witnesses, f, wth, now)
            &&& s1.entropy == entropy_surviving(s0.entropy, eth, now)
            &&& b1.committed == b0.committed + b0.buffered + archived_entries(
                s0.beacons,
                RecordClass::Beacon,
                f,
                bth,
                now,
            )
            &&& b1.buffered.len() == 0
            &&& w1.committed == w0.committed + w0.buffered + archived_entries(
                s0.witnesses,
                RecordClass::Witness,
                f,
                wth,
                now,
            )
            &&& w1.buffered.len() == 0
            &&& stats.beacons.stale == count_stale(s0.beacons, bth, now)
            &&& stats.beacons.purged == purged_ids(s0.beacons, f, bth, now).len()
            &&& stats.witnesses.stale == count_stale(s0.witnesses, wth, now)
            &&& stats.witnesses.purged == purged_ids(s0.witnesses, f, wth, now).len()
        },
        Err(CycleError::StoreUnavailable) => {
            &&& f.store_unavailable
            &&& s1 == s0 && b1 == b0 && w1 == w0
        },
        Err(CycleError::SinkCommitFailed) => {
            &&& !f.store_unavailable && f.sink_commit_fails
            &&& s1 == s0 && w1 == w0
            &&& b1.committed == b0.committed
            &&& b1.buffered == b0.buffered + archived_entries(
                s0.beacons,
                RecordClass::Beacon,
                f,
                bth,
                now,
            )
        },
        Err(CycleError::TxCommitFailed) => {
            &&& !f.store_unavailable && !f.sink_commit_fails && f.tx_commit_fails
            &&& s1 == s0 && w1 == w0
            &&& b1.committed == b0.committed + b0.buffered + archived_entries(
                s0.beacons,
                RecordClass::Beacon,
                f,
                bth,
                now,
            )
            &&& b1.buffered.len() == 0
        },
    }
}

impl Purger {
    /// Build a purger from its deployment configuration; it starts idle.
    pub fn from_settings(cfg: PurgeConfig) -> (p: Purger)
        requires
            cfg.wf(),
        ensures
            p.cfg == cfg,
            p.state is Idle,
    {
        Purger { cfg, state: PurgerState::Idle }
    }

    /// One full purge cycle: stale beacons, then stale witnesses, each
    /// archived before deletion, then stale entropy with no archival
    /// step and its failures suppressed.
    pub fn handle_db_tick(
        &self,
        store: &mut StoreModel,
        beacon_sink: &mut SinkModel,
        witness_sink: &mut SinkModel,
        faults: &CycleFaults,
        now: u64,
    ) -> (r: Result<CycleStats, CycleError>)
        requires
            self.cfg.wf(),
            old(store).wf(),
        ensures
            final(store).wf(),
            tick_post(
                self.cfg,
                old(store)@,
                final(store)@,
                old(beacon_sink)@,
                final(beacon_sink)@,
                old(witness_sink)@,
                final(witness_sink)@,
                faults@,
                now,
                r,
            ),
    {
        let bth = self.cfg.beacon_threshold();
        let beacons = match purge_class(
            &mut store.beacons,
            beacon_sink,
            RecordClass::Beacon,
            bth,
            now,
            faults,
        ) {
            Ok(out) => out,
            Err(e) => {
                return Err(e);
            },
        };
        let wth = self.cfg.witness_threshold();
        let witnesses = match purge_class(
            &mut store.witnesses,
            witness_sink,
            RecordClass::Witness,
            wth,
            now,
            faults,
        ) {
            Ok(out) => out,
            Err(e) => {
                return Err(e);
            },
        };
        let eth = self.cfg.entropy_threshold();
        purge_entropy(&mut store.entropy, eth, now, faults);
        Ok(CycleStats { beacons, witnesses })
    }

    /// React to one event of the select loop. Cancellation moves the
    /// purger to its terminal state without touching the store or the
    /// sinks; a tick while idle runs one full cycle, and a failed cycle
    /// leaves the purger idle for the next tick rather than stopping it;
    /// a tick after cancellation is not handled.
    pub fn handle_event(
        &mut self,
        event: PurgerEvent,
        store: &mut StoreModel,
        beacon_sink: &mut SinkModel,
        witness_sink: &mut SinkModel,
        faults: &CycleFaults,
    ) -> (r: Option<Result<CycleStats, CycleError>>)
        requires
            old(self).cfg.wf(),
            old(store).wf(),
        ensures
            final(self).cfg == old(self).cfg,
            final(store).wf(),
            (final(self).state is Stopped) <==> (old(self).state is Stopped
                || event is Shutdown),
            (r is Some) <==> (event is Tick && old(self).state is Idle),
            !(event is Tick && old(self).state is Idle) ==> *final(store) == *old(store)
                && *final(beacon_sink) == *old(beacon_sink) && *final(witness_sink) == *old(
                witness_sink,
            ),
            match event {
                PurgerEvent::Tick { now } => old(self).state is Idle ==> match r {
                    Some(res) => tick_post(
                        old(self).cfg,
                        old(store)@,
                        final(store)@,
                        old(beacon_sink)@,
                        final(beacon_sink)@,
                        old(witness_sink)@,
                        final(witness_sink)@,
                        faults@,
                        now,
                        res,
                    ),
                    None => false,
                },
                PurgerEvent::Shutdown => true,
            },
    {
        match event {
            PurgerEvent::Shutdown => {
                self.state = PurgerState::Stopped;
                None
            },
            PurgerEvent::Tick { now } => {
                match self.state {
                    PurgerState::Stopped => None,
                    PurgerState::Idle => {
                        let res = self.handle_db_tick(store, beacon_sink, witness_sink, faults, now);
                        Some(res)
                    },
                }
            },
        }
    }
}

/// Purge stale entropy entries: a bulk delete with no archival step.
/// Failure is fully suppressed: with the store unavailable nothing
/// changes and nothing is reported.
pub fn purge_entropy(entropy: &mut Vec<EntropyRecord>, threshold: u64, now: u64, faults: &CycleFaults)
    ensures
        faults@.store_unavailable ==> final(entropy)@ == old(entropy)@,
        !faults@.store_unavailable ==> entropy_views(final(entropy)@) == entropy_surviving(
            entropy_views(old(entropy)@),
            threshold,
            now,
        ),
{
    if faults.store_unavailable {
        return ;
    }
    let ghost es0 = entropy_views(entropy@);
    let mut kept: Vec<EntropyRecord> = Vec::new();
    let n = entropy.len();
    let mut i: usize = 0;
    while i < n
        invariant
            entropy@ == old(entropy)@,
            es0 == entropy_views(entropy@),
            n == entropy@.len(),
            0 <= i <= n,
            entropy_views(kept@) == entropy_surviving(es0.subrange(0, i as int), threshold, now),
        decreases n - i,
    {
        let ghost prefix = es0.subrange(0, i as int);
        let ghost longer = es0.subrange(0, i + 1 as int);
        proof {
            assert(longer.drop_last() =~= prefix);
            assert(longer.last() == es0[i as int]);
            assert(es0[i as int] == entropy@[i as int]@);
        }
        if !is_stale(entropy[i].created_ts, threshold, now) {
            let ghost kept0 = entropy_views(kept@);
            let e = EntropyRecord {
                key: clone_bytes(&entropy[i].key),
                created_ts: entropy[i].created_ts,
            };
            proof {
                assert(e@ == es0[i as int]);
            }
            kept.push(e);
            proof {
                assert(entropy_views(kept@) =~= kept0.push(es0[i as int]));
            }
        }
        i += 1;
    }
    proof {
        assert(es0.subrange(0, n as int) =~= es0);
    }
    *entropy = kept;
}

/// The command that runs the purge daemon: it owns the select loop that
/// races the periodic timer against the cancellation signal, handing
/// each wake-up to the purger. Cancellation takes priority and ends the
/// loop; a tick that fails is logged by its outcome and the loop goes
/// on. The schedule is the sequence of wake-ups the process observes.
pub struct Cmd {}

/// Whether the schedule carries a cancellation.
pub open spec fn has_shutdown(evs: Seq<PurgerEvent>) -> bool {
    exists|i: int| 0 <= i < evs.len() && evs[i] is Shutdown
}

/// How many ticks are handled: those before the first cancellation.
pub open spec fn ticks_until_shutdown(evs: Seq<PurgerEvent>) -> int
    decreases evs.len(),
{
    if evs.len() == 0 {
        0
    } else {
        let rest = ticks_until_shutdown(evs.drop_last());
        if has_shutdown(evs.drop_last()) || evs.last() is Shutdown {
            rest
        } else {
            rest + 1
        }
    }
}

/// A schedule with one more event carries a cancellation exactly when
/// the shorter one did or the new event is one.
proof fn lemma_has_shutdown_push(evs: Seq<PurgerEvent>, e: PurgerEvent)
    ensures
        has_shutdown(evs.push(e)) <==> (has_shutdown(evs) || e is Shutdown),
{
    if has_shutdown(evs.push(e)) {
        let i = choose|i: int| 0 <= i < evs.push(e).len() && evs.push(e)[i] is Shutdown;
        if i < evs.len() {
            assert(evs[i] is Shutdown);
        }
    }
    if has_shutdown(evs) {
        let i = choose|i: int| 0 <= i < evs.len() && evs[i] is Shutdown;
        assert(evs.push(e)[i] is Shutdown);
    }
    if e is Shutdown {
        assert(evs.push(e)[evs.len() as int] is Shutdown);
    }
}

impl Cmd {
    /// Run the purge daemon over the wake-ups it observes: every tick
    /// before the first cancellation runs one purge cycle against the
    /// store and the two sinks; from the cancellation on, nothing more
    /// is handled. Returns the purger in its final state and how many
    /// ticks were handled.
    pub fn run(
        self,
        cfg: PurgeConfig,
        store: &mut StoreModel,
        beacon_sink: &mut SinkModel,
        witness_sink: &mut SinkModel,
        schedule: &Vec<PurgerEvent>,
        faults: &CycleFaults,
    ) -> (r: (Purger, usize))
        requires
            cfg.wf(),
            old(store).wf(),
        ensures
            final(store).wf(),
            r.0.cfg == cfg,
            (r.0.state is Stopped) <==> has_shutdown(schedule@),
            r.1 == ticks_until_shutdown(schedule@),
    {
        let mut purger = Purger::from_settings(cfg);
        let mut ticks: usize = 0;
        let n = schedule.len();
        let mut i: usize = 0;
        while i < n
            invariant
                purger.cfg == cfg,
                cfg.wf(),
                store.wf(),
                n == schedule@.len(),
                0 <= i <= n,
                ticks <= i,
                (purger.state is Stopped) <==> has_shutdown(schedule@.subrange(0, i as int)),
                ticks == ticks_until_shutdown(schedule@.subrange(0, i as int)),
            decreases n - i,
        {
            let ghost prefix = schedule@.subrange(0, i as int);
            let ghost longer = schedule@.subrange(0, i + 1 as int);
            proof {
                assert(longer.drop_last() =~= prefix);
                assert(longer.last() == schedule@[i as int]);
            }
            let ev = schedule[i];
            let res = purger.handle_event(ev, store, beacon_sink, witness_sink, faults);
            if res.is_some() {
                ticks += 1;
            }
            proof {
                lemma_has_shutdown_push(prefix, schedule@[i as int]);
                assert(prefix.push(schedule@[i as int]) =~= longer);
            }
            i += 1;
        }
        proof {
            assert(schedule@.subrange(0, n as int) =~= schedule@);
        }
        (purger, ticks)
    }
}

} // verus!
