//! The laws the two components obey, stated over the same spec functions
//! the operations' contracts use and proved once and for all inputs.

use vstd::prelude::*;
use crate::cache::GatewayCache;
use crate::faults::CycleFaultsV;
use crate::purger::{
    archived_entries, count_stale, purged_ids, rec_archivable, rec_is_stale,
    rec_purgeable, surviving, tick_post, CycleError, CycleStats,
};
use crate::config::{PurgeConfig, BEACON_STALE_OFFSET_SECS};
use crate::records::{stale_entry_of, PendingRecordV, RecordClass};
use crate::sink::SinkModelV;
use crate::store::StoreModelV;

verus! {

/// An identity never inserted is never live, so every resolve of it
/// consults the cache in vain and owes exactly one remote lookup,
/// whatever the time of the call.
pub proof fn lemma_unknown_identity_never_live(c: GatewayCache, k: Seq<u8>, t: u64)
    requires
        !c.spec_contains(k),
    ensures
        !c.spec_live(k, t),
{
}

/// A cached entry answers resolves without a remote call strictly until
/// its expiry instant; from that instant on the identity resolves as a
/// fresh miss.
pub proof fn lemma_cached_until_expiry(c: GatewayCache, k: Seq<u8>, t: u64)
    requires
        c.wf(),
        c.spec_contains(k),
    ensures
        t < c.spec_expiry(k) ==> c.spec_live(k, t),
        t >= c.spec_expiry(k) ==> !c.spec_live(k, t),
{
}

/// An entry whose expiry lies in the jitter window of an insert at `now`
/// is live for at least the base TTL and dead once the base TTL plus the
/// largest jitter has passed, whatever jitter it was given: the window
/// bounds how early and how late an entry can expire.
pub proof fn lemma_ttl_window(c: GatewayCache, k: Seq<u8>, now: u64, t: u64)
    requires
        c.wf(),
        c.spec_contains(k),
        now + c.spec_cfg().base_ttl_secs <= c.spec_expiry(k),
        c.spec_expiry(k) <= now + c.spec_cfg().base_ttl_secs + c.spec_cfg().spec_max_jitter(),
    ensures
        t < now + c.spec_cfg().base_ttl_secs ==> c.spec_live(k, t),
        t >= now + c.spec_cfg().base_ttl_secs + c.spec_cfg().spec_max_jitter() ==> !c.spec_live(
            k,
            t,
        ),
{
}

/// A record exactly at the threshold age is stale; one second younger is
/// not.
pub proof fn lemma_stale_boundary(r: PendingRecordV, threshold: u64, now: u64)
    ensures
        r.received_ts + threshold == now ==> rec_is_stale(r, threshold, now),
        now < r.received_ts + threshold ==> !rec_is_stale(r, threshold, now),
{
}

/// After one purge pass over a class, every record either had its stale
/// archival entry written and its row deleted, or it is still present:
/// a record is never deleted without its archival entry, and a record
/// not yet stale always survives.
pub proof fn lemma_archive_before_delete(
    rs: Seq<PendingRecordV>,
    class: RecordClass,
    f: CycleFaultsV,
    threshold: u64,
    now: u64,
    i: int,
)
    requires
        0 <= i < rs.len(),
    ensures
        rec_purgeable(rs[i], f, threshold, now) ==> archived_entries(
            rs,
            class,
            f,
            threshold,
            now,
        ).contains(stale_entry_of(rs[i], class)),
        !rec_purgeable(rs[i], f, threshold, now) ==> surviving(rs, f, threshold, now).contains(
            rs[i],
        ),
        !rec_is_stale(rs[i], threshold, now) ==> surviving(rs, f, threshold, now).contains(rs[i]),
    decreases rs.len(),
{
    let prev = rs.drop_last();
    let sv = surviving(rs, f, threshold, now);
    let ae = archived_entries(rs, class, f, threshold, now);
    if i == rs.len() - 1 {
        if rec_purgeable(rs[i], f, threshold, now) {
            assert(ae[ae.len() - 1] == stale_entry_of(rs[i], class));
        } else {
            assert(sv[sv.len() - 1] == rs[i]);
        }
    } else {
        lemma_archive_before_delete(prev, class, f, threshold, now, i);
        assert(prev[i] == rs[i]);
        let sv_prev = surviving(prev, f, threshold, now);
        let ae_prev = archived_entries(prev, class, f, threshold, now);
        if rec_purgeable(rs[i], f, threshold, now) {
            let j = choose|j: int|
                0 <= j < ae_prev.len() && ae_prev[j] == stale_entry_of(prev[i], class);
            assert(ae[j] == stale_entry_of(rs[i], class));
            assert(ae.contains(stale_entry_of(rs[i], class)));
        } else {
            let j = choose|j: int| 0 <= j < sv_prev.len() && sv_prev[j] == prev[i];
            assert(sv[j] == rs[i]);
            assert(sv.contains(rs[i]));
        }
    }
}

/// Every archival entry a purge pass buffers comes from an archivable
/// record of the snapshot, tagged stale and carrying that record's
/// payload and received time.
pub proof fn lemma_archived_entry_source(
    rs: Seq<PendingRecordV>,
    class: RecordClass,
    f: CycleFaultsV,
    threshold: u64,
    now: u64,
    k: int,
)
    requires
        0 <= k < archived_entries(rs, class, f, threshold, now).len(),
    ensures
        exists|i: int|
            0 <= i < rs.len() && rec_archivable(rs[i], f, threshold, now) && archived_entries(
                rs,
                class,
                f,
                threshold,
                now,
            )[k] == stale_entry_of(rs[i], class),
    decreases rs.len(),
{
    let prev = rs.drop_last();
    let ae = archived_entries(rs, class, f, threshold, now);
    let ae_prev = archived_entries(prev, class, f, threshold, now);
    if rec_archivable(rs.last(), f, threshold, now) && k == ae.len() - 1 {
        assert(rs[rs.len() - 1] == rs.last());
        assert(ae[k] == stale_entry_of(rs[rs.len() - 1], class));
    } else {
        lemma_archived_entry_source(prev, class, f, threshold, now, k);
        let i = choose|i: int|
            0 <= i < prev.len() && rec_archivable(prev[i], f, threshold, now) && ae_prev[k]
                == stale_entry_of(prev[i], class);
        assert(prev[i] == rs[i]);
        assert(ae[k] == ae_prev[k]);
    }
}

/// Entropy entries are purged with no archival step: after a successful
/// cycle, every entry durably committed to the beacon sink either was in
/// the sink before the cycle or archives a stale beacon record, and
/// likewise for the witness sink — no committed entry answers to an
/// entropy entry.
pub proof fn lemma_entropy_never_archived(
    cfg: PurgeConfig,
    s0: StoreModelV,
    s1: StoreModelV,
    b0: SinkModelV,
    b1: SinkModelV,
    w0: SinkModelV,
    w1: SinkModelV,
    f: CycleFaultsV,
    now: u64,
    r: Result<CycleStats, CycleError>,
    k: int,
)
    requires
        tick_post(cfg, s0, s1, b0, b1, w0, w1, f, now, r),
        r is Ok,
        0 <= k < b1.committed.len(),
    ensures
        k < b0.committed.len() + b0.buffered.len() || exists|i: int|
            0 <= i < s0.beacons.len() && rec_archivable(
                #[trigger] s0.beacons[i],
                f,
                (cfg.base_stale_period + BEACON_STALE_OFFSET_SECS) as u64,
                now,
            ) && b1.committed[k] == stale_entry_of(s0.beacons[i], RecordClass::Beacon),
{
    let bth = (cfg.base_stale_period + BEACON_STALE_OFFSET_SECS) as u64;
    let ae = archived_entries(s0.beacons, RecordClass::Beacon, f, bth, now);
    if k >= b0.committed.len() + b0.buffered.len() {
        let k2 = k - b0.committed.len() - b0.buffered.len();
        assert(b1.committed[k] == ae[k2]);
        lemma_archived_entry_source(s0.beacons, RecordClass::Beacon, f, bth, now, k2);
        let i = choose|i: int|
            0 <= i < s0.beacons.len() && rec_archivable(s0.beacons[i], f, bth, now) && ae[k2]
                == stale_entry_of(s0.beacons[i], RecordClass::Beacon);
        assert(b1.committed[k] == stale_entry_of(s0.beacons[i], RecordClass::Beacon));
    }
}

/// A purge pass removes exactly the purgeable records: the survivors are
/// fewer records only by how many identifiers were handed to the store
/// for deletion.
pub proof fn lemma_survivor_count(rs: Seq<PendingRecordV>, f: CycleFaultsV, threshold: u64, now: u64)
    ensures
        surviving(rs, f, threshold, now).len() + purged_ids(rs, f, threshold, now).len()
            == rs.len(),
        count_stale(rs, threshold, now) <= rs.len(),
    decreases rs.len(),
{
    if rs.len() > 0 {
        lemma_survivor_count(rs.drop_last(), f, threshold, now);
    }
}

/// Staleness is monotone in age: a record received no later than a
/// stale record is itself stale, so a purge pass never removes a record
/// while keeping an older one for any reason but a per-item failure.
pub proof fn lemma_staleness_monotone(
    a: PendingRecordV,
    b: PendingRecordV,
    threshold: u64,
    now: u64,
)
    requires
        a.received_ts <= b.received_ts,
        rec_is_stale(b, threshold, now),
    ensures
        rec_is_stale(a, threshold, now),
{
}

/// The fixed per-cycle order leaves nothing half done on a cycle-level
/// failure: if the cycle was abandoned, no class lost a record, and the
/// store is exactly as it was.
pub proof fn lemma_failed_cycle_keeps_store(
    cfg: PurgeConfig,
    s0: StoreModelV,
    s1: StoreModelV,
    b0: SinkModelV,
    b1: SinkModelV,
    w0: SinkModelV,
    w1: SinkModelV,
    f: CycleFaultsV,
    now: u64,
    r: Result<CycleStats, CycleError>,
)
    requires
        tick_post(cfg, s0, s1, b0, b1, w0, w1, f, now, r),
        r is Err,
    ensures
        s1 == s0,
        w1 == w0,
{
}

} // verus!
