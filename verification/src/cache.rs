//! The gateway metadata cache: an in-memory map from gateway identity to
//! metadata, serving lookups backed by a slower remote source. Every
//! entry carries an absolute expiry instant of insertion time plus the
//! base TTL plus a random jitter bounded by a configured percentage of
//! the TTL, so entries inserted in one burst do not expire in one burst.
//! A lookup treats a logically expired entry as absent whether or not
//! the background sweep has removed it yet, so lookups are correct
//! regardless of sweep timing.

use vstd::prelude::*;
use crate::bytes::{bytes_eq, clone_bytes};
use crate::config::CacheConfig;
use rand::Rng;

verus! {

/// A gateway record: the gateway's public key, an opaque binary
/// identifier that also keys the cache, and the metadata payload the
/// remote source returned for it, which the cache does not interpret.
pub struct GatewayRecord {
    pub key: Vec<u8>,
    pub metadata: Vec<u8>,
}

/// Ghost image of a gateway record.
pub struct GatewayRecordV {
    pub key: Seq<u8>,
    pub metadata: Seq<u8>,
}

impl View for GatewayRecord {
    type V = GatewayRecordV;

    open spec fn view(&self) -> GatewayRecordV {
        GatewayRecordV { key: self.key@, metadata: self.metadata@ }
    }
}

impl GatewayRecord {
    /// Copy the record.
    pub fn duplicate(&self) -> (r: GatewayRecord)
        ensures
            r@ == self@,
    {
        GatewayRecord { key: clone_bytes(&self.key), metadata: clone_bytes(&self.metadata) }
    }
}

/// A cache slot: a record and its absolute expiry instant.
struct CacheEntry {
    record: GatewayRecord,
    expires_at: u64,
}

/// How a resolve proceeds after consulting the cache: either the cached
/// record answers it, or exactly one remote lookup is owed.
pub enum ResolveStep {
    Hit(GatewayRecord),
    NeedRemote,
}

/// What the remote metadata source answered to a point lookup.
pub enum RemoteOutcome {
    /// The source returned a record.
    Found(GatewayRecord),
    /// The source answered that no such gateway exists.
    Missing,
    /// The lookup itself failed (transport or service error).
    Unavailable(String),
}

/// Errors a resolve surfaces to its caller.
#[derive(Debug)]
pub enum GatewayCacheError {
    /// The remote source knows no gateway under this identity.
    GatewayNotFound(Vec<u8>),
    /// The remote lookup failed; the failure is not cached.
    RemoteSource(String),
}

/// Relies on rand's `OsRng` and `Rng::gen_range`: a draw from the
/// inclusive range `0..=max_jitter` returns a value inside that range,
/// and the range is never empty, so the call does not panic.
#[verifier::external_body]
fn random_jitter(max_jitter: u64) -> (r: u64)
    ensures
        r <= max_jitter,
{
    rand::rngs::OsRng.gen_range(0..=max_jitter)
}

/// The gateway metadata cache.
pub struct GatewayCache {
    entries: Vec<CacheEntry>,
    cfg: CacheConfig,
}

/// The entry under key `k`, if any, is the same in `pre` and `post`:
/// present in one exactly when present in the other, and with the same
/// metadata and expiry when present.
pub open spec fn entry_unchanged(pre: GatewayCache, post: GatewayCache, k: Seq<u8>) -> bool {
    &&& post.spec_contains(k) <==> pre.spec_contains(k)
    &&& pre.spec_contains(k) ==> post.spec_metadata(k) == pre.spec_metadata(k)
        && post.spec_expiry(k) == pre.spec_expiry(k)
}

impl GatewayCache {
    /// The configuration the cache was built with.
    pub closed spec fn spec_cfg(self) -> CacheConfig {
        self.cfg
    }

    /// Well-formed: the configuration is usable and no identity occupies
    /// two slots.
    pub closed spec fn wf(self) -> bool {
        &&& self.cfg.wf()
        &&& forall|i: int, j: int|
            0 <= i < j < self.entries@.len()
                ==> self.entries@[i].record.key@ != self.entries@[j].record.key@
    }

    /// Whether an entry for identity `k` is present (expired or not).
    pub closed spec fn spec_contains(self, k: Seq<u8>) -> bool {
        exists|i: int| 0 <= i < self.entries@.len() && self.entries@[i].record.key@ == k
    }

    /// The slot index of identity `k`.
    spec fn index_of_key(self, k: Seq<u8>) -> int {
        choose|i: int| 0 <= i < self.entries@.len() && self.entries@[i].record.key@ == k
    }

    /// The metadata stored for identity `k`.
    pub closed spec fn spec_metadata(self, k: Seq<u8>) -> Seq<u8> {
        self.entries@[self.index_of_key(k)].record.metadata@
    }

    /// The absolute expiry instant of the entry for identity `k`.
    pub closed spec fn spec_expiry(self, k: Seq<u8>) -> u64 {
        self.entries@[self.index_of_key(k)].expires_at
    }

    /// Live at `now`: present and not yet at its expiry instant.
    pub open spec fn spec_live(self, k: Seq<u8>, now: u64) -> bool {
        self.spec_contains(k) && now < self.spec_expiry(k)
    }

    /// How many entries the cache holds, expired ones counted.
    pub closed spec fn spec_len(self) -> nat {
        self.entries@.len()
    }

    /// The slot holding key `k` is unique, so the chosen index is the
    /// witness index.
    proof fn lemma_entry_at(self, i: int)
        requires
            self.wf(),
            0 <= i < self.entries@.len(),
        ensures
            self.spec_contains(self.entries@[i].record.key@),
            self.index_of_key(self.entries@[i].record.key@) == i,
    {
        let k = self.entries@[i].record.key@;
        assert(self.spec_contains(k));
        let j = self.index_of_key(k);
        assert(0 <= j < self.entries@.len() && self.entries@[j].record.key@ == k);
        if j != i {
            if j < i {
                assert(self.entries@[j].record.key@ != self.entries@[i].record.key@);
            } else {
                assert(self.entries@[i].record.key@ != self.entries@[j].record.key@);
            }
        }
    }

    /// Build an empty cache with the given configuration. The background
    /// sweep runs outside the library and calls `sweep` on its period.
    pub fn from_settings(cfg: CacheConfig) -> (c: GatewayCache)
        requires
            cfg.wf(),
        ensures
            c.wf(),
            c.spec_cfg() == cfg,
            c.spec_len() == 0,
            forall|k: Seq<u8>| !c.spec_contains(k),
    {
        GatewayCache { entries: Vec::new(), cfg }
    }

    /// How many entries the cache holds, expired ones counted.
    pub fn len(&self) -> (n: usize)
        ensures
            n == self.spec_len(),
    {
        self.entries.len()
    }

    /// The slot index of the given identity, if present.
    fn find_index(&self, address: &Vec<u8>) -> (r: Option<usize>)
        requires
            self.wf(),
        ensures
            match r {
                Some(i) => self.spec_contains(address@) && i < self.entries@.len()
                    && self.entries@[i as int].record.key@ == address@
                    && self.index_of_key(address@) == i,
                None => !self.spec_contains(address@),
            },
    {
        let n = self.entries.len();
        let mut i: usize = 0;
        while i < n
            invariant
                self.wf(),
                n == self.entries@.len(),
                0 <= i <= n,
                forall|j: int| 0 <= j < i ==> self.entries@[j].record.key@ != address@,
            decreases n - i,
        {
            if bytes_eq(&self.entries[i].record.key, address) {
                proof {
                    self.lemma_entry_at(i as int);
                }
                return Some(i);
            }
            i += 1;
        }
        None
    }

    /// Insert a record with a caller-chosen jitter: the entry's expiry
    /// becomes `now + base_ttl + jitter`. An insert is a whole-value
    /// replacement: whatever was stored under the same identity before,
    /// value and expiry are both replaced entirely, and no other entry
    /// changes.
    pub fn insert_with_jitter(&mut self, gateway: GatewayRecord, now: u64, jitter: u64)
        requires
            old(self).wf(),
            jitter <= old(self).spec_cfg().spec_max_jitter(),
            now + old(self).spec_cfg().base_ttl_secs + jitter <= u64::MAX,
        ensures
            final(self).wf(),
            final(self).spec_cfg() == old(self).spec_cfg(),
            final(self).spec_contains(gateway@.key),
            final(self).spec_metadata(gateway@.key) == gateway@.metadata,
            final(self).spec_expiry(gateway@.key)
                == now + old(self).spec_cfg().base_ttl_secs + jitter,
            forall|k2: Seq<u8>| k2 != gateway@.key ==> entry_unchanged(*old(self), *final(self), k2),
    {
        let expires_at = now + self.cfg.base_ttl_secs + jitter;
        let ghost pre = *self;
        let ghost key = gateway@.key;
        match self.find_index(&gateway.key) {
            Some(i) => {
                let entry = CacheEntry { record: gateway, expires_at };
                self.entries.set(i, entry);
                proof {
                    assert forall|i2: int, j2: int|
                        0 <= i2 < j2 < self.entries@.len() implies self.entries@[i2].record.key@
                        != self.entries@[j2].record.key@ by {
                        assert(pre.entries@[i2].record.key@ != pre.entries@[j2].record.key@);
                    }
                    self.lemma_entry_at(i as int);
                    assert forall|k2: Seq<u8>| k2 != key implies entry_unchanged(pre, *self, k2) by {
                        self.lemma_same_entries_except(pre, k2, i as int);
                    }
                }
            },
            None => {
                let ghost n = self.entries@.len();
                let entry = CacheEntry { record: gateway, expires_at };
                self.entries.push(entry);
                proof {
                    assert forall|i2: int, j2: int|
                        0 <= i2 < j2 < self.entries@.len() implies self.entries@[i2].record.key@
                        != self.entries@[j2].record.key@ by {
                        if j2 < n {
                            assert(pre.entries@[i2].record.key@ != pre.entries@[j2].record.key@);
                        } else {
                            assert(self.entries@[j2].record.key@ == key);
                            assert(pre.entries@[i2].record.key@ != key);
                        }
                    }
                    self.lemma_entry_at(n as int);
                    assert forall|k2: Seq<u8>| k2 != key implies entry_unchanged(pre, *self, k2) by {
                        self.lemma_same_entries_except(pre, k2, n as int);
                    }
                }
            },
        }
    }

    /// Every slot of `self` other than slot `at` equals the same slot of
    /// `pre`, so any key other than the one at `at` maps as before.
    proof fn lemma_same_entries_except(self, pre: GatewayCache, k2: Seq<u8>, at: int)
        requires
            pre.wf(),
            self.wf(),
            pre.entries@.len() <= self.entries@.len() <= pre.entries@.len() + 1,
            self.entries@.len() == pre.entries@.len() + 1 ==> at == pre.entries@.len(),
            forall|j: int|
                0 <= j < self.entries@.len() && j != at ==> #[trigger] self.entries@[j]
                    == pre.entries@[j],
            0 <= at < self.entries@.len(),
            self.entries@[at].record.key@ != k2,
            at < pre.entries@.len() ==> pre.entries@[at].record.key@ != k2,
        ensures
            entry_unchanged(pre, self, k2),
    {
        if self.spec_contains(k2) {
            let i = self.index_of_key(k2);
            assert(0 <= i < self.entries@.len() && self.entries@[i].record.key@ == k2);
            assert(i != at);
            assert(i < pre.entries@.len());
            pre.lemma_entry_at(i);
            self.lemma_entry_at(i);
        }
        if pre.spec_contains(k2) {
            let i = pre.index_of_key(k2);
            assert(0 <= i < pre.entries@.len() && pre.entries@[i].record.key@ == k2);
            assert(i != at);
            pre.lemma_entry_at(i);
            self.lemma_entry_at(i);
        }
    }

    /// Insert a record: compute a fresh random jitter, bounded by the
    /// configured percentage of the base TTL, and store the record with
    /// expiry `now + base_ttl + jitter`. Re-inserting an identity
    /// replaces the previous value and TTL entirely.
    pub fn insert(&mut self, gateway: GatewayRecord, now: u64)
        requires
            old(self).wf(),
            now + old(self).spec_cfg().base_ttl_secs + old(self).spec_cfg().spec_max_jitter()
                <= u64::MAX,
        ensures
            final(self).wf(),
            final(self).spec_cfg() == old(self).spec_cfg(),
            final(self).spec_contains(gateway@.key),
            final(self).spec_metadata(gateway@.key) == gateway@.metadata,
            now + old(self).spec_cfg().base_ttl_secs <= final(self).spec_expiry(gateway@.key)
                <= now + old(self).spec_cfg().base_ttl_secs
                    + old(self).spec_cfg().spec_max_jitter(),
            forall|k2: Seq<u8>| k2 != gateway@.key ==> entry_unchanged(*old(self), *final(self), k2),
    {
        let jitter = random_jitter(self.cfg.max_jitter_secs());
        self.insert_with_jitter(gateway, now, jitter);
    }

    /// Look up an identity at time `now`: returns the cached record
    /// exactly when an entry is present and not yet at its expiry
    /// instant. An expired entry answers as a miss even before the sweep
    /// removes it.
    pub fn lookup(&self, address: &Vec<u8>, now: u64) -> (r: Option<GatewayRecord>)
        requires
            self.wf(),
        ensures
            match r {
                Some(rec) => self.spec_live(address@, now) && rec@.key == address@
                    && rec@.metadata == self.spec_metadata(address@),
                None => !self.spec_live(address@, now),
            },
    {
        match self.find_index(address) {
            Some(i) => {
                if now < self.entries[i].expires_at {
                    Some(self.entries[i].record.duplicate())
                } else {
                    None
                }
            },
            None => None,
        }
    }

    /// The absolute expiry instant recorded for an identity, if present.
    pub fn expiry_of(&self, address: &Vec<u8>) -> (r: Option<u64>)
        requires
            self.wf(),
        ensures
            match r {
                Some(e) => self.spec_contains(address@) && e == self.spec_expiry(address@),
                None => !self.spec_contains(address@),
            },
    {
        match self.find_index(address) {
            Some(i) => Some(self.entries[i].expires_at),
            None => None,
        }
    }

    /// First half of a resolve: consult the cache. A live entry answers
    /// the resolve with zero remote lookups; otherwise exactly one
    /// remote lookup is owed, whose outcome `resolve_finish` consumes.
    /// Concurrent resolves of one missing identity may each be told
    /// `NeedRemote`: there is no single-flight de-duplication, which is
    /// safe because inserts are whole-value replacements.
    pub fn resolve_begin(&self, address: &Vec<u8>, now: u64) -> (r: ResolveStep)
        requires
            self.wf(),
        ensures
            (r is NeedRemote) <==> !self.spec_live(address@, now),
            r matches ResolveStep::Hit(rec) ==> rec@.key == address@
                && rec@.metadata == self.spec_metadata(address@),
    {
        match self.lookup(address, now) {
            Some(rec) => ResolveStep::Hit(rec),
            None => ResolveStep::NeedRemote,
        }
    }

    /// Second half of a resolve after a remote lookup: a found record is
    /// inserted with a jittered TTL and returned; a missing gateway
    /// fails with `GatewayNotFound` carrying the identity; a failed
    /// lookup fails with `RemoteSource` carrying the cause. Negative
    /// results are not cached: in both failure cases the cache is
    /// unchanged.
    pub fn resolve_finish(&mut self, address: &Vec<u8>, outcome: RemoteOutcome, now: u64) -> (r:
        Result<GatewayRecord, GatewayCacheError>)
        requires
            old(self).wf(),
            now + old(self).spec_cfg().base_ttl_secs + old(self).spec_cfg().spec_max_jitter()
                <= u64::MAX,
        ensures
            final(self).wf(),
            final(self).spec_cfg() == old(self).spec_cfg(),
            match outcome {
                RemoteOutcome::Found(rec) => {
                    &&& r matches Ok(out) && out@ == rec@
                    &&& final(self).spec_contains(rec@.key)
                    &&& final(self).spec_metadata(rec@.key) == rec@.metadata
                    &&& now + old(self).spec_cfg().base_ttl_secs <= final(self).spec_expiry(
                        rec@.key,
                    ) <= now + old(self).spec_cfg().base_ttl_secs
                        + old(self).spec_cfg().spec_max_jitter()
                    &&& forall|k2: Seq<u8>|
                        k2 != rec@.key ==> entry_unchanged(*old(self), *final(self), k2)
                },
                RemoteOutcome::Missing => {
                    &&& r matches Err(GatewayCacheError::GatewayNotFound(a)) && a@ == address@
                    &&& *final(self) == *old(self)
                },
                RemoteOutcome::Unavailable(msg) => {
                    &&& r matches Err(GatewayCacheError::RemoteSource(m)) && m@ == msg@
                    &&& *final(self) == *old(self)
                },
            },
    {
        match outcome {
            RemoteOutcome::Found(rec) => {
                let out = rec.duplicate();
                self.insert(rec, now);
                Ok(out)
            },
            RemoteOutcome::Missing => Err(
                GatewayCacheError::GatewayNotFound(clone_bytes(address)),
            ),
            RemoteOutcome::Unavailable(msg) => Err(GatewayCacheError::RemoteSource(msg)),
        }
    }

    /// Bulk-populate the cache from the remote source's streaming
    /// export: every yielded record is inserted with its own jittered
    /// TTL. When the export names one identity twice, the later record
    /// wins, as with any insert. Identities outside the batch are
    /// untouched.
    pub fn prewarm(&mut self, records: &Vec<GatewayRecord>, now: u64)
        requires
            old(self).wf(),
            now + old(self).spec_cfg().base_ttl_secs + old(self).spec_cfg().spec_max_jitter()
                <= u64::MAX,
        ensures
            final(self).wf(),
            final(self).spec_cfg() == old(self).spec_cfg(),
            forall|j: int|
                0 <= j < records@.len() ==> {
                    let k = #[trigger] records@[j]@.key;
                    &&& final(self).spec_contains(k)
                    &&& final(self).spec_metadata(k) == last_metadata_for(
                        gateway_views(records@),
                        k,
                    )
                    &&& now + old(self).spec_cfg().base_ttl_secs <= final(self).spec_expiry(k)
                        <= now + old(self).spec_cfg().base_ttl_secs
                            + old(self).spec_cfg().spec_max_jitter()
                },
            forall|k2: Seq<u8>|
                !batch_has_key(gateway_views(records@), k2) ==> entry_unchanged(
                    *old(self),
                    *final(self),
                    k2,
                ),
    {
        let ghost pre = *old(self);
        let ghost all = gateway_views(records@);
        let n = records.len();
        let mut i: usize = 0;
        while i < n
            invariant
                self.wf(),
                self.spec_cfg() == pre.spec_cfg(),
                n == records@.len(),
                0 <= i <= n,
                all == gateway_views(records@),
                now + pre.spec_cfg().base_ttl_secs + pre.spec_cfg().spec_max_jitter() <= u64::MAX,
                forall|j: int|
                    0 <= j < i ==> {
                        let k = #[trigger] records@[j]@.key;
                        &&& self.spec_contains(k)
                        &&& self.spec_metadata(k) == last_metadata_for(
                            all.subrange(0, i as int),
                            k,
                        )
                        &&& now + pre.spec_cfg().base_ttl_secs <= self.spec_expiry(k) <= now
                            + pre.spec_cfg().base_ttl_secs + pre.spec_cfg().spec_max_jitter()
                    },
                forall|k2: Seq<u8>|
                    !batch_has_key(all.subrange(0, i as int), k2) ==> entry_unchanged(
                        pre,
                        *self,
                        k2,
                    ),
            decreases n - i,
        {
            let ghost mid = *self;
            let ghost prefix = all.subrange(0, i as int);
            let rec = records[i].duplicate();
            self.insert(rec, now);
            proof {
                let longer = all.subrange(0, i + 1 as int);
                assert(longer.drop_last() =~= prefix);
                assert(longer.last() == all[i as int]);
                lemma_batch_key_extend(prefix, all[i as int]);
                assert forall|j: int| 0 <= j < i + 1 implies {
                    let k = #[trigger] records@[j]@.key;
                    &&& self.spec_contains(k)
                    &&& self.spec_metadata(k) == last_metadata_for(longer, k)
                    &&& now + pre.spec_cfg().base_ttl_secs <= self.spec_expiry(k) <= now
                        + pre.spec_cfg().base_ttl_secs + pre.spec_cfg().spec_max_jitter()
                } by {
                    let k = records@[j]@.key;
                    if k == all[i as int].key {
                        assert(last_metadata_for(longer, k) == all[i as int].metadata);
                    } else {
                        assert(entry_unchanged(mid, *self, k));
                        assert(last_metadata_for(longer, k) == last_metadata_for(prefix, k));
                    }
                }
                assert forall|k2: Seq<u8>| !batch_has_key(longer, k2) implies entry_unchanged(
                    pre,
                    *self,
                    k2,
                ) by {
                    assert(!batch_has_key(prefix, k2));
                    assert(k2 != all[i as int].key);
                    assert(entry_unchanged(pre, mid, k2));
                    assert(entry_unchanged(mid, *self, k2));
                }
            }
            i += 1;
        }
        proof {
            assert(all.subrange(0, n as int) =~= all);
        }
    }

    /// The background eviction sweep at time `now`: removes exactly the
    /// entries whose expiry instant has been reached; live entries keep
    /// their metadata and expiry.
    #[verifier::rlimit(50)]
    pub fn sweep(&mut self, now: u64)
        requires
            old(self).wf(),
        ensures
            final(self).wf(),
            final(self).spec_cfg() == old(self).spec_cfg(),
            forall|k: Seq<u8>|
                final(self).spec_contains(k) <==> #[trigger] old(self).spec_contains(k) && now
                    < old(self).spec_expiry(k),
            forall|k: Seq<u8>|
                #[trigger] final(self).spec_contains(k) ==> final(self).spec_metadata(k) == old(
                    self,
                ).spec_metadata(k) && final(self).spec_expiry(k) == old(self).spec_expiry(k),
    {
        let ghost pre = *old(self);
        let mut kept: Vec<CacheEntry> = Vec::new();
        let n = self.entries.len();
        let mut i: usize = 0;
        while i < n
            invariant
                pre.wf(),
                *self == pre,
                n == self.entries@.len(),
                0 <= i <= n,
                forall|j1: int, j2: int|
                    0 <= j1 < j2 < kept@.len() ==> kept@[j1].record.key@ != kept@[j2].record.key@,
                forall|j: int| 0 <= j < kept@.len() ==> now < #[trigger] kept@[j].expires_at,
                forall|j: int|
                    0 <= j < kept@.len() ==> exists|i2: int|
                        0 <= i2 < i && entry_matches(#[trigger] kept@[j], pre.entries@[i2]),
                forall|i2: int|
                    0 <= i2 < i && now < pre.entries@[i2].expires_at ==> exists|j: int|
                        0 <= j < kept@.len() && entry_matches(kept@[j], #[trigger] pre.entries@[i2]),
            decreases n - i,
        {
            if now < self.entries[i].expires_at {
                let e = CacheEntry {
                    record: self.entries[i].record.duplicate(),
                    expires_at: self.entries[i].expires_at,
                };
                let ghost kept0 = kept@;
                proof {
                    assert(entry_matches(e, pre.entries@[i as int]));
                    assert forall|j: int| 0 <= j < kept0.len() implies kept0[j].record.key@
                        != e.record.key@ by {
                        let i2 = choose|i2: int|
                            0 <= i2 < i && entry_matches(kept0[j], pre.entries@[i2]);
                        assert(pre.entries@[i2].record.key@ != pre.entries@[i as int].record.key@);
                    }
                }
                kept.push(e);
                proof {
                    assert(kept@ == kept0.push(e));
                    assert forall|i2: int|
                        0 <= i2 < i + 1 && now < pre.entries@[i2].expires_at implies exists|j: int|
                        0 <= j < kept@.len() && entry_matches(kept@[j], #[trigger] pre.entries@[i2])
                    by {
                        if i2 == i {
                            assert(kept@[kept0.len() as int] == e);
                            assert(entry_matches(kept@[kept0.len() as int], pre.entries@[i2]));
                        } else {
                            let j = choose|j: int|
                                0 <= j < kept0.len() && entry_matches(kept0[j], pre.entries@[i2]);
                            assert(kept@[j] == kept0[j]);
                            assert(entry_matches(kept@[j], pre.entries@[i2]));
                        }
                    }
                }
            } else {
                proof {
                    assert forall|i2: int|
                        0 <= i2 < i + 1 && now < pre.entries@[i2].expires_at implies exists|j: int|
                        0 <= j < kept@.len() && entry_matches(kept@[j], #[trigger] pre.entries@[i2])
                    by {
                        assert(i2 != i);
                    }
                }
            }
            i += 1;
        }
        let ghost kf = kept@;
        self.entries = kept;
        proof {
            assert(self.entries@ == kf);
            assert(self.wf());
            assert forall|k: Seq<u8>| self.spec_contains(k) implies (pre.spec_contains(k) && now
                < pre.spec_expiry(k) && self.spec_metadata(k) == pre.spec_metadata(k)
                && self.spec_expiry(k) == pre.spec_expiry(k)) by {
                let j = self.index_of_key(k);
                assert(0 <= j < self.entries@.len() && self.entries@[j].record.key@ == k);
                assert(exists|i2: int| 0 <= i2 < n && entry_matches(kf[j], pre.entries@[i2]));
                let i2 = choose|i2: int| 0 <= i2 < n && entry_matches(kf[j], pre.entries@[i2]);
                pre.lemma_entry_at(i2);
                self.lemma_entry_at(j);
                assert(entry_matches(self.entries@[j], pre.entries@[i2]));
            }
            assert forall|k: Seq<u8>| pre.spec_contains(k) && now < pre.spec_expiry(k) implies
                self.spec_contains(k) by {
                let i2 = pre.index_of_key(k);
                assert(0 <= i2 < n && pre.entries@[i2].record.key@ == k);
                pre.lemma_entry_at(i2);
                assert(now < pre.entries@[i2].expires_at);
                assert(exists|j: int|
                    0 <= j < kf.len() && entry_matches(kf[j], pre.entries@[i2]));
                let j = choose|j: int| 0 <= j < kf.len() && entry_matches(kf[j], pre.entries@[i2]);
                assert(self.entries@[j].record.key@ == k);
            }
        }
    }
}

/// Two slots agree on everything the cache's specification reads.
spec fn entry_matches(a: CacheEntry, b: CacheEntry) -> bool {
    &&& a.record.key@ == b.record.key@
    &&& a.record.metadata@ == b.record.metadata@
    &&& a.expires_at == b.expires_at
}

/// The views of a sequence of gateway records, element by element.
pub open spec fn gateway_views(rs: Seq<GatewayRecord>) -> Seq<GatewayRecordV> {
    rs.map_values(|r: GatewayRecord| r@)
}

/// Whether some record in the batch carries key `k`.
pub open spec fn batch_has_key(rs: Seq<GatewayRecordV>, k: Seq<u8>) -> bool {
    exists|i: int| 0 <= i < rs.len() && rs[i].key == k
}

/// The metadata of the last record in the batch carrying key `k`; the
/// later of two records for one identity wins, as with any insert.
pub open spec fn last_metadata_for(rs: Seq<GatewayRecordV>, k: Seq<u8>) -> Seq<u8>
    decreases rs.len(),
{
    if rs.len() == 0 {
        Seq::empty()
    } else if rs.last().key == k {
        rs.last().metadata
    } else {
        last_metadata_for(rs.drop_last(), k)
    }
}

/// Extending a batch by one record: the new record's key is now in the
/// batch, every other key is in the batch exactly as before.
proof fn lemma_batch_key_extend(rs: Seq<GatewayRecordV>, r: GatewayRecordV)
    ensures
        batch_has_key(rs.push(r), r.key),
        forall|k: Seq<u8>|
            k != r.key ==> (#[trigger] batch_has_key(rs.push(r), k) <==> batch_has_key(rs, k)),
{
    assert(rs.push(r)[rs.len() as int] == r);
    assert forall|k: Seq<u8>| k != r.key implies (#[trigger] batch_has_key(rs.push(r), k)
        <==> batch_has_key(rs, k)) by {
        if batch_has_key(rs.push(r), k) {
            let i = choose|i: int| 0 <= i < rs.push(r).len() && rs.push(r)[i].key == k;
            assert(i < rs.len());
            assert(rs[i].key == k);
        }
        if batch_has_key(rs, k) {
            let i = choose|i: int| 0 <= i < rs.len() && rs[i].key == k;
            assert(rs.push(r)[i].key == k);
        }
    }
}

} // verus!
