//! Deployment constants and the configuration values injected into the
//! cache and the purger at construction. All durations are in seconds.

use vstd::prelude::*;

verus! {

/// How long a cached gateway record takes to expire: 12 hours.
pub const CACHE_TTL_SECS: u64 = 12 * 60 * 60;

/// How often the background sweep evicts expired cache entries: 1 hour.
pub const CACHE_EVICTION_FREQUENCY_SECS: u64 = 60 * 60;

/// Jitter added to the TTL per cache entry, as a percentage of the TTL.
/// The cache is prewarmed in one short window of time, so without jitter
/// all entries would expire close together and a thundering herd of
/// lookups would hit the remote source at once.
pub const CACHE_TTL_JITTER_PERCENT: u64 = 10;

/// How often the purger wakes to look for stale records: 35 minutes.
pub const DB_POLL_TIME_SECS: u64 = 60 * 35;

/// How many per-record workers a purge cycle fans out to at most. The
/// bound is enforced by the task runner around the library; the purge
/// logic itself is independent of the fan-out width.
pub const PURGER_WORKERS: usize = 50;

/// Added to the base stale period before a beacon report is deemed stale.
pub const BEACON_STALE_OFFSET_SECS: u64 = 45 * 60;

/// Added to the base stale period before a witness report is deemed stale.
pub const WITNESS_STALE_OFFSET_SECS: u64 = 45 * 60;

/// Added to the base stale period before an entropy entry is deemed stale.
pub const ENTROPY_STALE_OFFSET_SECS: u64 = 60 * 60;

/// Configuration of the gateway metadata cache, fixed per deployment.
pub struct CacheConfig {
    /// Base TTL of a cache entry, in seconds.
    pub base_ttl_secs: u64,
    /// Bound of the per-entry random jitter, as a percentage of the TTL.
    pub jitter_percent: u64,
}

impl CacheConfig {
    /// A usable configuration: the jitter bound is a true percentage and
    /// computing it cannot overflow.
    pub open spec fn wf(self) -> bool {
        self.jitter_percent <= 100 && self.base_ttl_secs <= u64::MAX / 100
    }

    /// The largest jitter an entry may receive:
    /// `base_ttl * jitter_percent / 100`.
    pub open spec fn spec_max_jitter(self) -> int {
        (self.base_ttl_secs * self.jitter_percent) as int / 100
    }

    /// The largest jitter an entry may receive.
    pub fn max_jitter_secs(&self) -> (r: u64)
        requires
            self.wf(),
        ensures
            r == self.spec_max_jitter(),
            r <= self.base_ttl_secs,
    {
        proof {
            assert(self.base_ttl_secs * self.jitter_percent <= (u64::MAX / 100) * 100)
                by (nonlinear_arith)
                requires
                    self.jitter_percent <= 100,
                    self.base_ttl_secs <= u64::MAX / 100,
            ;
            assert(self.base_ttl_secs * self.jitter_percent <= self.base_ttl_secs * 100)
                by (nonlinear_arith)
                requires
                    self.jitter_percent <= 100,
            ;
        }
        (self.base_ttl_secs * self.jitter_percent) / 100
    }
}

impl Default for CacheConfig {
    /// The compiled-in deployment configuration: a 12 hour TTL with up to
    /// 10 percent jitter.
    fn default() -> (c: Self)
        ensures
            c.base_ttl_secs == CACHE_TTL_SECS,
            c.jitter_percent == CACHE_TTL_JITTER_PERCENT,
            c.wf(),
    {
        CacheConfig { base_ttl_secs: CACHE_TTL_SECS, jitter_percent: CACHE_TTL_JITTER_PERCENT }
    }
}

/// Configuration of the stale record purger. The per-class offsets are
/// compiled-in constants; only the base period varies per deployment.
pub struct PurgeConfig {
    /// Base stale period added to every per-class offset, in seconds.
    pub base_stale_period: u64,
}

impl PurgeConfig {
    /// A usable configuration: adding any per-class offset cannot overflow.
    pub open spec fn wf(self) -> bool {
        &&& self.base_stale_period + BEACON_STALE_OFFSET_SECS <= u64::MAX
        &&& self.base_stale_period + WITNESS_STALE_OFFSET_SECS <= u64::MAX
        &&& self.base_stale_period + ENTROPY_STALE_OFFSET_SECS <= u64::MAX
    }

    /// Age past which a beacon report is stale, recomputed on every tick.
    pub fn beacon_threshold(&self) -> (r: u64)
        requires
            self.wf(),
        ensures
            r == self.base_stale_period + BEACON_STALE_OFFSET_SECS,
    {
        self.base_stale_period + BEACON_STALE_OFFSET_SECS
    }

    /// Age past which a witness report is stale.
    pub fn witness_threshold(&self) -> (r: u64)
        requires
            self.wf(),
        ensures
            r == self.base_stale_period + WITNESS_STALE_OFFSET_SECS,
    {
        self.base_stale_period + WITNESS_STALE_OFFSET_SECS
    }

    /// Age past which an entropy entry is stale.
    pub fn entropy_threshold(&self) -> (r: u64)
        requires
            self.wf(),
        ensures
            r == self.base_stale_period + ENTROPY_STALE_OFFSET_SECS,
    {
        self.base_stale_period + ENTROPY_STALE_OFFSET_SECS
    }
}

impl Default for PurgeConfig {
    /// The deployment default: no extra base period beyond the per-class
    /// offsets.
    fn default() -> (c: Self)
        ensures
            c.base_stale_period == 0,
            c.wf(),
    {
        PurgeConfig { base_stale_period: 0 }
    }
}

/// Whether a record received at `received_ts` has reached age `threshold`
/// by time `now`: the age is at least the threshold. A record exactly at
/// the threshold age is stale; one second younger is not.
pub open spec fn spec_is_stale(received_ts: u64, threshold: u64, now: u64) -> bool {
    received_ts + threshold <= now
}

/// Whether a record received at `received_ts` has reached age `threshold`
/// by time `now`.
pub fn is_stale(received_ts: u64, threshold: u64, now: u64) -> (r: bool)
    ensures
        r == spec_is_stale(received_ts, threshold, now),
        received_ts <= now ==> (r <==> now - received_ts >= threshold),
{
    now >= threshold && received_ts <= now - threshold
}

} // verus!
