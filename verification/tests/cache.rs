use freshness::cache::{GatewayCache, GatewayCacheError, GatewayRecord, RemoteOutcome, ResolveStep};
use freshness::config::{CacheConfig, CACHE_TTL_JITTER_PERCENT, CACHE_TTL_SECS};

fn record(key: &[u8], metadata: &[u8]) -> GatewayRecord {
    GatewayRecord { key: key.to_vec(), metadata: metadata.to_vec() }
}

fn small_config() -> CacheConfig {
    CacheConfig { base_ttl_secs: 3600, jitter_percent: 50 }
}

#[test]
fn resolve_of_unknown_identity_needs_remote_and_not_found() {
    let cache = GatewayCache::from_settings(small_config());
    let key = vec![7u8, 7, 7];
    // never inserted: every resolve owes one remote lookup, at any time
    assert!(matches!(cache.resolve_begin(&key, 0), ResolveStep::NeedRemote));
    assert!(matches!(cache.resolve_begin(&key, 123_456), ResolveStep::NeedRemote));
    let mut cache = cache;
    let result = cache.resolve_finish(&key, RemoteOutcome::Missing, 100);
    match result {
        Err(GatewayCacheError::GatewayNotFound(k)) => assert_eq!(k, key),
        _ => panic!("a missing remote record must resolve to GatewayNotFound"),
    }
    // negative results are not cached
    assert_eq!(cache.len(), 0);
    assert!(matches!(cache.resolve_begin(&key, 100), ResolveStep::NeedRemote));
}

#[test]
fn resolve_served_from_cache_until_expiry() {
    let mut cache = GatewayCache::from_settings(small_config());
    let key = vec![1u8, 2, 3];
    cache.insert_with_jitter(record(&key, b"meta"), 1000, 120);
    // expiry = 1000 + 3600 + 120
    assert_eq!(cache.expiry_of(&key), Some(4720));
    match cache.resolve_begin(&key, 4719) {
        ResolveStep::Hit(rec) => assert_eq!(rec.metadata, b"meta".to_vec()),
        ResolveStep::NeedRemote => panic!("a live entry must answer the resolve"),
    }
    // at the expiry instant the entry answers as a fresh miss
    assert!(matches!(cache.resolve_begin(&key, 4720), ResolveStep::NeedRemote));
    assert!(cache.lookup(&key, 4720).is_none());
    assert!(cache.lookup(&key, 4719).is_some());
}

#[test]
fn remote_error_surfaces_and_is_not_cached() {
    let mut cache = GatewayCache::from_settings(small_config());
    let key = vec![9u8];
    let outcome = RemoteOutcome::Unavailable(String::from("connection reset"));
    match cache.resolve_finish(&key, outcome, 0) {
        Err(GatewayCacheError::RemoteSource(msg)) => assert_eq!(msg, "connection reset"),
        _ => panic!("a failed remote lookup must resolve to RemoteSource"),
    }
    assert_eq!(cache.len(), 0);
    assert!(matches!(cache.resolve_begin(&key, 0), ResolveStep::NeedRemote));
}

#[test]
fn resolve_finish_found_fills_the_cache() {
    let mut cache = GatewayCache::from_settings(small_config());
    let key = vec![4u8, 4];
    let got = cache.resolve_finish(&key, RemoteOutcome::Found(record(&key, b"payload")), 50);
    match got {
        Ok(rec) => {
            assert_eq!(rec.key, key);
            assert_eq!(rec.metadata, b"payload".to_vec());
        },
        Err(_) => panic!("a found remote record must resolve to it"),
    }
    // the next resolve is a hit: no second remote lookup is owed
    assert!(matches!(cache.resolve_begin(&key, 60), ResolveStep::Hit(_)));
    let expiry = cache.expiry_of(&key).unwrap();
    assert!((50 + 3600..=50 + 3600 + 1800).contains(&expiry));
}

#[test]
fn jitter_keeps_every_expiry_in_the_window_and_spreads_them() {
    let cfg = CacheConfig { base_ttl_secs: CACHE_TTL_SECS, jitter_percent: CACHE_TTL_JITTER_PERCENT };
    let mut cache = GatewayCache::from_settings(cfg);
    let now = 1_700_000_000u64;
    let max_jitter = CACHE_TTL_SECS * CACHE_TTL_JITTER_PERCENT / 100;
    let mut expiries = Vec::new();
    for i in 0..100u8 {
        let key = vec![i, 0xAB];
        cache.insert(record(&key, b"m"), now);
        let expiry = cache.expiry_of(&key).unwrap();
        assert!(expiry >= now + CACHE_TTL_SECS);
        assert!(expiry <= now + CACHE_TTL_SECS + max_jitter);
        expiries.push(expiry);
    }
    // no thundering herd: the hundred expiries are not all identical
    assert!(expiries.iter().any(|e| *e != expiries[0]));
}

#[test]
fn reinsert_replaces_value_and_ttl_entirely() {
    let mut cache = GatewayCache::from_settings(small_config());
    let key = vec![5u8, 6];
    cache.insert_with_jitter(record(&key, b"old"), 0, 1800);
    assert_eq!(cache.expiry_of(&key), Some(5400));
    cache.insert_with_jitter(record(&key, b"new"), 10, 0);
    // no merge: both the value and the expiry are the second insert's
    assert_eq!(cache.expiry_of(&key), Some(3610));
    let rec = cache.lookup(&key, 100).unwrap();
    assert_eq!(rec.metadata, b"new".to_vec());
    assert_eq!(cache.len(), 1);
}

#[test]
fn prewarm_inserts_every_streamed_record_with_jitter() {
    let mut cache = GatewayCache::from_settings(small_config());
    let batch = vec![
        record(b"gw-a", b"alpha"),
        record(b"gw-b", b"beta"),
        record(b"gw-a", b"alpha-2"),
    ];
    cache.prewarm(&batch, 500);
    assert_eq!(cache.len(), 2);
    // the later record for one identity wins, as with any insert
    assert_eq!(cache.lookup(&b"gw-a".to_vec(), 600).unwrap().metadata, b"alpha-2".to_vec());
    assert_eq!(cache.lookup(&b"gw-b".to_vec(), 600).unwrap().metadata, b"beta".to_vec());
    for key in [b"gw-a".to_vec(), b"gw-b".to_vec()] {
        let expiry = cache.expiry_of(&key).unwrap();
        assert!((500 + 3600..=500 + 3600 + 1800).contains(&expiry));
    }
}

#[test]
fn sweep_evicts_exactly_the_expired_entries() {
    let mut cache = GatewayCache::from_settings(small_config());
    cache.insert_with_jitter(record(b"dead", b"x"), 0, 0); // expires at 3600
    cache.insert_with_jitter(record(b"edge", b"y"), 400, 0); // expires at 4000
    cache.insert_with_jitter(record(b"live", b"z"), 1000, 0); // expires at 4600
    cache.sweep(4000);
    assert_eq!(cache.len(), 1);
    assert!(cache.expiry_of(&b"dead".to_vec()).is_none());
    assert!(cache.expiry_of(&b"edge".to_vec()).is_none()); // at its instant: evicted
    assert_eq!(cache.expiry_of(&b"live".to_vec()), Some(4600));
    assert_eq!(cache.lookup(&b"live".to_vec(), 4000).unwrap().metadata, b"z".to_vec());
}

#[test]
fn lookup_treats_expired_entry_as_absent_before_any_sweep() {
    let mut cache = GatewayCache::from_settings(small_config());
    cache.insert_with_jitter(record(b"gw", b"m"), 0, 0); // expires at 3600
    // no sweep has run; the entry still occupies a slot but is not live
    assert_eq!(cache.len(), 1);
    assert!(cache.lookup(&b"gw".to_vec(), 3600).is_none());
    assert!(matches!(cache.resolve_begin(&b"gw".to_vec(), 3600), ResolveStep::NeedRemote));
}

#[test]
fn scenario_gateway_cached_half_a_day() {
    // TTL of 12 hours with 10 percent jitter; this insert drew 30 minutes
    let cfg = CacheConfig::default();
    assert_eq!(cfg.base_ttl_secs, 12 * 60 * 60);
    assert_eq!(cfg.jitter_percent, 10);
    let mut cache = GatewayCache::from_settings(cfg);
    let t0 = 1_700_000_000u64;
    let gateway = vec![0xDEu8, 0xAD];
    cache.insert_with_jitter(record(&gateway, b"info"), t0, 30 * 60);
    // one hour in: served from the cache, no remote call owed
    match cache.resolve_begin(&gateway, t0 + 3600) {
        ResolveStep::Hit(rec) => assert_eq!(rec.metadata, b"info".to_vec()),
        ResolveStep::NeedRemote => panic!("the entry is live an hour after insertion"),
    }
    // thirteen hours in the entry has expired: exactly one remote lookup
    assert!(matches!(cache.resolve_begin(&gateway, t0 + 13 * 3600), ResolveStep::NeedRemote));
    let refreshed = cache.resolve_finish(
        &gateway,
        RemoteOutcome::Found(record(&gateway, b"info-2")),
        t0 + 13 * 3600,
    );
    assert_eq!(refreshed.unwrap().metadata, b"info-2".to_vec());
    // and the refreshed entry serves again
    assert!(matches!(cache.resolve_begin(&gateway, t0 + 14 * 3600), ResolveStep::Hit(_)));
}
