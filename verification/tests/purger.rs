use freshness::config::PurgeConfig;
use freshness::faults::CycleFaults;
use freshness::purger::{
    purge_item, Cmd, CycleError, ItemError, Purger, PurgerEvent, PurgerState,
};
use freshness::records::{EntropyRecord, PendingRecord, PurgeReason, RecordClass};
use freshness::sink::SinkModel;
use freshness::store::StoreModel;

fn beacon(id: &[u8], payload: &[u8], received_ts: u64) -> PendingRecord {
    PendingRecord { ingest_id: id.to_vec(), payload: payload.to_vec(), received_ts }
}

fn setup() -> (Purger, SinkModel, SinkModel) {
    let purger = Purger::from_settings(PurgeConfig { base_stale_period: 0 });
    (purger, SinkModel::new(), SinkModel::new())
}

#[test]
fn purge_boundary_includes_exact_threshold_age() {
    // base 0: beacon threshold is the 45 minute offset = 2700 s
    let (purger, mut bsink, mut wsink) = setup();
    let now = 10_000u64;
    let mut store = StoreModel::new();
    store.beacons.push(beacon(b"at-threshold", b"p1", now - 2700));
    store.beacons.push(beacon(b"one-younger", b"p2", now - 2699));
    let faults = CycleFaults::none();
    let stats = purger.handle_db_tick(&mut store, &mut bsink, &mut wsink, &faults, now).unwrap();
    assert_eq!(stats.beacons.stale, 1);
    assert_eq!(stats.beacons.purged, 1);
    assert_eq!(store.beacon_count(), 1);
    assert_eq!(store.beacons[0].ingest_id, b"one-younger".to_vec());
    assert_eq!(bsink.committed_len(), 1);
    assert_eq!(bsink.committed[0].payload, b"p1".to_vec());
}

#[test]
fn purged_record_is_archived_before_deletion() {
    let (purger, mut bsink, mut wsink) = setup();
    let now = 100_000u64;
    let mut store = StoreModel::new();
    store.beacons.push(beacon(b"healthy", b"pay-a", now - 3000));
    store.beacons.push(beacon(b"sink-fails", b"pay-b", now - 3000));
    store.beacons.push(beacon(b"delete-fails", b"pay-c", now - 3000));
    let mut faults = CycleFaults::none();
    faults.sink_rejects.push(b"pay-b".to_vec());
    faults.delete_rejects.push(b"delete-fails".to_vec());
    let stats = purger.handle_db_tick(&mut store, &mut bsink, &mut wsink, &faults, now).unwrap();
    assert_eq!(stats.beacons.stale, 3);
    assert_eq!(stats.beacons.purged, 1);
    // the healthy record: archived and deleted
    assert!(store.beacons.iter().all(|r| r.ingest_id != b"healthy".to_vec()));
    assert!(bsink.committed.iter().any(|e| e.payload == b"pay-a".to_vec()));
    // the record whose archival write failed: still present, not archived
    assert!(store.beacons.iter().any(|r| r.ingest_id == b"sink-fails".to_vec()));
    assert!(bsink.committed.iter().all(|e| e.payload != b"pay-b".to_vec()));
    // the record whose delete failed: still present, archived (at worst
    // archived twice next cycle; never deleted without an archival entry)
    assert!(store.beacons.iter().any(|r| r.ingest_id == b"delete-fails".to_vec()));
    assert!(bsink.committed.iter().any(|e| e.payload == b"pay-c".to_vec()));
}

#[test]
fn malformed_payload_is_skipped_and_kept() {
    let (purger, mut bsink, mut wsink) = setup();
    let now = 50_000u64;
    let mut store = StoreModel::new();
    store.beacons.push(beacon(b"bad", b"garbage", now - 9000));
    let mut faults = CycleFaults::none();
    faults.bad_payloads.push(b"garbage".to_vec());
    let stats = purger.handle_db_tick(&mut store, &mut bsink, &mut wsink, &faults, now).unwrap();
    assert_eq!(stats.beacons.stale, 1);
    assert_eq!(stats.beacons.purged, 0);
    assert_eq!(store.beacon_count(), 1);
    assert_eq!(bsink.committed_len(), 0);
}

#[test]
fn item_errors_name_the_failed_step() {
    let mut sink = SinkModel::new();
    let mut deletes: Vec<Vec<u8>> = Vec::new();
    let rec = beacon(b"id", b"payload", 0);

    let mut faults = CycleFaults::none();
    faults.bad_payloads.push(b"payload".to_vec());
    assert_eq!(
        purge_item(&rec, RecordClass::Beacon, &mut sink, &mut deletes, &faults),
        Err(ItemError::Decode)
    );

    let mut faults = CycleFaults::none();
    faults.sink_rejects.push(b"payload".to_vec());
    assert_eq!(
        purge_item(&rec, RecordClass::Beacon, &mut sink, &mut deletes, &faults),
        Err(ItemError::SinkWrite)
    );

    let mut faults = CycleFaults::none();
    faults.delete_rejects.push(b"id".to_vec());
    assert_eq!(
        purge_item(&rec, RecordClass::Beacon, &mut sink, &mut deletes, &faults),
        Err(ItemError::StoreDelete)
    );
    // the write preceded the failed delete: the entry is buffered
    assert_eq!(sink.buffered_len(), 1);
    assert!(deletes.is_empty());

    let faults = CycleFaults::none();
    assert_eq!(purge_item(&rec, RecordClass::Beacon, &mut sink, &mut deletes, &faults), Ok(()));
    assert_eq!(deletes, vec![b"id".to_vec()]);
}

#[test]
fn entropy_is_purged_without_any_archival_entry() {
    let (purger, mut bsink, mut wsink) = setup();
    let now = 20_000u64;
    let mut store = StoreModel::new();
    // base 0: entropy threshold is the 60 minute offset = 3600 s
    store.entropy.push(EntropyRecord { key: b"stale-batch".to_vec(), created_ts: now - 3600 });
    store.entropy.push(EntropyRecord { key: b"fresh-batch".to_vec(), created_ts: now - 3599 });
    let faults = CycleFaults::none();
    purger.handle_db_tick(&mut store, &mut bsink, &mut wsink, &faults, now).unwrap();
    assert_eq!(store.entropy_count(), 1);
    assert_eq!(store.entropy[0].key, b"fresh-batch".to_vec());
    // no corresponding archival call for either sink
    assert_eq!(bsink.committed_len(), 0);
    assert_eq!(bsink.buffered_len(), 0);
    assert_eq!(wsink.committed_len(), 0);
    assert_eq!(wsink.buffered_len(), 0);
}

#[test]
fn store_unavailable_abandons_the_cycle_untouched() {
    let (purger, mut bsink, mut wsink) = setup();
    let now = 30_000u64;
    let mut store = StoreModel::new();
    store.beacons.push(beacon(b"b", b"p", now - 9000));
    store.entropy.push(EntropyRecord { key: b"e".to_vec(), created_ts: 0 });
    let mut faults = CycleFaults::none();
    faults.store_unavailable = true;
    let got = purger.handle_db_tick(&mut store, &mut bsink, &mut wsink, &faults, now);
    assert_eq!(got, Err(CycleError::StoreUnavailable));
    assert_eq!(store.beacon_count(), 1);
    assert_eq!(store.entropy_count(), 1);
    assert_eq!(bsink.committed_len(), 0);
}

#[test]
fn sink_commit_failure_keeps_every_record() {
    let (purger, mut bsink, mut wsink) = setup();
    let now = 30_000u64;
    let mut store = StoreModel::new();
    store.beacons.push(beacon(b"b", b"p", now - 9000));
    let mut faults = CycleFaults::none();
    faults.sink_commit_fails = true;
    let got = purger.handle_db_tick(&mut store, &mut bsink, &mut wsink, &faults, now);
    assert_eq!(got, Err(CycleError::SinkCommitFailed));
    // nothing durable, nothing deleted; the write stays buffered
    assert_eq!(store.beacon_count(), 1);
    assert_eq!(bsink.committed_len(), 0);
    assert_eq!(bsink.buffered_len(), 1);
}

#[test]
fn tx_commit_failure_archives_but_deletes_nothing() {
    let (purger, mut bsink, mut wsink) = setup();
    let now = 30_000u64;
    let mut store = StoreModel::new();
    store.beacons.push(beacon(b"b", b"p", now - 9000));
    let mut faults = CycleFaults::none();
    faults.tx_commit_fails = true;
    let got = purger.handle_db_tick(&mut store, &mut bsink, &mut wsink, &faults, now);
    assert_eq!(got, Err(CycleError::TxCommitFailed));
    // the sink committed first: the record is archived yet still stored,
    // so the next cycle archives it again — the harmless failure mode
    assert_eq!(store.beacon_count(), 1);
    assert_eq!(bsink.committed_len(), 1);
    assert_eq!(bsink.committed[0].payload, b"p".to_vec());
}

#[test]
fn scenario_stale_beacon_archived_tagged_and_deleted() {
    // a beacon received 50 minutes ago, base stale period 0, offset 45 m
    let (purger, mut bsink, mut wsink) = setup();
    let now = 1_700_000_000u64;
    let mut store = StoreModel::new();
    store.beacons.push(beacon(b"beacon-b", b"report-bytes", now - 50 * 60));
    let faults = CycleFaults::none();
    let stats = purger.handle_db_tick(&mut store, &mut bsink, &mut wsink, &faults, now).unwrap();
    assert_eq!(stats.beacons.stale, 1);
    assert_eq!(stats.beacons.purged, 1);
    assert_eq!(store.beacon_count(), 0);
    assert_eq!(bsink.committed_len(), 1);
    let entry = &bsink.committed[0];
    assert_eq!(entry.class, RecordClass::Beacon);
    assert_eq!(entry.payload, b"report-bytes".to_vec());
    assert_eq!(entry.received_ts, now - 50 * 60);
    assert_eq!(entry.reason, PurgeReason::Stale);
    assert_eq!(entry.reason.as_str_name(), "stale");
    // a second immediate cycle finds zero stale beacons
    let stats2 = purger.handle_db_tick(&mut store, &mut bsink, &mut wsink, &faults, now).unwrap();
    assert_eq!(stats2.beacons.stale, 0);
    assert_eq!(stats2.beacons.purged, 0);
    assert_eq!(bsink.committed_len(), 1);
}

#[test]
fn scenario_witness_survives_sink_outage_until_next_cycle() {
    // the sink fails the write for witness W during one cycle
    let (purger, mut bsink, mut wsink) = setup();
    let now = 500_000u64;
    let mut store = StoreModel::new();
    store.witnesses.push(beacon(b"witness-w", b"w-bytes", now - 3000));
    let mut faults = CycleFaults::none();
    faults.sink_rejects.push(b"w-bytes".to_vec());
    let stats = purger.handle_db_tick(&mut store, &mut bsink, &mut wsink, &faults, now).unwrap();
    assert_eq!(stats.witnesses.stale, 1);
    assert_eq!(stats.witnesses.purged, 0);
    // after the cycle W is still present and nothing of it is durable
    assert_eq!(store.witness_count(), 1);
    assert_eq!(wsink.committed_len(), 0);
    // a later cycle with the sink healthy archives and deletes W
    let healthy = CycleFaults::none();
    let now2 = now + 2100;
    let stats2 =
        purger.handle_db_tick(&mut store, &mut bsink, &mut wsink, &healthy, now2).unwrap();
    assert_eq!(stats2.witnesses.purged, 1);
    assert_eq!(store.witness_count(), 0);
    assert_eq!(wsink.committed_len(), 1);
    assert_eq!(wsink.committed[0].payload, b"w-bytes".to_vec());
    assert_eq!(wsink.committed[0].class, RecordClass::Witness);
}

#[test]
fn beacons_purge_before_witnesses_and_failures_stop_the_cycle_early() {
    let (purger, mut bsink, mut wsink) = setup();
    let now = 40_000u64;
    let mut store = StoreModel::new();
    store.beacons.push(beacon(b"b", b"pb", now - 9000));
    store.witnesses.push(beacon(b"w", b"pw", now - 9000));
    let mut faults = CycleFaults::none();
    faults.sink_commit_fails = true;
    let got = purger.handle_db_tick(&mut store, &mut bsink, &mut wsink, &faults, now);
    assert_eq!(got, Err(CycleError::SinkCommitFailed));
    // the beacon pass failed its commit, so the witness pass never ran
    assert_eq!(bsink.buffered_len(), 1);
    assert_eq!(wsink.buffered_len(), 0);
    assert_eq!(wsink.committed_len(), 0);
    assert_eq!(store.witness_count(), 1);
}

#[test]
fn purger_stops_only_on_cancellation() {
    let mut purger = Purger::from_settings(PurgeConfig { base_stale_period: 0 });
    assert_eq!(purger.state, PurgerState::Idle);
    let mut store = StoreModel::new();
    store.beacons.push(beacon(b"b", b"p", 0));
    let mut bsink = SinkModel::new();
    let mut wsink = SinkModel::new();
    // a failing tick leaves the purger idle, not stopped
    let mut faults = CycleFaults::none();
    faults.store_unavailable = true;
    let res = purger.handle_event(
        PurgerEvent::Tick { now: 10_000 },
        &mut store,
        &mut bsink,
        &mut wsink,
        &faults,
    );
    assert_eq!(res, Some(Err(CycleError::StoreUnavailable)));
    assert_eq!(purger.state, PurgerState::Idle);
    // cancellation stops it without touching anything
    let res = purger.handle_event(PurgerEvent::Shutdown, &mut store, &mut bsink, &mut wsink, &faults);
    assert_eq!(res, None);
    assert_eq!(purger.state, PurgerState::Stopped);
    // a tick after cancellation is not handled
    let healthy = CycleFaults::none();
    let res = purger.handle_event(
        PurgerEvent::Tick { now: 20_000 },
        &mut store,
        &mut bsink,
        &mut wsink,
        &healthy,
    );
    assert_eq!(res, None);
    assert_eq!(store.beacon_count(), 1);
}

#[test]
fn daemon_handles_ticks_until_the_first_cancellation() {
    let mut store = StoreModel::new();
    store.beacons.push(beacon(b"b", b"p", 0));
    let mut bsink = SinkModel::new();
    let mut wsink = SinkModel::new();
    let faults = CycleFaults::none();
    let schedule = vec![
        PurgerEvent::Tick { now: 10_000 },
        PurgerEvent::Tick { now: 12_100 },
        PurgerEvent::Shutdown,
        PurgerEvent::Tick { now: 14_200 },
    ];
    let cmd = Cmd {};
    let (purger, ticks) = cmd.run(
        PurgeConfig { base_stale_period: 0 },
        &mut store,
        &mut bsink,
        &mut wsink,
        &schedule,
        &faults,
    );
    assert_eq!(ticks, 2);
    assert_eq!(purger.state, PurgerState::Stopped);
    // the first tick purged the stale beacon
    assert_eq!(store.beacon_count(), 0);
    assert_eq!(bsink.committed_len(), 1);

    let mut store2 = StoreModel::new();
    let schedule2 = vec![PurgerEvent::Tick { now: 100 }, PurgerEvent::Tick { now: 2200 }];
    let cmd2 = Cmd {};
    let (purger2, ticks2) = cmd2.run(
        PurgeConfig { base_stale_period: 0 },
        &mut store2,
        &mut bsink,
        &mut wsink,
        &schedule2,
        &faults,
    );
    assert_eq!(ticks2, 2);
    assert_eq!(purger2.state, PurgerState::Idle);
}

#[test]
fn thresholds_add_the_class_offset_to_the_base_period() {
    let cfg = PurgeConfig { base_stale_period: 600 };
    assert_eq!(cfg.beacon_threshold(), 600 + 45 * 60);
    assert_eq!(cfg.witness_threshold(), 600 + 45 * 60);
    assert_eq!(cfg.entropy_threshold(), 600 + 60 * 60);
    let base_only = PurgeConfig::default();
    assert_eq!(base_only.base_stale_period, 0);
}
