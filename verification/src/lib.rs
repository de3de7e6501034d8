//! Freshness and expiry subsystem of a proof-of-coverage oracle node.
//!
//! Two components bound how long locally held data may be trusted or
//! retained. The gateway metadata cache serves identity-to-metadata
//! lookups backed by a slower remote source, giving every entry an
//! absolute expiry of insertion time plus a base TTL plus a random,
//! bounded jitter. The stale record purger periodically finds pending
//! beacon and witness records that have outlived a staleness window,
//! archives each to an append-only sink tagged as stale, and only then
//! deletes it from the record store; entropy records are deleted with
//! no archival step.
//!
//! All time is carried as seconds since an arbitrary epoch and handed in
//! by the caller, so the logic is deterministic and checkable; the
//! surrounding process supplies the wall clock, the remote lookups and
//! the durable store.

pub mod bytes;
pub mod config;
pub mod cache;
pub mod faults;
pub mod laws;
pub mod purger;
pub mod records;
pub mod sink;
pub mod store;
