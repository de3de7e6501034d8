//! What the external collaborators do during one purge cycle. The purge
//! logic is verified against every possible value of this script, so the
//! contracts cover a healthy environment, per-item failures (a payload
//! the decoder rejects, a write the sink rejects, a row delete that
//! fails) and cycle-level failures (an unavailable store, a failing sink
//! commit, a failing transaction commit) alike.

use vstd::prelude::*;
use crate::bytes::views_of_bytes;

verus! {

/// The behaviour of the store, the payload decoder and the archival
/// sinks during one purge cycle.
pub struct CycleFaults {
    /// Payloads the decoder rejects as malformed.
    pub bad_payloads: Vec<Vec<u8>>,
    /// Payloads whose archival write the sink fails.
    pub sink_rejects: Vec<Vec<u8>>,
    /// Ingest identifiers whose row delete fails.
    pub delete_rejects: Vec<Vec<u8>>,
    /// The store cannot be queried or a transaction cannot be opened.
    pub store_unavailable: bool,
    /// The sink fails to commit its buffered writes.
    pub sink_commit_fails: bool,
    /// The store transaction holding the deletes fails to commit.
    pub tx_commit_fails: bool,
}

/// Ghost image of a cycle's fault script.
pub struct CycleFaultsV {
    pub bad_payloads: Seq<Seq<u8>>,
    pub sink_rejects: Seq<Seq<u8>>,
    pub delete_rejects: Seq<Seq<u8>>,
    pub store_unavailable: bool,
    pub sink_commit_fails: bool,
    pub tx_commit_fails: bool,
}

impl View for CycleFaults {
    type V = CycleFaultsV;

    open spec fn view(&self) -> CycleFaultsV {
        CycleFaultsV {
            bad_payloads: views_of_bytes(self.bad_payloads@),
            sink_rejects: views_of_bytes(self.sink_rejects@),
            delete_rejects: views_of_bytes(self.delete_rejects@),
            store_unavailable: self.store_unavailable,
            sink_commit_fails: self.sink_commit_fails,
            tx_commit_fails: self.tx_commit_fails,
        }
    }
}

impl CycleFaults {
    /// A healthy environment: every decode, write, delete and commit
    /// succeeds.
    pub fn none() -> (f: CycleFaults)
        ensures
            f@.bad_payloads.len() == 0,
            f@.sink_rejects.len() == 0,
            f@.delete_rejects.len() == 0,
            !f@.store_unavailable,
            !f@.sink_commit_fails,
            !f@.tx_commit_fails,
    {
        CycleFaults {
            bad_payloads: Vec::new(),
            sink_rejects: Vec::new(),
            delete_rejects: Vec::new(),
            store_unavailable: false,
            sink_commit_fails: false,
            tx_commit_fails: false,
        }
    }
}

} // verus!
