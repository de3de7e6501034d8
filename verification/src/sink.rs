//! Model of the archival sink: an append-oriented, explicitly committed
//! output channel. Writes buffer entries; only a commit makes them
//! durable. The purger commits the sink before it commits the store
//! transaction holding the deletes, so a record is never deleted without
//! its archival entry having become durable first.

use vstd::prelude::*;
use crate::bytes::{contains_bytes, has_bytes};
use crate::faults::CycleFaults;
use crate::records::{archive_views, ArchiveEntry, ArchiveEntryV};

verus! {

/// The archival sink's state: durably committed entries and entries
/// written but not yet committed.
pub struct SinkModel {
    pub committed: Vec<ArchiveEntry>,
    pub buffered: Vec<ArchiveEntry>,
}

/// Ghost image of the sink.
pub struct SinkModelV {
    pub committed: Seq<ArchiveEntryV>,
    pub buffered: Seq<ArchiveEntryV>,
}

impl View for SinkModel {
    type V = SinkModelV;

    open spec fn view(&self) -> SinkModelV {
        SinkModelV { committed: archive_views(self.committed@), buffered: archive_views(self.buffered@) }
    }
}

impl SinkModel {
    /// An empty sink.
    pub fn new() -> (s: SinkModel)
        ensures
            s@.committed.len() == 0,
            s@.buffered.len() == 0,
    {
        SinkModel { committed: Vec::new(), buffered: Vec::new() }
    }

    /// Write one entry. The write buffers the entry; it is not durable
    /// until the next commit. Returns false when the sink fails the
    /// write, which it does exactly for the payloads the fault script
    /// names; a failed write leaves the sink unchanged.
    pub fn write(&mut self, entry: ArchiveEntry, faults: &CycleFaults) -> (ok: bool)
        ensures
            ok == !has_bytes(faults@.sink_rejects, entry@.payload),
            ok ==> final(self)@.committed == old(self)@.committed
                && final(self)@.buffered == old(self)@.buffered.push(entry@),
            !ok ==> *final(self) == *old(self),
    {
        if contains_bytes(&faults.sink_rejects, &entry.payload) {
            false
        } else {
            let ghost pre = self.buffered@;
            self.buffered.push(entry);
            proof {
                assert(archive_views(self.buffered@) =~= archive_views(pre).push(entry@));
            }
            true
        }
    }

    /// Commit buffered writes: every buffered entry becomes durable, in
    /// order. Returns false when the commit fails, which it does exactly
    /// when the fault script says so; a failed commit leaves the sink
    /// unchanged.
    pub fn commit(&mut self, faults: &CycleFaults) -> (ok: bool)
        ensures
            ok == !faults@.sink_commit_fails,
            ok ==> final(self)@.committed == old(self)@.committed + old(self)@.buffered
                && final(self)@.buffered.len() == 0,
            !ok ==> *final(self) == *old(self),
    {
        if faults.sink_commit_fails {
            false
        } else {
            let ghost pre_committed = self.committed@;
            let ghost pre_buffered = self.buffered@;
            self.committed.append(&mut self.buffered);
            proof {
                assert(archive_views(pre_committed + pre_buffered) =~=
                    archive_views(pre_committed) + archive_views(pre_buffered));
            }
            true
        }
    }

    /// How many entries are durably committed.
    pub fn committed_len(&self) -> (n: usize)
        ensures
            n == self@.committed.len(),
    {
        self.committed.len()
    }

    /// How many entries are buffered and not yet durable.
    pub fn buffered_len(&self) -> (n: usize)
        ensures
            n == self@.buffered.len(),
    {
        self.buffered.len()
    }
}

} // verus!
