//! The one current snapshot, and how a finished session updates it.
//!
//! Only a completed session replaces the held snapshot — wholesale, never in
//! place. A session that failed for any cause (send, read, error payload,
//! overrun, malformed bytes) leaves the store untouched and yields no events,
//! so a failed scan is never partially applied.

use vstd::prelude::*;
use crate::record::SocketRecord;
use crate::snapshot::{Snapshot, snapshot_from, sorted_by_inode};
use crate::session::{TransportSession, SessionStatus};
use crate::diff::{diff, diff_spec, DiffEvent};

verus! {

/// Builds the snapshot that a run of decoded records describes: keyed by
/// inode, later records win over earlier ones with the same inode.
pub fn snapshot_of_records(records: &Vec<SocketRecord>) -> (s: Snapshot)
    ensures
        s@ == snapshot_from(records@),
        s.wf(),
{
    let mut s = Snapshot::new();
    let mut k: usize = 0;
    assert(records@.take(0) =~= Seq::<SocketRecord>::empty());
    let n = records.len();
    while k < n
        invariant
            0 <= k <= n == records@.len(),
            s.wf(),
            s@ == snapshot_from(records@.take(k as int)),
        decreases n - k,
    {
        s.insert(records[k]);
        k = k + 1;
        assert(records@.take(k as int).drop_last() =~= records@.take(k as int - 1));
        assert(records@.take(k as int).last() == records@[k as int - 1]);
    }
    assert(records@.take(n as int) =~= records@);
    s
}

/// Holds the one current snapshot between scans.
pub struct SnapshotStore {
    current: Snapshot,
}

impl View for SnapshotStore {
    type V = Seq<SocketRecord>;

    closed spec fn view(&self) -> Seq<SocketRecord> {
        self.current@
    }
}

impl SnapshotStore {
    /// The store invariant: the held table is sorted by ascending inode.
    pub open spec fn wf(&self) -> bool {
        sorted_by_inode(self@)
    }

    /// A store holding an empty table.
    pub fn new() -> (s: SnapshotStore)
        ensures
            s@ == Seq::<SocketRecord>::empty(),
            s.wf(),
    {
        SnapshotStore { current: Snapshot::new() }
    }

    /// Number of records in the held snapshot.
    pub fn len(&self) -> (n: usize)
        ensures
            n == self@.len(),
    {
        self.current.len()
    }

    /// Takes the outcome of one session. A completed session's records become
    /// the new snapshot and the events are exactly the diff from the old one;
    /// any other outcome leaves the store unchanged and yields no events.
    pub fn apply_scan(&mut self, session: &TransportSession) -> (events: Vec<DiffEvent>)
        requires
            old(self).wf(),
        ensures
            final(self).wf(),
            session@.status == SessionStatus::Completed ==> final(self)@ == snapshot_from(
                session@.records,
            ) && events@ == diff_spec(old(self)@, snapshot_from(session@.records)),
            session@.status != SessionStatus::Completed ==> final(self)@ == old(self)@ && events@
                == Seq::<DiffEvent>::empty(),
    {
        match session.status() {
            SessionStatus::Completed => {
                let snap = snapshot_of_records(session.records());
                let events = diff(&self.current, &snap);
                self.current = snap;
                events
            },
            _ => { Vec::new() },
        }
    }
}

} // verus!
