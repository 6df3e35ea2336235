//! Comparing two snapshots into an ordered list of change events.
//!
//! Both snapshots are sorted by strictly ascending inode, so the comparison
//! is a single merge pass and the events come out in ascending inode order —
//! a deterministic order, which the response protocol itself does not give.

use vstd::prelude::*;
use crate::record::SocketRecord;
use crate::snapshot::{Snapshot, sorted_by_inode};

verus! {

/// What happened to one inode between the previous and the current snapshot.
#[derive(PartialEq, Eq, Structural, Clone, Copy, Debug)]
pub enum DiffKind {
    /// The inode is new in the current snapshot.
    Added,
    /// The inode is gone from the current snapshot.
    Removed,
    /// The inode is in both snapshots with a different connection state.
    Changed { old_state: u8, new_state: u8 },
}

/// One change event: the inode, what happened, and the record it concerns
/// (the current record for Added and Changed, the old one for Removed).
#[derive(PartialEq, Eq, Structural, Clone, Copy, Debug)]
pub struct DiffEvent {
    pub inode: u32,
    pub kind: DiffKind,
    pub record: SocketRecord,
}

/// The event list for two sorted record tables, by merging on inode:
/// an inode only in `cur` is Added, one only in `prev` is Removed, one in
/// both is Changed exactly when the connection state differs.
pub open spec fn diff_spec(prev: Seq<SocketRecord>, cur: Seq<SocketRecord>) -> Seq<DiffEvent>
    decreases prev.len() + cur.len(),
{
    if prev.len() == 0 && cur.len() == 0 {
        Seq::empty()
    } else if prev.len() == 0 {
        seq![
            DiffEvent { inode: cur[0].inode, kind: DiffKind::Added, record: cur[0] },
        ] + diff_spec(prev, cur.drop_first())
    } else if cur.len() == 0 {
        seq![
            DiffEvent { inode: prev[0].inode, kind: DiffKind::Removed, record: prev[0] },
        ] + diff_spec(prev.drop_first(), cur)
    } else if prev[0].inode < cur[0].inode {
        seq![
            DiffEvent { inode: prev[0].inode, kind: DiffKind::Removed, record: prev[0] },
        ] + diff_spec(prev.drop_first(), cur)
    } else if prev[0].inode > cur[0].inode {
        seq![
            DiffEvent { inode: cur[0].inode, kind: DiffKind::Added, record: cur[0] },
        ] + diff_spec(prev, cur.drop_first())
    } else if prev[0].state != cur[0].state {
        seq![
            DiffEvent {
                inode: cur[0].inode,
                kind: DiffKind::Changed { old_state: prev[0].state, new_state: cur[0].state },
                record: cur[0],
            },
        ] + diff_spec(prev.drop_first(), cur.drop_first())
    } else {
        diff_spec(prev.drop_first(), cur.drop_first())
    }
}

/// Compares two snapshots; the result is exactly the merge of the two tables,
/// in ascending inode order.
pub fn diff(prev: &Snapshot, cur: &Snapshot) -> (events: Vec<DiffEvent>)
    requires
        prev.wf(),
        cur.wf(),
    ensures
        events@ == diff_spec(prev@, cur@),
{
    let np = prev.len();
    let nc = cur.len();
    let mut events: Vec<DiffEvent> = Vec::new();
    let mut i: usize = 0;
    let mut j: usize = 0;
    assert(prev@.skip(0) =~= prev@ && cur@.skip(0) =~= cur@);
    assert(events@ + diff_spec(prev@, cur@) =~= diff_spec(prev@, cur@));
    while i < np || j < nc
        invariant
            0 <= i <= np == prev@.len(),
            0 <= j <= nc == cur@.len(),
            diff_spec(prev@, cur@) == events@ + diff_spec(
                prev@.skip(i as int),
                cur@.skip(j as int),
            ),
        decreases (np - i) + (nc - j),
    {
        let ghost p = prev@.skip(i as int);
        let ghost c = cur@.skip(j as int);
        proof {
            if i < np {
                assert(p[0] == prev@[i as int]);
                assert(p.drop_first() =~= prev@.skip(i as int + 1));
            }
            if j < nc {
                assert(c[0] == cur@[j as int]);
                assert(c.drop_first() =~= cur@.skip(j as int + 1));
            }
        }
        if i >= np {
            let rc = cur.record_at(j);
            events.push(DiffEvent { inode: rc.inode, kind: DiffKind::Added, record: rc });
            j = j + 1;
        } else if j >= nc {
            let rp = prev.record_at(i);
            events.push(DiffEvent { inode: rp.inode, kind: DiffKind::Removed, record: rp });
            i = i + 1;
        } else {
            let rp = prev.record_at(i);
            let rc = cur.record_at(j);
            if rp.inode < rc.inode {
                events.push(DiffEvent { inode: rp.inode, kind: DiffKind::Removed, record: rp });
                i = i + 1;
            } else if rp.inode > rc.inode {
                events.push(DiffEvent { inode: rc.inode, kind: DiffKind::Added, record: rc });
                j = j + 1;
            } else if rp.state != rc.state {
                events.push(
                    DiffEvent {
                        inode: rc.inode,
                        kind: DiffKind::Changed { old_state: rp.state, new_state: rc.state },
                        record: rc,
                    },
                );
                i = i + 1;
                j = j + 1;
            } else {
                i = i + 1;
                j = j + 1;
            }
        }
        assert(diff_spec(prev@, cur@) =~= events@ + diff_spec(
            prev@.skip(i as int),
            cur@.skip(j as int),
        ));
    }
    assert(prev@.skip(np as int) =~= Seq::<SocketRecord>::empty());
    assert(cur@.skip(nc as int) =~= Seq::<SocketRecord>::empty());
    assert(events@ =~= diff_spec(prev@, cur@));
    events
}

/// Comparing a snapshot with itself yields no events.
pub proof fn lemma_diff_self(s: Seq<SocketRecord>)
    ensures
        diff_spec(s, s) == Seq::<DiffEvent>::empty(),
    decreases s.len(),
{
    if s.len() > 0 {
        lemma_diff_self(s.drop_first());
    }
}

/// How many events of the list report an added socket.
pub open spec fn count_added(evs: Seq<DiffEvent>) -> nat
    decreases evs.len(),
{
    if evs.len() == 0 {
        0
    } else {
        (if evs[0].kind == DiffKind::Added {
            1nat
        } else {
            0nat
        }) + count_added(evs.drop_first())
    }
}

/// How many events of the list report a removed socket.
pub open spec fn count_removed(evs: Seq<DiffEvent>) -> nat
    decreases evs.len(),
{
    if evs.len() == 0 {
        0
    } else {
        (if evs[0].kind == DiffKind::Removed {
            1nat
        } else {
            0nat
        }) + count_removed(evs.drop_first())
    }
}

/// How many events of the list report a state change.
pub open spec fn count_changed(evs: Seq<DiffEvent>) -> nat
    decreases evs.len(),
{
    if evs.len() == 0 {
        0
    } else {
        (if evs[0].kind is Changed {
            1nat
        } else {
            0nat
        }) + count_changed(evs.drop_first())
    }
}

/// For tables with disjoint inode sets, the diff is exactly one Removed event
/// per previous record and one Added event per current record, and no Changed.
pub proof fn lemma_diff_disjoint(prev: Seq<SocketRecord>, cur: Seq<SocketRecord>)
    requires
        forall|i: int, j: int|
            0 <= i < prev.len() && 0 <= j < cur.len() ==> prev[i].inode != cur[j].inode,
    ensures
        count_removed(diff_spec(prev, cur)) == prev.len(),
        count_added(diff_spec(prev, cur)) == cur.len(),
        count_changed(diff_spec(prev, cur)) == 0,
    decreases prev.len() + cur.len(),
{
    let d = diff_spec(prev, cur);
    if prev.len() == 0 && cur.len() == 0 {
    } else if prev.len() == 0 || (cur.len() > 0 && prev[0].inode > cur[0].inode) {
        let rest = diff_spec(prev, cur.drop_first());
        lemma_diff_disjoint(prev, cur.drop_first());
        assert(d.drop_first() =~= rest);
    } else {
        assert(prev.len() > 0);
        assert(cur.len() == 0 || prev[0].inode < cur[0].inode);
        let rest = diff_spec(prev.drop_first(), cur);
        lemma_diff_disjoint(prev.drop_first(), cur);
        assert(d.drop_first() =~= rest);
    }
}

} // verus!
