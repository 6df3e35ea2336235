//! One point-in-time table of socket records, keyed by inode.
//!
//! A snapshot keeps its records sorted by strictly ascending inode, so inodes
//! are unique and iteration order is deterministic. Inserting a record whose
//! inode is already present replaces the old record (last write wins).

use vstd::prelude::*;
use crate::record::SocketRecord;

verus! {

/// Records sorted by strictly ascending inode (hence unique inodes).
pub open spec fn sorted_by_inode(s: Seq<SocketRecord>) -> bool {
    forall|i: int, j: int| 0 <= i < j < s.len() ==> s[i].inode < s[j].inode
}

/// Sorted insert of `r`, replacing an existing record with the same inode.
pub open spec fn snap_insert(s: Seq<SocketRecord>, r: SocketRecord) -> Seq<SocketRecord>
    decreases s.len(),
{
    if s.len() == 0 {
        seq![r]
    } else if s[0].inode < r.inode {
        seq![s[0]] + snap_insert(s.drop_first(), r)
    } else if s[0].inode == r.inode {
        seq![r] + s.drop_first()
    } else {
        seq![r] + s
    }
}

/// The snapshot built by inserting a run of records in arrival order.
pub open spec fn snapshot_from(records: Seq<SocketRecord>) -> Seq<SocketRecord>
    decreases records.len(),
{
    if records.len() == 0 {
        Seq::empty()
    } else {
        snap_insert(snapshot_from(records.drop_last()), records.last())
    }
}

/// `snap_insert` is a splice at the first position whose inode is not below `r.inode`.
proof fn lemma_snap_insert_split(s: Seq<SocketRecord>, r: SocketRecord, i: int)
    requires
        0 <= i <= s.len(),
        forall|k: int| 0 <= k < i ==> s[k].inode < r.inode,
        i < s.len() ==> s[i].inode >= r.inode,
    ensures
        snap_insert(s, r) == if i < s.len() && s[i].inode == r.inode {
            s.take(i) + seq![r] + s.skip(i + 1)
        } else {
            s.take(i) + seq![r] + s.skip(i)
        },
    decreases i,
{
    if i == 0 {
        if s.len() == 0 {
            assert(snap_insert(s, r) =~= s.take(0) + seq![r] + s.skip(0));
        } else if s[0].inode == r.inode {
            assert(snap_insert(s, r) =~= s.take(0) + seq![r] + s.skip(1));
        } else {
            assert(snap_insert(s, r) =~= s.take(0) + seq![r] + s.skip(0));
        }
    } else {
        let t = s.drop_first();
        assert(forall|k: int| 0 <= k < i - 1 ==> t[k].inode < r.inode);
        lemma_snap_insert_split(t, r, i - 1);
        assert(snap_insert(s, r) == seq![s[0]] + snap_insert(t, r));
        if i < s.len() && s[i].inode == r.inode {
            assert(t.take(i - 1) + seq![r] + t.skip(i) =~= (s.take(i) + seq![r] + s.skip(i
                + 1)).drop_first());
            assert(seq![s[0]] + (t.take(i - 1) + seq![r] + t.skip(i)) =~= s.take(i) + seq![r]
                + s.skip(i + 1));
        } else {
            assert(seq![s[0]] + (t.take(i - 1) + seq![r] + t.skip(i - 1)) =~= s.take(i) + seq![r]
                + s.skip(i));
        }
    }
}

/// Sorted insert keeps the records sorted by strictly ascending inode.
pub proof fn lemma_snap_insert_sorted(s: Seq<SocketRecord>, r: SocketRecord)
    requires
        sorted_by_inode(s),
    ensures
        sorted_by_inode(snap_insert(s, r)),
    decreases s.len(),
{
    if s.len() == 0 {
    } else if s[0].inode < r.inode {
        assert(sorted_by_inode(s.drop_first()));
        lemma_snap_insert_sorted(s.drop_first(), r);
        let rest = snap_insert(s.drop_first(), r);
        let out = seq![s[0]] + rest;
        lemma_snap_insert_members(s.drop_first(), r);
        assert forall|i: int, j: int| 0 <= i < j < out.len() implies out[i].inode
            < out[j].inode by {
            if i == 0 {
                let x = rest[j - 1];
                assert(rest.contains(x));
                assert(x == r || s.drop_first().contains(x));
                if x != r {
                    let m = choose|m: int|
                        0 <= m < s.drop_first().len() && s.drop_first()[m] == x;
                    assert(s[m + 1] == x);
                    assert(s[0].inode < s[m + 1].inode);
                }
                assert(out[i].inode < out[j].inode);
            } else {
                assert(out[i] == rest[i - 1] && out[j] == rest[j - 1]);
                assert(rest[i - 1].inode < rest[j - 1].inode);
            }
        }
    } else if s[0].inode == r.inode {
        assert forall|i: int, j: int|
            0 <= i < j < snap_insert(s, r).len() implies snap_insert(s, r)[i].inode < snap_insert(
            s,
            r,
        )[j].inode by {}
    } else {
        assert forall|i: int, j: int|
            0 <= i < j < snap_insert(s, r).len() implies snap_insert(s, r)[i].inode < snap_insert(
            s,
            r,
        )[j].inode by {}
    }
}

/// Every record in a sorted insert is the new record or one of the old ones.
pub proof fn lemma_snap_insert_members(s: Seq<SocketRecord>, r: SocketRecord)
    ensures
        forall|x: SocketRecord|
            snap_insert(s, r).contains(x) ==> x == r || s.contains(x),
    decreases s.len(),
{
    if s.len() == 0 {
    } else if s[0].inode < r.inode {
        lemma_snap_insert_members(s.drop_first(), r);
        assert forall|x: SocketRecord| snap_insert(s, r).contains(x) implies x == r || s.contains(
            x,
        ) by {
            let out = seq![s[0]] + snap_insert(s.drop_first(), r);
            let k = choose|k: int| 0 <= k < out.len() && out[k] == x;
            if k == 0 {
                assert(s[0] == x);
                assert(s.contains(x));
            } else {
                assert(snap_insert(s.drop_first(), r).contains(x));
                if x != r {
                    assert(s.drop_first().contains(x));
                    let m = choose|m: int| 0 <= m < s.drop_first().len() && s.drop_first()[m] == x;
                    assert(s[m + 1] == x);
                }
            }
        }
    } else {
        assert forall|x: SocketRecord| snap_insert(s, r).contains(x) implies x == r || s.contains(
            x,
        ) by {
            let out = snap_insert(s, r);
            let k = choose|k: int| 0 <= k < out.len() && out[k] == x;
            if k != 0 {
                if s[0].inode == r.inode {
                    assert(s[k] == x);
                } else {
                    assert(s[k - 1] == x);
                }
            }
        }
    }
}

/// A snapshot of the socket table: records sorted by strictly ascending inode.
#[derive(Debug)]
pub struct Snapshot {
    records: Vec<SocketRecord>,
}

impl View for Snapshot {
    type V = Seq<SocketRecord>;

    closed spec fn view(&self) -> Seq<SocketRecord> {
        self.records@
    }
}

impl Snapshot {
    /// The snapshot invariant: inodes strictly ascend, so each is unique.
    pub open spec fn wf(&self) -> bool {
        sorted_by_inode(self@)
    }

    /// An empty table.
    pub fn new() -> (s: Snapshot)
        ensures
            s@ == Seq::<SocketRecord>::empty(),
            s.wf(),
    {
        Snapshot { records: Vec::new() }
    }

    /// Number of records held.
    pub fn len(&self) -> (n: usize)
        ensures
            n == self@.len(),
    {
        self.records.len()
    }

    /// The record at position `k` in ascending inode order.
    pub fn record_at(&self, k: usize) -> (r: SocketRecord)
        requires
            k < self@.len(),
        ensures
            r == self@[k as int],
    {
        self.records[k]
    }

    /// Inserts `r`, replacing any record that already carries the same inode.
    pub fn insert(&mut self, r: SocketRecord)
        requires
            old(self).wf(),
        ensures
            final(self)@ == snap_insert(old(self)@, r),
            final(self).wf(),
    {
        let ghost s = self.records@;
        let n = self.records.len();
        let mut i: usize = 0;
        while i < n && self.records[i].inode < r.inode
            invariant
                0 <= i <= n,
                n == self.records@.len(),
                self.records@ == s,
                forall|k: int| 0 <= k < i ==> s[k].inode < r.inode,
            decreases n - i,
        {
            i = i + 1;
        }
        let mut out: Vec<SocketRecord> = Vec::new();
        let mut k: usize = 0;
        while k < i
            invariant
                0 <= k <= i <= n,
                n == self.records@.len(),
                self.records@ == s,
                out@ =~= s.take(k as int),
            decreases i - k,
        {
            out.push(self.records[k]);
            k = k + 1;
        }
        out.push(r);
        let mut j: usize = i;
        if i < n && self.records[i].inode == r.inode {
            j = i + 1;
        }
        let ghost start: int = j as int;
        proof {
            lemma_snap_insert_split(s, r, i as int);
            lemma_snap_insert_sorted(s, r);
        }
        assert(out@ =~= s.take(i as int) + seq![r] + s.subrange(start, j as int));
        while j < n
            invariant
                i <= n,
                start <= j <= n,
                0 <= start,
                n == self.records@.len(),
                self.records@ == s,
                out@ =~= s.take(i as int) + seq![r] + s.subrange(start, j as int),
            decreases n - j,
        {
            out.push(self.records[j]);
            j = j + 1;
            assert(out@ =~= s.take(i as int) + seq![r] + s.subrange(start, j as int));
        }
        self.records = out;
        assert(self.records@ =~= snap_insert(s, r));
    }
}

} // verus!
