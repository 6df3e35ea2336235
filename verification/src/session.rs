//! One request/response exchange over the diagnostic channel.
//!
//! A session is single use: `Idle -> RequestSent -> Receiving -> {Completed,
//! Failed}`. The caller sends the request itself and hands every physical
//! read to `feed` as a plain byte chunk. A chunk may hold several
//! concatenated messages and may end in the middle of one; the session
//! decodes at increasing offsets, buffers an incomplete trailing message, and
//! dispatches each complete message by its payload kind. Records accumulate
//! until a completion marker; any error or overrun discards them all.

use vstd::prelude::*;
use crate::bytes::{le16, le32, be16, be32, read_le16, read_le32, read_be16, read_be32};
use crate::record::SocketRecord;
use crate::request::NL_TYPE_SOCK_DIAG;

verus! {

/// Length of the netlink message header.
pub const NL_HDR_LEN: usize = 16;

/// Message type: no-op, skipped.
pub const NL_TYPE_NOOP: u16 = 1;

/// Message type: error or acknowledgement (a zero error code).
pub const NL_TYPE_ERROR: u16 = 2;

/// Message type: completion marker of a dump.
pub const NL_TYPE_DONE: u16 = 3;

/// Message type: the kernel dropped messages before delivery.
pub const NL_TYPE_OVERRUN: u16 = 4;

/// Wire length of a whole record message: header plus 72-byte record.
pub const RECORD_MSG_LEN: usize = 88;

/// Least wire length of an error message: header plus 32-bit error code.
pub const ERROR_MSG_MIN_LEN: usize = 20;

/// Why a session failed.
#[derive(PartialEq, Eq, Structural, Clone, Copy, Debug)]
pub enum FailCause {
    /// Sending the request failed.
    Send,
    /// A physical read failed.
    Recv,
    /// The kernel answered with an error payload.
    Protocol,
    /// The kernel dropped messages; the dump is incomplete.
    Overrun,
    /// A malformed or truncated message was met.
    Decode,
}

/// Where a session stands; `Completed` and `Failed` are terminal.
#[derive(PartialEq, Eq, Structural, Clone, Copy, Debug)]
pub enum SessionStatus {
    Idle,
    RequestSent,
    Receiving,
    Completed,
    Failed(FailCause),
}

/// The abstract state of a session: its status, the bytes of an incomplete
/// trailing message not yet decoded, and the records decoded so far in
/// arrival order.
#[verifier::ext_equal]
pub struct SessionModel {
    pub status: SessionStatus,
    pub pending: Seq<u8>,
    pub records: Seq<SocketRecord>,
}

/// A session still waiting for response bytes.
pub open spec fn live(st: SessionStatus) -> bool {
    st == SessionStatus::RequestSent || st == SessionStatus::Receiving
}

/// The record held by one complete record message (header included).
pub open spec fn record_of(msg: Seq<u8>) -> SocketRecord {
    SocketRecord {
        inode: le32(msg, 84),
        uid: le32(msg, 80),
        state: msg[17],
        src_addr: be32(msg, 24),
        src_port: be16(msg, 20),
        dst_addr: be32(msg, 40),
        dst_port: be16(msg, 22),
    }
}

/// Dispatch of one complete message: the status the session moves to and the
/// record list after it. No-ops and acknowledgements are skipped; an error
/// payload, an overrun or a malformed message discards every record.
pub open spec fn step_msg(records: Seq<SocketRecord>, msg: Seq<u8>) -> (SessionStatus, Seq<
    SocketRecord,
>) {
    let t = le16(msg, 4);
    if t == NL_TYPE_NOOP {
        (SessionStatus::Receiving, records)
    } else if t == NL_TYPE_ERROR {
        if msg.len() < ERROR_MSG_MIN_LEN {
            (SessionStatus::Failed(FailCause::Decode), Seq::empty())
        } else if le32(msg, 16) == 0 {
            (SessionStatus::Receiving, records)
        } else {
            (SessionStatus::Failed(FailCause::Protocol), Seq::empty())
        }
    } else if t == NL_TYPE_DONE {
        (SessionStatus::Completed, records)
    } else if t == NL_TYPE_OVERRUN {
        (SessionStatus::Failed(FailCause::Overrun), Seq::empty())
    } else if t == NL_TYPE_SOCK_DIAG {
        if msg.len() >= RECORD_MSG_LEN {
            (SessionStatus::Receiving, records.push(record_of(msg)))
        } else {
            (SessionStatus::Failed(FailCause::Decode), Seq::empty())
        }
    } else {
        (SessionStatus::Failed(FailCause::Decode), Seq::empty())
    }
}

/// Decodes every complete message at the front of the pending bytes, in
/// order, stopping at an incomplete trailing message or a terminal status.
/// A declared length under the header length would not advance and is
/// malformed; it fails the session instead of looping.
pub open spec fn drain(m: SessionModel) -> SessionModel
    decreases m.pending.len(),
{
    if m.status != SessionStatus::Receiving {
        m
    } else if m.pending.len() < NL_HDR_LEN {
        m
    } else {
        let len = le32(m.pending, 0) as int;
        if len < NL_HDR_LEN {
            SessionModel {
                status: SessionStatus::Failed(FailCause::Decode),
                pending: Seq::empty(),
                records: Seq::empty(),
            }
        } else if len > m.pending.len() {
            m
        } else {
            let sr = step_msg(m.records, m.pending.take(len));
            if sr.0 == SessionStatus::Receiving {
                drain(SessionModel { status: sr.0, pending: m.pending.skip(len), records: sr.1 })
            } else {
                SessionModel { status: sr.0, pending: Seq::empty(), records: sr.1 }
            }
        }
    }
}

/// What feeding one chunk of response bytes does to a session: nothing on a
/// terminal or idle session, else the chunk joins the buffered bytes and
/// every complete message is decoded.
pub open spec fn feed_spec(m: SessionModel, chunk: Seq<u8>) -> SessionModel {
    if live(m.status) {
        drain(
            SessionModel {
                status: SessionStatus::Receiving,
                pending: m.pending + chunk,
                records: m.records,
            },
        )
    } else {
        m
    }
}

/// Draining, then appending more bytes and draining again, equals draining
/// with the appended bytes present from the start.
proof fn lemma_drain_append(m: SessionModel, extra: Seq<u8>)
    requires
        m.status == SessionStatus::Receiving,
    ensures
        feed_spec(drain(m), extra) == drain(
            (SessionModel {
                status: SessionStatus::Receiving,
                pending: m.pending + extra,
                records: m.records,
            }),
        ),
    decreases m.pending.len(),
{
    let mx = SessionModel {
        status: SessionStatus::Receiving,
        pending: m.pending + extra,
        records: m.records,
    };
    assert(m =~= SessionModel {
        status: SessionStatus::Receiving,
        pending: m.pending,
        records: m.records,
    });
    if m.pending.len() < NL_HDR_LEN {
        assert(drain(m) == m);
        assert(feed_spec(m, extra) == drain(mx));
    } else {
        assert(mx.pending[0] == m.pending[0] && mx.pending[1] == m.pending[1] && mx.pending[2]
            == m.pending[2] && mx.pending[3] == m.pending[3]);
        assert(le32(mx.pending, 0) == le32(m.pending, 0));
        let len = le32(m.pending, 0) as int;
        if len < NL_HDR_LEN {
            let t = SessionModel {
                status: SessionStatus::Failed(FailCause::Decode),
                pending: Seq::empty(),
                records: Seq::empty(),
            };
            assert(drain(m) == t);
            assert(drain(mx) == t);
            assert(feed_spec(t, extra) == t);
        } else if len > m.pending.len() {
            assert(drain(m) == m);
            assert(feed_spec(m, extra) == drain(mx));
        } else {
            let msg = m.pending.take(len);
            assert(mx.pending.take(len) =~= msg);
            assert(mx.pending.skip(len) =~= m.pending.skip(len) + extra);
            let sr = step_msg(m.records, msg);
            if sr.0 == SessionStatus::Receiving {
                let m2 = SessionModel {
                    status: SessionStatus::Receiving,
                    pending: m.pending.skip(len),
                    records: sr.1,
                };
                assert(drain(m) == drain(m2));
                lemma_drain_append(m2, extra);
                let m2x = SessionModel {
                    status: SessionStatus::Receiving,
                    pending: m2.pending + extra,
                    records: m2.records,
                };
                assert(SessionModel {
                    status: sr.0,
                    pending: mx.pending.skip(len),
                    records: sr.1,
                } =~= m2x);
                assert(drain(mx) == drain(m2x));
            } else {
                let t = SessionModel { status: sr.0, pending: Seq::empty(), records: sr.1 };
                assert(drain(m) == t);
                assert(drain(mx) == t);
                assert(sr.0 == SessionStatus::Completed || sr.0 is Failed);
                assert(feed_spec(t, extra) == t);
            }
        }
    }
}

/// Reassembly is chunking-independent: feeding two chunks one after the
/// other leaves the session exactly as feeding their concatenation at once.
/// So a response stream split at arbitrary read boundaries yields the same
/// status and the same decoded records, in the same order.
pub proof fn lemma_feed_chunking(m: SessionModel, a: Seq<u8>, b: Seq<u8>)
    ensures
        feed_spec(feed_spec(m, a), b) == feed_spec(m, a + b),
{
    if live(m.status) {
        let ma = SessionModel {
            status: SessionStatus::Receiving,
            pending: m.pending + a,
            records: m.records,
        };
        lemma_drain_append(ma, b);
        assert(SessionModel {
            status: SessionStatus::Receiving,
            pending: ma.pending + b,
            records: ma.records,
        } =~= SessionModel {
            status: SessionStatus::Receiving,
            pending: m.pending + (a + b),
            records: m.records,
        });
    }
}

/// The session after a run of physical reads, fed one after the other.
pub open spec fn feed_all_spec(m: SessionModel, chunks: Seq<Seq<u8>>) -> SessionModel
    decreases chunks.len(),
{
    if chunks.len() == 0 {
        m
    } else {
        feed_all_spec(feed_spec(m, chunks[0]), chunks.drop_first())
    }
}

/// The bytes of a run of physical reads, joined in order.
pub open spec fn concat_chunks(chunks: Seq<Seq<u8>>) -> Seq<u8>
    decreases chunks.len(),
{
    if chunks.len() == 0 {
        Seq::empty()
    } else {
        chunks[0] + concat_chunks(chunks.drop_first())
    }
}

/// Reassembly idempotence over any number of reads: however a response
/// stream is cut into successive physical reads, the session ends exactly as
/// if the whole stream had arrived in one read.
pub proof fn lemma_feed_any_chunking(m: SessionModel, chunks: Seq<Seq<u8>>)
    requires
        chunks.len() >= 1,
    ensures
        feed_all_spec(m, chunks) == feed_spec(m, concat_chunks(chunks)),
    decreases chunks.len(),
{
    if chunks.len() == 1 {
        assert(concat_chunks(chunks.drop_first()) =~= Seq::<u8>::empty());
        assert(chunks[0] + Seq::<u8>::empty() =~= chunks[0]);
    } else {
        lemma_feed_any_chunking(feed_spec(m, chunks[0]), chunks.drop_first());
        lemma_feed_chunking(m, chunks[0], concat_chunks(chunks.drop_first()));
    }
}

/// An overrun message always moves a live session to the failed terminal
/// state with the distinct incomplete cause, and discards every record
/// accumulated so far.
pub proof fn lemma_overrun_fails(m: SessionModel, chunk: Seq<u8>)
    requires
        live(m.status),
        m.pending.len() == 0,
        chunk.len() >= NL_HDR_LEN,
        le32(chunk, 0) as int == chunk.len(),
        le16(chunk, 4) == NL_TYPE_OVERRUN,
    ensures
        feed_spec(m, chunk) == (SessionModel {
            status: SessionStatus::Failed(FailCause::Overrun),
            pending: Seq::<u8>::empty(),
            records: Seq::<SocketRecord>::empty(),
        }),
{
    let mx = SessionModel {
        status: SessionStatus::Receiving,
        pending: m.pending + chunk,
        records: m.records,
    };
    assert(mx.pending =~= chunk);
    let len = le32(chunk, 0) as int;
    let msg = chunk.take(len);
    assert(msg =~= chunk);
    assert(le16(msg, 4) == NL_TYPE_OVERRUN);
    assert(step_msg(m.records, msg).0 == SessionStatus::Failed(FailCause::Overrun));
}

/// The session as the caller drives it; its abstract state is a
/// [`SessionModel`].
#[derive(Debug)]
pub struct TransportSession {
    status: SessionStatus,
    pending: Vec<u8>,
    records: Vec<SocketRecord>,
}

impl View for TransportSession {
    type V = SessionModel;

    closed spec fn view(&self) -> SessionModel {
        SessionModel { status: self.status, pending: self.pending@, records: self.records@ }
    }
}

impl TransportSession {
    /// A fresh session, before its request went out.
    pub fn new() -> (s: TransportSession)
        ensures
            s@ == (SessionModel {
                status: SessionStatus::Idle,
                pending: Seq::<u8>::empty(),
                records: Seq::<SocketRecord>::empty(),
            }),
    {
        TransportSession { status: SessionStatus::Idle, pending: Vec::new(), records: Vec::new() }
    }

    /// Where the session stands.
    pub fn status(&self) -> (st: SessionStatus)
        ensures
            st == self@.status,
    {
        self.status
    }

    /// The records decoded so far, in arrival order.
    pub fn records(&self) -> (r: &Vec<SocketRecord>)
        ensures
            r@ == self@.records,
    {
        &self.records
    }

    /// The request went out in one atomic transmission.
    pub fn request_sent(&mut self)
        requires
            old(self)@.status == SessionStatus::Idle,
        ensures
            final(self)@ == (SessionModel {
                status: SessionStatus::RequestSent,
                ..old(self)@
            }),
    {
        self.status = SessionStatus::RequestSent;
    }

    /// Sending the request failed: fatal for the session, never retried.
    pub fn send_failed(&mut self)
        ensures
            final(self)@ == (SessionModel {
                status: SessionStatus::Failed(FailCause::Send),
                pending: Seq::<u8>::empty(),
                records: Seq::<SocketRecord>::empty(),
            }),
    {
        self.status = SessionStatus::Failed(FailCause::Send);
        self.pending = Vec::new();
        self.records = Vec::new();
    }

    /// A physical read failed: fatal for the session.
    pub fn recv_failed(&mut self)
        ensures
            final(self)@ == (SessionModel {
                status: SessionStatus::Failed(FailCause::Recv),
                pending: Seq::<u8>::empty(),
                records: Seq::<SocketRecord>::empty(),
            }),
    {
        self.status = SessionStatus::Failed(FailCause::Recv);
        self.pending = Vec::new();
        self.records = Vec::new();
    }

    /// Drops the `len` decoded bytes from the front of the buffer.
    fn consume(&mut self, len: usize)
        requires
            len <= old(self)@.pending.len(),
        ensures
            final(self)@ == (SessionModel {
                pending: old(self)@.pending.skip(len as int),
                ..old(self)@
            }),
    {
        let ghost p = self.pending@;
        let n = self.pending.len();
        let mut rest: Vec<u8> = Vec::new();
        let mut i: usize = len;
        while i < n
            invariant
                len <= i <= n,
                n == self.pending@.len(),
                self.pending@ == p,
                rest@ =~= p.subrange(len as int, i as int),
            decreases n - i,
        {
            rest.push(self.pending[i]);
            i = i + 1;
        }
        self.pending = rest;
        assert(self.pending@ =~= p.skip(len as int));
    }

    /// Hands the session one physical read. Complete messages at the front
    /// of the buffered bytes are decoded in order and dispatched; an
    /// incomplete trailing message waits for the next read.
    pub fn feed(&mut self, chunk: &Vec<u8>)
        ensures
            final(self)@ == feed_spec(old(self)@, chunk@),
    {
        match self.status {
            SessionStatus::RequestSent | SessionStatus::Receiving => {
            },
            _ => {
                return ;
            },
        }
        self.status = SessionStatus::Receiving;
        self.pending.extend_from_slice(chunk.as_slice());
        let ghost target = SessionModel {
            status: SessionStatus::Receiving,
            pending: old(self)@.pending + chunk@,
            records: old(self)@.records,
        };
        assert(self@ =~= target);
        let mut progressing = true;
        while progressing
            invariant
                drain(target) == drain(self@),
                progressing ==> self@.status == SessionStatus::Receiving,
                !progressing ==> drain(self@) == self@,
            decreases self@.pending.len() + (if progressing {
                1int
            } else {
                0int
            }),
        {
            let ghost before = self@;
            let n = self.pending.len();
            if n < NL_HDR_LEN {
                progressing = false;
            } else {
                let len32 = read_le32(&self.pending, 0);
                if (len32 as usize) < NL_HDR_LEN {
                    self.status = SessionStatus::Failed(FailCause::Decode);
                    self.pending = Vec::new();
                    self.records = Vec::new();
                    progressing = false;
                    assert(drain(before) == self@);
                } else if len32 as usize > n {
                    progressing = false;
                } else {
                    let len = len32 as usize;
                    let ghost msg = before.pending.take(len as int);
                    let t = read_le16(&self.pending, 4);
                    assert(le16(msg, 4) == t);
                    if t == NL_TYPE_NOOP {
                        self.consume(len);
                        assert(drain(before) == drain(self@));
                    } else if t == NL_TYPE_ERROR {
                        if len < ERROR_MSG_MIN_LEN {
                            self.status = SessionStatus::Failed(FailCause::Decode);
                            self.pending = Vec::new();
                            self.records = Vec::new();
                            progressing = false;
                            assert(drain(before) == self@);
                        } else {
                            let code = read_le32(&self.pending, 16);
                            assert(le32(msg, 16) == code);
                            if code == 0 {
                                self.consume(len);
                                assert(drain(before) == drain(self@));
                            } else {
                                self.status = SessionStatus::Failed(FailCause::Protocol);
                                self.pending = Vec::new();
                                self.records = Vec::new();
                                progressing = false;
                                assert(drain(before) == self@);
                            }
                        }
                    } else if t == NL_TYPE_DONE {
                        self.status = SessionStatus::Completed;
                        self.pending = Vec::new();
                        progressing = false;
                        assert(drain(before) == self@);
                    } else if t == NL_TYPE_OVERRUN {
                        self.status = SessionStatus::Failed(FailCause::Overrun);
                        self.pending = Vec::new();
                        self.records = Vec::new();
                        progressing = false;
                        assert(drain(before) == self@);
                    } else if t == NL_TYPE_SOCK_DIAG {
                        if len < RECORD_MSG_LEN {
                            self.status = SessionStatus::Failed(FailCause::Decode);
                            self.pending = Vec::new();
                            self.records = Vec::new();
                            progressing = false;
                            assert(drain(before) == self@);
                        } else {
                            let rec = SocketRecord {
                                inode: read_le32(&self.pending, 84),
                                uid: read_le32(&self.pending, 80),
                                state: self.pending[17],
                                src_addr: read_be32(&self.pending, 24),
                                src_port: read_be16(&self.pending, 20),
                                dst_addr: read_be32(&self.pending, 40),
                                dst_port: read_be16(&self.pending, 22),
                            };
                            assert(rec == record_of(msg));
                            self.records.push(rec);
                            self.consume(len);
                            assert(drain(before) == drain(self@));
                        }
                    } else {
                        self.status = SessionStatus::Failed(FailCause::Decode);
                        self.pending = Vec::new();
                        self.records = Vec::new();
                        progressing = false;
                        assert(drain(before) == self@);
                    }
                }
            }
        }
        assert(self@ == drain(target));
    }
}

} // verus!
