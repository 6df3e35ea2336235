use sockwatch::record::SocketRecord;
use sockwatch::session::{FailCause, SessionStatus, TransportSession};
use sockwatch::store::SnapshotStore;

fn msg(ty: u16, payload: &[u8]) -> Vec<u8> {
    let len = 16 + payload.len();
    let mut v: Vec<u8> = Vec::new();
    v.extend_from_slice(&(len as u32).to_le_bytes());
    v.extend_from_slice(&ty.to_le_bytes());
    v.extend_from_slice(&2u16.to_le_bytes()); // multi flag, ignored by decoding
    v.extend_from_slice(&0u32.to_le_bytes()); // sequence
    v.extend_from_slice(&0u32.to_le_bytes()); // port id
    v.extend_from_slice(payload);
    v
}

fn record_msg(
    inode: u32,
    uid: u32,
    state: u8,
    src_addr: u32,
    src_port: u16,
    dst_addr: u32,
    dst_port: u16,
) -> Vec<u8> {
    let mut p = vec![0u8; 72];
    p[0] = 2; // address family
    p[1] = state;
    p[4..6].copy_from_slice(&src_port.to_be_bytes());
    p[6..8].copy_from_slice(&dst_port.to_be_bytes());
    p[8..12].copy_from_slice(&src_addr.to_be_bytes());
    p[24..28].copy_from_slice(&dst_addr.to_be_bytes());
    p[64..68].copy_from_slice(&uid.to_le_bytes());
    p[68..72].copy_from_slice(&inode.to_le_bytes());
    msg(20, &p)
}

fn done_msg() -> Vec<u8> {
    msg(3, &0u32.to_le_bytes())
}

fn error_msg(code: u32) -> Vec<u8> {
    msg(2, &code.to_le_bytes())
}

fn overrun_msg() -> Vec<u8> {
    msg(4, &0u32.to_le_bytes())
}

fn fresh_receiving_session() -> TransportSession {
    let mut s = TransportSession::new();
    assert_eq!(s.status(), SessionStatus::Idle);
    s.request_sent();
    assert_eq!(s.status(), SessionStatus::RequestSent);
    s
}

#[test]
fn one_read_with_records_and_done_completes() {
    let mut s = fresh_receiving_session();
    let mut stream = record_msg(10, 1000, 1, 0x7f000001, 8080, 0x7f000001, 443);
    stream.extend_from_slice(&record_msg(11, 0, 10, 0, 22, 0, 0));
    stream.extend_from_slice(&done_msg());
    s.feed(&stream);
    assert_eq!(s.status(), SessionStatus::Completed);
    let recs = s.records();
    assert_eq!(recs.len(), 2);
    assert_eq!(
        recs[0],
        SocketRecord {
            inode: 10,
            uid: 1000,
            state: 1,
            src_addr: 0x7f000001,
            src_port: 8080,
            dst_addr: 0x7f000001,
            dst_port: 443,
        }
    );
    assert_eq!(recs[1].inode, 11);
    assert_eq!(recs[1].state, 10);
    assert_eq!(recs[1].src_port, 22);
}

#[test]
fn reassembly_is_chunking_independent() {
    let mut stream = record_msg(1, 0, 1, 1, 1, 1, 1);
    stream.extend_from_slice(&record_msg(2, 0, 7, 2, 2, 2, 2));
    stream.extend_from_slice(&record_msg(3, 0, 10, 3, 3, 3, 3));
    stream.extend_from_slice(&done_msg());

    let mut whole = fresh_receiving_session();
    whole.feed(&stream);
    assert_eq!(whole.status(), SessionStatus::Completed);
    let expected: Vec<SocketRecord> = whole.records().clone();
    assert_eq!(expected.len(), 3);
    assert_eq!(expected[0].inode, 1);
    assert_eq!(expected[1].inode, 2);
    assert_eq!(expected[2].inode, 3);

    // byte by byte
    let mut tiny = fresh_receiving_session();
    for b in stream.iter() {
        tiny.feed(&vec![*b]);
    }
    assert_eq!(tiny.status(), SessionStatus::Completed);
    assert_eq!(tiny.records(), &expected);

    // every split position of the stream into two reads
    for cut in 0..=stream.len() {
        let mut s = fresh_receiving_session();
        s.feed(&stream[..cut].to_vec());
        s.feed(&stream[cut..].to_vec());
        assert_eq!(s.status(), SessionStatus::Completed);
        assert_eq!(s.records(), &expected);
    }
}

#[test]
fn overrun_fails_discards_records_and_leaves_store() {
    // first scan fills the store
    let mut store = SnapshotStore::new();
    let mut first = fresh_receiving_session();
    let mut stream = record_msg(5, 0, 10, 0, 80, 0, 0);
    stream.extend_from_slice(&done_msg());
    first.feed(&stream);
    let events = store.apply_scan(&first);
    assert_eq!(events.len(), 1);
    assert_eq!(store.len(), 1);

    // second scan hits an overrun after a record already arrived
    let mut second = fresh_receiving_session();
    let mut bad = record_msg(6, 0, 1, 0, 81, 0, 0);
    bad.extend_from_slice(&overrun_msg());
    second.feed(&bad);
    assert_eq!(second.status(), SessionStatus::Failed(FailCause::Overrun));
    assert_eq!(second.records().len(), 0);
    let events = store.apply_scan(&second);
    assert_eq!(events.len(), 0);
    assert_eq!(store.len(), 1);
}

#[test]
fn error_payload_fails_session() {
    let mut s = fresh_receiving_session();
    let mut stream = record_msg(7, 0, 1, 0, 1, 0, 1);
    stream.extend_from_slice(&error_msg(0xfffffff2)); // a negative errno
    s.feed(&stream);
    assert_eq!(s.status(), SessionStatus::Failed(FailCause::Protocol));
    assert_eq!(s.records().len(), 0);
}

#[test]
fn acknowledgement_and_noop_are_skipped() {
    let mut s = fresh_receiving_session();
    let mut stream = msg(1, &[]); // no-op
    stream.extend_from_slice(&error_msg(0)); // acknowledgement: zero code
    stream.extend_from_slice(&record_msg(9, 3, 6, 0, 1, 0, 1));
    stream.extend_from_slice(&done_msg());
    s.feed(&stream);
    assert_eq!(s.status(), SessionStatus::Completed);
    assert_eq!(s.records().len(), 1);
    assert_eq!(s.records()[0].inode, 9);
}

#[test]
fn zero_length_message_fails_instead_of_looping() {
    let mut s = fresh_receiving_session();
    let stream = vec![0u8; 16]; // declared length 0
    s.feed(&stream);
    assert_eq!(s.status(), SessionStatus::Failed(FailCause::Decode));
}

#[test]
fn unknown_message_type_fails() {
    let mut s = fresh_receiving_session();
    s.feed(&msg(99, &[]));
    assert_eq!(s.status(), SessionStatus::Failed(FailCause::Decode));
}

#[test]
fn truncated_record_message_fails() {
    let mut s = fresh_receiving_session();
    s.feed(&msg(20, &[0u8; 10])); // record payload shorter than a record
    assert_eq!(s.status(), SessionStatus::Failed(FailCause::Decode));
}

#[test]
fn short_error_message_fails() {
    let mut s = fresh_receiving_session();
    s.feed(&msg(2, &[])); // error message without its code
    assert_eq!(s.status(), SessionStatus::Failed(FailCause::Decode));
}

#[test]
fn incomplete_trailing_message_waits_for_more() {
    let mut s = fresh_receiving_session();
    let stream = record_msg(12, 0, 1, 0, 1, 0, 1);
    s.feed(&stream[..20].to_vec());
    assert_eq!(s.status(), SessionStatus::Receiving);
    assert_eq!(s.records().len(), 0);
    s.feed(&stream[20..].to_vec());
    assert_eq!(s.status(), SessionStatus::Receiving);
    assert_eq!(s.records().len(), 1);
    s.feed(&done_msg());
    assert_eq!(s.status(), SessionStatus::Completed);
}

#[test]
fn terminal_session_ignores_further_bytes() {
    let mut s = fresh_receiving_session();
    s.feed(&done_msg());
    assert_eq!(s.status(), SessionStatus::Completed);
    s.feed(&record_msg(1, 0, 1, 0, 1, 0, 1));
    assert_eq!(s.status(), SessionStatus::Completed);
    assert_eq!(s.records().len(), 0);
}

#[test]
fn repeated_inode_in_one_dump_keeps_the_last_record() {
    let mut s = fresh_receiving_session();
    let mut stream = record_msg(4, 0, 1, 0, 1, 0, 1);
    stream.extend_from_slice(&record_msg(4, 0, 7, 0, 1, 0, 1));
    stream.extend_from_slice(&done_msg());
    s.feed(&stream);
    assert_eq!(s.status(), SessionStatus::Completed);
    assert_eq!(s.records().len(), 2); // both arrived...
    let mut store = SnapshotStore::new();
    let events = store.apply_scan(&s);
    assert_eq!(store.len(), 1); // ...but the table keys by inode
    assert_eq!(events.len(), 1);
    assert_eq!(events[0].inode, 4);
    assert_eq!(events[0].record.state, 7); // the later record won
}

#[test]
fn send_and_recv_failures_are_terminal() {
    let mut s = TransportSession::new();
    s.send_failed();
    assert_eq!(s.status(), SessionStatus::Failed(FailCause::Send));

    let mut r = fresh_receiving_session();
    r.recv_failed();
    assert_eq!(r.status(), SessionStatus::Failed(FailCause::Recv));
    let mut store = SnapshotStore::new();
    let events = store.apply_scan(&r);
    assert_eq!(events.len(), 0);
    assert_eq!(store.len(), 0);
}
