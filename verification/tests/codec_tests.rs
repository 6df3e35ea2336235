use sockwatch::record::get_state_string;
use sockwatch::request::{build_dump_request, parse_dump_request, DumpRequest, REQUEST_LEN};

fn le16_at(b: &[u8], i: usize) -> u16 {
    (b[i] as u16) | ((b[i + 1] as u16) << 8)
}

fn le32_at(b: &[u8], i: usize) -> u32 {
    (b[i] as u32) | ((b[i + 1] as u32) << 8) | ((b[i + 2] as u32) << 16) | ((b[i + 3] as u32) << 24)
}

#[test]
fn state_names_exact() {
    assert_eq!(get_state_string(1), "TCP_ESTABLISHED");
    assert_eq!(get_state_string(2), "TCP_SYN_SENT");
    assert_eq!(get_state_string(3), "TCP_SYN_RECV");
    assert_eq!(get_state_string(4), "TCP_FIN_WAIT1");
    assert_eq!(get_state_string(5), "TCP_FIN_WAIT2");
    assert_eq!(get_state_string(6), "TCP_TIME_WAIT");
    assert_eq!(get_state_string(7), "TCP_CLOSE");
    assert_eq!(get_state_string(8), "TCP_CLOSE_WAIT");
    assert_eq!(get_state_string(9), "TCP_LAST_ACK");
    assert_eq!(get_state_string(10), "TCP_LISTEN");
    assert_eq!(get_state_string(11), "TCP_CLOSING");
    assert_eq!(get_state_string(0), "");
    assert_eq!(get_state_string(12), "");
    assert_eq!(get_state_string(255), "");
}

#[test]
fn request_wire_layout() {
    let q = DumpRequest { family: 2, protocol: 6, extensions: 0xff, states: 0xfff, sequence: 7 };
    let buf = build_dump_request(&q);
    assert_eq!(buf.len(), REQUEST_LEN);
    assert_eq!(le32_at(&buf, 0), 72); // declared wire length
    assert_eq!(le16_at(&buf, 4), 20); // sock-diag query type
    assert_eq!(le16_at(&buf, 6), 0x301); // request + dump flags
    assert_eq!(le32_at(&buf, 8), 7); // sequence number
    assert_eq!(le32_at(&buf, 12), 0); // port id
    assert_eq!(buf[16], 2);
    assert_eq!(buf[17], 6);
    assert_eq!(buf[18], 0xff);
    assert_eq!(buf[19], 0);
    assert_eq!(le32_at(&buf, 20), 0xfff);
    // all-zero socket-id selector
    for k in 24..72 {
        assert_eq!(buf[k], 0);
    }
}

#[test]
fn request_round_trip() {
    let q = DumpRequest { family: 2, protocol: 6, extensions: 0x1f, states: 0xABC, sequence: 42 };
    let buf = build_dump_request(&q);
    let back = parse_dump_request(&buf).expect("a built request parses back");
    assert_eq!(back.family, 2);
    assert_eq!(back.protocol, 6);
    assert_eq!(back.extensions, 0x1f);
    assert_eq!(back.states, 0xABC);
    assert_eq!(back.sequence, 42);
}

#[test]
fn request_parse_rejects_bad_buffers() {
    let q = DumpRequest { family: 2, protocol: 6, extensions: 0, states: 0, sequence: 0 };
    let buf = build_dump_request(&q);
    let mut short = buf.clone();
    short.pop();
    assert!(parse_dump_request(&short).is_none());
    let mut wrong_type = buf.clone();
    wrong_type[4] = 19;
    assert!(parse_dump_request(&wrong_type).is_none());
    let mut wrong_flags = buf.clone();
    wrong_flags[6] = 0;
    assert!(parse_dump_request(&wrong_flags).is_none());
    let mut wrong_len = buf;
    wrong_len[0] = 71;
    assert!(parse_dump_request(&wrong_len).is_none());
}
