//! Building and decoding the diagnostic dump request.
//!
//! A dump request is one 72-byte wire message: a 16-byte netlink header with
//! request-with-dump flags, followed by the 56-byte inet diagnostic selector
//! (family, protocol, extension bitmask, state-filter bitmask, and an
//! all-zero socket-id selector that matches every socket).

use vstd::prelude::*;
use crate::bytes::{le16, le32, le16_bytes, le32_bytes, read_le16, read_le32, push_le16,
    push_le32, lemma_le16_at, lemma_le32_at};

verus! {

/// Total wire length of a dump request in bytes.
pub const REQUEST_LEN: usize = 72;

/// Netlink message type of a socket-diagnostics query and of each response record.
pub const NL_TYPE_SOCK_DIAG: u16 = 20;

/// Header flags asking for a dump: request plus root/match (multi-record answer).
pub const NL_FLAGS_REQUEST_DUMP: u16 = 0x301;

/// The fields a caller chooses for one dump request.
///
/// `sequence` is echoed by the kernel; one outstanding request per session
/// means any value works, so the session simply counts upward.
#[derive(PartialEq, Eq, Structural, Clone, Copy, Debug)]
pub struct DumpRequest {
    pub family: u8,
    pub protocol: u8,
    pub extensions: u8,
    pub states: u32,
    pub sequence: u32,
}

/// The header and selector fields of a request, before the zero padding.
pub open spec fn encode_request_head(q: DumpRequest) -> Seq<u8> {
    le32_bytes(72u32) + le16_bytes(NL_TYPE_SOCK_DIAG) + le16_bytes(NL_FLAGS_REQUEST_DUMP)
        + le32_bytes(q.sequence) + le32_bytes(0u32) + seq![q.family, q.protocol, q.extensions, 0u8]
        + le32_bytes(q.states)
}

/// The exact 72 wire bytes of a dump request.
pub open spec fn encode_request(q: DumpRequest) -> Seq<u8> {
    encode_request_head(q) + Seq::new(48, |k: int| 0u8)
}

/// The request a byte buffer holds, if it is a well-formed dump request.
pub open spec fn parse_request(s: Seq<u8>) -> Option<DumpRequest> {
    if s.len() == 72 && le32(s, 0) == 72u32 && le16(s, 4) == NL_TYPE_SOCK_DIAG && le16(s, 6)
        == NL_FLAGS_REQUEST_DUMP {
        Some(
            DumpRequest {
                family: s[16],
                protocol: s[17],
                extensions: s[18],
                states: le32(s, 20),
                sequence: le32(s, 8),
            },
        )
    } else {
        None
    }
}

/// Encodes a dump request; the buffer holds exactly the declared wire length.
pub fn build_dump_request(q: &DumpRequest) -> (buf: Vec<u8>)
    ensures
        buf@ == encode_request(*q),
        buf@.len() == REQUEST_LEN,
{
    let mut buf: Vec<u8> = Vec::new();
    push_le32(&mut buf, 72u32);
    push_le16(&mut buf, NL_TYPE_SOCK_DIAG);
    push_le16(&mut buf, NL_FLAGS_REQUEST_DUMP);
    push_le32(&mut buf, q.sequence);
    push_le32(&mut buf, 0u32);
    buf.push(q.family);
    buf.push(q.protocol);
    buf.push(q.extensions);
    buf.push(0u8);
    push_le32(&mut buf, q.states);
    assert(buf@ =~= encode_request_head(*q));
    let mut k: usize = 0;
    while k < 48
        invariant
            0 <= k <= 48,
            buf@ =~= encode_request_head(*q) + Seq::new(k as nat, |j: int| 0u8),
        decreases 48 - k,
    {
        buf.push(0u8);
        k = k + 1;
        assert(buf@ =~= encode_request_head(*q) + Seq::new(k as nat, |j: int| 0u8));
    }
    assert(buf@ =~= encode_request(*q));
    buf
}

/// Decodes a buffer back into the request fields it encodes, if well formed.
pub fn parse_dump_request(buf: &Vec<u8>) -> (r: Option<DumpRequest>)
    ensures
        r == parse_request(buf@),
{
    if buf.len() != 72 {
        return None;
    }
    let len_field = read_le32(buf, 0);
    let ty = read_le16(buf, 4);
    let flags = read_le16(buf, 6);
    if len_field != 72 || ty != NL_TYPE_SOCK_DIAG || flags != NL_FLAGS_REQUEST_DUMP {
        return None;
    }
    Some(
        DumpRequest {
            family: buf[16],
            protocol: buf[17],
            extensions: buf[18],
            states: read_le32(buf, 20),
            sequence: read_le32(buf, 8),
        },
    )
}

/// Round trip: decoding an encoded request yields the same field values.
pub proof fn lemma_request_round_trip(q: DumpRequest)
    ensures
        parse_request(encode_request(q)) == Some(q),
{
    let e = encode_request(q);
    assert(e.len() == 72);
    assert(e[0] == le32_bytes(72u32)[0] && e[1] == le32_bytes(72u32)[1] && e[2] == le32_bytes(
        72u32,
    )[2] && e[3] == le32_bytes(72u32)[3]);
    lemma_le32_at(e, 0, 72u32);
    assert(e[4] == le16_bytes(NL_TYPE_SOCK_DIAG)[0] && e[5] == le16_bytes(NL_TYPE_SOCK_DIAG)[1]);
    lemma_le16_at(e, 4, NL_TYPE_SOCK_DIAG);
    assert(e[6] == le16_bytes(NL_FLAGS_REQUEST_DUMP)[0] && e[7] == le16_bytes(
        NL_FLAGS_REQUEST_DUMP,
    )[1]);
    lemma_le16_at(e, 6, NL_FLAGS_REQUEST_DUMP);
    assert(e[8] == le32_bytes(q.sequence)[0] && e[9] == le32_bytes(q.sequence)[1] && e[10]
        == le32_bytes(q.sequence)[2] && e[11] == le32_bytes(q.sequence)[3]);
    lemma_le32_at(e, 8, q.sequence);
    assert(e[16] == q.family && e[17] == q.protocol && e[18] == q.extensions);
    assert(e[20] == le32_bytes(q.states)[0] && e[21] == le32_bytes(q.states)[1] && e[22]
        == le32_bytes(q.states)[2] && e[23] == le32_bytes(q.states)[3]);
    lemma_le32_at(e, 20, q.states);
}

} // verus!
