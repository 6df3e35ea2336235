//! The socket record produced by the transport and its state names.

use vstd::prelude::*;

verus! {

/// One IPv4 TCP socket as reported by one diagnostic response record.
///
/// The inode is the kernel's identifier for the socket and keys a snapshot;
/// `state` is the raw connection-state byte (1 through 11 name the canonical
/// TCP states, anything else is unknown). Ports and addresses are the plain
/// host-order values read from the wire.
#[derive(PartialEq, Eq, Structural, Clone, Copy, Debug)]
pub struct SocketRecord {
    pub inode: u32,
    pub uid: u32,
    pub state: u8,
    pub src_addr: u32,
    pub src_port: u16,
    pub dst_addr: u32,
    pub dst_port: u16,
}

/// The canonical name of a connection-state byte; empty for unknown values.
pub open spec fn state_name(state: u8) -> Seq<char> {
    if state == 1 {
        "TCP_ESTABLISHED"@
    } else if state == 2 {
        "TCP_SYN_SENT"@
    } else if state == 3 {
        "TCP_SYN_RECV"@
    } else if state == 4 {
        "TCP_FIN_WAIT1"@
    } else if state == 5 {
        "TCP_FIN_WAIT2"@
    } else if state == 6 {
        "TCP_TIME_WAIT"@
    } else if state == 7 {
        "TCP_CLOSE"@
    } else if state == 8 {
        "TCP_CLOSE_WAIT"@
    } else if state == 9 {
        "TCP_LAST_ACK"@
    } else if state == 10 {
        "TCP_LISTEN"@
    } else if state == 11 {
        "TCP_CLOSING"@
    } else {
        ""@
    }
}

/// Resolves a connection-state byte to its canonical name.
pub fn get_state_string(state: u8) -> (r: String)
    ensures
        r@ == state_name(state),
{
    let s: &str = if state == 1 {
        "TCP_ESTABLISHED"
    } else if state == 2 {
        "TCP_SYN_SENT"
    } else if state == 3 {
        "TCP_SYN_RECV"
    } else if state == 4 {
        "TCP_FIN_WAIT1"
    } else if state == 5 {
        "TCP_FIN_WAIT2"
    } else if state == 6 {
        "TCP_TIME_WAIT"
    } else if state == 7 {
        "TCP_CLOSE"
    } else if state == 8 {
        "TCP_CLOSE_WAIT"
    } else if state == 9 {
        "TCP_LAST_ACK"
    } else if state == 10 {
        "TCP_LISTEN"
    } else if state == 11 {
        "TCP_CLOSING"
    } else {
        ""
    };
    s.to_string()
}

} // verus!
