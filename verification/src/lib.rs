//! Passive observer of the kernel's IPv4 TCP socket table.
//!
//! The library covers the verified core of the observer: building a
//! socket-diagnostics dump request, reassembling the multi-message response
//! stream into socket records, holding the resulting snapshot, and diffing
//! two snapshots into an ordered change list. The actual netlink channel and
//! the periodic scan loop live outside the library and only move plain bytes
//! in and out of it.

pub mod bytes;
pub mod record;
pub mod request;
pub mod snapshot;
pub mod diff;
pub mod session;
pub mod store;
