//! Per-run configuration for the capture workers: the optional packet
//! limit and the optional required peer address.

use vstd::prelude::*;

verus! {

/// A peer address, as the source filter compares it: the IP address held
/// as its numeric value (an IPv4 address in the low 32 bits) and the port.
#[derive(Clone, Copy, Debug, PartialEq, Eq, Structural)]
pub struct PeerAddr {
    pub is_v6: bool,
    pub ip: u128,
    pub port: u16,
}

/// Options for one capture run, fixed before the run starts: an optional
/// cap on accepted packets, and an optional required source address
/// (datagrams from any other source are discarded silently).
#[derive(Clone, Copy, Debug)]
pub struct FuncOpts {
    pub packet_limit: Option<usize>,
    pub opponent_addr: Option<PeerAddr>,
}

} // verus!
