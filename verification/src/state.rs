//! The indexed state messages of the single state channel: each message
//! names the worker slot it is about.

use vstd::prelude::*;

verus! {

/// A state report from one worker slot: its index and the report itself.
pub struct StateMessage(pub usize, pub State);

/// What a worker reports: response bytes to emit, a named per-protocol
/// state, or that it went idle.
#[allow(non_camel_case_types)]
#[derive(Debug)]
pub enum State {
    MESSAGE(u8, Vec<u8>),
    TCP(String, TcpState),
    UDP(String, UdpState),
    ICMP(String, IcmpState),
    IDLE,
}

/// Where a TCP flow stands.
#[derive(Clone, Copy, Debug, PartialEq, Eq, Structural)]
pub enum TcpState {
    SynAckWait,
    Communication,
    FinWait,
    RstWait,
    Destroy,
}

/// Where a UDP flow stands.
#[derive(Clone, Copy, Debug, PartialEq, Eq, Structural)]
pub enum UdpState {
    Communication,
    Destroy,
}

/// Where an ICMP flow stands.
#[derive(Clone, Copy, Debug, PartialEq, Eq, Structural)]
pub enum IcmpState {
    Communication,
    Destroy,
}

} // verus!
