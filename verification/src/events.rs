//! The typed messages workers send to the output pump, and the per-protocol
//! flow states they report.

use vstd::prelude::*;

verus! {

/// A worker-to-pump message.  `MESSAGE` asks the pump to emit a transport
/// segment with the given flag byte (ignored for UDP) carrying the given
/// bytes; the state variants are stored on the worker's slot; `LOG` is
/// forwarded to the log sink; `IDLE` releases the slot's binding.
#[allow(non_camel_case_types)]
#[derive(Debug)]
pub enum Event {
    MESSAGE(u8, Vec<u8>),
    TCP(TcpState),
    UDP(UdpState),
    ICMP(IcmpState),
    LOG(String),
    IDLE,
}

/// Where a TCP flow stands.
#[derive(Clone, Copy, Debug, PartialEq, Eq, Structural)]
pub enum TcpState {
    SynAckWait,
    Communication,
    FinWait,
    RstWait,
    Destroy,
}

/// Where a UDP flow stands.
#[derive(Clone, Copy, Debug, PartialEq, Eq, Structural)]
pub enum UdpState {
    Communication,
    Destroy,
}

/// Where an ICMP flow stands.
#[derive(Clone, Copy, Debug, PartialEq, Eq, Structural)]
pub enum IcmpState {
    Communication,
    Destroy,
}

} // verus!
