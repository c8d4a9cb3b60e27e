//! User-space TUN-to-SOCKS5 packet relay: the verified core.
//!
//! The library holds the flow dispatcher, the per-flow decision pipeline and
//! the transport codecs: parsing and building of IPv4, TCP, UDP and ICMP
//! frames with one's-complement checksums, SOCKS5 request framing, the
//! responder state machine, and the slot pool that routes datagrams to
//! workers by flow fingerprint.  Everything that touches a descriptor or a
//! socket lives outside, hands the library plain byte values and takes plain
//! byte values back.

pub mod checksum;
pub mod dispatch;
pub mod events;
pub mod flow;
pub mod icmp;
pub mod internet;
pub mod pool;
pub mod simulator;
pub mod socks5;
pub mod state;
pub mod tcp;
pub mod udp;
pub mod util;
