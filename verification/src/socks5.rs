//! SOCKS5 wire framing: method negotiation and the CONNECT request/reply,
//! plus the header of a relayed UDP datagram.

pub mod negotiation;
pub mod request;
