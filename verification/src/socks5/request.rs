//! The SOCKS5 request/reply frame used for CONNECT, and the header that a
//! datagram on the UDP relay channel carries.

use crate::util::push_bytes;
use vstd::prelude::*;
use vstd::slice::slice_subrange;
use vstd::slice::slice_to_vec;

verus! {

/// A request or reply on the TCP control stream: version, command or reply
/// code, reserved byte, address type, address, port.
pub struct TcpMessage {
    pub ver: u8,
    pub opt: u8,
    pub rsv: u8,
    pub atyp: u8,
    pub addr: Vec<u8>,
    pub port: [u8; 2],
}

impl TcpMessage {
    /// A request with command `opt` for the destination `addr`:`port` of
    /// address type `atyp`.
    pub fn build_request(opt: u8, atyp: u8, addr: Vec<u8>, port: [u8; 2]) -> (r: TcpMessage)
        ensures
            r.ver == 5,
            r.opt == opt,
            r.rsv == 0,
            r.atyp == atyp,
            r.addr@ == addr@,
            r.port@ == port@,
    {
        TcpMessage { ver: 5, opt, rsv: 0, atyp, addr, port }
    }

    /// Reads a reply frame: the bound address is everything between the
    /// fixed four bytes and the trailing two port bytes.
    pub fn parse_reply(data: &[u8]) -> (r: TcpMessage)
        requires
            data@.len() >= 6,
        ensures
            r.ver == data@[0],
            r.opt == data@[1],
            r.rsv == data@[2],
            r.atyp == data@[3],
            r.addr@ == data@.subrange(4, data@.len() - 2),
            r.port@ == seq![data@[data@.len() - 2], data@[data@.len() - 1]],
    {
        let len = data.len();
        TcpMessage {
            ver: data[0],
            opt: data[1],
            rsv: data[2],
            atyp: data[3],
            addr: slice_to_vec(slice_subrange(data, 4, len - 2)),
            port: [data[len - 2], data[len - 1]],
        }
    }

    /// The wire bytes: the fixed four bytes, the address, the port.
    pub fn as_bytes(&self) -> (r: Vec<u8>)
        ensures
            r@ == seq![self.ver, self.opt, self.rsv, self.atyp] + self.addr@ + self.port@,
    {
        let mut bytes: Vec<u8> = Vec::new();
        bytes.push(self.ver);
        bytes.push(self.opt);
        bytes.push(self.rsv);
        bytes.push(self.atyp);
        push_bytes(&mut bytes, self.addr.as_slice());
        push_bytes(&mut bytes, self.port.as_slice());
        proof {
            assert(bytes@ =~= seq![self.ver, self.opt, self.rsv, self.atyp] + self.addr@
                + self.port@);
        }
        bytes
    }
}

/// The header carried by each datagram on the UDP relay channel: reserved
/// bytes, fragment number, address type, address, port, then the user data.
pub struct UdpMessage {
    pub rsv: [u8; 2],
    pub frag: u8,
    pub atyp: u8,
    pub addr: Vec<u8>,
    pub port: [u8; 2],
    pub data: Vec<u8>,
}

impl UdpMessage {
    /// A relay datagram for `addr`:`port` of address type `atyp` carrying
    /// `data`, with reserved bytes and fragment number zero.
    pub fn new(atyp: u8, addr: &[u8], port: [u8; 2], data: &[u8]) -> (r: UdpMessage)
        ensures
            r.rsv@ == seq![0u8, 0u8],
            r.frag == 0,
            r.atyp == atyp,
            r.addr@ == addr@,
            r.port@ == port@,
            r.data@ == data@,
    {
        let r = UdpMessage {
            rsv: [0, 0],
            frag: 0,
            atyp,
            addr: slice_to_vec(addr),
            port,
            data: slice_to_vec(data),
        };
        proof {
            assert(r.rsv@ =~= seq![0u8, 0u8]);
        }
        r
    }
}

} // verus!
