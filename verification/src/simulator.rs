//! The loopback responder: computes the transport-level response segments
//! for one parsed payload without touching any socket.  TCP handshakes are
//! answered locally, data-bearing segments are acknowledged and echoed with
//! a greeting, UDP payloads are echoed with the same greeting, and ICMP echo
//! requests get their reply.

use crate::icmp::icmp_reply;
use crate::internet::Payload;
use crate::internet::Protocol;
use crate::tcp::ACK;
use crate::tcp::FIN_ACK;
use crate::tcp::FlagClass;
use crate::tcp::PSH_ACK;
use crate::tcp::SYN_ACK;
use crate::tcp::Tcp;
use crate::tcp::spec_class;
use crate::tcp::tcp_response;
use crate::util::push_bytes;
use crate::util::views_match;
use vstd::prelude::*;

verus! {

/// The greeting the responder prefixes to echoed data: the bytes of
/// `"Hello "`.
pub open spec fn hello_bytes(p: Seq<u8>) -> Seq<u8> {
    seq![72u8, 101u8, 108u8, 108u8, 111u8, 32u8] + p
}

/// The responder's segments for one TCP segment, by flag class: a SYN (or
/// SYN with ECN setup) gets a SYN-ACK; a data-bearing segment gets an ACK
/// and an echo of its data behind the greeting, where that answer fits a
/// segment; a FIN-ACK gets an ACK and a FIN-ACK; everything else gets no
/// answer.
pub open spec fn tcp_sim_responses(t: Tcp) -> Seq<Seq<u8>> {
    let c = spec_class(t.header.flags);
    if c == FlagClass::SYN || c == FlagClass::SEW {
        seq![tcp_response(t, SYN_ACK, Seq::empty())]
    } else if c == FlagClass::PSH_ACK {
        if 4 * t.header.data_offset + 6 + t.payload@.len() <= 0xFFFF {
            seq![
                tcp_response(t, ACK, Seq::empty()),
                tcp_response(t, PSH_ACK, hello_bytes(t.payload@)),
            ]
        } else {
            Seq::empty()
        }
    } else if c == FlagClass::FIN_ACK {
        seq![tcp_response(t, ACK, Seq::empty()), tcp_response(t, FIN_ACK, Seq::empty())]
    } else {
        Seq::empty()
    }
}

/// The responder's segments for one payload.
pub open spec fn sim_responses(protocol: Protocol, packet: Payload) -> Seq<Seq<u8>> {
    match protocol {
        Protocol::TCP => match packet {
            Payload::Tcp(t) => tcp_sim_responses(t),
            _ => Seq::empty(),
        },
        Protocol::UDP => seq![hello_bytes(packet.spec_payload())],
        Protocol::ICMP => match packet {
            Payload::Icmp(i) => seq![icmp_reply(i)],
            _ => Seq::empty(),
        },
        Protocol::UNKNOWN => seq![Seq::empty()],
    }
}

/// Answers transport segments locally instead of contacting any upstream.
pub struct Simulator;

impl Simulator {
    /// The responder's segments for `packet`, dispatched on `protocol`.
    pub fn handle(protocol: &Protocol, packet: &Payload) -> (r: Vec<Vec<u8>>)
        requires
            packet.wf(),
        ensures
            views_match(r@, sim_responses(*protocol, *packet)),
    {
        match protocol {
            Protocol::TCP => Self::handle_tcp(packet),
            Protocol::UDP => Self::handle_udp(packet),
            Protocol::ICMP => Self::handle_icmp(packet),
            Protocol::UNKNOWN => {
                let mut r: Vec<Vec<u8>> = Vec::new();
                r.push(Vec::new());
                proof {
                    assert(views_match(r@, sim_responses(*protocol, *packet)));
                }
                r
            },
        }
    }

    /// Answers one TCP segment by its flag class.
    pub fn handle_tcp(tcp: &Payload) -> (r: Vec<Vec<u8>>)
        requires
            tcp.wf(),
        ensures
            tcp matches Payload::Tcp(t) ==> views_match(r@, tcp_sim_responses(*t)),
            !(tcp is Tcp) ==> r@.len() == 0,
    {
        let t = match tcp {
            Payload::Tcp(t) => t,
            _ => {
                return Vec::new();
            },
        };
        let mut r: Vec<Vec<u8>> = Vec::new();
        match tcp.flags_type().class() {
            FlagClass::SYN | FlagClass::SEW => {
                let empty: Vec<u8> = Vec::new();
                r.push(t.pack(&[SYN_ACK], empty.as_slice()));
            },
            FlagClass::PSH_ACK => {
                if 4 * (t.header.data_offset as usize) + 6 + t.payload.len() <= 0xFFFF {
                    let mut data: Vec<u8> = Vec::new();
                    data.push(72);
                    data.push(101);
                    data.push(108);
                    data.push(108);
                    data.push(111);
                    data.push(32);
                    push_bytes(&mut data, t.payload().as_slice());
                    proof {
                        assert(data@ =~= hello_bytes(t.payload@));
                    }
                    let empty: Vec<u8> = Vec::new();
                    r.push(t.pack(&[ACK], empty.as_slice()));
                    r.push(t.pack(&[PSH_ACK], data.as_slice()));
                }
            },
            FlagClass::FIN_ACK => {
                let empty: Vec<u8> = Vec::new();
                r.push(t.pack(&[ACK], empty.as_slice()));
                r.push(t.pack(&[FIN_ACK], empty.as_slice()));
            },
            _ => {},
        }
        r
    }

    /// Answers one UDP payload: the greeting followed by the payload bytes.
    pub fn handle_udp(udp: &Payload) -> (r: Vec<Vec<u8>>)
        ensures
            r@.len() == 1,
            r@[0]@ == hello_bytes(udp.spec_payload()),
    {
        let mut msg: Vec<u8> = Vec::new();
        msg.push(72);
        msg.push(101);
        msg.push(108);
        msg.push(108);
        msg.push(111);
        msg.push(32);
        push_bytes(&mut msg, udp.payload().as_slice());
        proof {
            assert(msg@ =~= hello_bytes(udp.spec_payload()));
        }
        let mut r: Vec<Vec<u8>> = Vec::new();
        r.push(msg);
        r
    }

    /// Answers one ICMP echo message with its reply.
    pub fn handle_icmp(icmp: &Payload) -> (r: Vec<Vec<u8>>)
        requires
            icmp.wf(),
        ensures
            icmp matches Payload::Icmp(i) ==> r@.len() == 1 && r@[0]@ == icmp_reply(*i),
            !(icmp is Icmp) ==> r@.len() == 0,
    {
        match icmp {
            Payload::Icmp(i) => {
                let empty: Vec<u8> = Vec::new();
                let mut r: Vec<Vec<u8>> = Vec::new();
                r.push(i.pack(empty.as_slice(), empty.as_slice()));
                r
            },
            _ => Vec::new(),
        }
    }
}

} // verus!
