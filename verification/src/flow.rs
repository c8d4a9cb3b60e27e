//! The decisions of the worker pipeline and the ingress loop, as pure
//! functions from an outside outcome to the events the worker emits.  The
//! blocking work itself — connecting, reading, writing — happens outside;
//! only its outcome comes back in, so every decision holds for every value
//! the outside can produce.

use crate::events::Event;
use crate::events::TcpState;
use crate::icmp::Icmp;
use crate::icmp::icmp_reply;
use crate::internet::Datagram;
use crate::internet::dgram_parse_ok;
use crate::tcp::ACK;
use crate::tcp::PSH_ACK;
use crate::tcp::RST;
use crate::tcp::SYN_ACK;
use vstd::prelude::*;

verus! {

/// The size of an ingress read buffer.
pub const MTU: usize = 1500;

/// The outcome of one upstream read or receive: bytes arrived, the peer
/// closed, or the read failed.
pub enum ReadOutcome {
    Data(Vec<u8>),
    Closed,
    Failed,
}

/// Opening a TCP flow from its first payload: a successful upstream connect
/// answers the host stack with a SYN-ACK and moves the flow to the
/// SYN-ACK-wait state; a failed connect resets the flow and releases the
/// slot.
pub fn tcp_open_events(connect_ok: bool) -> (r: Vec<Event>)
    ensures
        r@.len() == 2,
        connect_ok ==> (r@[0] matches Event::MESSAGE(f, b) && f == SYN_ACK && b@.len() == 0)
            && r@[1] == Event::TCP(TcpState::SynAckWait),
        !connect_ok ==> (r@[0] matches Event::MESSAGE(f, b) && f == RST && b@.len() == 0)
            && r@[1] is IDLE,
{
    let mut r: Vec<Event> = Vec::new();
    if connect_ok {
        r.push(Event::MESSAGE(SYN_ACK, Vec::new()));
        r.push(Event::TCP(TcpState::SynAckWait));
    } else {
        r.push(Event::MESSAGE(RST, Vec::new()));
        r.push(Event::IDLE);
    }
    r
}

/// Writing an incoming payload to the existing upstream socket: success is
/// acknowledged to the host stack; failure resets the flow and releases the
/// slot.
pub fn tcp_write_events(write_ok: bool) -> (r: Vec<Event>)
    ensures
        write_ok ==> r@.len() == 1 && (r@[0] matches Event::MESSAGE(f, b) && f == ACK && b@.len()
            == 0),
        !write_ok ==> r@.len() == 2 && (r@[0] matches Event::MESSAGE(f, b) && f == RST && b@.len()
            == 0) && r@[1] is IDLE,
{
    let mut r: Vec<Event> = Vec::new();
    if write_ok {
        r.push(Event::MESSAGE(ACK, Vec::new()));
    } else {
        r.push(Event::MESSAGE(RST, Vec::new()));
        r.push(Event::IDLE);
    }
    r
}

/// One step of the TCP reader task: bytes from upstream travel to the host
/// stack as a data-bearing segment and the loop goes on; end of stream or a
/// read error resets the flow and ends the loop.
pub fn tcp_reader_step(outcome: ReadOutcome) -> (r: (Vec<Event>, bool))
    ensures
        match outcome {
            ReadOutcome::Data(d) => if d@.len() > 0 {
                r.1 && r.0@.len() == 1 && (r.0@[0] matches Event::MESSAGE(f, b) && f == PSH_ACK
                    && b@ == d@)
            } else {
                !r.1 && r.0@.len() == 1 && (r.0@[0] matches Event::MESSAGE(f, b) && f == RST
                    && b@.len() == 0)
            },
            _ => !r.1 && r.0@.len() == 1 && (r.0@[0] matches Event::MESSAGE(f, b) && f == RST
                && b@.len() == 0),
        },
{
    let mut events: Vec<Event> = Vec::new();
    match outcome {
        ReadOutcome::Data(d) => {
            if d.len() > 0 {
                events.push(Event::MESSAGE(PSH_ACK, d));
                (events, true)
            } else {
                events.push(Event::MESSAGE(RST, Vec::new()));
                (events, false)
            }
        },
        _ => {
            events.push(Event::MESSAGE(RST, Vec::new()));
            (events, false)
        },
    }
}

/// One step of the SOCKS5 receive task: bytes travel on as a data-bearing
/// segment; a zero-length read emits nothing and ends the task; a read
/// error resets the flow and ends the task.
pub fn socks_reader_step(outcome: ReadOutcome) -> (r: (Vec<Event>, bool))
    ensures
        match outcome {
            ReadOutcome::Data(d) => if d@.len() > 0 {
                r.1 && r.0@.len() == 1 && (r.0@[0] matches Event::MESSAGE(f, b) && f == PSH_ACK
                    && b@ == d@)
            } else {
                !r.1 && r.0@.len() == 0
            },
            ReadOutcome::Closed => !r.1 && r.0@.len() == 0,
            ReadOutcome::Failed => !r.1 && r.0@.len() == 1 && (r.0@[0] matches Event::MESSAGE(
                f,
                b,
            ) && f == RST && b@.len() == 0),
        },
{
    let mut events: Vec<Event> = Vec::new();
    match outcome {
        ReadOutcome::Data(d) => {
            if d.len() > 0 {
                events.push(Event::MESSAGE(PSH_ACK, d));
                (events, true)
            } else {
                (events, false)
            }
        },
        ReadOutcome::Closed => (events, false),
        ReadOutcome::Failed => {
            events.push(Event::MESSAGE(RST, Vec::new()));
            (events, false)
        },
    }
}

/// Judges a SOCKS5 CONNECT reply code: zero succeeds; any other code fails
/// the flow, carrying the code.
pub fn socks_connect_check(rep: u8) -> (r: Result<(), u8>)
    ensures
        r is Ok <==> rep == 0,
        r matches Err(e) ==> e == rep,
{
    if rep == 0 {
        Ok(())
    } else {
        Err(rep)
    }
}

/// Opening a UDP flow from its first payload: a failed bind drops the
/// payload silently; a failed connect or send releases the slot; on success
/// the reader task starts.
pub fn udp_open_events(bind_ok: bool, connect_ok: bool, send_ok: bool) -> (r: (Vec<Event>, bool))
    ensures
        !bind_ok ==> !r.1 && r.0@.len() == 0,
        bind_ok && !connect_ok ==> !r.1 && r.0@.len() == 1 && r.0@[0] is IDLE,
        bind_ok && connect_ok && !send_ok ==> !r.1 && r.0@.len() == 1 && r.0@[0] is IDLE,
        bind_ok && connect_ok && send_ok ==> r.1 && r.0@.len() == 0,
{
    let mut events: Vec<Event> = Vec::new();
    if !bind_ok {
        return (events, false);
    }
    if !connect_ok || !send_ok {
        events.push(Event::IDLE);
        return (events, false);
    }
    (events, true)
}

/// Sending a later payload on the existing UDP socket: a failure releases
/// the slot.
pub fn udp_send_events(send_ok: bool) -> (r: Vec<Event>)
    ensures
        send_ok ==> r@.len() == 0,
        !send_ok ==> r@.len() == 1 && r@[0] is IDLE,
{
    let mut r: Vec<Event> = Vec::new();
    if !send_ok {
        r.push(Event::IDLE);
    }
    r
}

/// One step of the UDP reader task: every received datagram travels to the
/// host stack as a UDP reply (flag byte zero); a receive error releases the
/// slot and ends the loop.
pub fn udp_reader_step(outcome: ReadOutcome) -> (r: (Vec<Event>, bool))
    ensures
        outcome matches ReadOutcome::Data(d) ==> r.1 && r.0@.len() == 1 && (r.0@[0] matches
            Event::MESSAGE(f, b) && f == 0 && b@ == d@),
        outcome is Closed || outcome is Failed ==> !r.1 && r.0@.len() == 1 && r.0@[0] is IDLE,
{
    let mut events: Vec<Event> = Vec::new();
    match outcome {
        ReadOutcome::Data(d) => {
            events.push(Event::MESSAGE(0, d));
            (events, true)
        },
        _ => {
            events.push(Event::IDLE);
            (events, false)
        },
    }
}

/// Answering an ICMP payload: an echo request gets its reply synchronously,
/// with no upstream contact; every other ICMP type is not implemented and
/// gets nothing.
pub fn icmp_events(icmp: &Icmp) -> (r: Vec<Event>)
    requires
        icmp.wf(),
    ensures
        icmp.header.tp == 8 ==> r@.len() == 1 && (r@[0] matches Event::MESSAGE(f, b) && f == 0
            && b@ == icmp_reply(*icmp)),
        icmp.header.tp != 8 ==> r@.len() == 0,
{
    let mut r: Vec<Event> = Vec::new();
    if icmp.header.tp == 8 {
        let empty: Vec<u8> = Vec::new();
        r.push(Event::MESSAGE(0, icmp.pack(empty.as_slice(), empty.as_slice())));
    }
    r
}

/// What the ingress loop does with one read.
pub enum IngressAction {
    /// Leave the loop: the relay is stopping or the descriptor is drained.
    Exit,
    /// Ignore this frame and read again.
    Discard,
    /// Hand this datagram to the pool.
    Deliver(Datagram),
}

/// One cycle of the ingress loop: once the running flag is cleared the loop
/// exits, whatever was read; an empty read exits; a frame shorter than a
/// fixed header, one whose version is not 4, or one that does not parse is
/// discarded; everything else is delivered parsed.
pub fn ingress_step(running: bool, frame: &[u8]) -> (r: IngressAction)
    requires
        frame@.len() <= 0xFFFF,
    ensures
        !running ==> r is Exit,
        running && frame@.len() == 0 ==> r is Exit,
        running && 0 < frame@.len() < 20 ==> r is Discard,
        running && frame@.len() >= 20 && frame@[0] / 16 != 4 ==> r is Discard,
        running && frame@.len() >= 20 && frame@[0] / 16 == 4 ==> (if dgram_parse_ok(frame@) {
            r matches IngressAction::Deliver(d) && d.parsed_from(frame@) && d.wf()
        } else {
            r is Discard
        }),
{
    if !running {
        return IngressAction::Exit;
    }
    if frame.len() == 0 {
        return IngressAction::Exit;
    }
    if frame.len() < 20 {
        return IngressAction::Discard;
    }
    if frame[0] / 16 != 4 {
        return IngressAction::Discard;
    }
    match Datagram::new(frame) {
        Ok(d) => IngressAction::Deliver(d),
        Err(_) => IngressAction::Discard,
    }
}

/// Frames an outbound IPv4 packet for the TUN descriptor: platforms with an
/// address-family preamble get the four IPv4 preamble bytes prepended.
pub fn frame_for_tun(packet: &[u8], preamble: bool) -> (r: Vec<u8>)
    ensures
        preamble ==> r@ == seq![0u8, 0u8, 0u8, 2u8] + packet@,
        !preamble ==> r@ == packet@,
{
    let mut r: Vec<u8> = Vec::new();
    if preamble {
        r.push(0);
        r.push(0);
        r.push(0);
        r.push(2);
    }
    crate::util::push_bytes(&mut r, packet);
    proof {
        if preamble {
            assert(r@ =~= seq![0u8, 0u8, 0u8, 2u8] + packet@);
        } else {
            assert(r@ =~= packet@);
        }
    }
    r
}

/// Unframes an inbound TUN read: platforms with an address-family preamble
/// have the four preamble bytes stripped before parsing.
pub fn strip_tun_preamble(frame: &[u8], preamble: bool) -> (r: &[u8])
    requires
        preamble ==> frame@.len() >= 4,
    ensures
        preamble ==> r@ == frame@.skip(4),
        !preamble ==> r@ == frame@,
{
    if preamble {
        vstd::slice::slice_subrange(frame, 4, frame.len())
    } else {
        frame
    }
}

} // verus!
