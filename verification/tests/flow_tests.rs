use tun2socks::dispatch::dispatch;
use tun2socks::events::Event;
use tun2socks::events::TcpState;
use tun2socks::flow::IngressAction;
use tun2socks::flow::ReadOutcome;
use tun2socks::flow::frame_for_tun;
use tun2socks::flow::icmp_events;
use tun2socks::flow::ingress_step;
use tun2socks::flow::socks_reader_step;
use tun2socks::flow::strip_tun_preamble;
use tun2socks::flow::tcp_open_events;
use tun2socks::flow::tcp_reader_step;
use tun2socks::flow::tcp_write_events;
use tun2socks::flow::udp_open_events;
use tun2socks::flow::udp_reader_step;
use tun2socks::flow::udp_send_events;
use tun2socks::icmp::Icmp;
use tun2socks::internet::Datagram;
use tun2socks::tcp::ACK;
use tun2socks::tcp::PSH_ACK;
use tun2socks::tcp::RST;
use tun2socks::tcp::SYN_ACK;

#[test]
fn tcp_open_decisions() {
    let on_success = tcp_open_events(true);
    assert!(matches!(&on_success[0], Event::MESSAGE(f, b) if *f == SYN_ACK && b.is_empty()));
    assert!(matches!(&on_success[1], Event::TCP(TcpState::SynAckWait)));
    let on_failure = tcp_open_events(false);
    assert!(matches!(&on_failure[0], Event::MESSAGE(f, b) if *f == RST && b.is_empty()));
    assert!(matches!(&on_failure[1], Event::IDLE));
}

#[test]
fn tcp_write_decisions() {
    let on_success = tcp_write_events(true);
    assert_eq!(on_success.len(), 1);
    assert!(matches!(&on_success[0], Event::MESSAGE(f, _) if *f == ACK));
    let on_failure = tcp_write_events(false);
    assert!(matches!(&on_failure[0], Event::MESSAGE(f, _) if *f == RST));
    assert!(matches!(&on_failure[1], Event::IDLE));
}

#[test]
fn tcp_reader_decisions() {
    let (events, go_on) = tcp_reader_step(ReadOutcome::Data(vec![1, 2]));
    assert!(go_on);
    assert!(matches!(&events[0], Event::MESSAGE(f, b) if *f == PSH_ACK && b == &vec![1, 2]));
    let (events, go_on) = tcp_reader_step(ReadOutcome::Closed);
    assert!(!go_on);
    assert!(matches!(&events[0], Event::MESSAGE(f, _) if *f == RST));
    let (events, go_on) = tcp_reader_step(ReadOutcome::Failed);
    assert!(!go_on);
    assert!(matches!(&events[0], Event::MESSAGE(f, _) if *f == RST));
}

#[test]
fn socks_reader_decisions() {
    let (events, go_on) = socks_reader_step(ReadOutcome::Data(vec![9]));
    assert!(go_on);
    assert!(matches!(&events[0], Event::MESSAGE(f, b) if *f == PSH_ACK && b == &vec![9]));
    let (events, go_on) = socks_reader_step(ReadOutcome::Closed);
    assert!(!go_on);
    assert!(events.is_empty());
    let (events, go_on) = socks_reader_step(ReadOutcome::Failed);
    assert!(!go_on);
    assert!(matches!(&events[0], Event::MESSAGE(f, _) if *f == RST));
}

#[test]
fn udp_decisions() {
    let (events, proceed) = udp_open_events(false, false, false);
    assert!(!proceed && events.is_empty());
    let (events, proceed) = udp_open_events(true, false, true);
    assert!(!proceed);
    assert!(matches!(&events[0], Event::IDLE));
    let (events, proceed) = udp_open_events(true, true, true);
    assert!(proceed && events.is_empty());

    assert!(udp_send_events(true).is_empty());
    assert!(matches!(&udp_send_events(false)[0], Event::IDLE));

    let (events, go_on) = udp_reader_step(ReadOutcome::Data(vec![7, 7]));
    assert!(go_on);
    assert!(matches!(&events[0], Event::MESSAGE(f, b) if *f == 0 && b == &vec![7, 7]));
    let (events, go_on) = udp_reader_step(ReadOutcome::Failed);
    assert!(!go_on);
    assert!(matches!(&events[0], Event::IDLE));
}

#[test]
fn icmp_decisions() {
    let request = Icmp::new(&[8, 0, 0, 0, 0xAB, 0xCD, 0, 7, 1, 2, 3]).unwrap();
    let events = icmp_events(&request);
    assert_eq!(events.len(), 1);
    match &events[0] {
        Event::MESSAGE(flag, reply) => {
            assert_eq!(*flag, 0);
            assert_eq!(reply[0], 0);
            assert_eq!(&reply[4..6], &[0xAB, 0xCD]);
        },
        _ => panic!("expected a response message"),
    }
    let other = Icmp::new(&[13, 0, 0, 0, 0, 0, 0, 0]).unwrap();
    assert!(icmp_events(&other).is_empty());
}

fn small_udp_datagram() -> Vec<u8> {
    vec![
        0x45, 0, 0, 32, 0, 1, 64, 0, 64, 17, 0, 0, 10, 0, 2, 16, 192, 168, 1, 1, 0x13, 0x88, 0,
        53, 0, 12, 0, 0, 112, 105, 110, 103,
    ]
}

// Shutdown: once the running flag is cleared the ingress loop exits on its
// next cycle, whatever was read.
#[test]
fn ingress_exits_on_stop() {
    assert!(matches!(ingress_step(false, &small_udp_datagram()), IngressAction::Exit));
    assert!(matches!(ingress_step(true, &[]), IngressAction::Exit));
}

#[test]
fn ingress_validates() {
    assert!(matches!(ingress_step(true, &[0x45, 0, 0]), IngressAction::Discard));
    let mut v6 = small_udp_datagram();
    v6[0] = 0x60;
    assert!(matches!(ingress_step(true, &v6), IngressAction::Discard));
    let mut bad = small_udp_datagram();
    bad[0] = 0x42;
    assert!(matches!(ingress_step(true, &bad), IngressAction::Discard));
    match ingress_step(true, &small_udp_datagram()) {
        IngressAction::Deliver(d) => assert_eq!(d.to_bytes(), small_udp_datagram()),
        _ => panic!("expected delivery"),
    }
}

#[test]
fn tun_framing() {
    let packet = vec![0x45, 1, 2, 3];
    assert_eq!(frame_for_tun(&packet, false), packet);
    let framed = frame_for_tun(&packet, true);
    assert_eq!(framed, vec![0, 0, 0, 2, 0x45, 1, 2, 3]);
    assert_eq!(strip_tun_preamble(&framed, true), &packet[..]);
    assert_eq!(strip_tun_preamble(&packet, false), &packet[..]);
}

// The loopback pipeline answers a UDP datagram with one frame carrying the
// raw greeting; transport framing is the pump path's job.
#[test]
fn dispatch_udp() {
    let (d, frames) = dispatch(&small_udp_datagram()).unwrap();
    assert_eq!(d.to_bytes(), small_udp_datagram());
    assert_eq!(frames.len(), 1);
    let frame = &frames[0];
    assert_eq!(&frame[2..4], &[0, 30]);
    assert_eq!(&frame[12..16], &[192, 168, 1, 1]);
    assert_eq!(&frame[16..20], &[10, 0, 2, 16]);
    assert!(Datagram::verify_checksum(&frame[..20].to_vec()));
    assert_eq!(&frame[20..], b"Hello ping");
}

// The loopback pipeline answers a SYN with one SYN-ACK frame and drops an
// unrecognised protocol.
#[test]
fn dispatch_tcp_and_unknown() {
    let mut syn = vec![
        0x45, 0, 0, 40, 0, 1, 64, 0, 64, 6, 0, 0, 10, 0, 2, 16, 192, 168, 1, 1,
    ];
    syn.extend_from_slice(&[
        0x13, 0x88, 0, 80, 0, 0, 0, 5, 0, 0, 0, 0, 0x50, 0x02, 16, 0, 0, 0, 0, 0,
    ]);
    let (_, frames) = dispatch(&syn).unwrap();
    assert_eq!(frames.len(), 1);
    assert_eq!(frames[0][33], SYN_ACK);
    assert_eq!(&frames[0][24..28], &3001u32.to_be_bytes());

    let mut unknown = syn.clone();
    unknown[9] = 47;
    let (_, frames) = dispatch(&unknown).unwrap();
    assert!(frames.is_empty());
}

// A data-bearing segment gets an ACK and the greeting echo.
#[test]
fn dispatch_tcp_data() {
    let payload = b"hey";
    let total = 40 + payload.len();
    let mut seg = vec![
        0x45, 0, 0, total as u8, 0, 1, 64, 0, 64, 6, 0, 0, 10, 0, 2, 16, 192, 168, 1, 1,
    ];
    seg.extend_from_slice(&[
        0x13, 0x88, 0, 80, 0, 0, 0, 5, 0, 0, 2, 0, 0x50, 0x18, 16, 0, 0, 0, 0, 0,
    ]);
    seg.extend_from_slice(payload);
    let (_, frames) = dispatch(&seg).unwrap();
    assert_eq!(frames.len(), 2);
    assert_eq!(frames[0][33], ACK);
    assert_eq!(frames[1][33], PSH_ACK);
    assert_eq!(&frames[1][40..], b"Hello hey");
    // The acknowledgement advances by the three payload bytes.
    assert_eq!(&frames[0][28..32], &8u32.to_be_bytes());
}
