use tun2socks::events::Event;
use tun2socks::events::TcpState;
use tun2socks::internet::Datagram;
use tun2socks::pool::Pool;
use tun2socks::pool::PumpAction;
use tun2socks::simulator::Simulator;

fn ip_datagram(protocol: u8, src_port: u16, transport_rest: &[u8]) -> Vec<u8> {
    let mut transport = src_port.to_be_bytes().to_vec();
    transport.extend_from_slice(transport_rest);
    let total = 20 + transport.len();
    let mut bytes = vec![
        0x45,
        0,
        (total / 256) as u8,
        (total % 256) as u8,
        0,
        1,
        64,
        0,
        64,
        protocol,
        0,
        0,
        10,
        0,
        2,
        16,
        192,
        168,
        1,
        1,
    ];
    bytes.extend_from_slice(&transport);
    bytes
}

fn tcp_syn(src_port: u16) -> Vec<u8> {
    // 20-byte header, SYN, sequence number 5.
    ip_datagram(
        6,
        src_port,
        &[0, 80, 0, 0, 0, 5, 0, 0, 0, 0, 0x50, 0x02, 16, 0, 0, 0, 0, 0],
    )
}

fn udp_ping(src_port: u16) -> Vec<u8> {
    let mut rest = vec![0, 53, 0, 12, 0, 0];
    rest.extend_from_slice(b"ping");
    ip_datagram(17, src_port, &rest)
}

// Scenario: flow reuse.  Two segments with the same fingerprint bind exactly
// one slot, and the second routes to the same slot.
#[test]
fn flow_reuse() {
    let mut pool = Pool::new(10);
    let first = pool.execute(Datagram::new(&tcp_syn(5000)).unwrap());
    assert_eq!(first, Some(0));
    let bound: Vec<usize> =
        (0..pool.slots.len()).filter(|i| pool.slots[*i].fingerprint.is_some()).collect();
    assert_eq!(bound, vec![0]);
    let second = pool.execute(Datagram::new(&tcp_syn(5000)).unwrap());
    assert_eq!(second, first);
    let bound: Vec<usize> =
        (0..pool.slots.len()).filter(|i| pool.slots[*i].fingerprint.is_some()).collect();
    assert_eq!(bound, vec![0]);
}

// A new fingerprint takes the first free slot and displaces no binding.
#[test]
fn new_flow_never_displaces() {
    let mut pool = Pool::new(3);
    assert_eq!(pool.execute(Datagram::new(&tcp_syn(5000)).unwrap()), Some(0));
    assert_eq!(pool.execute(Datagram::new(&tcp_syn(5001)).unwrap()), Some(1));
    let fp0 = pool.slots[0].fingerprint;
    let fp1 = pool.slots[1].fingerprint;
    assert_eq!(pool.execute(Datagram::new(&tcp_syn(5002)).unwrap()), Some(2));
    assert_eq!(pool.slots[0].fingerprint, fp0);
    assert_eq!(pool.slots[1].fingerprint, fp1);
    // The pool is full: a fourth flow is dropped and nothing changes.
    assert_eq!(pool.execute(Datagram::new(&tcp_syn(5003)).unwrap()), None);
    assert_eq!(pool.slots[0].fingerprint, fp0);
}

// A released slot is reused for the next new flow.
#[test]
fn idle_releases_slot() {
    let mut pool = Pool::new(2);
    assert_eq!(pool.execute(Datagram::new(&tcp_syn(5000)).unwrap()), Some(0));
    assert!(matches!(pool.apply_event(0, Event::IDLE), PumpAction::Nothing));
    assert!(pool.slots[0].fingerprint.is_none());
    assert!(pool.slots[0].datagram.is_none());
    assert_eq!(pool.execute(Datagram::new(&tcp_syn(6000)).unwrap()), Some(0));
}

// A state report is stored on the bound slot.
#[test]
fn state_report_stored() {
    let mut pool = Pool::new(2);
    pool.execute(Datagram::new(&tcp_syn(5000)).unwrap());
    pool.apply_event(0, Event::TCP(TcpState::Communication));
    assert!(matches!(pool.slots[0].state, Event::TCP(TcpState::Communication)));
    // On an unbound slot the report is ignored.
    pool.apply_event(1, Event::TCP(TcpState::Communication));
    assert!(matches!(pool.slots[1].state, Event::IDLE));
}

// A log event is forwarded to the sink untouched.
#[test]
fn log_forwarded() {
    let mut pool = Pool::new(1);
    match pool.apply_event(0, Event::LOG(String::from("bind success"))) {
        PumpAction::Forward(s) => assert_eq!(s, "bind success"),
        _ => panic!("log not forwarded"),
    }
}

// Scenario: UDP reply synthesis.  The worker answers a UDP payload with the
// greeting, and the pump wraps it into a datagram with swapped ports, the
// right length, a valid checksum, and the original source as destination.
#[test]
fn udp_reply_synthesis() {
    let mut pool = Pool::new(4);
    let datagram = Datagram::new(&udp_ping(5000)).unwrap();
    let responses = Simulator::handle_udp(&datagram.payload);
    assert_eq!(responses.len(), 1);
    assert_eq!(responses[0], b"Hello ping");

    let slot = pool.execute(datagram).unwrap();
    let frame = match pool.apply_event(slot, Event::MESSAGE(0, responses[0].clone())) {
        PumpAction::Emit(frame) => frame,
        _ => panic!("no frame emitted"),
    };
    // IPv4 around it: swapped addresses, correct total length, valid header
    // checksum.
    assert_eq!(frame.len(), 20 + 8 + 10);
    assert_eq!(&frame[2..4], &[0, 38]);
    assert_eq!(&frame[12..16], &[192, 168, 1, 1]);
    assert_eq!(&frame[16..20], &[10, 0, 2, 16]);
    assert!(Datagram::verify_checksum(&frame[..20].to_vec()));
    // The UDP reply inside: swapped ports, length 8 + 6 + |payload|, the
    // greeting, and a checksum that verifies against the pseudo-header.
    assert_eq!(&frame[20..22], &[0, 53]);
    assert_eq!(&frame[22..24], &5000u16.to_be_bytes());
    assert_eq!(&frame[24..26], &[0, 18]);
    assert_eq!(&frame[28..], b"Hello ping");
    let mut check = vec![10, 0, 2, 16, 192, 168, 1, 1, 0, 17, 0, 18];
    check.extend_from_slice(&frame[20..]);
    assert!(Datagram::verify_checksum(&check));
}

// A response message on a slot with no stored datagram emits nothing.
#[test]
fn message_without_datagram() {
    let mut pool = Pool::new(1);
    assert!(matches!(
        pool.apply_event(0, Event::MESSAGE(0, vec![1, 2, 3])),
        PumpAction::Nothing
    ));
}

// A response that cannot fit a transport's 16-bit length field is dropped,
// not mangled.
#[test]
fn message_too_large() {
    let mut pool = Pool::new(1);
    let slot = pool.execute(Datagram::new(&udp_ping(5000)).unwrap()).unwrap();
    let oversized = vec![0u8; 0x10000];
    assert!(matches!(
        pool.apply_event(slot, Event::MESSAGE(0, oversized)),
        PumpAction::Nothing
    ));
}

// Shutdown drains the pool: every slot is dropped.
#[test]
fn shutdown_drains() {
    let mut pool = Pool::new(10);
    pool.execute(Datagram::new(&tcp_syn(5000)).unwrap());
    pool.execute(Datagram::new(&udp_ping(6000)).unwrap());
    pool.stop();
    assert_eq!(pool.slots.len(), 0);
}
