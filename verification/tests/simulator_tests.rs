use tun2socks::internet::Payload;
use tun2socks::internet::Protocol;
use tun2socks::internet::PseudoHeader;
use tun2socks::simulator::Simulator;
use tun2socks::tcp::Tcp;
use tun2socks::tcp::ACK;
use tun2socks::tcp::FIN_ACK;
use tun2socks::tcp::PSH_ACK;
use tun2socks::tcp::SYN_ACK;

fn segment(flags: u8, payload: &[u8]) -> Payload {
    let ph = PseudoHeader { src_ip: [10, 0, 2, 16], dst_ip: [192, 168, 1, 1], protocol: 6 };
    let mut bytes = vec![
        0x13, 0x88, 0, 80, 0, 0, 0, 5, 0, 0, 2, 0, 0x50, flags, 16, 0, 0, 0, 0, 0,
    ];
    bytes.extend_from_slice(payload);
    Payload::Tcp(Tcp::new(&bytes, ph).unwrap())
}

// A SYN, with or without ECN setup, gets exactly one SYN-ACK.
#[test]
fn syn_gets_syn_ack() {
    for flags in [0b0000_0010u8, 0b1100_0010] {
        let responses = Simulator::handle_tcp(&segment(flags, &[]));
        assert_eq!(responses.len(), 1);
        assert_eq!(responses[0][13], SYN_ACK);
    }
}

// A data-bearing segment gets an ACK and the greeting echo.
#[test]
fn data_gets_ack_and_echo() {
    let responses = Simulator::handle_tcp(&segment(0b0001_1000, b"hi"));
    assert_eq!(responses.len(), 2);
    assert_eq!(responses[0][13], ACK);
    assert_eq!(responses[1][13], PSH_ACK);
    assert_eq!(&responses[1][20..], b"Hello hi");
}

// A FIN-ACK gets the documented two-segment answer: an ACK, then a FIN-ACK.
#[test]
fn fin_ack_gets_pair() {
    let responses = Simulator::handle_tcp(&segment(0b0001_0001, &[]));
    assert_eq!(responses.len(), 2);
    assert_eq!(responses[0][13], ACK);
    assert_eq!(responses[1][13], FIN_ACK);
}

// A plain FIN, a reset, a pure ACK and an unclassified flag value get no
// answer.
#[test]
fn silent_classes() {
    for flags in [0b0000_0001u8, 0b0000_0100, 0b0001_0100, 0b0001_0000, 0b1111_1111] {
        assert!(Simulator::handle_tcp(&segment(flags, &[])).is_empty());
    }
}

// Dispatching on the protocol: an unrecognised protocol gets one empty
// response.
#[test]
fn unknown_protocol_answer() {
    let packet = Payload::Unknown(vec![1, 2, 3]);
    let responses = Simulator::handle(&Protocol::UNKNOWN, &packet);
    assert_eq!(responses, vec![Vec::<u8>::new()]);
}
