use tun2socks::icmp::Icmp;
use tun2socks::internet::Datagram;
use tun2socks::internet::ParseError;
use tun2socks::internet::Payload;
use tun2socks::internet::Protocol;
use tun2socks::tcp::FlagClass;
use tun2socks::tcp::FlagsType;
use tun2socks::tcp::SYN_ACK;
use tun2socks::tcp::ACK;
use tun2socks::udp::Udp;
use tun2socks::internet::PseudoHeader;
use tun2socks::tcp::Tcp;

// The 40-byte TCP SYN segment of the checksum scenario: sequence number
// 0xEE6DC671, acknowledgement 0, 20 bytes of options including a timestamp.
fn syn_segment() -> Vec<u8> {
    vec![
        133, 156, 3, 85, 238, 109, 198, 113, 0, 0, 0, 0, 160, 2, 255, 255, 42, 67, 0, 0, 2, 4, 4,
        196, 4, 2, 8, 10, 198, 91, 76, 200, 0, 0, 0, 0, 1, 3, 3, 6,
    ]
}

fn ip_datagram(protocol: u8, transport: &[u8]) -> Vec<u8> {
    let total = 20 + transport.len();
    let mut bytes = vec![
        0x45,
        0,
        (total / 256) as u8,
        (total % 256) as u8,
        74,
        107,
        64,
        0,
        64,
        protocol,
        0,
        0,
        10,
        0,
        2,
        16,
        192,
        168,
        1,
        1,
    ];
    let checksum = Datagram::calc_checksum(&bytes);
    (bytes[10], bytes[11]) = (checksum[0], checksum[1]);
    bytes.extend_from_slice(transport);
    bytes
}

fn pseudo(protocol: u8, length: u16) -> Vec<u8> {
    let mut p = vec![10, 0, 2, 16, 192, 168, 1, 1, 0, protocol];
    p.extend_from_slice(&length.to_be_bytes());
    p
}

#[test]
fn parse_rebuild_round_trip_tcp() {
    let bytes = ip_datagram(6, &syn_segment());
    let d = Datagram::new(&bytes).unwrap();
    assert_eq!(d.to_bytes(), bytes);
    assert!(matches!(d.protocol(), Protocol::TCP));
    assert_eq!(d.header.src_ip, [10, 0, 2, 16]);
    assert_eq!(d.header.dst_ip, [192, 168, 1, 1]);
}

#[test]
fn parse_rebuild_round_trip_udp() {
    let mut transport = vec![0x13, 0x88, 0, 53, 0, 12, 0, 0];
    transport.extend_from_slice(b"ping");
    let bytes = ip_datagram(17, &transport);
    let d = Datagram::new(&bytes).unwrap();
    assert_eq!(d.to_bytes(), bytes);
    match &d.payload {
        Payload::Udp(u) => {
            assert_eq!(u.payload, b"ping");
            assert_eq!(u.dst_port(), 53);
        },
        _ => panic!("wrong payload variant"),
    }
}

#[test]
fn parse_rebuild_round_trip_icmp() {
    let transport = vec![8, 0, 0x12, 0x34, 0xAB, 0xCD, 0, 7, 1, 2, 3];
    let bytes = ip_datagram(1, &transport);
    let d = Datagram::new(&bytes).unwrap();
    assert_eq!(d.to_bytes(), bytes);
}

#[test]
fn parse_rebuild_round_trip_unknown() {
    let bytes = ip_datagram(47, &[9, 9, 9]);
    let d = Datagram::new(&bytes).unwrap();
    assert!(matches!(d.protocol(), Protocol::UNKNOWN));
    assert_eq!(d.to_bytes(), bytes);
}

#[test]
fn parse_errors() {
    assert_eq!(Datagram::new(&[0x45; 10]).err(), Some(ParseError::Truncated));
    let mut bad_ihl = ip_datagram(6, &syn_segment());
    bad_ihl[0] = 0x42;
    assert_eq!(Datagram::new(&bad_ihl).err(), Some(ParseError::BadIhl));
    let mut short_options = ip_datagram(47, &[]);
    short_options[0] = 0x46;
    assert_eq!(Datagram::new(&short_options).err(), Some(ParseError::Truncated));

    // TCP data offset below five words.
    let mut seg = syn_segment();
    seg[12] = 0x40;
    assert_eq!(Datagram::new(&ip_datagram(6, &seg)).err(), Some(ParseError::BadDataOffset));
    // TCP data offset past the end of the segment.
    let seg = &syn_segment()[..20];
    let mut seg = seg.to_vec();
    seg[12] = 0xF0;
    assert_eq!(Datagram::new(&ip_datagram(6, &seg)).err(), Some(ParseError::BadDataOffset));
    // A TCP option whose length overruns the option area.
    let mut seg = syn_segment();
    seg[21] = 200;
    assert_eq!(Datagram::new(&ip_datagram(6, &seg)).err(), Some(ParseError::BadOption));
    // A TCP option with an impossible length of one.
    let mut seg = syn_segment();
    seg[21] = 1;
    assert_eq!(Datagram::new(&ip_datagram(6, &seg)).err(), Some(ParseError::BadOption));

    // UDP and ICMP payloads shorter than their fixed headers.
    assert_eq!(Datagram::new(&ip_datagram(17, &[1, 2, 3])).err(), Some(ParseError::BadLength));
    assert_eq!(Datagram::new(&ip_datagram(1, &[8, 0, 0, 0])).err(), Some(ParseError::BadLength));
}

#[test]
fn flag_classes() {
    assert_eq!(FlagsType(0b0001_0000).class(), FlagClass::ACK);
    assert_eq!(FlagsType(0b0000_0010).class(), FlagClass::SYN);
    assert_eq!(FlagsType(0b1100_0010).class(), FlagClass::SEW);
    assert_eq!(FlagsType(0b0000_0001).class(), FlagClass::FIN);
    assert_eq!(FlagsType(0b0000_0100).class(), FlagClass::RST);
    assert_eq!(FlagsType(0b0001_0010).class(), FlagClass::SYN_ACK);
    assert_eq!(FlagsType(0b0001_1000).class(), FlagClass::PSH_ACK);
    assert_eq!(FlagsType(0b0001_0001).class(), FlagClass::FIN_ACK);
    assert_eq!(FlagsType(0b0001_0100).class(), FlagClass::RST_ACK);
    assert_eq!(FlagsType(0).class(), FlagClass::UNKNOWN);
    assert_eq!(FlagsType(0xFF).class(), FlagClass::UNKNOWN);
    assert_eq!(FlagsType(0b0000_0010).info(), "SYN");
    assert_eq!(FlagsType(0b0001_1000).info(), "PSH_ACK");
    assert_eq!(FlagsType(0xFF).info(), "UNKNOWN");
}

// Scenario: the SYN handshake.  The response to a SYN carries sequence
// number 3001, acknowledges the incoming sequence number plus one, and
// reflects the options with the timestamp TSval replaced by 3001.
#[test]
fn syn_handshake() {
    let ph = PseudoHeader { src_ip: [10, 0, 2, 16], dst_ip: [192, 168, 1, 1], protocol: 6 };
    let t = Tcp::new(&syn_segment(), ph).unwrap();
    let resp = t.pack(&[SYN_ACK], &[]);
    assert_eq!(resp.len(), 40);
    // Ports swapped.
    assert_eq!(&resp[0..4], &[3, 85, 133, 156]);
    // Sequence number 3001.
    assert_eq!(&resp[4..8], &3001u32.to_be_bytes());
    // Acknowledgement: incoming sequence number plus one.
    assert_eq!(&resp[8..12], &0xEE6DC672u32.to_be_bytes());
    // Data offset recomputed, flags as requested, window copied.
    assert_eq!(resp[12], 0xA0);
    assert_eq!(resp[13], SYN_ACK);
    assert_eq!(&resp[14..16], &[255, 255]);
    // Options reflected; the timestamp TSval is 3001 and TSecr echoes the
    // incoming TSval.
    assert_eq!(&resp[20..26], &[2, 4, 4, 196, 4, 2]);
    assert_eq!(&resp[26..28], &[8, 10]);
    assert_eq!(&resp[28..32], &3001u32.to_be_bytes());
    assert_eq!(&resp[32..36], &[198, 91, 76, 200]);
    assert_eq!(&resp[36..40], &[1, 3, 3, 6]);
    // The checksum over the pseudo-header and the segment verifies.
    let mut check = pseudo(6, 40);
    check.extend_from_slice(&resp);
    assert!(Datagram::verify_checksum(&check));
}

// TCP response arithmetic: a data-bearing segment is acknowledged with its
// sequence number advanced by the payload length.
#[test]
fn response_arithmetic_with_payload() {
    let ph = PseudoHeader { src_ip: [10, 0, 2, 16], dst_ip: [192, 168, 1, 1], protocol: 6 };
    let mut seg = vec![
        0x13, 0x88, 0, 80, 0, 0, 1, 0, 0, 0, 2, 0, 0x50, 0x18, 16, 0, 0, 0, 0, 0,
    ];
    seg.extend_from_slice(b"abcdefg");
    let t = Tcp::new(&seg, ph).unwrap();
    let resp = t.pack(&[ACK], &[]);
    // seq = incoming ack; ack = incoming seq + payload length (7).
    assert_eq!(&resp[4..8], &0x200u32.to_be_bytes());
    assert_eq!(&resp[8..12], &0x107u32.to_be_bytes());
}

// TCP response arithmetic wraps modulo 2^32 at the top of the sequence
// space.
#[test]
fn response_arithmetic_wraps() {
    let ph = PseudoHeader { src_ip: [10, 0, 2, 16], dst_ip: [192, 168, 1, 1], protocol: 6 };
    let seg = vec![
        0x13, 0x88, 0, 80, 0xFF, 0xFF, 0xFF, 0xFF, 0, 0, 0, 5, 0x50, 0x11, 16, 0, 0, 0, 0, 0,
    ];
    let t = Tcp::new(&seg, ph).unwrap();
    let resp = t.pack(&[ACK], &[]);
    assert_eq!(&resp[4..8], &[0, 0, 0, 5]);
    assert_eq!(&resp[8..12], &[0, 0, 0, 0]);
}

// Scenario: the ICMP echo.  The reply keeps code, identifier, sequence
// number and data, sets the type to zero and recomputes the checksum.
#[test]
fn icmp_echo() {
    let request = vec![8, 0, 0x12, 0x34, 0xAB, 0xCD, 0, 7, 1, 2, 3];
    let i = Icmp::new(&request).unwrap();
    let reply = i.pack(&[], &[]);
    assert_eq!(reply[0], 0);
    assert_eq!(reply[1], 0);
    assert_eq!(&reply[4..6], &[0xAB, 0xCD]);
    assert_eq!(&reply[6..8], &[0, 7]);
    assert_eq!(&reply[8..], &[1, 2, 3]);
    let mut zeroed = reply.clone();
    (zeroed[2], zeroed[3]) = (0, 0);
    let checksum = Datagram::calc_checksum(&zeroed);
    assert_eq!(&reply[2..4], &checksum);
}

// Fingerprints: same five-tuple, same fingerprint; any differing component,
// a different fingerprint.
#[test]
fn fingerprint_identity() {
    let mut transport = vec![0x13, 0x88, 0, 53, 0, 12, 0, 0];
    transport.extend_from_slice(b"ping");
    let a = Datagram::new(&ip_datagram(17, &transport)).unwrap();
    let mut transport2 = vec![0x13, 0x88, 0, 53, 0, 13, 0, 0];
    transport2.extend_from_slice(b"pong!");
    let b = Datagram::new(&ip_datagram(17, &transport2)).unwrap();
    assert_eq!(a.fingerprint(), b.fingerprint());

    let mut transport3 = vec![0x13, 0x89, 0, 53, 0, 12, 0, 0];
    transport3.extend_from_slice(b"ping");
    let c = Datagram::new(&ip_datagram(17, &transport3)).unwrap();
    assert_ne!(a.fingerprint(), c.fingerprint());

    let d = Datagram::new(&ip_datagram(1, &[8, 0, 0, 0, 0, 1, 0, 2])).unwrap();
    assert_ne!(a.fingerprint(), d.fingerprint());
}

// A datagram at the largest IPv4 total length parses and rebuilds exactly.
#[test]
fn largest_datagram_round_trip() {
    let payload = vec![0xA5u8; 65535 - 28];
    let mut transport = vec![0x13, 0x88, 0, 53, 0xFF, 0xFF, 0, 0];
    transport.extend_from_slice(&payload);
    let bytes = ip_datagram(17, &transport);
    assert_eq!(bytes.len(), 65535);
    let d = Datagram::new(&bytes).unwrap();
    assert_eq!(d.to_bytes(), bytes);
}

// The flow name renders the same five-tuple the fingerprint carries.
#[test]
fn flow_name() {
    let mut transport = vec![0x13, 0x88, 0, 53, 0, 12, 0, 0];
    transport.extend_from_slice(b"ping");
    let d = Datagram::new(&ip_datagram(17, &transport)).unwrap();
    assert_eq!(d.name(), "UDP[10.0.2.16:5000]=>[192.168.1.1:53]");
    let icmp = Datagram::new(&ip_datagram(1, &[8, 0, 0, 0, 0, 1, 0, 2])).unwrap();
    assert_eq!(icmp.name(), "ICMP[10.0.2.16:0]=>[192.168.1.1:0]");
}

// A response datagram swaps addresses and zeroes the identification, and
// its header checksum verifies.
#[test]
fn response_header_swaps_addresses() {
    let bytes = ip_datagram(17, &[0x13, 0x88, 0, 53, 0, 8, 0, 0]);
    let d = Datagram::new(&bytes).unwrap();
    let frame = d.resp_pack(b"xyz");
    assert_eq!(frame.len(), 23);
    assert_eq!(&frame[12..16], &[192, 168, 1, 1]);
    assert_eq!(&frame[16..20], &[10, 0, 2, 16]);
    assert_eq!(&frame[2..4], &[0, 23]);
    assert_eq!(&frame[4..6], &[0, 0]);
    assert!(Datagram::verify_checksum(&frame[..20].to_vec()));
    assert_eq!(&frame[20..], b"xyz");
}

// Well-formed input UDP parses under the pseudo-header of its datagram.
#[test]
fn udp_reply_checksum() {
    let ph = PseudoHeader { src_ip: [10, 0, 2, 16], dst_ip: [192, 168, 1, 1], protocol: 17 };
    let mut transport = vec![0x13, 0x88, 0, 53, 0, 12, 0, 0];
    transport.extend_from_slice(b"ping");
    let u = Udp::new(&transport, ph).unwrap();
    let reply = u.pack(&[], b"Hello ping");
    assert_eq!(&reply[0..4], &[0, 53, 0x13, 0x88]);
    assert_eq!(&reply[4..6], &[0, 18]);
    assert_eq!(&reply[8..], b"Hello ping");
    let mut check = pseudo(17, 18);
    check.extend_from_slice(&reply);
    assert!(Datagram::verify_checksum(&check));
}
