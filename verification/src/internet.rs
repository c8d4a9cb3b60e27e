//! IPv4 datagrams: header parsing and rebuilding, protocol classification,
//! the pseudo-header used for transport checksums, and the flow fingerprint.

use crate::checksum::checksum_of;
use crate::checksum::compute_checksum;
use crate::icmp::Icmp;
use crate::tcp::FlagsType;
use crate::tcp::Tcp;
use crate::tcp::tcp_parse_err;
use crate::tcp::tcp_parse_ok;
use crate::tcp::tcp_response;
use crate::udp::Udp;
use crate::udp::udp_response;
use crate::icmp::icmp_reply;
use crate::util::append_decimal;
use crate::util::be_bytes16;
use crate::util::be_val;
use crate::util::dec_chars;
use crate::util::byte_weight;
use crate::util::bytes_to_u32;
use crate::util::lemma_be_val_bound;
use crate::util::push_bytes;
use vstd::prelude::*;
use vstd::slice::slice_subrange;
use vstd::slice::slice_to_vec;
use vstd::string::StringExecFns;

verus! {

/// The transport protocols the relay understands; every other protocol
/// number is `UNKNOWN`.
#[allow(non_camel_case_types)]
#[derive(Clone, Copy, Debug, PartialEq, Eq, Structural)]
pub enum Protocol {
    TCP,
    UDP,
    ICMP,
    UNKNOWN,
}

/// Why a byte string was rejected as a datagram or transport segment.
#[derive(Clone, Copy, Debug, PartialEq, Eq, Structural)]
pub enum ParseError {
    /// Fewer bytes than the fixed header and its declared options need.
    Truncated,
    /// The IPv4 header length field is below the minimum of five words.
    BadIhl,
    /// The TCP data offset is below five words or past the segment's end.
    BadDataOffset,
    /// A TCP option whose length byte is malformed or overruns the option
    /// area, or a timestamp option that is not ten bytes long.
    BadOption,
    /// A UDP or ICMP payload shorter than its fixed header.
    BadLength,
}

/// The protocol class of an IPv4 protocol number.
pub open spec fn spec_protocol(byte: u8) -> Protocol {
    if byte == 1 {
        Protocol::ICMP
    } else if byte == 6 {
        Protocol::TCP
    } else if byte == 17 {
        Protocol::UDP
    } else {
        Protocol::UNKNOWN
    }
}

/// A parsed IPv4 header.  Multi-byte fields keep their big-endian wire bytes
/// so that rebuilding is exact.
pub struct Header {
    pub version_ihl: u8,
    pub dscp_ecn: u8,
    pub total_length: [u8; 2],
    pub identification: [u8; 2],
    pub flags_fragment_offset: [u8; 2],
    pub ttl: u8,
    pub protocol: u8,
    pub checksum: [u8; 2],
    pub src_ip: [u8; 4],
    pub dst_ip: [u8; 4],
    pub options: Vec<u8>,
}

impl Header {
    /// The wire bytes this header denotes.
    pub open spec fn spec_bytes(&self) -> Seq<u8> {
        seq![self.version_ihl, self.dscp_ecn] + self.total_length@ + self.identification@
            + self.flags_fragment_offset@ + seq![self.ttl, self.protocol] + self.checksum@
            + self.src_ip@ + self.dst_ip@ + self.options@
    }

    /// Re-emits the header bytes exactly as they were parsed.
    pub fn to_bytes(&self) -> (r: Vec<u8>)
        ensures
            r@ == self.spec_bytes(),
    {
        let mut bytes: Vec<u8> = Vec::new();
        bytes.push(self.version_ihl);
        bytes.push(self.dscp_ecn);
        push_bytes(&mut bytes, self.total_length.as_slice());
        push_bytes(&mut bytes, self.identification.as_slice());
        push_bytes(&mut bytes, self.flags_fragment_offset.as_slice());
        bytes.push(self.ttl);
        bytes.push(self.protocol);
        push_bytes(&mut bytes, self.checksum.as_slice());
        push_bytes(&mut bytes, self.src_ip.as_slice());
        push_bytes(&mut bytes, self.dst_ip.as_slice());
        push_bytes(&mut bytes, self.options.as_slice());
        proof {
            assert(bytes@ =~= self.spec_bytes());
        }
        bytes
    }
}

/// The 12-byte synthetic prefix over which TCP and UDP checksums are
/// computed.  The payload length is conceptual: it is supplied at checksum
/// time, never stored.
#[derive(Clone, Copy, Debug)]
pub struct PseudoHeader {
    pub src_ip: [u8; 4],
    pub dst_ip: [u8; 4],
    pub protocol: u8,
}

/// The 12 wire bytes of a pseudo-header carrying `length` as its payload
/// length field.
pub open spec fn pseudo_bytes(ph: PseudoHeader, length: int) -> Seq<u8> {
    ph.src_ip@ + ph.dst_ip@ + seq![0u8, ph.protocol] + be_bytes16(length)
}

impl PseudoHeader {
    /// The pseudo-header bytes with `length` as the payload length field.
    pub fn to_be_bytes(&self, length: u16) -> (r: Vec<u8>)
        ensures
            r@ == pseudo_bytes(*self, length as int),
            r@.len() == 12,
    {
        let mut bytes: Vec<u8> = Vec::new();
        push_bytes(&mut bytes, self.src_ip.as_slice());
        push_bytes(&mut bytes, self.dst_ip.as_slice());
        bytes.push(0);
        bytes.push(self.protocol);
        bytes.push((length / 256) as u8);
        bytes.push((length % 256) as u8);
        proof {
            assert(bytes@ =~= pseudo_bytes(*self, length as int));
        }
        bytes
    }
}

/// The five-tuple that identifies a transport-layer conversation.  Two
/// datagrams belong to the same flow exactly when their fingerprints are
/// equal.
#[derive(Clone, Copy, Debug, PartialEq, Eq, Structural)]
pub struct Fingerprint {
    pub protocol: u8,
    pub src_ip: u32,
    pub src_port: u16,
    pub dst_ip: u32,
    pub dst_port: u16,
}

/// Fingerprints are the identity on five-tuples: equal tuples give equal
/// fingerprints and differing tuples give differing fingerprints.
pub proof fn lemma_fingerprint_unique(a: Fingerprint, b: Fingerprint)
    ensures
        (a == b) <==> (a.protocol == b.protocol && a.src_ip == b.src_ip && a.src_port == b.src_port
            && a.dst_ip == b.dst_ip && a.dst_port == b.dst_port),
{
}

/// Checksum round trip at a header's own checksum field, stated here for
/// the IPv4 header field at bytes 10 and 11: a well-formed header, one whose
/// field holds the non-zero checksum computed over the zeroed header, checks
/// out under `verify_checksum` (its field is non-zero and its checksum is
/// zero), and zeroing the field again recomputes the original field value by
/// definition.
pub proof fn lemma_ip_checksum_round_trip(h: Seq<u8>)
    requires
        h.len() >= 12,
        h[10] * 256 + h[11] == checksum_of(h.update(10, 0).update(11, 0)),
        checksum_of(h.update(10, 0).update(11, 0)) != 0,
    ensures
        checksum_of(h) == 0,
        h[10] != 0 || h[11] != 0,
{
    crate::checksum::lemma_checksum_round_trip(h, 10);
}

/// Reads two big-endian bytes as a port number.
fn port_value(b: &[u8; 2]) -> (r: u16)
    ensures
        r == be_val(b@),
{
    let r = (b[0] as u16) * 256 + b[1] as u16;
    proof {
        assert(b@.drop_last() =~= seq![b@[0]]);
        assert(seq![b@[0]].drop_last() =~= Seq::<u8>::empty());
        assert(be_val(Seq::<u8>::empty()) == 0);
        assert(be_val(seq![b@[0]]) == b@[0]);
    }
    r
}

/// The typed transport payload of a datagram: one of TCP, UDP, ICMP, or the
/// raw bytes of an unrecognised protocol.
pub enum Payload {
    Tcp(Tcp),
    Udp(Udp),
    Icmp(Icmp),
    Unknown(Vec<u8>),
}

/// Whether the transport bytes of a datagram with protocol class `p` parse.
pub open spec fn payload_parse_ok(p: Protocol, b: Seq<u8>) -> bool {
    match p {
        Protocol::TCP => tcp_parse_ok(b),
        Protocol::UDP => b.len() >= 8,
        Protocol::ICMP => b.len() >= 8,
        Protocol::UNKNOWN => true,
    }
}

/// The error the transport bytes are rejected with.
pub open spec fn payload_parse_err(p: Protocol, b: Seq<u8>) -> ParseError {
    match p {
        Protocol::TCP => tcp_parse_err(b),
        _ => ParseError::BadLength,
    }
}

impl Payload {
    /// The payload's variant agrees with the datagram's protocol class.
    pub open spec fn kind_matches(&self, p: Protocol) -> bool {
        match self {
            Payload::Tcp(_) => p == Protocol::TCP,
            Payload::Udp(_) => p == Protocol::UDP,
            Payload::Icmp(_) => p == Protocol::ICMP,
            Payload::Unknown(_) => p == Protocol::UNKNOWN,
        }
    }

    /// The payload as the parser hands it out.
    pub open spec fn wf(&self) -> bool {
        match self {
            Payload::Tcp(t) => t.wf(),
            Payload::Udp(u) => u.wf(),
            Payload::Icmp(i) => i.wf(),
            Payload::Unknown(raw) => raw@.len() <= 0xFFFF,
        }
    }

    /// The wire bytes this payload denotes.
    pub open spec fn spec_bytes(&self) -> Seq<u8> {
        match self {
            Payload::Tcp(t) => t.spec_bytes(),
            Payload::Udp(u) => u.spec_bytes(),
            Payload::Icmp(i) => i.spec_bytes(),
            Payload::Unknown(raw) => raw@,
        }
    }

    /// This payload is the parse of `b` for protocol class `p` under
    /// pseudo-header `ph`.
    pub open spec fn parsed_from(&self, p: Protocol, b: Seq<u8>, ph: PseudoHeader) -> bool {
        match self {
            Payload::Tcp(t) => p == Protocol::TCP && t.parsed_from(b, ph),
            Payload::Udp(u) => p == Protocol::UDP && u.parsed_from(b, ph),
            Payload::Icmp(i) => p == Protocol::ICMP && i.parsed_from(b),
            Payload::Unknown(raw) => p == Protocol::UNKNOWN && raw@ == b,
        }
    }

    /// The source port carried by the payload; zero where the transport has
    /// no ports.
    pub open spec fn spec_src_port(&self) -> int {
        match self {
            Payload::Tcp(t) => be_val(t.header.src_port@),
            Payload::Udp(u) => be_val(u.header.src_port@),
            _ => 0,
        }
    }

    /// The destination port carried by the payload; zero where the transport
    /// has no ports.
    pub open spec fn spec_dst_port(&self) -> int {
        match self {
            Payload::Tcp(t) => be_val(t.header.dst_port@),
            Payload::Udp(u) => be_val(u.header.dst_port@),
            _ => 0,
        }
    }

    /// The application payload bytes carried by the transport.
    pub open spec fn spec_payload(&self) -> Seq<u8> {
        match self {
            Payload::Tcp(t) => t.payload@,
            Payload::Udp(u) => u.payload@,
            Payload::Icmp(i) => i.payload@,
            Payload::Unknown(raw) => raw@,
        }
    }

    /// The flag byte of the payload; zero where the transport has no flags.
    pub open spec fn spec_flags(&self) -> u8 {
        match self {
            Payload::Tcp(t) => t.header.flags,
            _ => 0,
        }
    }

    /// The response transport segment for flag byte `flag` carrying
    /// `payload`: a TCP response, a UDP reply, an ICMP echo reply, or
    /// nothing for an unrecognised protocol.
    pub open spec fn spec_pack(&self, flag: u8, payload: Seq<u8>) -> Seq<u8> {
        match self {
            Payload::Tcp(t) => tcp_response(*t, flag, payload),
            Payload::Udp(u) => udp_response(*u, payload),
            Payload::Icmp(i) => icmp_reply(*i),
            Payload::Unknown(_) => Seq::empty(),
        }
    }

    /// The response payload is small enough for the transport's 16-bit
    /// length fields.
    pub open spec fn pack_ok(&self, payload: Seq<u8>) -> bool {
        match self {
            Payload::Tcp(t) => 4 * t.header.data_offset + payload.len() <= 0xFFFF,
            Payload::Udp(_) => 8 + payload.len() <= 0xFFFF,
            Payload::Icmp(_) => true,
            Payload::Unknown(_) => true,
        }
    }

    /// The source port as an integer.
    pub fn src_port(&self) -> (r: u16)
        ensures
            r == self.spec_src_port(),
    {
        match self {
            Payload::Tcp(t) => port_value(&t.header.src_port),
            Payload::Udp(u) => port_value(&u.header.src_port),
            _ => 0,
        }
    }

    /// The destination port as an integer.
    pub fn dst_port(&self) -> (r: u16)
        ensures
            r == self.spec_dst_port(),
    {
        match self {
            Payload::Tcp(t) => port_value(&t.header.dst_port),
            Payload::Udp(u) => port_value(&u.header.dst_port),
            _ => 0,
        }
    }

    /// The application payload carried by the transport.
    pub fn payload(&self) -> (r: &Vec<u8>)
        ensures
            r@ == self.spec_payload(),
    {
        match self {
            Payload::Tcp(t) => &t.payload,
            Payload::Udp(u) => &u.payload,
            Payload::Icmp(i) => &i.payload,
            Payload::Unknown(raw) => raw,
        }
    }

    /// Re-emits the transport wire bytes exactly as they were parsed.
    pub fn to_bytes(&self) -> (r: Vec<u8>)
        requires
            self.wf(),
        ensures
            r@ == self.spec_bytes(),
    {
        match self {
            Payload::Tcp(t) => t.to_bytes(),
            Payload::Udp(u) => u.to_bytes(),
            Payload::Icmp(i) => i.to_bytes(),
            Payload::Unknown(raw) => slice_to_vec(raw.as_slice()),
        }
    }

    /// The raw flag byte, ready for classification.
    pub fn flags_type(&self) -> (r: FlagsType)
        ensures
            r.0 == self.spec_flags(),
    {
        match self {
            Payload::Tcp(t) => FlagsType(t.header.flags),
            _ => FlagsType(0),
        }
    }

    /// Builds the response transport segment: `spec_pack` of this payload,
    /// the first flag byte, and the response payload.
    pub fn pack(&self, flags: &[u8], payload: &[u8]) -> (r: Vec<u8>)
        requires
            self.wf(),
            flags@.len() >= 1,
            self.pack_ok(payload@),
        ensures
            r@ == self.spec_pack(flags@[0], payload@),
            r@.len() <= 0xFFFF,
    {
        match self {
            Payload::Tcp(t) => t.pack(flags, payload),
            Payload::Udp(u) => u.pack(flags, payload),
            Payload::Icmp(i) => i.pack(flags, payload),
            Payload::Unknown(_) => Vec::new(),
        }
    }
}

/// The printable name of a protocol class.
pub open spec fn protocol_text(p: Protocol) -> Seq<char> {
    match p {
        Protocol::TCP => "TCP"@,
        Protocol::UDP => "UDP"@,
        Protocol::ICMP => "ICMP"@,
        Protocol::UNKNOWN => "UNKNOWN"@,
    }
}

/// Four address bytes and a port as dotted-decimal text.
pub open spec fn addr_text(ip: Seq<u8>, port: int) -> Seq<char> {
    dec_chars(ip[0] as int) + seq!['.'] + dec_chars(ip[1] as int) + seq!['.'] + dec_chars(
        ip[2] as int,
    ) + seq!['.'] + dec_chars(ip[3] as int) + seq![':'] + dec_chars(port)
}

/// The textual flow name of a datagram: its protocol class and both of its
/// endpoints.
pub open spec fn spec_name(d: Datagram) -> Seq<char> {
    protocol_text(spec_protocol(d.header.protocol)) + seq!['['] + addr_text(
        d.header.src_ip@,
        d.payload.spec_src_port(),
    ) + seq![']', '=', '>', '['] + addr_text(d.header.dst_ip@, d.payload.spec_dst_port()) + seq![
        ']',
    ]
}

/// The flow name is a string identity on the five-tuple: it depends on
/// nothing but protocol, addresses and ports, so datagrams with equal
/// tuples get equal names.
pub proof fn lemma_name_follows_tuple(a: Datagram, b: Datagram)
    requires
        a.header.protocol == b.header.protocol,
        a.header.src_ip@ == b.header.src_ip@,
        a.header.dst_ip@ == b.header.dst_ip@,
        a.payload.spec_src_port() == b.payload.spec_src_port(),
        a.payload.spec_dst_port() == b.payload.spec_dst_port(),
    ensures
        spec_name(a) == spec_name(b),
{
}

/// Appends "address:port" in dotted-decimal form.
fn append_addr(s: &mut String, ip: &[u8; 4], port: u16)
    ensures
        final(s)@ == old(s)@ + addr_text(ip@, port as int),
{
    append_decimal(s, ip[0] as u32);
    s.append(".");
    append_decimal(s, ip[1] as u32);
    s.append(".");
    append_decimal(s, ip[2] as u32);
    s.append(".");
    append_decimal(s, ip[3] as u32);
    s.append(":");
    append_decimal(s, port as u32);
    proof {
        reveal_strlit(".");
        reveal_strlit(":");
        assert(final(s)@ =~= old(s)@ + addr_text(ip@, port as int));
    }
}

/// Whether `b` parses as an IPv4 datagram with a sound transport payload.
pub open spec fn dgram_parse_ok(b: Seq<u8>) -> bool {
    &&& b.len() >= 20
    &&& b[0] % 16 >= 5
    &&& 4 * (b[0] % 16) <= b.len()
    &&& payload_parse_ok(spec_protocol(b[9]), b.skip(4 * (b[0] % 16) as int))
}

/// The error a malformed datagram is rejected with.
pub open spec fn dgram_parse_err(b: Seq<u8>) -> ParseError {
    if b.len() < 20 {
        ParseError::Truncated
    } else if b[0] % 16 < 5 {
        ParseError::BadIhl
    } else if 4 * (b[0] % 16) > b.len() {
        ParseError::Truncated
    } else {
        payload_parse_err(spec_protocol(b[9]), b.skip(4 * (b[0] % 16) as int))
    }
}

/// The response IPv4 header for a datagram with header `h`: total length,
/// identification and checksum zeroed, addresses swapped, everything else
/// copied.
pub open spec fn resp_header_bytes(h: Header) -> Seq<u8> {
    seq![h.version_ihl, h.dscp_ecn, 0u8, 0u8, 0u8, 0u8] + h.flags_fragment_offset@ + seq![
        h.ttl,
        h.protocol,
        0u8,
        0u8,
    ] + h.dst_ip@ + h.src_ip@ + h.options@
}

/// A full IPv4 frame from header template and payload: the total length
/// written into bytes 2 and 3 and the header checksum into bytes 10 and 11.
pub open spec fn ip_pack(h: Seq<u8>, p: Seq<u8>) -> Seq<u8> {
    let total = h.len() + p.len();
    let with_len = (h + p).update(2, (total as int / 256) as u8).update(
        3,
        (total as int % 256) as u8,
    );
    let ck = checksum_of(with_len.take(h.len() as int));
    with_len.update(10, (ck / 256) as u8).update(11, (ck % 256) as u8)
}

/// A parsed IPv4 datagram: header, the pseudo-header derived from it, and
/// the typed transport payload.
pub struct Datagram {
    pub header: Header,
    pub pseudo_header: PseudoHeader,
    pub payload: Payload,
}

impl Datagram {
    /// A datagram as the parser hands it out: the option bytes cover the
    /// header length exactly, the payload is sound, and its variant agrees
    /// with the protocol field.
    pub open spec fn wf(&self) -> bool {
        &&& 5 <= self.header.version_ihl % 16
        &&& self.header.options@.len() + 20 == 4 * (self.header.version_ihl % 16)
        &&& self.payload.wf()
        &&& self.payload.kind_matches(spec_protocol(self.header.protocol))
    }

    /// The wire bytes this datagram denotes.
    pub open spec fn spec_bytes(&self) -> Seq<u8> {
        self.header.spec_bytes() + self.payload.spec_bytes()
    }

    /// This datagram is the parse of `b`.
    pub open spec fn parsed_from(&self, b: Seq<u8>) -> bool {
        let ihl = b[0] % 16;
        let hlen = 4 * ihl as int;
        &&& b.len() >= 20
        &&& b.len() <= 0xFFFF
        &&& ihl >= 5
        &&& hlen <= b.len()
        &&& self.header.version_ihl == b[0]
        &&& self.header.dscp_ecn == b[1]
        &&& self.header.total_length@ == seq![b[2], b[3]]
        &&& self.header.identification@ == seq![b[4], b[5]]
        &&& self.header.flags_fragment_offset@ == seq![b[6], b[7]]
        &&& self.header.ttl == b[8]
        &&& self.header.protocol == b[9]
        &&& self.header.checksum@ == seq![b[10], b[11]]
        &&& self.header.src_ip@ == seq![b[12], b[13], b[14], b[15]]
        &&& self.header.dst_ip@ == seq![b[16], b[17], b[18], b[19]]
        &&& self.header.options@ == b.subrange(20, hlen)
        &&& self.pseudo_header == (PseudoHeader {
            src_ip: self.header.src_ip,
            dst_ip: self.header.dst_ip,
            protocol: self.header.protocol,
        })
        &&& self.payload.parsed_from(spec_protocol(b[9]), b.skip(hlen), self.pseudo_header)
        &&& self.spec_bytes() == b
    }

    /// Parses the transport bytes of a datagram for a protocol class.
    pub fn build_payload(protocol: Protocol, pseudo_header: PseudoHeader, bytes: &[u8]) -> (r:
        Result<Payload, ParseError>)
        requires
            bytes@.len() <= 0xFFFF,
        ensures
            r is Ok <==> payload_parse_ok(protocol, bytes@),
            r matches Ok(p) ==> p.parsed_from(protocol, bytes@, pseudo_header),
            r matches Err(e) ==> e == payload_parse_err(protocol, bytes@),
    {
        match protocol {
            Protocol::TCP => match Tcp::new(bytes, pseudo_header) {
                Ok(t) => Ok(Payload::Tcp(t)),
                Err(e) => Err(e),
            },
            Protocol::UDP => match Udp::new(bytes, pseudo_header) {
                Ok(u) => Ok(Payload::Udp(u)),
                Err(e) => Err(e),
            },
            Protocol::ICMP => match Icmp::new(bytes) {
                Ok(i) => Ok(Payload::Icmp(i)),
                Err(e) => Err(e),
            },
            Protocol::UNKNOWN => Ok(Payload::Unknown(slice_to_vec(bytes))),
        }
    }

    /// Parses an IPv4 datagram and its transport payload.  On success the
    /// parsed value re-encodes to the input bytes exactly: parsing then
    /// rebuilding with the same payload reproduces the original bytes.
    pub fn new(bytes: &[u8]) -> (r: Result<Datagram, ParseError>)
        requires
            bytes@.len() <= 0xFFFF,
        ensures
            r is Ok <==> dgram_parse_ok(bytes@),
            r matches Ok(d) ==> d.parsed_from(bytes@) && d.wf(),
            r matches Err(e) ==> e == dgram_parse_err(bytes@),
    {
        if bytes.len() < 20 {
            return Err(ParseError::Truncated);
        }
        let ihl = bytes[0] % 16;
        if ihl < 5 {
            return Err(ParseError::BadIhl);
        }
        let header_len = (ihl as usize) * 4;
        if header_len > bytes.len() {
            return Err(ParseError::Truncated);
        }

        let src_ip = [bytes[12], bytes[13], bytes[14], bytes[15]];
        let dst_ip = [bytes[16], bytes[17], bytes[18], bytes[19]];
        let protocol = bytes[9];
        let pseudo_header = PseudoHeader { src_ip, dst_ip, protocol };

        let transport = slice_subrange(bytes, header_len, bytes.len());
        let payload = match Self::build_payload(
            Self::get_protocol(protocol),
            pseudo_header,
            transport,
        ) {
            Ok(p) => p,
            Err(e) => {
                return Err(e);
            },
        };

        let header = Header {
            version_ihl: bytes[0],
            dscp_ecn: bytes[1],
            total_length: [bytes[2], bytes[3]],
            identification: [bytes[4], bytes[5]],
            flags_fragment_offset: [bytes[6], bytes[7]],
            ttl: bytes[8],
            protocol,
            checksum: [bytes[10], bytes[11]],
            src_ip,
            dst_ip,
            options: slice_to_vec(slice_subrange(bytes, 20, header_len)),
        };
        let d = Datagram { header, pseudo_header, payload };
        proof {
            assert(d.header.spec_bytes() =~= bytes@.take(header_len as int));
            assert(d.spec_bytes() =~= bytes@);
        }
        Ok(d)
    }

    /// Rebuilds the wire bytes of this datagram exactly as they were parsed:
    /// the header bytes followed by the transport bytes.  Together with the
    /// parser's guarantee that the parsed value denotes its input, parsing
    /// then rebuilding reproduces the original bytes.
    pub fn to_bytes(&self) -> (r: Vec<u8>)
        requires
            self.wf(),
        ensures
            r@ == self.spec_bytes(),
    {
        let mut bytes = self.header.to_bytes();
        let transport = self.payload.to_bytes();
        push_bytes(&mut bytes, transport.as_slice());
        bytes
    }

    /// The protocol class of this datagram.
    pub fn protocol(&self) -> (r: Protocol)
        ensures
            r == spec_protocol(self.header.protocol),
    {
        Self::get_protocol(self.header.protocol)
    }

    /// The protocol class of an IPv4 protocol number.
    pub fn get_protocol(byte: u8) -> (r: Protocol)
        ensures
            r == spec_protocol(byte),
    {
        match byte {
            1 => Protocol::ICMP,
            6 => Protocol::TCP,
            17 => Protocol::UDP,
            _ => Protocol::UNKNOWN,
        }
    }

    /// Checks a header that carries its own checksum: true exactly when the
    /// checksum field is non-zero and the checksum over the whole header is
    /// zero.
    pub fn verify_checksum(header: &Vec<u8>) -> (r: bool)
        requires
            12 <= header@.len() < usize::MAX,
        ensures
            r == ((header@[10] != 0 || header@[11] != 0) && checksum_of(header@) == 0),
    {
        let checksum = Self::calc_checksum(header.as_slice());
        if header[10] != 0 || header[11] != 0 {
            bytes_to_u32(checksum.as_slice()) == 0
        } else {
            false
        }
    }

    /// The Internet checksum of `header` as its two big-endian bytes.
    pub fn calc_checksum(header: &[u8]) -> (r: [u8; 2])
        requires
            header@.len() < usize::MAX,
        ensures
            r@ == be_bytes16(checksum_of(header@)),
            be_val(r@) == checksum_of(header@),
    {
        let r = compute_checksum(header);
        proof {
            assert(r@.drop_last() =~= seq![r@[0]]);
            assert(seq![r@[0]].drop_last() =~= Seq::<u8>::empty());
            assert(be_val(Seq::<u8>::empty()) == 0);
            assert(be_val(seq![r@[0]]) == r@[0]);
        }
        r
    }

    /// The response header template: `resp_header_bytes` of this header.
    pub fn resp_header(&self) -> (r: Vec<u8>)
        ensures
            r@ == resp_header_bytes(self.header),
            r@.len() == 20 + self.header.options@.len(),
    {
        let mut packet: Vec<u8> = Vec::new();
        packet.push(self.header.version_ihl);
        packet.push(self.header.dscp_ecn);
        packet.push(0);
        packet.push(0);
        packet.push(0);
        packet.push(0);
        push_bytes(&mut packet, self.header.flags_fragment_offset.as_slice());
        packet.push(self.header.ttl);
        packet.push(self.header.protocol);
        packet.push(0);
        packet.push(0);
        push_bytes(&mut packet, self.header.dst_ip.as_slice());
        push_bytes(&mut packet, self.header.src_ip.as_slice());
        push_bytes(&mut packet, self.header.options.as_slice());
        proof {
            assert(packet@ =~= resp_header_bytes(self.header));
        }
        packet
    }

    /// A full IPv4 frame from a header template and a payload: `ip_pack` of
    /// the two.
    pub fn pack(header: &[u8], payload: &[u8]) -> (r: Vec<u8>)
        requires
            header@.len() >= 20,
            header@.len() + payload@.len() <= 0xFFFF,
        ensures
            r@ == ip_pack(header@, payload@),
            r@.len() == header@.len() + payload@.len(),
    {
        let mut packet: Vec<u8> = Vec::new();
        push_bytes(&mut packet, header);
        push_bytes(&mut packet, payload);
        let total = packet.len() as u16;
        packet[2] = (total / 256) as u8;
        packet[3] = (total % 256) as u8;
        let ghost with_len = (header@ + payload@).update(2, (total as int / 256) as u8).update(
            3,
            (total as int % 256) as u8,
        );
        proof {
            assert(packet@ =~= with_len);
            assert(packet@.subrange(0, header@.len() as int) =~= with_len.take(
                header@.len() as int,
            ));
        }
        let ck = compute_checksum(slice_subrange(packet.as_slice(), 0, header.len()));
        packet[10] = ck[0];
        packet[11] = ck[1];
        proof {
            assert(packet@ =~= ip_pack(header@, payload@));
        }
        packet
    }

    /// The full response frame: the response header template around the
    /// transport segment `payload`.
    pub fn resp_pack(&self, payload: &[u8]) -> (r: Vec<u8>)
        requires
            20 + self.header.options@.len() + payload@.len() <= 0xFFFF,
        ensures
            r@ == ip_pack(resp_header_bytes(self.header), payload@),
            r@.len() == 20 + self.header.options@.len() + payload@.len(),
    {
        let header = self.resp_header();
        Self::pack(header.as_slice(), payload)
    }

    /// The textual flow name: the protocol class and both endpoints,
    /// rendered from the same five-tuple as the fingerprint.
    pub fn name(&self) -> (r: String)
        ensures
            r@ == spec_name(*self),
    {
        let mut s = String::new();
        match self.protocol() {
            Protocol::TCP => s.append("TCP"),
            Protocol::UDP => s.append("UDP"),
            Protocol::ICMP => s.append("ICMP"),
            Protocol::UNKNOWN => s.append("UNKNOWN"),
        }
        s.append("[");
        append_addr(&mut s, &self.header.src_ip, self.payload.src_port());
        s.append("]=>[");
        append_addr(&mut s, &self.header.dst_ip, self.payload.dst_port());
        s.append("]");
        proof {
            reveal_strlit("[");
            reveal_strlit("]=>[");
            reveal_strlit("]");
            assert(s@ =~= spec_name(*self));
        }
        s
    }

    /// The five-tuple of this datagram.
    pub open spec fn spec_fingerprint(&self) -> Fingerprint {
        Fingerprint {
            protocol: self.header.protocol,
            src_ip: be_val(self.header.src_ip@) as u32,
            src_port: self.payload.spec_src_port() as u16,
            dst_ip: be_val(self.header.dst_ip@) as u32,
            dst_port: self.payload.spec_dst_port() as u16,
        }
    }

    /// Derives the flow fingerprint: the five-tuple of protocol, source
    /// address and port, and destination address and port.
    pub fn fingerprint(&self) -> (r: Fingerprint)
        ensures
            r == self.spec_fingerprint(),
    {
        proof {
            lemma_be_val_bound(self.header.src_ip@);
            lemma_be_val_bound(self.header.dst_ip@);
            assert(byte_weight(0) == 1);
            assert(byte_weight(1) == 256);
            assert(byte_weight(2) == 65536);
            assert(byte_weight(3) == 16777216);
            assert(byte_weight(4) == 0x1_0000_0000);
        }
        Fingerprint {
            protocol: self.header.protocol,
            src_ip: bytes_to_u32(self.header.src_ip.as_slice()),
            src_port: self.payload.src_port(),
            dst_ip: bytes_to_u32(self.header.dst_ip.as_slice()),
            dst_port: self.payload.dst_port(),
        }
    }
}

} // verus!
