//! UDP datagrams: the four-field header codec and the reply builder with
//! its pseudo-header checksum.

use crate::checksum::checksum_of;
use crate::checksum::compute_checksum;
use crate::internet::ParseError;
use crate::internet::PseudoHeader;
use crate::internet::pseudo_bytes;
use crate::util::be_bytes16;
use crate::util::be_val;
use crate::util::push_bytes;
use vstd::prelude::*;
use vstd::slice::slice_subrange;
use vstd::slice::slice_to_vec;

verus! {

/// A parsed UDP header.  Multi-byte fields keep their big-endian wire bytes.
pub struct UdpHeader {
    pub src_port: [u8; 2],
    pub dst_port: [u8; 2],
    pub length: [u8; 2],
    pub checksum: [u8; 2],
}

/// A parsed UDP datagram together with the pseudo-header of the IPv4
/// datagram it arrived in.
pub struct Udp {
    pub header: UdpHeader,
    pub pseudo_header: PseudoHeader,
    pub payload: Vec<u8>,
}

/// The reply datagram for `u` carrying `payload`: ports swapped, length set
/// to eight plus the payload length, and the checksum over pseudo-header,
/// header and payload written into bytes 6 and 7.
pub open spec fn udp_response(u: Udp, payload: Seq<u8>) -> Seq<u8> {
    let base = u.header.dst_port@ + u.header.src_port@ + be_bytes16(8 + payload.len() as int)
        + seq![0u8, 0u8] + payload;
    let ck = checksum_of(pseudo_bytes(u.pseudo_header, 8 + payload.len() as int) + base);
    base.update(6, (ck / 256) as u8).update(7, (ck % 256) as u8)
}

impl Udp {
    /// A datagram as the parser hands it out: it fits an IPv4 payload.
    pub open spec fn wf(&self) -> bool {
        8 + self.payload@.len() <= 0xFFFF
    }

    /// The wire bytes this datagram denotes.
    pub open spec fn spec_bytes(&self) -> Seq<u8> {
        self.header.src_port@ + self.header.dst_port@ + self.header.length@
            + self.header.checksum@ + self.payload@
    }

    /// This datagram is the parse of `b` under pseudo-header `ph`.
    pub open spec fn parsed_from(&self, b: Seq<u8>, ph: PseudoHeader) -> bool {
        &&& self.wf()
        &&& self.spec_bytes() == b
        &&& self.header.src_port@ == seq![b[0], b[1]]
        &&& self.header.dst_port@ == seq![b[2], b[3]]
        &&& self.header.length@ == seq![b[4], b[5]]
        &&& self.header.checksum@ == seq![b[6], b[7]]
        &&& self.payload@ == b.skip(8)
        &&& self.pseudo_header == ph
    }

    /// Parses a UDP datagram.  On success the parsed value re-encodes to the
    /// input bytes exactly.
    pub fn new(bytes: &[u8], pseudo_header: PseudoHeader) -> (r: Result<Udp, ParseError>)
        requires
            bytes@.len() <= 0xFFFF,
        ensures
            r is Ok <==> bytes@.len() >= 8,
            r matches Ok(u) ==> u.parsed_from(bytes@, pseudo_header),
            r matches Err(e) ==> e == ParseError::BadLength && bytes@.len() < 8,
    {
        if bytes.len() < 8 {
            return Err(ParseError::BadLength);
        }
        let u = Udp {
            header: UdpHeader {
                src_port: [bytes[0], bytes[1]],
                dst_port: [bytes[2], bytes[3]],
                length: [bytes[4], bytes[5]],
                checksum: [bytes[6], bytes[7]],
            },
            pseudo_header,
            payload: slice_to_vec(slice_subrange(bytes, 8, bytes.len())),
        };
        proof {
            assert(u.spec_bytes() =~= bytes@);
        }
        Ok(u)
    }

    /// Re-emits the wire bytes of this datagram exactly as they were parsed.
    pub fn to_bytes(&self) -> (r: Vec<u8>)
        ensures
            r@ == self.spec_bytes(),
    {
        let mut bytes: Vec<u8> = Vec::new();
        push_bytes(&mut bytes, self.header.src_port.as_slice());
        push_bytes(&mut bytes, self.header.dst_port.as_slice());
        push_bytes(&mut bytes, self.header.length.as_slice());
        push_bytes(&mut bytes, self.header.checksum.as_slice());
        push_bytes(&mut bytes, self.payload.as_slice());
        proof {
            assert(bytes@ =~= self.spec_bytes());
        }
        bytes
    }

    /// The destination port as an integer.
    pub fn dst_port(&self) -> (r: u16)
        ensures
            r == be_val(self.header.dst_port@),
    {
        let r = (self.header.dst_port[0] as u16) * 256 + self.header.dst_port[1] as u16;
        proof {
            assert(self.header.dst_port@.drop_last() =~= seq![self.header.dst_port@[0]]);
            assert(seq![self.header.dst_port@[0]].drop_last() =~= Seq::<u8>::empty());
            assert(be_val(Seq::<u8>::empty()) == 0);
            assert(be_val(seq![self.header.dst_port@[0]]) == self.header.dst_port@[0]);
        }
        r
    }

    /// The application payload carried by this datagram.
    pub fn payload(&self) -> (r: &Vec<u8>)
        ensures
            r@ == self.payload@,
    {
        &self.payload
    }

    /// Builds the reply datagram: `udp_response` of this datagram and the
    /// payload.  The flag bytes are meaningless for UDP and ignored.
    pub fn pack(&self, _flags: &[u8], payload: &[u8]) -> (r: Vec<u8>)
        requires
            8 + payload@.len() <= 0xFFFF,
        ensures
            r@ == udp_response(*self, payload@),
            r@.len() == 8 + payload@.len(),
    {
        let mut packet: Vec<u8> = Vec::new();
        push_bytes(&mut packet, self.header.dst_port.as_slice());
        push_bytes(&mut packet, self.header.src_port.as_slice());
        let length = (8 + payload.len()) as u16;
        packet.push((length / 256) as u8);
        packet.push((length % 256) as u8);
        packet.push(0);
        packet.push(0);
        push_bytes(&mut packet, payload);
        let ghost base = self.header.dst_port@ + self.header.src_port@ + be_bytes16(
            8 + payload@.len() as int,
        ) + seq![0u8, 0u8] + payload@;
        proof {
            assert(packet@ =~= base);
        }

        let mut ck_buf = self.pseudo_header.to_be_bytes(length);
        push_bytes(&mut ck_buf, packet.as_slice());
        let ck = compute_checksum(ck_buf.as_slice());
        packet[6] = ck[0];
        packet[7] = ck[1];
        proof {
            assert(packet@ =~= udp_response(*self, payload@));
        }
        packet
    }
}

} // verus!
