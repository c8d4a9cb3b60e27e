//! ICMP echo: parsing an echo message and building the echo reply with its
//! recomputed checksum.

use crate::checksum::checksum_of;
use crate::checksum::compute_checksum;
use crate::internet::ParseError;
use crate::util::push_bytes;
use vstd::prelude::*;
use vstd::slice::slice_subrange;
use vstd::slice::slice_to_vec;

verus! {

/// The fixed four bytes of an ICMP message.
pub struct IcmpHeader {
    pub tp: u8,
    pub code: u8,
    pub checksum: [u8; 2],
}

/// A message body that can re-emit its wire bytes.
pub trait IcmpEntity {
    /// The wire bytes of the body.
    spec fn entity_bytes(&self) -> Seq<u8>;

    /// Re-emits the body bytes.
    fn pack(&self) -> (r: Vec<u8>)
        ensures
            r@ == self.entity_bytes(),
    ;
}

/// The body of an ICMP echo request or reply: identifier, sequence number
/// and the echoed data.
pub struct Echo {
    pub id: [u8; 2],
    pub seq: [u8; 2],
    pub data: Vec<u8>,
    pub len: usize,
}

impl Echo {
    /// Parses an echo body from the bytes after the ICMP header.
    pub fn new(payload: &[u8]) -> (r: Result<Echo, ParseError>)
        ensures
            r is Ok <==> payload@.len() >= 4,
            r matches Ok(e) ==> {
                &&& e.id@ == seq![payload@[0], payload@[1]]
                &&& e.seq@ == seq![payload@[2], payload@[3]]
                &&& e.data@ == payload@.skip(4)
                &&& e.len == payload@.len()
                &&& e.entity_bytes() == payload@
            },
            r matches Err(e) ==> e == ParseError::BadLength && payload@.len() < 4,
    {
        if payload.len() < 4 {
            return Err(ParseError::BadLength);
        }
        let e = Echo {
            id: [payload[0], payload[1]],
            seq: [payload[2], payload[3]],
            data: slice_to_vec(slice_subrange(payload, 4, payload.len())),
            len: payload.len(),
        };
        proof {
            assert(e.entity_bytes() =~= payload@);
        }
        Ok(e)
    }
}

impl IcmpEntity for Echo {
    open spec fn entity_bytes(&self) -> Seq<u8> {
        self.id@ + self.seq@ + self.data@
    }

    fn pack(&self) -> (r: Vec<u8>) {
        let mut bytes: Vec<u8> = Vec::new();
        push_bytes(&mut bytes, self.id.as_slice());
        push_bytes(&mut bytes, self.seq.as_slice());
        push_bytes(&mut bytes, self.data.as_slice());
        proof {
            assert(bytes@ =~= self.entity_bytes());
        }
        bytes
    }
}

/// A parsed ICMP message: the fixed header, the raw body bytes, and the body
/// read as an echo message.
pub struct Icmp {
    pub header: IcmpHeader,
    pub payload: Vec<u8>,
    pub entity: Echo,
}

/// The echo reply for `i`: type 0, the code preserved, identifier, sequence
/// number and data echoed, and the checksum over the whole message written
/// into bytes 2 and 3.
pub open spec fn icmp_reply(i: Icmp) -> Seq<u8> {
    let base = seq![0u8, i.header.code, 0u8, 0u8] + i.entity.entity_bytes();
    let ck = checksum_of(base);
    base.update(2, (ck / 256) as u8).update(3, (ck % 256) as u8)
}

impl Icmp {
    /// A message as the parser hands it out: the echo body covers the raw
    /// body bytes, and the whole message fits an IPv4 payload.
    pub open spec fn wf(&self) -> bool {
        &&& 4 + self.payload@.len() <= 0xFFFF
        &&& self.entity.entity_bytes().len() == self.payload@.len()
    }

    /// The wire bytes this message denotes.
    pub open spec fn spec_bytes(&self) -> Seq<u8> {
        seq![self.header.tp, self.header.code] + self.header.checksum@ + self.payload@
    }

    /// This message is the parse of `b`.
    pub open spec fn parsed_from(&self, b: Seq<u8>) -> bool {
        &&& self.wf()
        &&& self.spec_bytes() == b
        &&& self.header.tp == b[0]
        &&& self.header.code == b[1]
        &&& self.header.checksum@ == seq![b[2], b[3]]
        &&& self.payload@ == b.skip(4)
        &&& self.entity.entity_bytes() == b.skip(4)
        &&& self.entity.id@ == seq![b[4], b[5]]
        &&& self.entity.seq@ == seq![b[6], b[7]]
        &&& self.entity.data@ == b.skip(8)
    }

    /// Parses an ICMP message whose body is an echo message.  On success the
    /// parsed value re-encodes to the input bytes exactly.
    pub fn new(bytes: &[u8]) -> (r: Result<Icmp, ParseError>)
        requires
            bytes@.len() <= 0xFFFF,
        ensures
            r is Ok <==> bytes@.len() >= 8,
            r matches Ok(i) ==> i.parsed_from(bytes@),
            r matches Err(e) ==> e == ParseError::BadLength && bytes@.len() < 8,
    {
        if bytes.len() < 8 {
            return Err(ParseError::BadLength);
        }
        let body = slice_subrange(bytes, 4, bytes.len());
        let entity = match Echo::new(body) {
            Ok(e) => e,
            Err(e) => {
                proof {
                    assert(false);
                }
                return Err(e);
            },
        };
        let i = Icmp {
            header: IcmpHeader { tp: bytes[0], code: bytes[1], checksum: [bytes[2], bytes[3]] },
            payload: slice_to_vec(body),
            entity,
        };
        proof {
            assert(i.spec_bytes() =~= bytes@);
            assert(i.entity.id@ =~= seq![bytes@[4], bytes@[5]]);
            assert(i.entity.seq@ =~= seq![bytes@[6], bytes@[7]]);
            assert(i.entity.data@ =~= bytes@.skip(8));
        }
        Ok(i)
    }

    /// Re-emits the wire bytes of this message exactly as they were parsed.
    pub fn to_bytes(&self) -> (r: Vec<u8>)
        ensures
            r@ == self.spec_bytes(),
    {
        let mut bytes: Vec<u8> = Vec::new();
        bytes.push(self.header.tp);
        bytes.push(self.header.code);
        push_bytes(&mut bytes, self.header.checksum.as_slice());
        push_bytes(&mut bytes, self.payload.as_slice());
        proof {
            assert(bytes@ =~= self.spec_bytes());
        }
        bytes
    }

    /// The body bytes after the ICMP header.
    pub fn payload(&self) -> (r: &Vec<u8>)
        ensures
            r@ == self.payload@,
    {
        &self.payload
    }

    /// Builds the echo reply: `icmp_reply` of this message.  The flag and
    /// payload bytes are meaningless for ICMP and ignored.
    pub fn pack(&self, _flags: &[u8], _payload: &[u8]) -> (r: Vec<u8>)
        requires
            self.wf(),
        ensures
            r@ == icmp_reply(*self),
            r@.len() == 4 + self.entity.entity_bytes().len(),
    {
        let mut packet: Vec<u8> = Vec::new();
        packet.push(0);
        packet.push(self.header.code);
        packet.push(0);
        packet.push(0);
        let body = self.entity.pack();
        push_bytes(&mut packet, body.as_slice());
        let ghost base = seq![0u8, self.header.code, 0u8, 0u8] + self.entity.entity_bytes();
        proof {
            assert(packet@ =~= base);
        }
        let ck = compute_checksum(packet.as_slice());
        packet[2] = ck[0];
        packet[3] = ck[1];
        proof {
            assert(packet@ =~= icmp_reply(*self));
        }
        packet
    }
}

} // verus!
