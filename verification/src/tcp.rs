//! TCP segments: parsing with option walking, flag classification, and the
//! response builder that derives sequence/acknowledgement numbers, reflects
//! options (rewriting timestamp TSval), and fills in the pseudo-header
//! checksum.

use crate::checksum::checksum_of;
use crate::checksum::compute_checksum;
use crate::internet::ParseError;
use crate::internet::PseudoHeader;
use crate::internet::pseudo_bytes;
use crate::util::be_bytes16;
use crate::util::be_bytes32;
use crate::util::be_val;
use crate::util::bytes_to_u32;
use crate::util::push_bytes;
use crate::util::u32_to_bytes;
use vstd::prelude::*;
use vstd::slice::slice_subrange;
use vstd::slice::slice_to_vec;

verus! {

/// One TCP option: kinds 0 (end of options) and 1 (no-op) are single wire
/// bytes; every other kind carries a length byte and `length - 2` data bytes.
pub struct TcpOption {
    pub kind: u8,
    pub length: u8,
    pub data: Vec<u8>,
}

/// The wire bytes of one option.
pub open spec fn opt_bytes(o: TcpOption) -> Seq<u8> {
    if o.kind == 0 || o.kind == 1 {
        seq![o.kind]
    } else {
        seq![o.kind, o.length] + o.data@
    }
}

/// The wire bytes of an option list.
pub open spec fn opts_bytes(opts: Seq<TcpOption>) -> Seq<u8>
    decreases opts.len(),
{
    if opts.len() == 0 {
        Seq::empty()
    } else {
        opts_bytes(opts.drop_last()) + opt_bytes(opts.last())
    }
}

/// A structurally sound option: the stored length matches the stored data,
/// and a timestamp option (kind 8) has its mandated ten-byte length.
pub open spec fn opt_wf(o: TcpOption) -> bool {
    if o.kind == 0 || o.kind == 1 {
        o.length == 0 && o.data@.len() == 0
    } else {
        &&& o.length >= 2
        &&& o.data@.len() == o.length - 2
        &&& (o.kind == 8 ==> o.length == 10)
    }
}

/// Every option of the list is structurally sound.
pub open spec fn opts_wf(opts: Seq<TcpOption>) -> bool {
    forall|i: int| 0 <= i < opts.len() ==> opt_wf(#[trigger] opts[i])
}

/// Whether an option area can be walked to its end: kinds 0 and 1 take one
/// byte; any other kind needs a length byte of at least 2 that stays within
/// the area, and kind 8 a length of exactly 10.
pub open spec fn opts_area_ok(area: Seq<u8>) -> bool
    decreases area.len(),
{
    if area.len() == 0 {
        true
    } else if area[0] == 0 || area[0] == 1 {
        opts_area_ok(area.skip(1))
    } else if area.len() < 2 {
        false
    } else {
        let l = area[1] as int;
        if l < 2 || l > area.len() {
            false
        } else if area[0] == 8 && l != 10 {
            false
        } else {
            opts_area_ok(area.skip(l))
        }
    }
}

/// A parsed TCP header.  Multi-byte fields keep their big-endian wire bytes.
pub struct TcpHeader {
    pub src_port: [u8; 2],
    pub dst_port: [u8; 2],
    pub seq_no: [u8; 4],
    pub ack_no: [u8; 4],
    pub data_offset: u8,
    pub reserved: u8,
    pub flags: u8,
    pub window: [u8; 2],
    pub checksum: [u8; 2],
    pub urgent_pointer: [u8; 2],
    pub options: Vec<TcpOption>,
}

/// A parsed TCP segment together with the pseudo-header of the datagram it
/// arrived in.
pub struct Tcp {
    pub header: TcpHeader,
    pub pseudo_header: PseudoHeader,
    pub payload: Vec<u8>,
    pub len: usize,
}

impl Tcp {
    /// A segment as the parser hands it out: the data offset covers the
    /// fixed header and the options exactly, and the whole segment fits an
    /// IPv4 payload.
    pub open spec fn wf(&self) -> bool {
        &&& 5 <= self.header.data_offset <= 15
        &&& self.header.reserved < 16
        &&& opts_wf(self.header.options@)
        &&& opts_bytes(self.header.options@).len() + 20 == 4 * self.header.data_offset
        &&& self.len == 4 * self.header.data_offset + self.payload@.len()
        &&& self.len <= 0xFFFF
    }

    /// The wire bytes this segment denotes.
    pub open spec fn spec_bytes(&self) -> Seq<u8> {
        self.header.src_port@ + self.header.dst_port@ + self.header.seq_no@ + self.header.ack_no@
            + seq![
            (self.header.data_offset * 16 + self.header.reserved) as u8,
            self.header.flags,
        ] + self.header.window@ + self.header.checksum@ + self.header.urgent_pointer@
            + opts_bytes(self.header.options@) + self.payload@
    }

    /// The sequence number of a response: the incoming acknowledgement
    /// number, defaulting to 3001 when that is zero (the initial SYN case).
    pub open spec fn resp_seq(&self) -> int {
        if be_val(self.header.ack_no@) == 0 {
            3001
        } else {
            be_val(self.header.ack_no@)
        }
    }

    /// The acknowledgement number of a response: the incoming sequence
    /// number advanced by the payload length, or by the SYN/FIN pseudo-byte
    /// when the payload is empty, modulo 2^32.
    pub open spec fn resp_ack(&self) -> int {
        if self.payload@.len() > 0 {
            (be_val(self.header.seq_no@) + self.payload@.len()) % 0x1_0000_0000
        } else {
            (be_val(self.header.seq_no@) + 1) % 0x1_0000_0000
        }
    }
}

/// The wire bytes of one reflected option: a timestamp option has its TSval
/// replaced by the responder's sequence number and its TSecr set to the
/// incoming TSval; every other option is echoed unchanged.
pub open spec fn opt_resp_bytes(o: TcpOption, seq: int) -> Seq<u8> {
    if o.kind == 0 || o.kind == 1 {
        seq![o.kind]
    } else if o.kind == 8 {
        seq![o.kind, o.length] + be_bytes32(seq) + o.data@.take(4)
    } else {
        seq![o.kind, o.length] + o.data@
    }
}

/// The wire bytes of a reflected option list.
pub open spec fn opts_resp_bytes(opts: Seq<TcpOption>, seq: int) -> Seq<u8>
    decreases opts.len(),
{
    if opts.len() == 0 {
        Seq::empty()
    } else {
        opts_resp_bytes(opts.drop_last(), seq) + opt_resp_bytes(opts.last(), seq)
    }
}

/// Reflecting sound options keeps the encoded length.
pub proof fn lemma_opts_resp_len(opts: Seq<TcpOption>, seq: int)
    requires
        opts_wf(opts),
    ensures
        opts_resp_bytes(opts, seq).len() == opts_bytes(opts).len(),
    decreases opts.len(),
{
    if opts.len() > 0 {
        assert(opts_wf(opts.drop_last())) by {
            assert(forall|i: int|
                0 <= i < opts.len() - 1 ==> #[trigger] opts.drop_last()[i] == opts[i]);
        }
        lemma_opts_resp_len(opts.drop_last(), seq);
        assert(opt_wf(opts.last()));
    }
}

/// The full response segment for `t` with flag byte `flag` and payload
/// `payload`: ports swapped, sequence and acknowledgement numbers derived,
/// window and urgent pointer copied, options reflected, data offset
/// recomputed, and the checksum over pseudo-header, header and payload
/// written into bytes 16 and 17.
pub open spec fn tcp_response(t: Tcp, flag: u8, payload: Seq<u8>) -> Seq<u8> {
    let s = t.resp_seq();
    let head = t.header.dst_port@ + t.header.src_port@ + be_bytes32(s) + be_bytes32(t.resp_ack())
        + seq![0u8, flag] + t.header.window@ + seq![0u8, 0u8] + t.header.urgent_pointer@
        + opts_resp_bytes(t.header.options@, s);
    let head2 = head.update(12, ((head.len() as int / 4) * 16) as u8);
    let full = head2 + payload;
    let ck = checksum_of(pseudo_bytes(t.pseudo_header, full.len() as int) + full);
    full.update(16, (ck / 256) as u8).update(17, (ck % 256) as u8)
}

/// TCP response arithmetic.  The response to a segment with sequence number
/// `s` and payload length `p` carries, in its sequence number bytes, the
/// incoming acknowledgement number (3001 when that is zero) and, in its
/// acknowledgement number bytes, `s + p` when the segment bears data and
/// `s + 1` otherwise — that is, `s` plus the larger of `p` and 1, the SYN
/// and FIN pseudo-byte included — each modulo 2^32.
pub proof fn lemma_tcp_response_arithmetic(t: Tcp, flag: u8, payload: Seq<u8>)
    requires
        t.wf(),
    ensures
        ({
            let r = tcp_response(t, flag, payload);
            let s = be_val(t.header.seq_no@);
            let p = t.payload@.len() as int;
            &&& r.subrange(4, 8) == be_bytes32(t.resp_seq())
            &&& r.subrange(8, 12) == be_bytes32(t.resp_ack())
            &&& t.resp_ack() == (if p >= 1 {
                (s + p) % 0x1_0000_0000
            } else {
                (s + 1) % 0x1_0000_0000
            })
            &&& t.resp_seq() == (if be_val(t.header.ack_no@) == 0 {
                3001
            } else {
                be_val(t.header.ack_no@)
            })
        }),
{
    let r = tcp_response(t, flag, payload);
    lemma_opts_resp_len(t.header.options@, t.resp_seq());
    assert(r.subrange(4, 8) =~= be_bytes32(t.resp_seq()));
    assert(r.subrange(8, 12) =~= be_bytes32(t.resp_ack()));
}

/// Whether `b` parses as a TCP segment.
pub open spec fn tcp_parse_ok(b: Seq<u8>) -> bool {
    &&& b.len() >= 20
    &&& b[12] / 16 >= 5
    &&& 4 * (b[12] / 16) <= b.len()
    &&& opts_area_ok(b.subrange(20, 4 * (b[12] / 16) as int))
}

/// The error a malformed TCP segment is rejected with.
pub open spec fn tcp_parse_err(b: Seq<u8>) -> ParseError {
    if b.len() < 20 {
        ParseError::Truncated
    } else if b[12] / 16 < 5 || 4 * (b[12] / 16) > b.len() {
        ParseError::BadDataOffset
    } else {
        ParseError::BadOption
    }
}

impl Tcp {
    /// This segment is the parse of `b` under pseudo-header `ph`.
    pub open spec fn parsed_from(&self, b: Seq<u8>, ph: PseudoHeader) -> bool {
        &&& self.wf()
        &&& self.spec_bytes() == b
        &&& self.header.src_port@ == seq![b[0], b[1]]
        &&& self.header.dst_port@ == seq![b[2], b[3]]
        &&& self.header.seq_no@ == seq![b[4], b[5], b[6], b[7]]
        &&& self.header.ack_no@ == seq![b[8], b[9], b[10], b[11]]
        &&& self.header.data_offset == b[12] / 16
        &&& self.header.flags == b[13]
        &&& self.header.window@ == seq![b[14], b[15]]
        &&& self.header.checksum@ == seq![b[16], b[17]]
        &&& self.header.urgent_pointer@ == seq![b[18], b[19]]
        &&& self.payload@ == b.skip(4 * (b[12] / 16) as int)
        &&& self.pseudo_header == ph
        &&& self.len == b.len()
    }

    /// Parses a TCP segment.  On success the parsed value re-encodes to the
    /// input bytes exactly.
    pub fn new(bytes: &[u8], pseudo_header: PseudoHeader) -> (r: Result<Tcp, ParseError>)
        requires
            bytes@.len() <= 0xFFFF,
        ensures
            r is Ok <==> tcp_parse_ok(bytes@),
            r matches Ok(t) ==> t.parsed_from(bytes@, pseudo_header),
            r matches Err(e) ==> e == tcp_parse_err(bytes@),
    {
        if bytes.len() < 20 {
            return Err(ParseError::Truncated);
        }
        let data_offset = bytes[12] / 16;
        let data_begin = (data_offset as usize) * 4;
        if data_offset < 5 || data_begin > bytes.len() {
            return Err(ParseError::BadDataOffset);
        }

        let area = slice_subrange(bytes, 20, data_begin);
        let mut options: Vec<TcpOption> = Vec::new();
        let mut idx: usize = 0;
        proof {
            assert(area@.skip(0) =~= area@);
        }
        while idx < area.len()
            invariant
                idx <= area@.len(),
                area@.len() <= 0xFFFF,
                bytes@.len() >= 20,
                data_offset == bytes@[12] / 16,
                5 <= data_offset,
                data_begin == 4 * data_offset,
                data_begin <= bytes@.len(),
                area@ == bytes@.subrange(20, data_begin as int),
                opts_wf(options@),
                opts_bytes(options@) == area@.take(idx as int),
                opts_area_ok(area@) <==> opts_area_ok(area@.skip(idx as int)),
            decreases area@.len() - idx,
        {
            let ghost rest = area@.skip(idx as int);
            let ghost opts0 = options@;
            let kind = area[idx];
            proof {
                assert(rest[0] == area@[idx as int]);
                assert(rest.len() == area@.len() - idx);
            }
            if kind == 0 || kind == 1 {
                options.push(TcpOption { kind, length: 0, data: Vec::new() });
                proof {
                    assert(options@.drop_last() =~= opts0);
                    assert(opt_bytes(options@.last()) =~= seq![kind]);
                    assert(opts_bytes(options@) =~= area@.take(idx + 1));
                    assert(rest.skip(1) =~= area@.skip(idx + 1));
                }
                idx = idx + 1;
            } else {
                if idx + 1 >= area.len() {
                    proof {
                        assert(!opts_area_ok(rest));
                    }
                    return Err(ParseError::BadOption);
                }
                let length = area[idx + 1] as usize;
                proof {
                    assert(rest[1] == area@[idx + 1]);
                }
                if length < 2 || idx + length > area.len() {
                    proof {
                        assert(!opts_area_ok(rest));
                    }
                    return Err(ParseError::BadOption);
                }
                if kind == 8 && length != 10 {
                    proof {
                        assert(!opts_area_ok(rest));
                    }
                    return Err(ParseError::BadOption);
                }
                let data = slice_to_vec(slice_subrange(area, idx + 2, idx + length));
                options.push(TcpOption { kind, length: length as u8, data });
                proof {
                    assert(options@.drop_last() =~= opts0);
                    assert(opt_bytes(options@.last()) =~= seq![kind, length as u8] + area@.subrange(
                        idx + 2,
                        idx + length,
                    ));
                    assert(opts_bytes(options@) =~= area@.take(idx + length));
                    assert(rest.skip(length as int) =~= area@.skip(idx + length));
                }
                idx = idx + length;
            }
        }
        proof {
            assert(area@.skip(idx as int) =~= Seq::<u8>::empty());
            assert(opts_area_ok(area@));
            assert(area@.take(idx as int) =~= area@);
        }

        let header = TcpHeader {
            src_port: [bytes[0], bytes[1]],
            dst_port: [bytes[2], bytes[3]],
            seq_no: [bytes[4], bytes[5], bytes[6], bytes[7]],
            ack_no: [bytes[8], bytes[9], bytes[10], bytes[11]],
            data_offset,
            reserved: bytes[12] % 16,
            flags: bytes[13],
            window: [bytes[14], bytes[15]],
            checksum: [bytes[16], bytes[17]],
            urgent_pointer: [bytes[18], bytes[19]],
            options,
        };
        let payload = slice_to_vec(slice_subrange(bytes, data_begin, bytes.len()));
        let t = Tcp { header, pseudo_header, payload, len: bytes.len() };
        proof {
            assert(t.spec_bytes() =~= bytes@);
        }
        Ok(t)
    }

    /// Re-emits the wire bytes of this segment exactly as they were parsed.
    pub fn to_bytes(&self) -> (r: Vec<u8>)
        requires
            self.header.data_offset < 16,
            self.header.reserved < 16,
        ensures
            r@ == self.spec_bytes(),
    {
        let mut bytes: Vec<u8> = Vec::new();
        push_bytes(&mut bytes, self.header.src_port.as_slice());
        push_bytes(&mut bytes, self.header.dst_port.as_slice());
        push_bytes(&mut bytes, self.header.seq_no.as_slice());
        push_bytes(&mut bytes, self.header.ack_no.as_slice());
        bytes.push(self.header.data_offset * 16 + self.header.reserved);
        bytes.push(self.header.flags);
        push_bytes(&mut bytes, self.header.window.as_slice());
        push_bytes(&mut bytes, self.header.checksum.as_slice());
        push_bytes(&mut bytes, self.header.urgent_pointer.as_slice());
        let ghost base = bytes@;
        proof {
            assert(base =~= self.header.src_port@ + self.header.dst_port@ + self.header.seq_no@
                + self.header.ack_no@ + seq![
                (self.header.data_offset * 16 + self.header.reserved) as u8,
                self.header.flags,
            ] + self.header.window@ + self.header.checksum@ + self.header.urgent_pointer@);
            assert(bytes@ =~= base + opts_bytes(self.header.options@.take(0)));
        }
        let n_opts = self.header.options.len();
        let mut oi: usize = 0;
        while oi < n_opts
            invariant
                oi <= n_opts,
                n_opts == self.header.options@.len(),
                bytes@ == base + opts_bytes(self.header.options@.take(oi as int)),
            decreases n_opts - oi,
        {
            let o = &self.header.options[oi];
            proof {
                assert(self.header.options@.take(oi + 1).drop_last() =~= self.header.options@.take(
                    oi as int,
                ));
                assert(self.header.options@.take(oi + 1).last() == self.header.options@[oi as int]);
            }
            if o.kind == 0 || o.kind == 1 {
                bytes.push(o.kind);
            } else {
                bytes.push(o.kind);
                bytes.push(o.length);
                push_bytes(&mut bytes, o.data.as_slice());
            }
            proof {
                assert(bytes@ =~= base + opts_bytes(self.header.options@.take(oi + 1)));
            }
            oi = oi + 1;
        }
        proof {
            assert(self.header.options@.take(n_opts as int) =~= self.header.options@);
        }
        push_bytes(&mut bytes, self.payload.as_slice());
        proof {
            assert(bytes@ =~= self.spec_bytes());
        }
        bytes
    }

    /// The application payload carried by this segment.
    pub fn payload(&self) -> (r: &Vec<u8>)
        ensures
            r@ == self.payload@,
    {
        &self.payload
    }

    /// The raw flag byte, ready for classification.
    pub fn flags_type(&self) -> (r: FlagsType)
        ensures
            r.0 == self.header.flags,
    {
        FlagsType(self.header.flags)
    }

    /// Builds the response segment: `tcp_response` of this segment, the
    /// first flag byte, and the payload.
    pub fn pack(&self, flags: &[u8], payload: &[u8]) -> (r: Vec<u8>)
        requires
            self.wf(),
            flags@.len() >= 1,
            4 * self.header.data_offset + payload@.len() <= 0xFFFF,
        ensures
            r@ == tcp_response(*self, flags@[0], payload@),
            r@.len() == 4 * self.header.data_offset + payload@.len(),
    {
        let ghost gs = self.resp_seq();
        let mut pack: Vec<u8> = Vec::new();
        push_bytes(&mut pack, self.header.dst_port.as_slice());
        push_bytes(&mut pack, self.header.src_port.as_slice());

        let seq_no = bytes_to_u32(self.header.ack_no.as_slice());
        let seq_no: u32 = if seq_no == 0 {
            3001
        } else {
            seq_no
        };
        proof {
            assert(seq_no == gs);
        }
        let seq_bytes = u32_to_bytes(seq_no);
        push_bytes(&mut pack, seq_bytes.as_slice());

        let ack_in = bytes_to_u32(self.header.seq_no.as_slice());
        let ack_no: u32 = if self.payload.len() > 0 {
            (((ack_in as u64) + (self.payload.len() as u64)) % 0x1_0000_0000) as u32
        } else {
            (((ack_in as u64) + 1) % 0x1_0000_0000) as u32
        };
        proof {
            assert(ack_no == self.resp_ack());
        }
        push_bytes(&mut pack, u32_to_bytes(ack_no).as_slice());

        pack.push(0);
        pack.push(flags[0]);
        push_bytes(&mut pack, self.header.window.as_slice());
        pack.push(0);
        pack.push(0);
        push_bytes(&mut pack, self.header.urgent_pointer.as_slice());

        let ghost base = self.header.dst_port@ + self.header.src_port@ + be_bytes32(gs)
            + be_bytes32(self.resp_ack()) + seq![0u8, flags@[0]] + self.header.window@ + seq![
            0u8,
            0u8,
        ] + self.header.urgent_pointer@;
        proof {
            assert(pack@ =~= base + opts_resp_bytes(self.header.options@.take(0), gs));
        }

        let n_opts = self.header.options.len();
        let mut oi: usize = 0;
        while oi < n_opts
            invariant
                oi <= n_opts,
                n_opts == self.header.options@.len(),
                opts_wf(self.header.options@),
                pack@ == base + opts_resp_bytes(self.header.options@.take(oi as int), gs),
                base.len() == 20,
                seq_bytes@ == be_bytes32(gs),
            decreases n_opts - oi,
        {
            let ghost taken = self.header.options@.take(oi as int);
            let o = &self.header.options[oi];
            proof {
                assert(opt_wf(self.header.options@[oi as int]));
                assert(self.header.options@.take(oi + 1).drop_last() =~= taken);
                assert(self.header.options@.take(oi + 1).last() == self.header.options@[oi as int]);
            }
            if o.kind == 0 || o.kind == 1 {
                pack.push(o.kind);
                proof {
                    assert(pack@ =~= base + opts_resp_bytes(
                        self.header.options@.take(oi + 1),
                        gs,
                    ));
                }
            } else {
                pack.push(o.kind);
                pack.push(o.length);
                if o.kind == 8 {
                    push_bytes(&mut pack, seq_bytes.as_slice());
                    push_bytes(&mut pack, slice_subrange(o.data.as_slice(), 0, 4));
                    proof {
                        assert(o.data@.subrange(0, 4) =~= o.data@.take(4));
                        assert(pack@ =~= base + opts_resp_bytes(
                            self.header.options@.take(oi + 1),
                            gs,
                        ));
                    }
                } else {
                    push_bytes(&mut pack, o.data.as_slice());
                    proof {
                        assert(pack@ =~= base + opts_resp_bytes(
                            self.header.options@.take(oi + 1),
                            gs,
                        ));
                    }
                }
            }
            oi = oi + 1;
        }
        proof {
            assert(self.header.options@.take(n_opts as int) =~= self.header.options@);
            lemma_opts_resp_len(self.header.options@, gs);
            assert(pack@.len() == 4 * self.header.data_offset);
        }

        // Recompute the data offset from the resulting header length.
        let offset = ((pack.len() / 4) * 16) as u8;
        pack[12] = offset;

        let ghost head = base + opts_resp_bytes(self.header.options@, gs);
        let ghost head2 = head.update(12, ((head.len() as int / 4) * 16) as u8);

        push_bytes(&mut pack, payload);
        proof {
            assert(pack@ =~= head2 + payload@);
        }

        // Checksum over pseudo-header, header and payload.
        let mut ck_buf = self.pseudo_header.to_be_bytes(pack.len() as u16);
        push_bytes(&mut ck_buf, pack.as_slice());
        let ck = compute_checksum(ck_buf.as_slice());
        pack[16] = ck[0];
        pack[17] = ck[1];
        proof {
            assert(pack@ =~= tcp_response(*self, flags@[0], payload@));
        }
        pack
    }
}

/// The raw 8-bit TCP flag field, with classification into the named classes
/// the responder distinguishes.
#[derive(PartialEq, Eq, Structural)]
pub struct FlagsType(pub u8);

pub const ACK: u8 = 0b0001_0000;

pub const SYN: u8 = 0b0000_0010;

pub const SEW: u8 = 0b1100_0010;

pub const FIN: u8 = 0b0000_0001;

pub const RST: u8 = 0b0000_0100;

pub const SYN_ACK: u8 = 0b0001_0010;

pub const PSH_ACK: u8 = 0b0001_1000;

pub const FIN_ACK: u8 = 0b0001_0001;

pub const RST_ACK: u8 = 0b0001_0100;

/// The named classes of TCP flag values; every value outside the nine named
/// bit patterns is `UNKNOWN`.
#[allow(non_camel_case_types)]
#[derive(Clone, Copy, Debug, PartialEq, Eq, Structural)]
pub enum FlagClass {
    ACK,
    SYN,
    SEW,
    FIN,
    RST,
    SYN_ACK,
    PSH_ACK,
    FIN_ACK,
    RST_ACK,
    UNKNOWN,
}

/// The class of an 8-bit flag value: a pure, total function.
pub open spec fn spec_class(bits: u8) -> FlagClass {
    if bits == ACK {
        FlagClass::ACK
    } else if bits == SYN {
        FlagClass::SYN
    } else if bits == SEW {
        FlagClass::SEW
    } else if bits == FIN {
        FlagClass::FIN
    } else if bits == RST {
        FlagClass::RST
    } else if bits == SYN_ACK {
        FlagClass::SYN_ACK
    } else if bits == PSH_ACK {
        FlagClass::PSH_ACK
    } else if bits == FIN_ACK {
        FlagClass::FIN_ACK
    } else if bits == RST_ACK {
        FlagClass::RST_ACK
    } else {
        FlagClass::UNKNOWN
    }
}

/// The bit pattern of a named class.
pub open spec fn class_bits(c: FlagClass) -> u8 {
    match c {
        FlagClass::ACK => ACK,
        FlagClass::SYN => SYN,
        FlagClass::SEW => SEW,
        FlagClass::FIN => FIN,
        FlagClass::RST => RST,
        FlagClass::SYN_ACK => SYN_ACK,
        FlagClass::PSH_ACK => PSH_ACK,
        FlagClass::FIN_ACK => FIN_ACK,
        FlagClass::RST_ACK => RST_ACK,
        FlagClass::UNKNOWN => 0,
    }
}

/// Every 8-bit flag value maps to exactly one class: the classifier is a
/// total function, each named class is reached only from its own bit
/// pattern, and each pattern maps back to its class.
pub proof fn lemma_flag_class_partition()
    ensures
        forall|bits: u8|
            #[trigger] spec_class(bits) != FlagClass::UNKNOWN ==> class_bits(spec_class(bits))
                == bits,
        forall|c: FlagClass|
            c != FlagClass::UNKNOWN ==> #[trigger] spec_class(class_bits(c)) == c,
{
}

impl FlagsType {
    /// Classifies the flag byte.
    pub fn class(&self) -> (r: FlagClass)
        ensures
            r == spec_class(self.0),
    {
        if self.0 == ACK {
            FlagClass::ACK
        } else if self.0 == SYN {
            FlagClass::SYN
        } else if self.0 == SEW {
            FlagClass::SEW
        } else if self.0 == FIN {
            FlagClass::FIN
        } else if self.0 == RST {
            FlagClass::RST
        } else if self.0 == SYN_ACK {
            FlagClass::SYN_ACK
        } else if self.0 == PSH_ACK {
            FlagClass::PSH_ACK
        } else if self.0 == FIN_ACK {
            FlagClass::FIN_ACK
        } else if self.0 == RST_ACK {
            FlagClass::RST_ACK
        } else {
            FlagClass::UNKNOWN
        }
    }

    /// The printable name of the flag byte's class.
    pub fn info(&self) -> (r: &'static str)
        ensures
            spec_class(self.0) == FlagClass::ACK ==> r@ == "ACK"@,
            spec_class(self.0) == FlagClass::SYN ==> r@ == "SYN"@,
            spec_class(self.0) == FlagClass::SEW ==> r@ == "SEW"@,
            spec_class(self.0) == FlagClass::FIN ==> r@ == "FIN"@,
            spec_class(self.0) == FlagClass::RST ==> r@ == "RST"@,
            spec_class(self.0) == FlagClass::SYN_ACK ==> r@ == "SYN_ACK"@,
            spec_class(self.0) == FlagClass::PSH_ACK ==> r@ == "PSH_ACK"@,
            spec_class(self.0) == FlagClass::FIN_ACK ==> r@ == "FIN_ACK"@,
            spec_class(self.0) == FlagClass::RST_ACK ==> r@ == "RST_ACK"@,
            spec_class(self.0) == FlagClass::UNKNOWN ==> r@ == "UNKNOWN"@,
    {
        if self.0 == ACK {
            "ACK"
        } else if self.0 == SYN {
            "SYN"
        } else if self.0 == SEW {
            "SEW"
        } else if self.0 == FIN {
            "FIN"
        } else if self.0 == RST {
            "RST"
        } else if self.0 == SYN_ACK {
            "SYN_ACK"
        } else if self.0 == PSH_ACK {
            "PSH_ACK"
        } else if self.0 == FIN_ACK {
            "FIN_ACK"
        } else if self.0 == RST_ACK {
            "RST_ACK"
        } else {
            "UNKNOWN"
        }
    }
}

} // verus!
