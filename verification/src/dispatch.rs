//! The loopback dispatch pipeline: parse one raw datagram, ask the
//! responder for its answers, and wrap each answer that fits into a full
//! IPv4 frame ready for the TUN descriptor.

use crate::internet::Datagram;
use crate::internet::ParseError;
use crate::internet::Protocol;
use crate::internet::dgram_parse_err;
use crate::internet::dgram_parse_ok;
use crate::internet::ip_pack;
use crate::internet::resp_header_bytes;
use crate::internet::spec_protocol;
use crate::simulator::Simulator;
use crate::simulator::sim_responses;
use crate::util::views_match;
use vstd::prelude::*;

verus! {

/// Each response wrapped into a full IPv4 frame around the response header
/// of `d`; a response too large for an IPv4 total length is dropped.
pub open spec fn wrap_frames(d: Datagram, resps: Seq<Seq<u8>>) -> Seq<Seq<u8>>
    decreases resps.len(),
{
    if resps.len() == 0 {
        Seq::empty()
    } else {
        let rest = wrap_frames(d, resps.drop_last());
        if 20 + d.header.options@.len() + resps.last().len() <= 0xFFFF {
            rest.push(ip_pack(resp_header_bytes(d.header), resps.last()))
        } else {
            rest
        }
    }
}

/// The frames the dispatch pipeline answers a datagram with: nothing for an
/// unrecognised protocol, else the responder's segments wrapped.
pub open spec fn dispatch_frames(d: Datagram) -> Seq<Seq<u8>> {
    if spec_protocol(d.header.protocol) is UNKNOWN {
        Seq::empty()
    } else {
        wrap_frames(d, sim_responses(spec_protocol(d.header.protocol), d.payload))
    }
}

/// Parses one raw datagram and computes the full response frames the
/// loopback responder answers it with.
pub fn dispatch(data: &[u8]) -> (r: Result<(Datagram, Vec<Vec<u8>>), ParseError>)
    requires
        data@.len() <= 0xFFFF,
    ensures
        r is Ok <==> dgram_parse_ok(data@),
        r matches Err(e) ==> e == dgram_parse_err(data@),
        r matches Ok(p) ==> p.0.parsed_from(data@) && p.0.wf() && views_match(
            p.1@,
            dispatch_frames(p.0),
        ),
{
    let d = match Datagram::new(data) {
        Ok(d) => d,
        Err(e) => {
            return Err(e);
        },
    };
    let protocol = d.protocol();
    let unknown = match protocol {
        Protocol::UNKNOWN => true,
        _ => false,
    };
    if unknown {
        return Ok((d, Vec::new()));
    }

    let responses = Simulator::handle(&protocol, &d.payload);
    let ghost models = sim_responses(protocol, d.payload);
    let mut frames: Vec<Vec<u8>> = Vec::new();
    let mut k: usize = 0;
    proof {
        assert(models.take(0) =~= Seq::<Seq<u8>>::empty());
    }
    while k < responses.len()
        invariant
            k <= responses@.len(),
            d.wf(),
            views_match(responses@, models),
            views_match(frames@, wrap_frames(d, models.take(k as int))),
        decreases responses@.len() - k,
    {
        let t = &responses[k];
        proof {
            assert(t@ == models[k as int]);
            assert(models.take(k + 1).drop_last() =~= models.take(k as int));
            assert(models.take(k + 1).last() == models[k as int]);
        }
        if t.len() <= 0xFFFF && 20 + d.header.options.len() + t.len() <= 0xFFFF {
            frames.push(d.resp_pack(t.as_slice()));
        }
        k = k + 1;
    }
    proof {
        assert(models.take(models.len() as int) =~= models);
    }
    Ok((d, frames))
}

} // verus!
