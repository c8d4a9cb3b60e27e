//! The worker pool and router: a fixed table of slots, one per worker.  A
//! datagram is routed to the slot already bound to its flow fingerprint,
//! else to the first free slot, else dropped.  The pump applies worker
//! events to the table and turns response messages into full IPv4 frames.

use crate::events::Event;
use crate::events::IcmpState;
use crate::events::TcpState;
use crate::events::UdpState;
use crate::internet::Datagram;
use crate::internet::Fingerprint;
use crate::internet::Payload;
use crate::internet::Protocol;
use crate::internet::ip_pack;
use crate::internet::resp_header_bytes;
use crate::internet::spec_protocol;
use vstd::prelude::*;

verus! {

/// One worker slot: the fingerprint of the flow bound to it, the flow's
/// last reported state, and the datagram whose response is pending.
pub struct Slot {
    pub fingerprint: Option<Fingerprint>,
    pub state: Event,
    pub datagram: Option<Datagram>,
}

impl Slot {
    /// The slot invariant: the fingerprint is non-empty exactly when the
    /// state is not idle, a datagram is stored only on a bound slot, and a
    /// stored datagram is well-formed.
    pub open spec fn wf(&self) -> bool {
        &&& (self.fingerprint is Some <==> !(self.state is IDLE))
        &&& (self.datagram is Some ==> self.fingerprint is Some)
        &&& (match self.datagram {
            Some(d) => d.wf(),
            None => true,
        })
        &&& !(self.state is MESSAGE)
        &&& !(self.state is LOG)
    }
}

/// The state a fresh binding starts in, by protocol.
pub open spec fn initial_state(p: Protocol) -> Event {
    match p {
        Protocol::TCP => Event::TCP(TcpState::SynAckWait),
        Protocol::UDP => Event::UDP(UdpState::Communication),
        Protocol::ICMP => Event::ICMP(IcmpState::Communication),
        Protocol::UNKNOWN => Event::IDLE,
    }
}

/// The least index at or after `k` bound to `fp`.
pub open spec fn find_bound(slots: Seq<Slot>, fp: Fingerprint, k: int) -> Option<int>
    decreases slots.len() - k,
{
    if k < 0 || k >= slots.len() {
        None
    } else if slots[k].fingerprint == Some(fp) {
        Some(k)
    } else {
        find_bound(slots, fp, k + 1)
    }
}

/// The least free index at or after `k`.
pub open spec fn find_free(slots: Seq<Slot>, k: int) -> Option<int>
    decreases slots.len() - k,
{
    if k < 0 || k >= slots.len() {
        None
    } else if slots[k].fingerprint is None {
        Some(k)
    } else {
        find_free(slots, k + 1)
    }
}

/// Where a datagram with fingerprint `fp` is routed: the slot bound to it,
/// else the first free slot, else nowhere.
pub open spec fn route_dest(slots: Seq<Slot>, fp: Fingerprint) -> Option<int> {
    match find_bound(slots, fp, 0) {
        Some(i) => Some(i),
        None => find_free(slots, 0),
    }
}

/// What `find_bound` returns: the least bound index, or a proof that none
/// at or after `k` is bound.
pub proof fn lemma_find_bound_props(slots: Seq<Slot>, fp: Fingerprint, k: int)
    requires
        0 <= k <= slots.len(),
    ensures
        match find_bound(slots, fp, k) {
            Some(i) => k <= i < slots.len() && slots[i].fingerprint == Some(fp) && (forall|j: int|
                k <= j < i ==> (#[trigger] slots[j].fingerprint) != Some(fp)),
            None => forall|j: int|
                k <= j < slots.len() ==> (#[trigger] slots[j].fingerprint) != Some(fp),
        },
    decreases slots.len() - k,
{
    if k < slots.len() && slots[k].fingerprint != Some(fp) {
        lemma_find_bound_props(slots, fp, k + 1);
    }
}

/// What `find_free` returns: the least free index, or a proof that none at
/// or after `k` is free.
pub proof fn lemma_find_free_props(slots: Seq<Slot>, k: int)
    requires
        0 <= k <= slots.len(),
    ensures
        match find_free(slots, k) {
            Some(i) => k <= i < slots.len() && slots[i].fingerprint is None && (forall|j: int|
                k <= j < i ==> (#[trigger] slots[j].fingerprint) is Some),
            None => forall|j: int|
                k <= j < slots.len() ==> (#[trigger] slots[j].fingerprint) is Some,
        },
    decreases slots.len() - k,
{
    if k < slots.len() && !(slots[k].fingerprint is None) {
        lemma_find_free_props(slots, k + 1);
    }
}

/// No two slots are bound to the same fingerprint.
pub open spec fn distinct_bindings(slots: Seq<Slot>) -> bool {
    forall|i: int, j: int|
        0 <= i < slots.len() && 0 <= j < slots.len() && i != j && (#[trigger] slots[i].fingerprint)
            is Some ==> slots[i].fingerprint != (#[trigger] slots[j].fingerprint)
}

/// Pool routing, reuse half: while a slot is bound to a fingerprint, every
/// datagram carrying that fingerprint is routed to that one slot.
pub proof fn lemma_route_reuse(slots: Seq<Slot>, fp: Fingerprint, i: int)
    requires
        distinct_bindings(slots),
        0 <= i < slots.len(),
        slots[i].fingerprint == Some(fp),
    ensures
        route_dest(slots, fp) == Some(i),
{
    lemma_find_bound_props(slots, fp, 0);
    match find_bound(slots, fp, 0) {
        Some(i0) => {
            assert(i0 == i);
        },
        None => {
            assert(slots[i].fingerprint != Some(fp));
        },
    }
}

/// Pool routing, no-displacement half: a fingerprint no slot is bound to is
/// routed to a free slot whenever one exists, so no existing binding is
/// displaced.
pub proof fn lemma_route_no_displacement(slots: Seq<Slot>, fp: Fingerprint, j: int)
    requires
        forall|i: int|
            0 <= i < slots.len() ==> (#[trigger] slots[i].fingerprint) != Some(fp),
        0 <= j < slots.len(),
        slots[j].fingerprint is None,
    ensures
        match route_dest(slots, fp) {
            Some(k) => 0 <= k < slots.len() && slots[k].fingerprint is None,
            None => false,
        },
{
    lemma_find_bound_props(slots, fp, 0);
    lemma_find_free_props(slots, 0);
}

/// What the pump does with one event.
pub enum PumpAction {
    /// Write this IPv4 frame to the TUN descriptor.
    Emit(Vec<u8>),
    /// Hand this line to the log sink.
    Forward(String),
    /// Nothing to do outside the table.
    Nothing,
}

/// The slot's datagram can answer `resp` under flag byte `flag`: the
/// transport segment and the frame around it fit their 16-bit length fields.
pub open spec fn can_respond(d: Datagram, flag: u8, resp: Seq<u8>) -> bool {
    &&& d.payload.pack_ok(resp)
    &&& 20 + d.header.options@.len() + d.payload.spec_pack(flag, resp).len() <= 0xFFFF
}

/// The fixed table of worker slots.
pub struct Pool {
    pub slots: Vec<Slot>,
}

impl Pool {
    /// The pool invariant: every slot is sound and no fingerprint is bound
    /// twice.
    pub open spec fn wf(&self) -> bool {
        &&& (forall|i: int| 0 <= i < self.slots@.len() ==> (#[trigger] self.slots@[i]).wf())
        &&& distinct_bindings(self.slots@)
    }

    /// A pool of `size` idle slots.
    pub fn new(size: usize) -> (r: Pool)
        ensures
            r.wf(),
            r.slots@.len() == size,
            forall|i: int|
                0 <= i < size ==> (#[trigger] r.slots@[i]).fingerprint is None && r.slots@[i].state
                    is IDLE && r.slots@[i].datagram is None,
    {
        let mut slots: Vec<Slot> = Vec::new();
        let mut i: usize = 0;
        while i < size
            invariant
                i <= size,
                slots@.len() == i,
                forall|j: int|
                    0 <= j < i ==> (#[trigger] slots@[j]).fingerprint is None && slots@[j].state
                        is IDLE && slots@[j].datagram is None,
            decreases size - i,
        {
            slots.push(Slot { fingerprint: None, state: Event::IDLE, datagram: None });
            i = i + 1;
        }
        Pool { slots }
    }

    /// The slot bound to `fp`, if any.
    fn find_match(&self, fp: Fingerprint) -> (r: Option<usize>)
        ensures
            match r {
                Some(i) => find_bound(self.slots@, fp, 0) == Some(i as int),
                None => find_bound(self.slots@, fp, 0) is None,
            },
    {
        let mut i: usize = 0;
        while i < self.slots.len()
            invariant
                i <= self.slots@.len(),
                forall|j: int|
                    0 <= j < i ==> (#[trigger] self.slots@[j].fingerprint) != Some(fp),
            decreases self.slots@.len() - i,
        {
            let hit = match &self.slots[i].fingerprint {
                Some(g) => *g == fp,
                None => false,
            };
            if hit {
                proof {
                    lemma_find_bound_props(self.slots@, fp, 0);
                }
                return Some(i);
            }
            i = i + 1;
        }
        proof {
            lemma_find_bound_props(self.slots@, fp, 0);
        }
        None
    }

    /// The first free slot, if any.
    fn find_first_free(&self) -> (r: Option<usize>)
        ensures
            match r {
                Some(i) => find_free(self.slots@, 0) == Some(i as int),
                None => find_free(self.slots@, 0) is None,
            },
    {
        let mut i: usize = 0;
        while i < self.slots.len()
            invariant
                i <= self.slots@.len(),
                forall|j: int| 0 <= j < i ==> (#[trigger] self.slots@[j].fingerprint) is Some,
            decreases self.slots@.len() - i,
        {
            let free = match &self.slots[i].fingerprint {
                Some(_) => false,
                None => true,
            };
            if free {
                proof {
                    lemma_find_free_props(self.slots@, 0);
                }
                return Some(i);
            }
            i = i + 1;
        }
        proof {
            lemma_find_free_props(self.slots@, 0);
        }
        None
    }

    /// Routes a datagram: to the slot bound to its fingerprint (the existing
    /// flow), else to the first free slot, binding it; a datagram with no
    /// home, or one of an unrecognised protocol, is dropped.  Slots other
    /// than the destination are never touched.
    pub fn execute(&mut self, datagram: Datagram) -> (r: Option<usize>)
        requires
            old(self).wf(),
            datagram.wf(),
        ensures
            final(self).wf(),
            final(self).slots@.len() == old(self).slots@.len(),
            ({
                let fp = datagram.spec_fingerprint();
                let proto = spec_protocol(datagram.header.protocol);
                if proto is UNKNOWN {
                    r is None && final(self).slots@ == old(self).slots@
                } else {
                    match route_dest(old(self).slots@, fp) {
                        Some(i) => r == Some(i as usize) && 0 <= i < final(self).slots@.len()
                            && final(self).slots@ == old(self).slots@.update(
                            i,
                            (Slot {
                                fingerprint: Some(fp),
                                state: if old(self).slots@[i].fingerprint == Some(fp) {
                                    old(self).slots@[i].state
                                } else {
                                    initial_state(proto)
                                },
                                datagram: Some(datagram),
                            }),
                        ),
                        None => r is None && final(self).slots@ == old(self).slots@,
                    }
                }
            }),
    {
        let fp = datagram.fingerprint();
        let is_unknown = match datagram.protocol() {
            Protocol::UNKNOWN => true,
            _ => false,
        };
        if is_unknown {
            return None;
        }
        let initial = match datagram.protocol() {
            Protocol::TCP => Event::TCP(TcpState::SynAckWait),
            Protocol::UDP => Event::UDP(UdpState::Communication),
            Protocol::ICMP => Event::ICMP(IcmpState::Communication),
            Protocol::UNKNOWN => Event::IDLE,
        };
        proof {
            lemma_find_bound_props(self.slots@, fp, 0);
            lemma_find_free_props(self.slots@, 0);
        }
        match self.find_match(fp) {
            Some(i) => {
                self.slots[i].datagram = Some(datagram);
                proof {
                    assert(self.slots@ =~= old(self).slots@.update(
                        i as int,
                        (Slot {
                            fingerprint: Some(fp),
                            state: old(self).slots@[i as int].state,
                            datagram: self.slots@[i as int].datagram,
                        }),
                    ));
                }
                Some(i)
            },
            None => match self.find_first_free() {
                Some(i) => {
                    self.slots[i] = Slot {
                        fingerprint: Some(fp),
                        state: initial,
                        datagram: Some(datagram),
                    };
                    Some(i)
                },
                None => None,
            },
        }
    }

    /// Applies one worker event to the table: an idle report clears the
    /// slot; a response message is wrapped into a full IPv4 frame from the
    /// slot's stored datagram, where one is stored and the response fits; a
    /// log line is forwarded; a state report is stored on the bound slot.
    pub fn apply_event(&mut self, index: usize, event: Event) -> (r: PumpAction)
        requires
            old(self).wf(),
            index < old(self).slots@.len(),
        ensures
            final(self).wf(),
            final(self).slots@.len() == old(self).slots@.len(),
            match event {
                Event::IDLE => final(self).slots@ == old(self).slots@.update(
                    index as int,
                    (Slot { fingerprint: None, state: Event::IDLE, datagram: None }),
                ) && r is Nothing,
                Event::MESSAGE(flag, resp) => final(self).slots@ == old(self).slots@ && (match old(
                    self,
                ).slots@[index as int].datagram {
                    Some(d) => {
                        if can_respond(d, flag, resp@) {
                            r matches PumpAction::Emit(frame) && frame@ == ip_pack(
                                resp_header_bytes(d.header),
                                d.payload.spec_pack(flag, resp@),
                            )
                        } else {
                            r is Nothing
                        }
                    },
                    None => r is Nothing,
                }),
                Event::LOG(s) => final(self).slots@ == old(self).slots@ && (r matches
                    PumpAction::Forward(s2) && s2 == s),
                _ => r is Nothing && (if old(self).slots@[index as int].fingerprint is Some {
                    final(self).slots@ == old(self).slots@.update(
                        index as int,
                        (Slot {
                            fingerprint: old(self).slots@[index as int].fingerprint,
                            state: event,
                            datagram: old(self).slots@[index as int].datagram,
                        }),
                    )
                } else {
                    final(self).slots@ == old(self).slots@
                }),
            },
    {
        match event {
            Event::IDLE => {
                self.slots[index] = Slot { fingerprint: None, state: Event::IDLE, datagram: None };
                PumpAction::Nothing
            },
            Event::MESSAGE(flag, resp) => {
                let slot = &self.slots[index];
                match &slot.datagram {
                    Some(d) => {
                        proof {
                            assert(old(self).slots@[index as int].wf());
                        }
                        let fits = match &d.payload {
                            Payload::Tcp(t) => resp.len() <= 0xFFFF && 4 * (t.header.data_offset
                                as usize) + resp.len() <= 0xFFFF,
                            Payload::Udp(_) => resp.len() <= 0xFFFF && 8 + resp.len() <= 0xFFFF,
                            _ => true,
                        };
                        if !fits {
                            return PumpAction::Nothing;
                        }
                        let transport = d.payload.pack(&[flag], resp.as_slice());
                        if 20 + d.header.options.len() + transport.len() > 0xFFFF {
                            return PumpAction::Nothing;
                        }
                        PumpAction::Emit(d.resp_pack(transport.as_slice()))
                    },
                    None => PumpAction::Nothing,
                }
            },
            Event::LOG(s) => PumpAction::Forward(s),
            Event::TCP(s) => {
                if self.slots[index].fingerprint.is_some() {
                    self.slots[index].state = Event::TCP(s);
                }
                PumpAction::Nothing
            },
            Event::UDP(s) => {
                if self.slots[index].fingerprint.is_some() {
                    self.slots[index].state = Event::UDP(s);
                }
                PumpAction::Nothing
            },
            Event::ICMP(s) => {
                if self.slots[index].fingerprint.is_some() {
                    self.slots[index].state = Event::ICMP(s);
                }
                PumpAction::Nothing
            },
        }
    }

    /// Drops every worker slot: after shutdown the table is empty.
    pub fn stop(&mut self)
        ensures
            final(self).wf(),
            final(self).slots@.len() == 0,
    {
        loop
            invariant_except_break
                true,
            ensures
                self.slots@.len() == 0,
            decreases self.slots@.len(),
        {
            match self.slots.pop() {
                Some(_) => {},
                None => {
                    break ;
                },
            }
        }
    }
}

} // verus!
