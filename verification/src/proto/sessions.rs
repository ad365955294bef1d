//! The UDP associations of one connection, by their identifier.

use vstd::prelude::*;
use bytes::BytesMut;
use crate::proto::error::{ProtoError, ProtoErrorView};
use crate::proto::message::{PacketMessage, PacketMessageView};
use crate::proto::reassembly::{
    add_fragment_spec, buffer_wf, placeholder_target, retain_fresh, FragmentInfoView,
};
use crate::proto::udp_stream::{
    datagrams_carry, effective_datagram_size, next_id, send_plan, SendPlan, UdpStream,
    UdpStreamView,
};
use crate::proto::{address_to_target, target_of_address};
use crate::types::{relay_target, TargetAddr, TargetAddrView};
use crate::udp::{opt_target_view, UdpPacket, UdpPacketView};

verus! {

/// The associations that are open on a connection, no two with the same
/// identifier.
pub struct UdpSessions {
    sessions: Vec<UdpStream>,
}

/// The values of the associations of a connection, in their order.
pub closed spec fn streams_view(streams: Seq<UdpStream>) -> Seq<UdpStreamView> {
    Seq::new(streams.len(), |i: int| streams[i]@)
}

impl View for UdpSessions {
    type V = Seq<UdpStreamView>;

    closed spec fn view(&self) -> Seq<UdpStreamView> {
        streams_view(self.sessions@)
    }
}

/// Whether association `assoc_id` is open.
pub open spec fn has_session(s: Seq<UdpStreamView>, assoc_id: u16) -> bool {
    exists|i: int| 0 <= i < s.len() && (#[trigger] s[i]).assoc_id == assoc_id
}

/// The place of an open association.
pub open spec fn session_index(s: Seq<UdpStreamView>, assoc_id: u16) -> int {
    choose|i: int| 0 <= i < s.len() && (#[trigger] s[i]).assoc_id == assoc_id
}

/// The invariant of the associations: each keeps that of its reassembly
/// buffer, and no identifier occurs twice.
pub open spec fn sessions_wf(s: Seq<UdpStreamView>) -> bool {
    &&& forall|i: int| 0 <= i < s.len() ==> buffer_wf((#[trigger] s[i]).pending)
    &&& forall|i: int, j: int|
        0 <= i < j < s.len() ==> (#[trigger] s[i]).assoc_id != (#[trigger] s[j]).assoc_id
}

/// An association that has sent and received nothing yet.
pub open spec fn fresh_session(assoc_id: u16) -> UdpStreamView {
    UdpStreamView { assoc_id, next_pkt_id: 0, pending: Seq::empty() }
}

/// Why a packet could not be handed to an association.
#[derive(Debug, PartialEq, Eq)]
pub enum SessionError {
    /// No association with that identifier is open.
    UnknownAssociation { assoc_id: u16 },
    /// The packet cannot be put on the wire.
    Proto(ProtoError),
}

/// The mathematical value of a [`SessionError`].
pub enum SessionErrorView {
    UnknownAssociation { assoc_id: u16 },
    Proto(ProtoErrorView),
}

impl View for SessionError {
    type V = SessionErrorView;

    open spec fn view(&self) -> SessionErrorView {
        match *self {
            SessionError::UnknownAssociation { assoc_id } => SessionErrorView::UnknownAssociation {
                assoc_id,
            },
            SessionError::Proto(e) => SessionErrorView::Proto(e@),
        }
    }
}

/// What became of a Packet message from the peer.
#[derive(Debug, PartialEq, Eq)]
pub enum Delivery {
    /// A packet is whole and goes to the local socket.  `created` says
    /// that the message opened its association.
    Packet { packet: UdpPacket, created: bool },
    /// The message was a fragment of a packet that is not whole yet, or was
    /// dropped by the reassembly buffer.
    Pending { created: bool },
    /// The message was dropped: its association is not open.
    UnknownAssociation,
    /// The message was dropped: it is the first fragment of a packet and
    /// names no target.
    NoAddress,
    /// The message completed a packet that was dropped: its target has
    /// port 0.
    InvalidTarget { created: bool },
}

/// The mathematical value of a [`Delivery`].
pub enum DeliveryView {
    Packet { packet: UdpPacketView, created: bool },
    Pending { created: bool },
    UnknownAssociation,
    NoAddress,
    InvalidTarget { created: bool },
}

impl View for Delivery {
    type V = DeliveryView;

    open spec fn view(&self) -> DeliveryView {
        match *self {
            Delivery::Packet { packet, created } => DeliveryView::Packet {
                packet: packet@,
                created,
            },
            Delivery::Pending { created } => DeliveryView::Pending { created },
            Delivery::UnknownAssociation => DeliveryView::UnknownAssociation,
            Delivery::NoAddress => DeliveryView::NoAddress,
            Delivery::InvalidTarget { created } => DeliveryView::InvalidTarget { created },
        }
    }
}

/// The target of a Packet message: the one its address names; for a later
/// fragment without an address, the stand-in; for a first fragment without
/// one, none.
pub open spec fn packet_target(m: PacketMessageView) -> Option<TargetAddrView> {
    match target_of_address(m.address) {
        Some(t) => Some(t),
        None => if m.frag_id > 0 {
            Some(TargetAddrView::IPv4(seq![0u8, 0u8, 0u8, 0u8], 0))
        } else {
            None
        },
    }
}

/// The associations after a Packet message, and what became of it.
pub struct DeliverOutcome {
    pub sessions: Seq<UdpStreamView>,
    pub delivery: DeliveryView,
}

/// What a Packet message that arrives at time `now` does.  With `create`
/// a message for an association that is not open opens it; without, the
/// message is dropped.  A packet that is whole is handed on unless its
/// target has port 0.
pub open spec fn deliver_spec(
    s: Seq<UdpStreamView>,
    m: PacketMessageView,
    source: Option<TargetAddrView>,
    now: u64,
    create: bool,
) -> DeliverOutcome {
    match packet_target(m) {
        None => DeliverOutcome { sessions: s, delivery: DeliveryView::NoAddress },
        Some(target) => {
            let known = has_session(s, m.assoc_id);
            if !known && !create {
                DeliverOutcome { sessions: s, delivery: DeliveryView::UnknownAssociation }
            } else {
                let base = if known {
                    s
                } else {
                    s.push(fresh_session(m.assoc_id))
                };
                let i = if known {
                    session_index(s, m.assoc_id)
                } else {
                    s.len() as int
                };
                let added = add_fragment_spec(
                    base[i].pending,
                    FragmentInfoView {
                        assoc_id: m.assoc_id,
                        pkt_id: m.pkt_id,
                        frag_total: m.frag_total,
                        frag_id: m.frag_id,
                        source,
                        target,
                    },
                    m.payload,
                    now,
                );
                DeliverOutcome {
                    sessions: base.update(
                        i,
                        UdpStreamView {
                            assoc_id: base[i].assoc_id,
                            next_pkt_id: base[i].next_pkt_id,
                            pending: added.buffer,
                        },
                    ),
                    delivery: match added.packet {
                        Some(packet) => if relay_target(packet.target) {
                            DeliveryView::Packet { packet, created: !known }
                        } else {
                            DeliveryView::InvalidTarget { created: !known }
                        },
                        None => DeliveryView::Pending { created: !known },
                    },
                }
            }
        },
    }
}

/// Every association with what has waited too long at time `now` removed
/// from its reassembly buffer.
pub open spec fn collect_garbage_spec(s: Seq<UdpStreamView>, now: u64) -> Seq<UdpStreamView> {
    Seq::new(
        s.len(),
        |i: int|
            UdpStreamView {
                assoc_id: s[i].assoc_id,
                next_pkt_id: s[i].next_pkt_id,
                pending: retain_fresh(s[i].pending, now),
            },
    )
}

/// The place of association `assoc_id`, if it is open.
fn find_session(sessions: &Vec<UdpStream>, assoc_id: u16) -> (res: Option<usize>)
    requires
        sessions_wf(streams_view(sessions@)),
    ensures
        res is Some <==> has_session(streams_view(sessions@), assoc_id),
        res is Some ==> res->Some_0 == session_index(streams_view(sessions@), assoc_id) && res->Some_0
            < streams_view(sessions@).len(),
{
    let mut i: usize = 0;
    while i < sessions.len()
        invariant
            i <= sessions.len(),
            sessions_wf(streams_view(sessions@)),
            forall|k: int| 0 <= k < i ==> (#[trigger] streams_view(sessions@)[k]).assoc_id != assoc_id,
        decreases sessions.len() - i,
    {
        if sessions[i].assoc_id() == assoc_id {
            assert(streams_view(sessions@)[i as int].assoc_id == assoc_id);
            let ghost j = session_index(streams_view(sessions@), assoc_id);
            assert(streams_view(sessions@)[j].assoc_id == assoc_id);
            assert(j == i);
            return Some(i);
        }
        i += 1;
    }
    None
}

/// Opens association `assoc_id` unless it is open already, and says
/// whether it did.
fn open_in(sessions: &mut Vec<UdpStream>, assoc_id: u16) -> (created: bool)
    requires
        sessions_wf(streams_view(old(sessions)@)),
    ensures
        sessions_wf(streams_view(final(sessions)@)),
        created == !has_session(streams_view(old(sessions)@), assoc_id),
        created ==> streams_view(final(sessions)@) == streams_view(old(sessions)@).push(fresh_session(assoc_id)),
        !created ==> streams_view(final(sessions)@) == streams_view(old(sessions)@),
{
    if find_session(sessions, assoc_id).is_some() {
        return false;
    }
    sessions.push(UdpStream::new(assoc_id));
    assert(streams_view(sessions@) =~= streams_view(old(sessions)@).push(fresh_session(assoc_id)));
    true
}

/// Closes association `assoc_id` and forgets what it had received, and
/// says whether it was open.
fn close_in(sessions: &mut Vec<UdpStream>, assoc_id: u16) -> (removed: bool)
    requires
        sessions_wf(streams_view(old(sessions)@)),
    ensures
        sessions_wf(streams_view(final(sessions)@)),
        removed == has_session(streams_view(old(sessions)@), assoc_id),
        removed ==> streams_view(final(sessions)@) == streams_view(old(sessions)@).remove(session_index(streams_view(old(sessions)@), assoc_id)),
        !removed ==> streams_view(final(sessions)@) == streams_view(old(sessions)@),
        !has_session(streams_view(final(sessions)@), assoc_id),
{
    match find_session(sessions, assoc_id) {
        Some(idx) => {
            let _ = sessions.remove(idx);
            assert(streams_view(sessions@) =~= streams_view(old(sessions)@).remove(idx as int));
            proof {
                lemma_remove_session(streams_view(old(sessions)@), idx as int);
            }
            true
        },
        None => false,
    }
}

/// The datagrams that carry `packet` to the peer over association
/// `assoc_id`, as [`UdpStream::send_packet`] makes them.
fn send_in(
    sessions: &mut Vec<UdpStream>,
    assoc_id: u16,
    packet: UdpPacket,
    max_datagram_size: Option<usize>,
) -> (res: Result<Vec<BytesMut>, SessionError>)
    requires
        sessions_wf(streams_view(old(sessions)@)),
    ensures
        sessions_wf(streams_view(final(sessions)@)),
        !has_session(streams_view(old(sessions)@), assoc_id) ==> res is Err && res->Err_0@
            == (SessionErrorView::UnknownAssociation { assoc_id }) && streams_view(final(sessions)@) == streams_view(old(sessions)@),
        has_session(streams_view(old(sessions)@), assoc_id) ==> {
            let i = session_index(streams_view(old(sessions)@), assoc_id);
            let stream = streams_view(old(sessions)@)[i];
            match send_plan(
                packet.target@,
                packet.payload@.len(),
                effective_datagram_size(max_datagram_size),
            ) {
                SendPlan::DomainTooLong => res is Err && res->Err_0@ == SessionErrorView::Proto(
                    ProtoErrorView::DomainTooLong { domain: packet.target@->Domain_0 },
                ) && streams_view(final(sessions)@) == streams_view(old(sessions)@),
                SendPlan::TooLarge => res is Err && res->Err_0@ == SessionErrorView::Proto(
                    ProtoErrorView::PacketTooLarge,
                ) && streams_view(final(sessions)@) == streams_view(old(sessions)@),
                plan => res is Ok && datagrams_carry(
                    res->Ok_0@,
                    plan,
                    assoc_id,
                    stream.next_pkt_id,
                    packet.target@,
                    packet.payload@,
                ) && streams_view(final(sessions)@) == streams_view(old(sessions)@).update(
                    i,
                    UdpStreamView {
                        assoc_id,
                        next_pkt_id: next_id(stream.next_pkt_id),
                        pending: stream.pending,
                    },
                ),
            }
        },
{
    let idx = match find_session(sessions, assoc_id) {
        Some(idx) => idx,
        None => {
            return Err(SessionError::UnknownAssociation { assoc_id });
        },
};
    let mut stream = sessions.remove(idx);
    let ghost before = stream@;
    let res = stream.send_packet(packet, max_datagram_size);
    let ghost after = stream@;
    sessions.insert(idx, stream);
    assert(streams_view(sessions@) =~= streams_view(old(sessions)@).update(idx as int, after));
    proof {
        lemma_update_session(streams_view(old(sessions)@), idx as int, after);
        if after.next_pkt_id == before.next_pkt_id {
            assert(after == before);
            assert(streams_view(sessions@) =~= streams_view(old(sessions)@));
        }
    }
    match res {
        Ok(datagrams) => Ok(datagrams),
        Err(e) => Err(SessionError::Proto(e)),
    }
}

/// Hands a Packet message that arrived at time `now` to its association
/// and says what became of it.  With `create`, a message for an
/// association that is not open opens it.
fn deliver_in(
    sessions: &mut Vec<UdpStream>,
    message: PacketMessage,
    source: Option<TargetAddr>,
    now: u64,
    create: bool,
) -> (res: Delivery)
    requires
        sessions_wf(streams_view(old(sessions)@)),
    ensures
        sessions_wf(streams_view(final(sessions)@)),
        streams_view(final(sessions)@) == deliver_spec(
            streams_view(old(sessions)@),
            message@,
            opt_target_view(source),
            now,
            create,
        ).sessions,
        res@ == deliver_spec(
            streams_view(old(sessions)@),
            message@,
            opt_target_view(source),
            now,
            create,
        ).delivery,
{
    let ghost m = message@;
    let PacketMessage { assoc_id, pkt_id, frag_total, frag_id, address, payload } = message;
    let target = match address_to_target(address) {
        Ok(target) => target,
        Err(_) => {
            if frag_id > 0 {
                placeholder_target()
            } else {
                return Delivery::NoAddress;
            }
        },
};
    let found = find_session(sessions, assoc_id);
    let created = found.is_none();
    let idx = match found {
        Some(idx) => idx,
        None => {
            if !create {
                return Delivery::UnknownAssociation;
            }
            sessions.push(UdpStream::new(assoc_id));
            sessions.len() - 1
        },
};
    let ghost base = streams_view(sessions@);
    proof {
        if created {
            assert(base =~= streams_view(old(sessions)@).push(fresh_session(assoc_id)));
            lemma_push_session(streams_view(old(sessions)@), assoc_id);
        }
    }
    let mut stream = sessions.remove(idx);
    let res = stream.process_fragment(
        assoc_id,
        pkt_id,
        frag_total,
        frag_id,
        payload,
        source,
        target,
        now,
    );
    let ghost after = stream@;
    sessions.insert(idx, stream);
    assert(streams_view(sessions@) =~= base.update(idx as int, after));
    proof {
        lemma_update_session(base, idx as int, after);
    }
    match res {
        Some(packet) => {
            if packet.target.is_relay_target() {
                Delivery::Packet { packet, created }
            } else {
                Delivery::InvalidTarget { created }
            }
        },
        None => Delivery::Pending { created },
    }
}

/// Removes from every association the unfinished packets that have
/// waited too long at time `now`.
fn collect_in(sessions: &mut Vec<UdpStream>, now: u64)
    requires
        sessions_wf(streams_view(old(sessions)@)),
    ensures
        sessions_wf(streams_view(final(sessions)@)),
        streams_view(final(sessions)@) == collect_garbage_spec(streams_view(old(sessions)@), now),
{
    let ghost before = streams_view(sessions@);
    let mut i: usize = 0;
    while i < sessions.len()
        invariant
            i <= sessions.len(),
            sessions_wf(streams_view(sessions@)),
            streams_view(sessions@).len() == before.len(),
            forall|k: int| 0 <= k < i ==> #[trigger] streams_view(sessions@)[k] == collect_garbage_spec(before, now)[k],
            forall|k: int| i <= k < before.len() ==> #[trigger] streams_view(sessions@)[k] == before[k],
        decreases sessions.len() - i,
    {
        let ghost cur = streams_view(sessions@);
        assert(buffer_wf(cur[i as int].pending));
        let mut stream = sessions.remove(i);
        stream.collect_garbage(now);
        let ghost after = stream@;
        sessions.insert(i, stream);
        assert(streams_view(sessions@) =~= cur.update(i as int, after));
        proof {
            lemma_update_session(cur, i as int, after);
        }
        i += 1;
    }
    assert(streams_view(sessions@) =~= collect_garbage_spec(before, now));
}

/// No associations: no values, and the invariant holds.
proof fn lemma_no_streams()
    ensures
        streams_view(Seq::<UdpStream>::empty()) == Seq::<UdpStreamView>::empty(),
        sessions_wf(streams_view(Seq::<UdpStream>::empty())),
{
    assert(streams_view(Seq::<UdpStream>::empty()) =~= Seq::<UdpStreamView>::empty());
}

impl UdpSessions {
    #[verifier::type_invariant]
    closed spec fn inv(&self) -> bool {
        sessions_wf(streams_view(self.sessions@))
    }

    /// No association is open.
    pub fn new() -> (s: UdpSessions)
        ensures
            s@ == Seq::<UdpStreamView>::empty(),
    {
        proof {
            lemma_no_streams();
        }
        UdpSessions { sessions: Vec::new() }
    }

    /// The number of open associations.
    pub fn len(&self) -> (n: usize)
        ensures
            n == self@.len(),
    {
        self.sessions.len()
    }

    /// Whether association `assoc_id` is open.
    pub fn contains(&self, assoc_id: u16) -> (b: bool)
        ensures
            b == has_session(self@, assoc_id),
    {
        proof {
            use_type_invariant(self);
        }
        find_session(&self.sessions, assoc_id).is_some()
    }

    /// Opens association `assoc_id` unless it is open already, and says
    /// whether it did.
    pub fn open(&mut self, assoc_id: u16) -> (created: bool)
        ensures
            sessions_wf(old(self)@),
            sessions_wf(final(self)@),
            created == !has_session(old(self)@, assoc_id),
            created ==> final(self)@ == old(self)@.push(fresh_session(assoc_id)),
            !created ==> final(self)@ == old(self)@,
    {
        proof {
            use_type_invariant(&*self);
        }
        let mut sessions: Vec<UdpStream> = Vec::new();
        proof {
            lemma_no_streams();
        }
        core::mem::swap(&mut self.sessions, &mut sessions);
        let res = open_in(&mut sessions, assoc_id);
        self.sessions = sessions;
        res
    }

    /// Closes association `assoc_id` and forgets what it had received, and
    /// says whether it was open.
    pub fn close(&mut self, assoc_id: u16) -> (removed: bool)
        ensures
            sessions_wf(old(self)@),
            sessions_wf(final(self)@),
            removed == has_session(old(self)@, assoc_id),
            removed ==> final(self)@ == old(self)@.remove(session_index(old(self)@, assoc_id)),
            !removed ==> final(self)@ == old(self)@,
            !has_session(final(self)@, assoc_id),
    {
        proof {
            use_type_invariant(&*self);
        }
        let mut sessions: Vec<UdpStream> = Vec::new();
        proof {
            lemma_no_streams();
        }
        core::mem::swap(&mut self.sessions, &mut sessions);
        let res = close_in(&mut sessions, assoc_id);
        self.sessions = sessions;
        res
    }

    /// The datagrams that carry `packet` to the peer over association
    /// `assoc_id`, as [`UdpStream::send_packet`] makes them.
    pub fn send_packet(
        &mut self,
        assoc_id: u16,
        packet: UdpPacket,
        max_datagram_size: Option<usize>,
    ) -> (res: Result<Vec<BytesMut>, SessionError>)
        ensures
            sessions_wf(old(self)@),
            sessions_wf(final(self)@),
            !has_session(old(self)@, assoc_id) ==> res is Err && res->Err_0@
                == (SessionErrorView::UnknownAssociation { assoc_id }) && final(self)@ == old(self)@,
            has_session(old(self)@, assoc_id) ==> {
                let i = session_index(old(self)@, assoc_id);
                let stream = old(self)@[i];
                match send_plan(
                    packet.target@,
                    packet.payload@.len(),
                    effective_datagram_size(max_datagram_size),
                ) {
                    SendPlan::DomainTooLong => res is Err && res->Err_0@ == SessionErrorView::Proto(
                        ProtoErrorView::DomainTooLong { domain: packet.target@->Domain_0 },
                    ) && final(self)@ == old(self)@,
                    SendPlan::TooLarge => res is Err && res->Err_0@ == SessionErrorView::Proto(
                        ProtoErrorView::PacketTooLarge,
                    ) && final(self)@ == old(self)@,
                    plan => res is Ok && datagrams_carry(
                        res->Ok_0@,
                        plan,
                        assoc_id,
                        stream.next_pkt_id,
                        packet.target@,
                        packet.payload@,
                    ) && final(self)@ == old(self)@.update(
                        i,
                        UdpStreamView {
                            assoc_id,
                            next_pkt_id: next_id(stream.next_pkt_id),
                            pending: stream.pending,
                        },
                    ),
                }
            },
    {
        proof {
            use_type_invariant(&*self);
        }
        let mut sessions: Vec<UdpStream> = Vec::new();
        proof {
            lemma_no_streams();
        }
        core::mem::swap(&mut self.sessions, &mut sessions);
        let res = send_in(&mut sessions, assoc_id, packet, max_datagram_size);
        self.sessions = sessions;
        res
    }

    /// Hands a Packet message that arrived at time `now` to its association
    /// and says what became of it.  With `create`, a message for an
    /// association that is not open opens it.
    pub fn deliver(
        &mut self,
        message: PacketMessage,
        source: Option<TargetAddr>,
        now: u64,
        create: bool,
    ) -> (res: Delivery)
        ensures
            sessions_wf(old(self)@),
            sessions_wf(final(self)@),
            final(self)@ == deliver_spec(
                old(self)@,
                message@,
                opt_target_view(source),
                now,
                create,
            ).sessions,
            res@ == deliver_spec(
                old(self)@,
                message@,
                opt_target_view(source),
                now,
                create,
            ).delivery,
    {
        proof {
            use_type_invariant(&*self);
        }
        let mut sessions: Vec<UdpStream> = Vec::new();
        proof {
            lemma_no_streams();
        }
        core::mem::swap(&mut self.sessions, &mut sessions);
        let res = deliver_in(&mut sessions, message, source, now, create);
        self.sessions = sessions;
        res
    }

    /// Removes from every association the unfinished packets that have
    /// waited too long at time `now`.
    pub fn collect_garbage(&mut self, now: u64)
        ensures
            sessions_wf(old(self)@),
            sessions_wf(final(self)@),
            final(self)@ == collect_garbage_spec(old(self)@, now),
    {
        proof {
            use_type_invariant(&*self);
        }
        let mut sessions: Vec<UdpStream> = Vec::new();
        proof {
            lemma_no_streams();
        }
        core::mem::swap(&mut self.sessions, &mut sessions);
        collect_in(&mut sessions, now);
        self.sessions = sessions;
    }
}

/// Closing an association keeps the invariant and leaves the identifier
/// free.
pub proof fn lemma_remove_session(s: Seq<UdpStreamView>, i: int)
    requires
        sessions_wf(s),
        0 <= i < s.len(),
    ensures
        sessions_wf(s.remove(i)),
        !has_session(s.remove(i), s[i].assoc_id),
{
    let out = s.remove(i);
    assert forall|k: int| 0 <= k < out.len() implies buffer_wf((#[trigger] out[k]).pending)
        && out[k].assoc_id != s[i].assoc_id by {
        let k0 = if k < i { k } else { k + 1 };
        assert(out[k] == s[k0]);
        if k0 < i {
            assert(s[k0].assoc_id != s[i].assoc_id);
        } else {
            assert(s[i].assoc_id != s[k0].assoc_id);
        }
    }
    assert forall|a: int, b: int| 0 <= a < b < out.len() implies (#[trigger] out[a]).assoc_id != (
    #[trigger] out[b]).assoc_id by {
        let a0 = if a < i { a } else { a + 1 };
        let b0 = if b < i { b } else { b + 1 };
        assert(out[a] == s[a0] && out[b] == s[b0]);
    }
}

/// Changing what an association has sent or received keeps the invariant.
pub proof fn lemma_update_session(s: Seq<UdpStreamView>, i: int, after: UdpStreamView)
    requires
        sessions_wf(s),
        0 <= i < s.len(),
        after.assoc_id == s[i].assoc_id,
        buffer_wf(after.pending),
    ensures
        sessions_wf(s.update(i, after)),
{
    let out = s.update(i, after);
    assert forall|k: int| 0 <= k < out.len() implies buffer_wf((#[trigger] out[k]).pending) by {
        if k != i {
            assert(out[k] == s[k]);
        }
    }
    assert forall|a: int, b: int| 0 <= a < b < out.len() implies (#[trigger] out[a]).assoc_id != (
    #[trigger] out[b]).assoc_id by {
        assert(s[a].assoc_id != s[b].assoc_id);
    }
}

/// Opening an association whose identifier is free keeps the invariant.
pub proof fn lemma_push_session(s: Seq<UdpStreamView>, assoc_id: u16)
    requires
        sessions_wf(s),
        !has_session(s, assoc_id),
    ensures
        sessions_wf(s.push(fresh_session(assoc_id))),
{
    let out = s.push(fresh_session(assoc_id));
    assert forall|k: int| 0 <= k < out.len() implies buffer_wf((#[trigger] out[k]).pending) by {
        if k < s.len() {
            assert(out[k] == s[k]);
        }
    }
    assert forall|a: int, b: int| 0 <= a < b < out.len() implies (#[trigger] out[a]).assoc_id != (
    #[trigger] out[b]).assoc_id by {
        if b < s.len() {
            assert(s[a].assoc_id != s[b].assoc_id);
        } else {
            assert(out[a] == s[a]);
        }
    }
}

} // verus!
