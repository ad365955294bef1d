//! The client side of a connection: its UDP associations, what an incoming
//! datagram is for, and whether the heartbeat still gets through.
//!
//! Nothing here touches the network.  The caller sends what these functions
//! build and hands in what it received.

use vstd::prelude::*;
use bytes::BytesMut;
use crate::buf::buf_bytes;
use crate::inbound::without_session;
use crate::proto::cmd::CommandView;
use crate::proto::error::ProtoErrorView;
use crate::proto::header::CmdType;
use crate::proto::message::{parse_message, parse_message_spec, Message, MessageView};
use crate::proto::sessions::{
    deliver_spec, fresh_session, has_session, session_index, Delivery, DeliveryView, SessionError, SessionErrorView, UdpSessions,
};
use crate::proto::udp_stream::{
    datagrams_carry, effective_datagram_size, next_id, send_plan, SendPlan, UdpStreamView,
};
use crate::proto::{dissociate_frame, frame_bytes, Error, ErrorView};
use crate::udp::UdpPacket;

verus! {

/// The number of heartbeats in a row that may fail before the connection
/// is given up.
pub const HEARTBEAT_MAX_FAILURES: usize = 3;

/// Counts the heartbeats that failed since the last one that got through.
#[derive(Debug, Clone, Copy, PartialEq, Eq)]
pub struct HeartbeatMonitor {
    failures: usize,
}

/// What the outcome of one heartbeat means for the connection.
#[derive(Debug, Clone, Copy, PartialEq, Eq, Structural)]
pub enum HeartbeatVerdict {
    /// It was sent, as the one before it.
    Healthy,
    /// It was sent, after `failures` that were not.
    Recovered { failures: usize },
    /// It was not sent, the `failures`-th in a row; the connection goes on.
    Failing { failures: usize },
    /// It was not sent and too many before it were not either: the
    /// dispatcher ends with an error.
    Dead { failures: usize },
}

/// The count of failures and the verdict after one more heartbeat.
pub open spec fn heartbeat_step(failures: nat, sent: bool) -> (nat, HeartbeatVerdict) {
    if sent {
        if failures > 0 {
            (0, HeartbeatVerdict::Recovered { failures: failures as usize })
        } else {
            (0, HeartbeatVerdict::Healthy)
        }
    } else if failures + 1 >= HEARTBEAT_MAX_FAILURES {
        (
            HEARTBEAT_MAX_FAILURES as nat,
            HeartbeatVerdict::Dead { failures: HEARTBEAT_MAX_FAILURES },
        )
    } else {
        ((failures + 1) as nat, HeartbeatVerdict::Failing { failures: (failures + 1) as usize })
    }
}

impl HeartbeatMonitor {
    /// The failures counted, never more than [`HEARTBEAT_MAX_FAILURES`].
    pub closed spec fn failures(&self) -> nat {
        if self.failures <= HEARTBEAT_MAX_FAILURES {
            self.failures as nat
        } else {
            HEARTBEAT_MAX_FAILURES as nat
        }
    }

    /// A monitor that has seen no failure.
    pub fn new() -> (m: HeartbeatMonitor)
        ensures
            m.failures() == 0,
    {
        HeartbeatMonitor { failures: 0 }
    }

    /// Takes note of whether a heartbeat was sent and says what follows.
    pub fn record(&mut self, sent: bool) -> (verdict: HeartbeatVerdict)
        ensures
            (final(self).failures(), verdict) == heartbeat_step(old(self).failures(), sent),
    {
        if self.failures > HEARTBEAT_MAX_FAILURES {
            self.failures = HEARTBEAT_MAX_FAILURES;
        }
        if sent {
            let failures = self.failures;
            self.failures = 0;
            if failures > 0 {
                HeartbeatVerdict::Recovered { failures }
            } else {
                HeartbeatVerdict::Healthy
            }
        } else if self.failures + 1 >= HEARTBEAT_MAX_FAILURES {
            self.failures = HEARTBEAT_MAX_FAILURES;
            HeartbeatVerdict::Dead { failures: HEARTBEAT_MAX_FAILURES }
        } else {
            self.failures = self.failures + 1;
            HeartbeatVerdict::Failing { failures: self.failures }
        }
    }
}

/// Three heartbeats in a row that fail end the connection, whatever came
/// before them; fewer do not, after one that got through.
pub proof fn lemma_heartbeat_threshold(failures: nat)
    requires
        failures <= HEARTBEAT_MAX_FAILURES,
    ensures
        heartbeat_step(
            heartbeat_step(heartbeat_step(failures, false).0, false).0,
            false,
        ).1 is Dead,
        heartbeat_step(heartbeat_step(failures, true).0, false).1 is Failing,
        heartbeat_step(
            heartbeat_step(heartbeat_step(failures, true).0, false).0,
            false,
        ).1 is Failing,
{
}

/// What a datagram from the server asks of the client.
#[derive(Debug, PartialEq, Eq)]
pub enum DatagramAction {
    /// A Packet was handed to association `assoc_id`.
    Udp { assoc_id: u16, delivery: Delivery },
    /// The datagram was dropped: it carries no Packet.
    NotPacket,
}

/// The mathematical value of a [`DatagramAction`].
pub enum DatagramActionView {
    Udp { assoc_id: u16, delivery: DeliveryView },
    NotPacket,
}

impl View for DatagramAction {
    type V = DatagramActionView;

    open spec fn view(&self) -> DatagramActionView {
        match *self {
            DatagramAction::Udp { assoc_id, delivery } => DatagramActionView::Udp {
                assoc_id,
                delivery: delivery@,
            },
            DatagramAction::NotPacket => DatagramActionView::NotPacket,
        }
    }
}

/// The associations after a datagram, and what the datagram asks for.
pub struct DatagramOutcome {
    pub sessions: Seq<UdpStreamView>,
    pub result: Result<DatagramActionView, ErrorView>,
}

/// What a datagram that arrives at time `now` asks of a client with the
/// associations `s`.  A Packet for an association that is not open is
/// dropped.
pub open spec fn handle_datagram_spec(s: Seq<UdpStreamView>, bytes: Seq<u8>, now: u64) -> DatagramOutcome {
    match parse_message_spec(bytes, "datagram"@) {
        Err(e) => DatagramOutcome { sessions: s, result: Err(e) },
        Ok(MessageView::Packet(p)) => {
            let d = deliver_spec(s, p, None, now, false);
            DatagramOutcome {
                sessions: d.sessions,
                result: Ok(DatagramActionView::Udp { assoc_id: p.assoc_id, delivery: d.delivery }),
            }
        },
        Ok(_) => DatagramOutcome { sessions: s, result: Ok(DatagramActionView::NotPacket) },
    }
}

/// The UDP side of a client connection.
pub struct OutboundCtx {
    udp_assoc_counter: u16,
    udp_sessions: UdpSessions,
}

/// The mathematical value of an [`OutboundCtx`].
pub struct OutboundCtxView {
    /// The identifier that the next association will get.
    pub udp_assoc_counter: u16,
    /// The open associations.
    pub udp_sessions: Seq<UdpStreamView>,
}

impl View for OutboundCtx {
    type V = OutboundCtxView;

    closed spec fn view(&self) -> OutboundCtxView {
        OutboundCtxView {
            udp_assoc_counter: self.udp_assoc_counter,
            udp_sessions: self.udp_sessions@,
        }
    }
}

impl OutboundCtx {
    /// The state of a connection that was just made: no association is
    /// open and the first will be number 0.
    pub fn new() -> (ctx: OutboundCtx)
        ensures
            ctx@.udp_assoc_counter == 0,
            ctx@.udp_sessions == Seq::<UdpStreamView>::empty(),
    {
        OutboundCtx { udp_assoc_counter: 0, udp_sessions: UdpSessions::new() }
    }

    /// Opens an association for a local socket and returns its identifier.
    ///
    /// Identifiers are given out in turn and start over after 65535.  An
    /// association that still has the identifier is replaced by the new
    /// one.
    pub fn open_association(&mut self) -> (assoc_id: u16)
        ensures
            assoc_id == old(self)@.udp_assoc_counter,
            final(self)@.udp_assoc_counter == next_id(assoc_id),
            final(self)@.udp_sessions == without_session(old(self)@.udp_sessions, assoc_id).push(
                fresh_session(assoc_id),
            ),
    {
        let assoc_id = self.udp_assoc_counter;
        self.udp_assoc_counter = self.udp_assoc_counter.wrapping_add(1);
        let _ = self.udp_sessions.close(assoc_id);
        let _ = self.udp_sessions.open(assoc_id);
        assoc_id
    }

    /// Closes association `assoc_id` and returns the frame that tells the
    /// server so, or `None` where the association was not open.
    pub fn close_association(&mut self, assoc_id: u16) -> (frame: Option<BytesMut>)
        ensures
            final(self)@.udp_assoc_counter == old(self)@.udp_assoc_counter,
            final(self)@.udp_sessions == without_session(old(self)@.udp_sessions, assoc_id),
            frame is Some == has_session(old(self)@.udp_sessions, assoc_id),
            frame is Some ==> buf_bytes(frame->Some_0) == frame_bytes(
                CmdType::Dissociate,
                CommandView::Dissociate { assoc_id },
                None,
            ),
    {
        if self.udp_sessions.close(assoc_id) {
            Some(dissociate_frame(assoc_id))
        } else {
            None
        }
    }

    /// The datagrams that carry `packet` from a local socket to the server
    /// over association `assoc_id`.
    pub fn send_packet(
        &mut self,
        assoc_id: u16,
        packet: UdpPacket,
        max_datagram_size: Option<usize>,
    ) -> (res: Result<Vec<BytesMut>, SessionError>)
        ensures
            final(self)@.udp_assoc_counter == old(self)@.udp_assoc_counter,
            !has_session(old(self)@.udp_sessions, assoc_id) ==> res is Err && res->Err_0@
                == (SessionErrorView::UnknownAssociation { assoc_id }) && final(self)@.udp_sessions
                == old(self)@.udp_sessions,
            has_session(old(self)@.udp_sessions, assoc_id) ==> {
                let i = session_index(old(self)@.udp_sessions, assoc_id);
                let stream = old(self)@.udp_sessions[i];
                match send_plan(
                    packet.target@,
                    packet.payload@.len(),
                    effective_datagram_size(max_datagram_size),
                ) {
                    SendPlan::DomainTooLong => res is Err && res->Err_0@ == SessionErrorView::Proto(
                        ProtoErrorView::DomainTooLong { domain: packet.target@->Domain_0 },
                    ) && final(self)@.udp_sessions == old(self)@.udp_sessions,
                    SendPlan::TooLarge => res is Err && res->Err_0@ == SessionErrorView::Proto(
                        ProtoErrorView::PacketTooLarge,
                    ) && final(self)@.udp_sessions == old(self)@.udp_sessions,
                    plan => res is Ok && datagrams_carry(
                        res->Ok_0@,
                        plan,
                        assoc_id,
                        stream.next_pkt_id,
                        packet.target@,
                        packet.payload@,
                    ) && final(self)@.udp_sessions == old(self)@.udp_sessions.update(
                        i,
                        UdpStreamView {
                            assoc_id,
                            next_pkt_id: next_id(stream.next_pkt_id),
                            pending: stream.pending,
                        },
                    ),
                }
            },
    {
        self.udp_sessions.send_packet(assoc_id, packet, max_datagram_size)
    }

    /// Takes one datagram that arrived at time `now` and says what it asks
    /// for.
    pub fn handle_datagram(&mut self, data: &[u8], now: u64) -> (res: Result<DatagramAction, Error>)
        ensures
            final(self)@.udp_assoc_counter == old(self)@.udp_assoc_counter,
            final(self)@.udp_sessions == handle_datagram_spec(
                old(self)@.udp_sessions,
                data@,
                now,
            ).sessions,
            match handle_datagram_spec(old(self)@.udp_sessions, data@, now).result {
                Ok(action) => res is Ok && res->Ok_0@ == action,
                Err(error) => res is Err && res->Err_0@ == error,
            },
    {
        match parse_message(data, "datagram")? {
            Message::Packet(packet) => {
                let assoc_id = packet.assoc_id;
                Ok(
                    DatagramAction::Udp {
                        assoc_id,
                        delivery: self.udp_sessions.deliver(packet, None, now, false),
                    },
                )
            },
            _ => Ok(DatagramAction::NotPacket),
        }
    }

    /// Removes from every association the unfinished packets that have
    /// waited too long at time `now`.
    pub fn collect_garbage(&mut self, now: u64)
        ensures
            final(self)@.udp_assoc_counter == old(self)@.udp_assoc_counter,
            final(self)@.udp_sessions == crate::proto::sessions::collect_garbage_spec(
                old(self)@.udp_sessions,
                now,
            ),
    {
        self.udp_sessions.collect_garbage(now)
    }
}

/// A TCP stream that is relayed through the tunnel.
#[derive(Debug, Clone, Copy, PartialEq, Eq, Structural)]
pub struct TuicTcpStream;

} // verus!
