//! The server side of a connection: who the peer is, which of its messages
//! are acted on, and what each of them asks for.
//!
//! Nothing here touches the network.  The caller reads streams and
//! datagrams, hands their bytes in, and carries out the action that comes
//! back.

use vstd::prelude::*;
use bytes::BytesMut;
use crate::buf::{buf_from_slice, buf_len};
use crate::proto::addr::{decode_address_spec, AddressOutcome};
use crate::proto::error::ProtoErrorView;
use crate::proto::header::{decode_header_spec, CmdType, HeaderOutcome};
use crate::proto::message::{parse_message, parse_message_spec, Message, MessageView, PacketMessage};
use crate::proto::sessions::{
    deliver_spec, has_session, session_index, Delivery, DeliveryView, SessionError,
    SessionErrorView, UdpSessions,
};
use crate::proto::udp_stream::{
    datagrams_carry, effective_datagram_size, next_id, send_plan, SendPlan, UdpStreamView,
};
use crate::proto::{
    address_to_target, decode_address, decode_header, target_of_address, Error, ErrorView,
};
use crate::types::{relay_target, TargetAddr, TargetAddrView};
use crate::udp::UdpPacket;

verus! {

/// One user that may connect: identifier and shared secret.
#[derive(Debug, Clone, PartialEq, Eq)]
pub struct User {
    pub uuid: [u8; 16],
    pub password: String,
}

/// The mathematical value of a [`User`].
pub struct UserView {
    pub uuid: Seq<u8>,
    pub password: Seq<char>,
}

impl View for User {
    type V = UserView;

    open spec fn view(&self) -> UserView {
        UserView { uuid: self.uuid@, password: self.password@ }
    }
}

/// Why a peer was not let in.
#[derive(Debug, Clone, PartialEq, Eq)]
pub enum AuthError {
    /// No user has the identifier that the peer gave.
    UnknownUser { uuid: [u8; 16] },
    /// The peer's token is not the one derived for this connection.
    BadToken,
    /// The expected token could not be derived.
    ExportKeyingMaterial,
    /// The peer did not authenticate in time.
    AuthTimeout,
}

/// The state of one accepted connection.
pub struct InboundCtx {
    uuid: Option<[u8; 16]>,
    users: Vec<User>,
    udp_sessions: UdpSessions,
}

/// The mathematical value of an [`InboundCtx`].
pub struct InboundCtxView {
    /// The user that the peer has authenticated as, if it has.
    pub uuid: Option<Seq<u8>>,
    /// The users that may connect.
    pub users: Seq<UserView>,
    /// The peer's open UDP associations.
    pub udp_sessions: Seq<UdpStreamView>,
}

impl View for InboundCtx {
    type V = InboundCtxView;

    closed spec fn view(&self) -> InboundCtxView {
        InboundCtxView {
            uuid: match self.uuid {
                Some(u) => Some(u@),
                None => None,
            },
            users: Seq::new(self.users@.len(), |i: int| self.users@[i]@),
            udp_sessions: self.udp_sessions@,
        }
    }
}

/// The secret of the first user with identifier `uuid`.
pub open spec fn password_of(users: Seq<UserView>, uuid: Seq<u8>) -> Option<Seq<char>>
    decreases users.len(),
{
    if users.len() == 0 {
        None
    } else if users[0].uuid == uuid {
        Some(users[0].password)
    } else {
        password_of(users.skip(1), uuid)
    }
}

/// What a message on a unidirectional stream asks of the server.
#[derive(Debug, PartialEq, Eq)]
pub enum UniAction {
    /// A known user asks to be let in: derive the token for `uuid` and
    /// `password` from the connection and pass it to `handle_auth`.
    Authenticate { uuid: [u8; 16], token: [u8; 32], password: String },
    /// An unknown user asks to be let in: close the connection.
    UnknownUser { uuid: [u8; 16] },
    /// A Packet was handed to association `assoc_id`.
    Udp { assoc_id: u16, delivery: Delivery },
    /// An association was closed, if `removed`; it was not open otherwise.
    Dissociated { assoc_id: u16, removed: bool },
    /// The peer is alive. Nothing to do.
    Heartbeat,
    /// The message was dropped: the peer has not authenticated.
    Unauthenticated,
    /// The message was dropped: a Connect belongs on a bidirectional stream.
    UnexpectedCommand,
}

/// The mathematical value of a [`UniAction`].
pub enum UniActionView {
    Authenticate { uuid: Seq<u8>, token: Seq<u8>, password: Seq<char> },
    UnknownUser { uuid: Seq<u8> },
    Udp { assoc_id: u16, delivery: DeliveryView },
    Dissociated { assoc_id: u16, removed: bool },
    Heartbeat,
    Unauthenticated,
    UnexpectedCommand,
}

impl View for UniAction {
    type V = UniActionView;

    open spec fn view(&self) -> UniActionView {
        match *self {
            UniAction::Authenticate { uuid, token, password } => UniActionView::Authenticate {
                uuid: uuid@,
                token: token@,
                password: password@,
            },
            UniAction::UnknownUser { uuid } => UniActionView::UnknownUser { uuid: uuid@ },
            UniAction::Udp { assoc_id, delivery } => UniActionView::Udp {
                assoc_id,
                delivery: delivery@,
            },
            UniAction::Dissociated { assoc_id, removed } => UniActionView::Dissociated {
                assoc_id,
                removed,
            },
            UniAction::Heartbeat => UniActionView::Heartbeat,
            UniAction::Unauthenticated => UniActionView::Unauthenticated,
            UniAction::UnexpectedCommand => UniActionView::UnexpectedCommand,
        }
    }
}

/// The associations after a message, and what the message asks for.
pub struct UniOutcome {
    pub sessions: Seq<UdpStreamView>,
    pub result: Result<UniActionView, ErrorView>,
}

/// The associations of `ctx` without association `assoc_id`.
pub open spec fn without_session(s: Seq<UdpStreamView>, assoc_id: u16) -> Seq<UdpStreamView> {
    if has_session(s, assoc_id) {
        s.remove(session_index(s, assoc_id))
    } else {
        s
    }
}

/// What the bytes of one unidirectional stream, read to their end at time
/// `now`, ask of a server in state `ctx`.
///
/// An Auth command is answered whoever the peer is.  Every other command
/// is dropped until the peer has authenticated.
pub open spec fn handle_uni_stream_spec(ctx: InboundCtxView, bytes: Seq<u8>, now: u64) -> UniOutcome {
    match parse_message_spec(bytes, "uni stream"@) {
        Err(e) => UniOutcome { sessions: ctx.udp_sessions, result: Err(e) },
        Ok(MessageView::Auth { uuid, token }) => UniOutcome {
            sessions: ctx.udp_sessions,
            result: Ok(
                match password_of(ctx.users, uuid) {
                    Some(password) => UniActionView::Authenticate { uuid, token, password },
                    None => UniActionView::UnknownUser { uuid },
                },
            ),
        },
        Ok(message) => if ctx.uuid is None {
            UniOutcome { sessions: ctx.udp_sessions, result: Ok(UniActionView::Unauthenticated) }
        } else {
            match message {
                MessageView::Packet(p) => {
                    let d = deliver_spec(ctx.udp_sessions, p, None, now, true);
                    UniOutcome {
                        sessions: d.sessions,
                        result: Ok(
                            UniActionView::Udp { assoc_id: p.assoc_id, delivery: d.delivery },
                        ),
                    }
                },
                MessageView::Dissociate { assoc_id } => UniOutcome {
                    sessions: without_session(ctx.udp_sessions, assoc_id),
                    result: Ok(
                        UniActionView::Dissociated {
                            assoc_id,
                            removed: has_session(ctx.udp_sessions, assoc_id),
                        },
                    ),
                },
                MessageView::Heartbeat => UniOutcome {
                    sessions: ctx.udp_sessions,
                    result: Ok(UniActionView::Heartbeat),
                },
                _ => UniOutcome {
                    sessions: ctx.udp_sessions,
                    result: Ok(UniActionView::UnexpectedCommand),
                },
            }
        },
    }
}

/// What a datagram asks of the server.
#[derive(Debug, PartialEq, Eq)]
pub enum DatagramAction {
    /// A Packet was handed to association `assoc_id`.
    Udp { assoc_id: u16, delivery: Delivery },
    /// The peer is alive. Nothing to do.
    Heartbeat,
    /// The datagram was dropped: the peer has not authenticated.
    Unauthenticated,
    /// The datagram was dropped: its command does not travel in datagrams.
    UnexpectedCommand,
}

/// The mathematical value of a [`DatagramAction`].
pub enum DatagramActionView {
    Udp { assoc_id: u16, delivery: DeliveryView },
    Heartbeat,
    Unauthenticated,
    UnexpectedCommand,
}

impl View for DatagramAction {
    type V = DatagramActionView;

    open spec fn view(&self) -> DatagramActionView {
        match *self {
            DatagramAction::Udp { assoc_id, delivery } => DatagramActionView::Udp {
                assoc_id,
                delivery: delivery@,
            },
            DatagramAction::Heartbeat => DatagramActionView::Heartbeat,
            DatagramAction::Unauthenticated => DatagramActionView::Unauthenticated,
            DatagramAction::UnexpectedCommand => DatagramActionView::UnexpectedCommand,
        }
    }
}

/// The associations after a datagram, and what the datagram asks for.
pub struct DatagramOutcome {
    pub sessions: Seq<UdpStreamView>,
    pub result: Result<DatagramActionView, ErrorView>,
}

/// What a datagram that arrives at time `now` asks of a server in state
/// `ctx`.  Before the peer has authenticated its datagrams are dropped
/// unread.
pub open spec fn handle_datagram_spec(ctx: InboundCtxView, bytes: Seq<u8>, now: u64) -> DatagramOutcome {
    if ctx.uuid is None {
        DatagramOutcome {
            sessions: ctx.udp_sessions,
            result: Ok(DatagramActionView::Unauthenticated),
        }
    } else {
        match parse_message_spec(bytes, "datagram"@) {
            Err(e) => DatagramOutcome { sessions: ctx.udp_sessions, result: Err(e) },
            Ok(MessageView::Packet(p)) => {
                let d = deliver_spec(ctx.udp_sessions, p, None, now, true);
                DatagramOutcome {
                    sessions: d.sessions,
                    result: Ok(
                        DatagramActionView::Udp { assoc_id: p.assoc_id, delivery: d.delivery },
                    ),
                }
            },
            Ok(MessageView::Heartbeat) => DatagramOutcome {
                sessions: ctx.udp_sessions,
                result: Ok(DatagramActionView::Heartbeat),
            },
            Ok(_) => DatagramOutcome {
                sessions: ctx.udp_sessions,
                result: Ok(DatagramActionView::UnexpectedCommand),
            },
        }
    }
}

/// What the first bytes of a bidirectional stream ask of the server.
#[derive(Debug, PartialEq, Eq)]
pub enum BiAction {
    /// Relay the stream to `target`; the bytes after the first `consumed`
    /// are the peer's payload.
    Connect { target: TargetAddr, consumed: usize },
    /// The request is not all there yet: read on and ask again.
    NeedMore,
    /// The stream was dropped: the peer has not authenticated.
    Unauthenticated,
    /// The stream was dropped: only Connect opens a bidirectional stream.
    UnexpectedCommand { command: CmdType },
    /// The stream was dropped: the request names no target.
    NoAddress,
    /// The stream was dropped: the target has port 0.
    InvalidTarget { target: TargetAddr },
}

/// The mathematical value of a [`BiAction`].
pub enum BiActionView {
    Connect { target: TargetAddrView, consumed: nat },
    NeedMore,
    Unauthenticated,
    UnexpectedCommand { command: CmdType },
    NoAddress,
    InvalidTarget { target: TargetAddrView },
}

impl View for BiAction {
    type V = BiActionView;

    open spec fn view(&self) -> BiActionView {
        match *self {
            BiAction::Connect { target, consumed } => BiActionView::Connect {
                target: target@,
                consumed: consumed as nat,
            },
            BiAction::NeedMore => BiActionView::NeedMore,
            BiAction::Unauthenticated => BiActionView::Unauthenticated,
            BiAction::UnexpectedCommand { command } => BiActionView::UnexpectedCommand { command },
            BiAction::NoAddress => BiActionView::NoAddress,
            BiAction::InvalidTarget { target } => BiActionView::InvalidTarget { target: target@ },
        }
    }
}

/// What the bytes read so far from a bidirectional stream ask for: a
/// header that must be a Connect, then the target, whose port must not be
/// 0.
pub open spec fn connect_request_spec(bytes: Seq<u8>) -> Result<BiActionView, ErrorView> {
    match decode_header_spec(bytes) {
        HeaderOutcome::Incomplete => Ok(BiActionView::NeedMore),
        HeaderOutcome::Invalid { error, consumed } => Err(ErrorView::Proto(error)),
        HeaderOutcome::Frame { header } => if header.command != CmdType::Connect {
            Ok(BiActionView::UnexpectedCommand { command: header.command })
        } else {
            match decode_address_spec(bytes.skip(2)) {
                AddressOutcome::Incomplete => Ok(BiActionView::NeedMore),
                AddressOutcome::Invalid { error, consumed } => Err(ErrorView::Proto(error)),
                AddressOutcome::Frame { address, consumed } => match target_of_address(address) {
                    Some(target) => if relay_target(target) {
                        Ok(BiActionView::Connect { target, consumed: 2 + consumed })
                    } else {
                        Ok(BiActionView::InvalidTarget { target })
                    },
                    None => Ok(BiActionView::NoAddress),
                },
            }
        },
    }
}

/// What the bytes read so far from a bidirectional stream ask of a server
/// in state `ctx`.
pub open spec fn handle_bi_stream_spec(ctx: InboundCtxView, bytes: Seq<u8>) -> Result<
    BiActionView,
    ErrorView,
> {
    if ctx.uuid is None {
        Ok(BiActionView::Unauthenticated)
    } else {
        connect_request_spec(bytes)
    }
}

/// Reads the request that opens a bidirectional stream from the bytes read
/// so far.
pub fn connect_request(data: &[u8]) -> (res: Result<BiAction, Error>)
    ensures
        match connect_request_spec(data@) {
            Ok(action) => res is Ok && res->Ok_0@ == action,
            Err(error) => res is Err && res->Err_0@ == error,
        },
{
    let mut buf = buf_from_slice(data);
    let header = match decode_header(&mut buf, "bi stream") {
        Ok(header) => header,
        Err(Error::Incomplete { .. }) => {
            return Ok(BiAction::NeedMore);
        },
        Err(e) => {
            return Err(e);
        },
};
    match header.command {
        CmdType::Connect => {},
        command => {
            return Ok(BiAction::UnexpectedCommand { command });
        },
    }
    let address = match decode_address(&mut buf, "bi stream") {
        Ok(address) => address,
        Err(Error::Incomplete { .. }) => {
            return Ok(BiAction::NeedMore);
        },
        Err(e) => {
            return Err(e);
        },
};
    let consumed = data.len() - buf_len(&buf);
    match address_to_target(address) {
        Ok(target) => {
            if target.is_relay_target() {
                Ok(BiAction::Connect { target, consumed })
            } else {
                Ok(BiAction::InvalidTarget { target })
            }
        },
        Err(_) => Ok(BiAction::NoAddress),
    }
}

/// Whether two tokens are the same.
fn tokens_equal(a: &[u8; 32], b: &[u8; 32]) -> (same: bool)
    ensures
        same == (a@ == b@),
{
    let mut i: usize = 0;
    while i < 32
        invariant
            i <= 32,
            forall|k: int| 0 <= k < i ==> a@[k] == b@[k],
        decreases 32 - i,
    {
        if a[i] != b[i] {
            return false;
        }
        i += 1;
    }
    assert(a@ =~= b@);
    true
}

/// Whether two user identifiers are the same.
fn uuids_equal(a: &[u8; 16], b: &[u8; 16]) -> (same: bool)
    ensures
        same == (a@ == b@),
{
    let mut i: usize = 0;
    while i < 16
        invariant
            i <= 16,
            forall|k: int| 0 <= k < i ==> a@[k] == b@[k],
        decreases 16 - i,
    {
        if a[i] != b[i] {
            return false;
        }
        i += 1;
    }
    assert(a@ =~= b@);
    true
}

impl InboundCtx {
    /// The state of a connection that was just accepted: nobody has
    /// authenticated and no association is open.
    pub fn new(users: Vec<User>) -> (ctx: InboundCtx)
        ensures
            ctx@.uuid is None,
            ctx@.users == Seq::new(users@.len(), |i: int| users@[i]@),
            ctx@.udp_sessions == Seq::<UdpStreamView>::empty(),
    {
        InboundCtx { uuid: None, users, udp_sessions: UdpSessions::new() }
    }

    /// The user that the peer has authenticated as, if it has.
    pub fn authenticated_uuid(&self) -> (uuid: Option<[u8; 16]>)
        ensures
            uuid is Some == self@.uuid is Some,
            uuid is Some ==> uuid->Some_0@ == self@.uuid->Some_0,
    {
        self.uuid
    }

    /// The secret of the user with identifier `uuid`, if there is one.
    pub fn password_for(&self, uuid: &[u8; 16]) -> (password: Option<&String>)
        ensures
            match password_of(self@.users, uuid@) {
                Some(p) => password is Some && password->Some_0@ == p,
                None => password is None,
            },
    {
        let ghost all = self@.users;
        assert(all.skip(0) =~= all);
        let mut i: usize = 0;
        while i < self.users.len()
            invariant
                i <= self.users.len(),
                all == self@.users,
                password_of(all, uuid@) == password_of(all.skip(i as int), uuid@),
            decreases self.users.len() - i,
        {
            assert(all.skip(i as int)[0] == all[i as int]);
            assert(all.skip(i as int).skip(1) =~= all.skip(i + 1));
            if uuids_equal(&self.users[i].uuid, uuid) {
                return Some(&self.users[i].password);
            }
            i += 1;
        }
        None
    }

    /// Lets the peer in as user `uuid` if its `token` is the one that was
    /// derived for this connection.
    ///
    /// `exported` is what deriving the expected token from the connection,
    /// the user's identifier and secret gave, `None` where that failed.  On
    /// any error the state stays as it is, and the caller closes the
    /// connection.
    pub fn handle_auth(&mut self, uuid: [u8; 16], token: [u8; 32], exported: Option<[u8; 32]>) -> (res:
        Result<(), AuthError>)
        ensures
            final(self)@.users == old(self)@.users,
            final(self)@.udp_sessions == old(self)@.udp_sessions,
            match password_of(old(self)@.users, uuid@) {
                None => res == Err::<(), AuthError>(AuthError::UnknownUser { uuid }) && final(self)@.uuid == old(self)@.uuid,
                Some(_) => match exported {
                    None => res == Err::<(), AuthError>(AuthError::ExportKeyingMaterial) && final(self)@.uuid == old(self)@.uuid,
                    Some(expected) => if token@ == expected@ {
                        res is Ok && final(self)@.uuid == Some(uuid@)
                    } else {
                        res == Err::<(), AuthError>(AuthError::BadToken) && final(self)@.uuid
                            == old(self)@.uuid
                    },
                },
            },
    {
        if self.password_for(&uuid).is_none() {
            return Err(AuthError::UnknownUser { uuid });
        }
        let expected = match exported {
            Some(expected) => expected,
            None => {
                return Err(AuthError::ExportKeyingMaterial);
            },
};
        if !tokens_equal(&token, &expected) {
            return Err(AuthError::BadToken);
        }
        self.uuid = Some(uuid);
        Ok(())
    }

    /// What is to happen when the time allowed for authentication is over:
    /// a connection whose peer has not authenticated is closed.
    pub fn auth_timeout(&self) -> (res: Result<(), AuthError>)
        ensures
            self@.uuid is None ==> res == Err::<(), AuthError>(AuthError::AuthTimeout),
            self@.uuid is Some ==> res is Ok,
    {
        if self.uuid.is_none() {
            Err(AuthError::AuthTimeout)
        } else {
            Ok(())
        }
    }

    /// Takes the bytes of one unidirectional stream, read to their end at
    /// time `now`, and says what they ask for.
    pub fn handle_uni_stream(&mut self, data: &[u8], now: u64) -> (res: Result<UniAction, Error>)
        ensures
            final(self)@.uuid == old(self)@.uuid,
            final(self)@.users == old(self)@.users,
            final(self)@.udp_sessions == handle_uni_stream_spec(old(self)@, data@, now).sessions,
            match handle_uni_stream_spec(old(self)@, data@, now).result {
                Ok(action) => res is Ok && res->Ok_0@ == action,
                Err(error) => res is Err && res->Err_0@ == error,
            },
    {
        let message = parse_message(data, "uni stream")?;
        match message {
            Message::Auth { uuid, token } => {
                match self.password_for(&uuid) {
                    Some(password) => Ok(
                        UniAction::Authenticate { uuid, token, password: password.clone() },
                    ),
                    None => Ok(UniAction::UnknownUser { uuid }),
                }
            },
            message => {
                if self.uuid.is_none() {
                    return Ok(UniAction::Unauthenticated);
                }
                match message {
                    Message::Packet(packet) => {
                        let assoc_id = packet.assoc_id;
                        Ok(UniAction::Udp { assoc_id, delivery: self.handle_udp_packet(packet, now) })
                    },
                    Message::Dissociate { assoc_id } => {
                        let removed = self.handle_dissociate(assoc_id);
                        Ok(UniAction::Dissociated { assoc_id, removed })
                    },
                    Message::Heartbeat => Ok(UniAction::Heartbeat),
                    _ => Ok(UniAction::UnexpectedCommand),
                }
            },
        }
    }

    /// Takes the bytes read so far from a bidirectional stream and says
    /// what they ask for.
    pub fn handle_bi_stream(&self, data: &[u8]) -> (res: Result<BiAction, Error>)
        ensures
            match handle_bi_stream_spec(self@, data@) {
                Ok(action) => res is Ok && res->Ok_0@ == action,
                Err(error) => res is Err && res->Err_0@ == error,
            },
    {
        if self.uuid.is_none() {
            return Ok(BiAction::Unauthenticated);
        }
        connect_request(data)
    }

    /// Takes one datagram that arrived at time `now` and says what it asks
    /// for.
    pub fn handle_datagram(&mut self, data: &[u8], now: u64) -> (res: Result<DatagramAction, Error>)
        ensures
            final(self)@.uuid == old(self)@.uuid,
            final(self)@.users == old(self)@.users,
            final(self)@.udp_sessions == handle_datagram_spec(old(self)@, data@, now).sessions,
            match handle_datagram_spec(old(self)@, data@, now).result {
                Ok(action) => res is Ok && res->Ok_0@ == action,
                Err(error) => res is Err && res->Err_0@ == error,
            },
    {
        if self.uuid.is_none() {
            return Ok(DatagramAction::Unauthenticated);
        }
        match parse_message(data, "datagram")? {
            Message::Packet(packet) => {
                let assoc_id = packet.assoc_id;
                Ok(DatagramAction::Udp { assoc_id, delivery: self.handle_udp_packet(packet, now) })
            },
            Message::Heartbeat => Ok(DatagramAction::Heartbeat),
            _ => Ok(DatagramAction::UnexpectedCommand),
        }
    }

    /// The datagrams that carry `packet` back to the client over
    /// association `assoc_id`.
    pub fn send_packet(
        &mut self,
        assoc_id: u16,
        packet: UdpPacket,
        max_datagram_size: Option<usize>,
    ) -> (res: Result<Vec<BytesMut>, SessionError>)
        ensures
            final(self)@.uuid == old(self)@.uuid,
            final(self)@.users == old(self)@.users,
            !has_session(old(self)@.udp_sessions, assoc_id) ==> res is Err && res->Err_0@
                == (SessionErrorView::UnknownAssociation { assoc_id }) && final(self)@.udp_sessions
                == old(self)@.udp_sessions,
            has_session(old(self)@.udp_sessions, assoc_id) ==> {
                let i = session_index(old(self)@.udp_sessions, assoc_id);
                let stream = old(self)@.udp_sessions[i];
                match send_plan(
                    packet.target@,
                    packet.payload@.len(),
                    effective_datagram_size(max_datagram_size),
                ) {
                    SendPlan::DomainTooLong => res is Err && res->Err_0@ == SessionErrorView::Proto(
                        ProtoErrorView::DomainTooLong { domain: packet.target@->Domain_0 },
                    ) && final(self)@.udp_sessions == old(self)@.udp_sessions,
                    SendPlan::TooLarge => res is Err && res->Err_0@ == SessionErrorView::Proto(
                        ProtoErrorView::PacketTooLarge,
                    ) && final(self)@.udp_sessions == old(self)@.udp_sessions,
                    plan => res is Ok && datagrams_carry(
                        res->Ok_0@,
                        plan,
                        assoc_id,
                        stream.next_pkt_id,
                        packet.target@,
                        packet.payload@,
                    ) && final(self)@.udp_sessions == old(self)@.udp_sessions.update(
                        i,
                        UdpStreamView {
                            assoc_id,
                            next_pkt_id: next_id(stream.next_pkt_id),
                            pending: stream.pending,
                        },
                    ),
                }
            },
    {
        self.udp_sessions.send_packet(assoc_id, packet, max_datagram_size)
    }

    /// Hands a Packet message to its association, which it opens if need
    /// be.
    pub fn handle_udp_packet(&mut self, packet: PacketMessage, now: u64) -> (res: Delivery)
        ensures
            final(self)@.uuid == old(self)@.uuid,
            final(self)@.users == old(self)@.users,
            final(self)@.udp_sessions == deliver_spec(
                old(self)@.udp_sessions,
                packet@,
                None,
                now,
                true,
            ).sessions,
            res@ == deliver_spec(old(self)@.udp_sessions, packet@, None, now, true).delivery,
    {
        self.udp_sessions.deliver(packet, None, now, true)
    }

    /// Closes association `assoc_id` and says whether it was open.
    pub fn handle_dissociate(&mut self, assoc_id: u16) -> (removed: bool)
        ensures
            final(self)@.uuid == old(self)@.uuid,
            final(self)@.users == old(self)@.users,
            removed == has_session(old(self)@.udp_sessions, assoc_id),
            final(self)@.udp_sessions == without_session(old(self)@.udp_sessions, assoc_id),
    {
        self.udp_sessions.close(assoc_id)
    }
}

/// Before the peer has authenticated, none of its Connect, Packet and
/// Dissociate commands is acted on: its associations stay as they are, its
/// datagrams and bidirectional streams are dropped, and a unidirectional
/// stream gets an answer only where it carries an Auth command.
pub proof fn lemma_auth_gating(ctx: InboundCtxView, bytes: Seq<u8>, now: u64)
    requires
        ctx.uuid is None,
    ensures
        handle_uni_stream_spec(ctx, bytes, now).sessions == ctx.udp_sessions,
        match handle_uni_stream_spec(ctx, bytes, now).result {
            Ok(action) => action is Authenticate || action is UnknownUser
                || action is Unauthenticated,
            Err(_) => true,
        },
        handle_datagram_spec(ctx, bytes, now).sessions == ctx.udp_sessions,
        handle_datagram_spec(ctx, bytes, now).result == Ok::<DatagramActionView, ErrorView>(
            DatagramActionView::Unauthenticated,
        ),
        handle_bi_stream_spec(ctx, bytes) == Ok::<BiActionView, ErrorView>(
            BiActionView::Unauthenticated,
        ),
{
}

} // verus!
