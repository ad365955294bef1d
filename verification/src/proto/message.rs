//! Whole messages as they arrive in a datagram or on a unidirectional
//! stream: a header, its command, and for a Packet the address and payload.

use vstd::prelude::*;
use crate::buf::{buf_copy_range, buf_from_slice, buf_len};
use crate::proto::addr::{
    address_encodable, decode_address_spec, encode_address, lemma_address_round_trip, Address,
    AddressOutcome, AddressView,
};
use crate::proto::cmd::{
    decode_command_spec, encode_command, lemma_command_round_trip, Command, CommandOutcome,
    CommandView,
};
use crate::proto::error::{ProtoError, ProtoErrorView};
use crate::proto::header::{
    decode_header_spec, encode_header, lemma_header_round_trip, CmdType, Header, HeaderOutcome,
};
use crate::proto::udp_stream::packet_datagram;
use crate::proto::{
    decode_address, decode_command, decode_header, frame_bytes, Error, ErrorView, FramePart, VER,
};

verus! {

/// A Packet command with the address and payload that came with it.
#[derive(Debug, PartialEq, Eq)]
pub struct PacketMessage {
    pub assoc_id: u16,
    pub pkt_id: u16,
    pub frag_total: u8,
    pub frag_id: u8,
    pub address: Address,
    pub payload: Vec<u8>,
}

/// The mathematical value of a [`PacketMessage`].
pub struct PacketMessageView {
    pub assoc_id: u16,
    pub pkt_id: u16,
    pub frag_total: u8,
    pub frag_id: u8,
    pub address: AddressView,
    pub payload: Seq<u8>,
}

impl View for PacketMessage {
    type V = PacketMessageView;

    open spec fn view(&self) -> PacketMessageView {
        PacketMessageView {
            assoc_id: self.assoc_id,
            pkt_id: self.pkt_id,
            frag_total: self.frag_total,
            frag_id: self.frag_id,
            address: self.address@,
            payload: self.payload@,
        }
    }
}

/// One message from the peer.
#[derive(Debug, PartialEq, Eq)]
pub enum Message {
    Auth { uuid: [u8; 16], token: [u8; 32] },
    Connect,
    Packet(PacketMessage),
    Dissociate { assoc_id: u16 },
    Heartbeat,
}

/// The mathematical value of a [`Message`].
pub enum MessageView {
    Auth { uuid: Seq<u8>, token: Seq<u8> },
    Connect,
    Packet(PacketMessageView),
    Dissociate { assoc_id: u16 },
    Heartbeat,
}

impl View for Message {
    type V = MessageView;

    open spec fn view(&self) -> MessageView {
        match *self {
            Message::Auth { uuid, token } => MessageView::Auth { uuid: uuid@, token: token@ },
            Message::Connect => MessageView::Connect,
            Message::Packet(p) => MessageView::Packet(p@),
            Message::Dissociate { assoc_id } => MessageView::Dissociate { assoc_id },
            Message::Heartbeat => MessageView::Heartbeat,
        }
    }
}

/// The message that follows a Packet command in `rest`: the address, then
/// as many payload bytes as the command's size field says.  Bytes behind the
/// payload are not looked at.
pub open spec fn parse_packet_spec(
    assoc_id: u16,
    pkt_id: u16,
    frag_total: u8,
    frag_id: u8,
    size: u16,
    rest: Seq<u8>,
    context: Seq<char>,
) -> Result<MessageView, ErrorView> {
    match decode_address_spec(rest) {
        AddressOutcome::Incomplete => Err(
            ErrorView::Incomplete { part: FramePart::Address, context },
        ),
        AddressOutcome::Invalid { error, consumed } => Err(ErrorView::Proto(error)),
        AddressOutcome::Frame { address, consumed } => {
            let data = rest.skip(consumed as int);
            if data.len() < size {
                Err(ErrorView::Proto(ProtoErrorView::BytesRemaining))
            } else {
                Ok(
                    MessageView::Packet(
                        PacketMessageView {
                            assoc_id,
                            pkt_id,
                            frag_total,
                            frag_id,
                            address,
                            payload: data.take(size as int),
                        },
                    ),
                )
            }
        },
    }
}

/// The message that `bytes` hold, where they hold one.
pub open spec fn parse_message_spec(bytes: Seq<u8>, context: Seq<char>) -> Result<
    MessageView,
    ErrorView,
> {
    match decode_header_spec(bytes) {
        HeaderOutcome::Incomplete => Err(
            ErrorView::Incomplete { part: FramePart::Header, context },
        ),
        HeaderOutcome::Invalid { error, consumed } => Err(ErrorView::Proto(error)),
        HeaderOutcome::Frame { header } => match decode_command_spec(
            header.command,
            bytes.skip(2),
        ) {
            CommandOutcome::Incomplete => Err(
                ErrorView::Incomplete { part: FramePart::Command, context },
            ),
            CommandOutcome::Invalid { error } => Err(ErrorView::Proto(error)),
            CommandOutcome::Frame { command, consumed } => match command {
                CommandView::Auth { uuid, token } => Ok(MessageView::Auth { uuid, token }),
                CommandView::Connect => Ok(MessageView::Connect),
                CommandView::Packet { assoc_id, pkt_id, frag_total, frag_id, size } => {
                    parse_packet_spec(
                        assoc_id,
                        pkt_id,
                        frag_total,
                        frag_id,
                        size,
                        bytes.skip(2).skip(consumed as int),
                        context,
                    )
                },
                CommandView::Dissociate { assoc_id } => Ok(MessageView::Dissociate { assoc_id }),
                CommandView::Heartbeat => Ok(MessageView::Heartbeat),
            },
        },
    }
}

/// Reads the one message that `data` holds.  `context` names the place the
/// bytes came from, for the error of a message that ends too early.
pub fn parse_message(data: &[u8], context: &str) -> (res: Result<Message, Error>)
    ensures
        match parse_message_spec(data@, context@) {
            Ok(message) => res is Ok && res->Ok_0@ == message,
            Err(error) => res is Err && res->Err_0@ == error,
        },
{
    let mut buf = buf_from_slice(data);
    let header = decode_header(&mut buf, context)?;
    let command = decode_command(header.command, &mut buf, context)?;
    match command {
        Command::Auth { uuid, token } => Ok(Message::Auth { uuid, token }),
        Command::Connect => Ok(Message::Connect),
        Command::Packet { assoc_id, pkt_id, frag_total, frag_id, size } => {
            let address = decode_address(&mut buf, context)?;
            if buf_len(&buf) < size as usize {
                return Err(Error::Proto(ProtoError::BytesRemaining));
            }
            let payload = buf_copy_range(&buf, 0, size as usize);
            Ok(
                Message::Packet(
                    PacketMessage { assoc_id, pkt_id, frag_total, frag_id, address, payload },
                ),
            )
        },
        Command::Dissociate { assoc_id } => Ok(Message::Dissociate { assoc_id }),
        Command::Heartbeat => Ok(Message::Heartbeat),
    }
}

/// A datagram that was built for a packet or a fragment is read back as the
/// Packet message it was built from.
pub proof fn lemma_packet_datagram_round_trip(
    assoc_id: u16,
    pkt_id: u16,
    frag_total: u8,
    frag_id: u8,
    address: Address,
    data: Seq<u8>,
    context: Seq<char>,
)
    requires
        address_encodable(address@),
        data.len() <= 0xffff,
    ensures
        parse_message_spec(
            packet_datagram(assoc_id, pkt_id, frag_total, frag_id, address@, data),
            context,
        ) == Ok::<MessageView, ErrorView>(
            MessageView::Packet(
                PacketMessageView {
                    assoc_id,
                    pkt_id,
                    frag_total,
                    frag_id,
                    address: address@,
                    payload: data,
                },
            ),
        ),
{
    let header = Header { version: VER, command: CmdType::Packet };
    let command = Command::Packet {
        assoc_id,
        pkt_id,
        frag_total,
        frag_id,
        size: data.len() as u16,
};
    let all = packet_datagram(assoc_id, pkt_id, frag_total, frag_id, address@, data);
    let after_header = encode_command(command@) + encode_address(address@) + data;
    let after_command = encode_address(address@) + data;
    assert(all =~= encode_header(header) + after_header);
    lemma_header_round_trip(header, after_header);
    lemma_command_round_trip(command, after_command);
    assert(after_header =~= encode_command(command@) + after_command);
    lemma_address_round_trip(address, data);
    assert(data.take(data.len() as int) =~= data);
}

/// A frame without an address is read back as the message of its command.
pub proof fn lemma_frame_round_trip(command: Command, context: Seq<char>)
    requires
        !(command is Packet),
    ensures
        parse_message_spec(
            frame_bytes(crate::proto::header::cmd_type_for(command), command@, None),
            context,
        ) == Ok::<MessageView, ErrorView>(
            match command@ {
                CommandView::Auth { uuid, token } => MessageView::Auth { uuid, token },
                CommandView::Connect => MessageView::Connect,
                CommandView::Dissociate { assoc_id } => MessageView::Dissociate { assoc_id },
                _ => MessageView::Heartbeat,
            },
        ),
{
    let ty = crate::proto::header::cmd_type_for(command);
    let header = Header { version: VER, command: ty };
    let all = frame_bytes(ty, command@, None);
    assert(all =~= encode_header(header) + encode_command(command@));
    lemma_header_round_trip(header, encode_command(command@));
    lemma_command_round_trip(command, Seq::<u8>::empty());
    assert(encode_command(command@) + Seq::<u8>::empty() =~= encode_command(command@));
}

} // verus!
