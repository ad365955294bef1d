//! The commands that follow a header.

use vstd::prelude::*;
use bytes::BytesMut;
use crate::buf::{
    be16, be16_bytes, buf_bytes, buf_get_array, buf_get_u16, buf_get_u8, buf_len, buf_put_slice,
    buf_put_u16, buf_put_u8,
};
use crate::proto::error::{ProtoError, ProtoErrorView};
use crate::proto::header::{cmd_type_for, CmdType};

verus! {

/// Reads and writes the command that a header of the given type announces.
#[derive(Debug, Clone, Copy)]
pub struct CmdCodec(pub CmdType);

/// A command with its fields.
#[derive(Debug, Clone, PartialEq, Eq)]
pub enum Command {
    Auth { uuid: [u8; 16], token: [u8; 32] },
    Connect,
    Packet { assoc_id: u16, pkt_id: u16, frag_total: u8, frag_id: u8, size: u16 },
    Dissociate { assoc_id: u16 },
    Heartbeat,
}

/// The mathematical value of a [`Command`].
pub enum CommandView {
    Auth { uuid: Seq<u8>, token: Seq<u8> },
    Connect,
    Packet { assoc_id: u16, pkt_id: u16, frag_total: u8, frag_id: u8, size: u16 },
    Dissociate { assoc_id: u16 },
    Heartbeat,
}

impl View for Command {
    type V = CommandView;

    open spec fn view(&self) -> CommandView {
        match *self {
            Command::Auth { uuid, token } => CommandView::Auth { uuid: uuid@, token: token@ },
            Command::Connect => CommandView::Connect,
            Command::Packet { assoc_id, pkt_id, frag_total, frag_id, size } => CommandView::Packet {
                assoc_id,
                pkt_id,
                frag_total,
                frag_id,
                size,
            },
            Command::Dissociate { assoc_id } => CommandView::Dissociate { assoc_id },
            Command::Heartbeat => CommandView::Heartbeat,
        }
    }
}

/// The bytes of a command on the wire.
pub open spec fn encode_command(c: CommandView) -> Seq<u8> {
    match c {
        CommandView::Auth { uuid, token } => uuid + token,
        CommandView::Connect => Seq::empty(),
        CommandView::Packet { assoc_id, pkt_id, frag_total, frag_id, size } => be16_bytes(assoc_id)
            + be16_bytes(pkt_id) + seq![frag_total, frag_id] + be16_bytes(size),
        CommandView::Dissociate { assoc_id } => be16_bytes(assoc_id),
        CommandView::Heartbeat => Seq::empty(),
    }
}

/// What reading a command from the front of `bytes` gives.
pub enum CommandOutcome {
    /// The command's bytes are not all there yet.
    Incomplete,
    /// The announced type names no command.
    Invalid { error: ProtoErrorView },
    /// A command, read from the first `consumed` bytes.
    Frame { command: CommandView, consumed: nat },
}

/// Reads the command that a header of type `ty` announces from the front of
/// `bytes`.
pub open spec fn decode_command_spec(ty: CmdType, bytes: Seq<u8>) -> CommandOutcome {
    match ty {
        CmdType::Auth => if bytes.len() < 48 {
            CommandOutcome::Incomplete
        } else {
            CommandOutcome::Frame {
                command: CommandView::Auth {
                    uuid: bytes.subrange(0, 16),
                    token: bytes.subrange(16, 48),
                },
                consumed: 48,
            }
        },
        CmdType::Connect => CommandOutcome::Frame { command: CommandView::Connect, consumed: 0 },
        CmdType::Packet => if bytes.len() < 8 {
            CommandOutcome::Incomplete
        } else {
            CommandOutcome::Frame {
                command: CommandView::Packet {
                    assoc_id: be16(bytes[0], bytes[1]),
                    pkt_id: be16(bytes[2], bytes[3]),
                    frag_total: bytes[4],
                    frag_id: bytes[5],
                    size: be16(bytes[6], bytes[7]),
                },
                consumed: 8,
            }
        },
        CmdType::Dissociate => if bytes.len() < 2 {
            CommandOutcome::Incomplete
        } else {
            CommandOutcome::Frame {
                command: CommandView::Dissociate { assoc_id: be16(bytes[0], bytes[1]) },
                consumed: 2,
            }
        },
        CmdType::Heartbeat => CommandOutcome::Frame {
            command: CommandView::Heartbeat,
            consumed: 0,
        },
        CmdType::Other(value) => CommandOutcome::Invalid {
            error: ProtoErrorView::UnknownCommandType { value },
        },
    }
}

impl CmdCodec {
    /// Reads the command of this codec's type from the front of `src`.
    ///
    /// While the command's bytes are not all there, nothing is read and
    /// `Ok(None)` asks for more input.  A codec for an unknown type reads
    /// nothing and reports the type.
    pub fn decode(&mut self, src: &mut BytesMut) -> (res: Result<Option<Command>, ProtoError>)
        ensures
            *final(self) == *old(self),
            match decode_command_spec(old(self).0, buf_bytes(*old(src))) {
                CommandOutcome::Incomplete => res is Ok && res->Ok_0 is None && buf_bytes(
                    *final(src),
                ) == buf_bytes(*old(src)),
                CommandOutcome::Invalid { error } => res is Err && res->Err_0@ == error
                    && buf_bytes(*final(src)) == buf_bytes(*old(src)),
                CommandOutcome::Frame { command, consumed } => res is Ok && res->Ok_0 is Some
                    && res->Ok_0->Some_0@ == command && buf_bytes(*final(src)) == buf_bytes(
                    *old(src),
                ).skip(consumed as int),
            },
    {
        let ghost bytes = buf_bytes(*src);
        match self.0 {
            CmdType::Auth => {
                if buf_len(src) < 16 + 32 {
                    return Ok(None);
                }
                let uuid: [u8; 16] = buf_get_array::<16>(src);
                let token: [u8; 32] = buf_get_array::<32>(src);
                proof {
                    assert(uuid@ =~= bytes.subrange(0, 16));
                    assert(token@ =~= bytes.subrange(16, 48));
                    assert(buf_bytes(*src) =~= bytes.skip(48));
                }
                Ok(Some(Command::Auth { uuid, token }))
            },
            CmdType::Connect => {
                assert(bytes.skip(0) =~= bytes);
                Ok(Some(Command::Connect))
            },
            CmdType::Packet => {
                if buf_len(src) < 8 {
                    return Ok(None);
                }
                let assoc_id = buf_get_u16(src);
                let pkt_id = buf_get_u16(src);
                let frag_total = buf_get_u8(src);
                let frag_id = buf_get_u8(src);
                let size = buf_get_u16(src);
                assert(buf_bytes(*src) =~= bytes.skip(8));
                Ok(Some(Command::Packet { assoc_id, pkt_id, frag_total, frag_id, size }))
            },
            CmdType::Dissociate => {
                if buf_len(src) < 2 {
                    return Ok(None);
                }
                let assoc_id = buf_get_u16(src);
                Ok(Some(Command::Dissociate { assoc_id }))
            },
            CmdType::Heartbeat => {
                assert(bytes.skip(0) =~= bytes);
                Ok(Some(Command::Heartbeat))
            },
            CmdType::Other(value) => Err(ProtoError::UnknownCommandType { value }),
        }
    }

    /// Reads the command from the last input there will be: as `decode`, but
    /// input that ends before the command does is an error.
    pub fn decode_eof(&mut self, buf: &mut BytesMut) -> (res: Result<Option<Command>, ProtoError>)
        ensures
            *final(self) == *old(self),
            match decode_command_spec(old(self).0, buf_bytes(*old(buf))) {
                CommandOutcome::Incomplete => res is Err && res->Err_0@
                    == ProtoErrorView::BytesRemaining && buf_bytes(*final(buf)) == buf_bytes(
                    *old(buf),
                ),
                CommandOutcome::Invalid { error } => res is Err && res->Err_0@ == error
                    && buf_bytes(*final(buf)) == buf_bytes(*old(buf)),
                CommandOutcome::Frame { command, consumed } => res is Ok && res->Ok_0 is Some
                    && res->Ok_0->Some_0@ == command && buf_bytes(*final(buf)) == buf_bytes(
                    *old(buf),
                ).skip(consumed as int),
            },
    {
        match self.decode(buf) {
            Ok(None) => Err(ProtoError::BytesRemaining),
            v => v,
        }
    }

    /// Appends the bytes of `item` to `dst`, whatever this codec's type.
    /// Never fails.
    pub fn encode(&mut self, item: Command, dst: &mut BytesMut) -> (res: Result<(), ProtoError>)
        ensures
            *final(self) == *old(self),
            res is Ok,
            buf_bytes(*final(dst)) == buf_bytes(*old(dst)) + encode_command(item@),
    {
        match item {
            Command::Auth { uuid, token } => {
                buf_put_slice(dst, uuid.as_slice());
                buf_put_slice(dst, token.as_slice());
            },
            Command::Connect => {},
            Command::Packet { assoc_id, pkt_id, frag_total, frag_id, size } => {
                buf_put_u16(dst, assoc_id);
                buf_put_u16(dst, pkt_id);
                buf_put_u8(dst, frag_total);
                buf_put_u8(dst, frag_id);
                buf_put_u16(dst, size);
            },
            Command::Dissociate { assoc_id } => {
                buf_put_u16(dst, assoc_id);
            },
            Command::Heartbeat => {},
        }
        assert(buf_bytes(*dst) =~= buf_bytes(*old(dst)) + encode_command(item@));
        Ok(())
    }
}

/// Reading a 16-bit number back from its two bytes gives the number.
pub proof fn lemma_be16_round_trip(v: u16)
    ensures
        be16_bytes(v).len() == 2,
        be16(be16_bytes(v)[0], be16_bytes(v)[1]) == v,
{
}

/// A command that is written and then read under its own type comes back
/// unchanged, with whatever follows it left in the buffer.
pub proof fn lemma_command_round_trip(c: Command, rest: Seq<u8>)
    ensures
        decode_command_spec(cmd_type_for(c), encode_command(c@) + rest) == (
        CommandOutcome::Frame { command: c@, consumed: encode_command(c@).len() }),
        (encode_command(c@) + rest).skip(encode_command(c@).len() as int) == rest,
{
    let e = encode_command(c@);
    let all = e + rest;
    assert(all.skip(e.len() as int) =~= rest);
    match c {
        Command::Auth { uuid, token } => {
            assert(all.subrange(0, 16) =~= uuid@);
            assert(all.subrange(16, 48) =~= token@);
        },
        Command::Connect => {},
        Command::Packet { assoc_id, pkt_id, frag_total, frag_id, size } => {
            lemma_be16_round_trip(assoc_id);
            lemma_be16_round_trip(pkt_id);
            lemma_be16_round_trip(size);
        },
        Command::Dissociate { assoc_id } => {
            lemma_be16_round_trip(assoc_id);
        },
        Command::Heartbeat => {},
    }
}

/// The reader asks for more input on every proper prefix of a command's
/// bytes.
pub proof fn lemma_command_streaming(c: Command, cut: int)
    requires
        0 <= cut < encode_command(c@).len(),
    ensures
        decode_command_spec(cmd_type_for(c), encode_command(c@).take(cut)) is Incomplete,
{
}

} // verus!
