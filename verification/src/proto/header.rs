//! The two-byte header that opens every frame.

use vstd::prelude::*;
use vstd::std_specs::convert::FromSpecImpl;
use bytes::BytesMut;
use crate::buf::{buf_bytes, buf_get_u8, buf_len, buf_put_u8};
use crate::proto::cmd::Command;
use crate::proto::error::{ProtoError, ProtoErrorView};
use crate::proto::VER;

verus! {

/// Reads and writes [`Header`] frames.
#[derive(Debug, Clone, Copy)]
pub struct HeaderCodec;

/// Protocol version and command of a frame.
#[derive(Debug, Clone, PartialEq, Eq, Structural)]
pub struct Header {
    pub version: u8,
    pub command: CmdType,
}

/// The command byte. `Other` keeps a byte that names no command.
#[derive(Copy, Clone, Debug, PartialEq, Eq, Structural)]
pub enum CmdType {
    Auth,
    Connect,
    Packet,
    Dissociate,
    Heartbeat,
    Other(u8),
}

/// The command that a byte names.
pub open spec fn cmd_type_of(b: u8) -> CmdType {
    if b == 0 {
        CmdType::Auth
    } else if b == 1 {
        CmdType::Connect
    } else if b == 2 {
        CmdType::Packet
    } else if b == 3 {
        CmdType::Dissociate
    } else if b == 4 {
        CmdType::Heartbeat
    } else {
        CmdType::Other(b)
    }
}

/// The byte that stands for a command on the wire.
pub open spec fn cmd_type_byte(c: CmdType) -> u8 {
    match c {
        CmdType::Auth => 0,
        CmdType::Connect => 1,
        CmdType::Packet => 2,
        CmdType::Dissociate => 3,
        CmdType::Heartbeat => 4,
        CmdType::Other(b) => b,
    }
}

/// Whether a command is one of the five that the protocol knows.
pub open spec fn cmd_type_known(c: CmdType) -> bool {
    !(c is Other)
}

/// The command type under which a command travels.
pub open spec fn cmd_type_for(c: Command) -> CmdType {
    match c {
        Command::Auth { .. } => CmdType::Auth,
        Command::Connect => CmdType::Connect,
        Command::Packet { .. } => CmdType::Packet,
        Command::Dissociate { .. } => CmdType::Dissociate,
        Command::Heartbeat => CmdType::Heartbeat,
    }
}

impl From<u8> for CmdType {
    fn from(value: u8) -> (ret: CmdType) {
        if value == 0 {
            CmdType::Auth
        } else if value == 1 {
            CmdType::Connect
        } else if value == 2 {
            CmdType::Packet
        } else if value == 3 {
            CmdType::Dissociate
        } else if value == 4 {
            CmdType::Heartbeat
        } else {
            CmdType::Other(value)
        }
    }
}

impl FromSpecImpl<u8> for CmdType {
    open spec fn obeys_from_spec() -> bool {
        true
    }

    open spec fn from_spec(value: u8) -> CmdType {
        cmd_type_of(value)
    }
}

impl From<CmdType> for u8 {
    fn from(value: CmdType) -> (ret: u8) {
        match value {
            CmdType::Auth => 0,
            CmdType::Connect => 1,
            CmdType::Packet => 2,
            CmdType::Dissociate => 3,
            CmdType::Heartbeat => 4,
            CmdType::Other(b) => b,
        }
    }
}

impl FromSpecImpl<CmdType> for u8 {
    open spec fn obeys_from_spec() -> bool {
        true
    }

    open spec fn from_spec(value: CmdType) -> u8 {
        cmd_type_byte(value)
    }
}

impl<'a> From<&'a Command> for CmdType {
    fn from(value: &'a Command) -> (ret: CmdType) {
        match value {
            Command::Auth { .. } => CmdType::Auth,
            Command::Connect => CmdType::Connect,
            Command::Packet { .. } => CmdType::Packet,
            Command::Dissociate { .. } => CmdType::Dissociate,
            Command::Heartbeat => CmdType::Heartbeat,
        }
    }
}

impl<'a> FromSpecImpl<&'a Command> for CmdType {
    open spec fn obeys_from_spec() -> bool {
        true
    }

    open spec fn from_spec(value: &'a Command) -> CmdType {
        cmd_type_for(*value)
    }
}

impl Header {
    /// A header of the current protocol version for `command`.
    pub fn new(command: CmdType) -> (h: Header)
        ensures
            h == (Header { version: VER, command }),
    {
        Header { version: VER, command }
    }

    /// Whether the header is one that a peer accepts: the current version
    /// with a known command.
    pub open spec fn valid(&self) -> bool {
        self.version == VER && cmd_type_known(self.command)
    }
}

/// The bytes of a header on the wire.
pub open spec fn encode_header(h: Header) -> Seq<u8> {
    seq![h.version, cmd_type_byte(h.command)]
}

/// What reading a header from the front of `bytes` gives.
pub enum HeaderOutcome {
    /// Fewer than two bytes are there.
    Incomplete,
    /// The bytes are no header; `consumed` of them were read.
    Invalid { error: ProtoErrorView, consumed: nat },
    /// A header, read from the first two bytes.
    Frame { header: Header },
}

/// Reads a header from the front of `bytes`.
pub open spec fn decode_header_spec(bytes: Seq<u8>) -> HeaderOutcome {
    if bytes.len() < 2 {
        HeaderOutcome::Incomplete
    } else if bytes[0] != VER {
        HeaderOutcome::Invalid {
            error: ProtoErrorView::VersionMismatch { expect: VER, actual: bytes[0] },
            consumed: 1,
        }
    } else if bytes[1] > 4 {
        HeaderOutcome::Invalid {
            error: ProtoErrorView::UnknownCommandType { value: bytes[1] },
            consumed: 2,
        }
    } else {
        HeaderOutcome::Frame { header: Header { version: VER, command: cmd_type_of(bytes[1]) } }
    }
}

impl HeaderCodec {
    /// Reads one header from the front of `src`.
    ///
    /// With fewer than two bytes nothing is read and `Ok(None)` asks for
    /// more input.  A wrong version byte is consumed and reported; so are the
    /// two bytes of a header whose command is unknown.
    pub fn decode(&mut self, src: &mut BytesMut) -> (res: Result<Option<Header>, ProtoError>)
        ensures
            match decode_header_spec(buf_bytes(*old(src))) {
                HeaderOutcome::Incomplete => res == Ok::<Option<Header>, ProtoError>(None)
                    && buf_bytes(*final(src)) == buf_bytes(*old(src)),
                HeaderOutcome::Invalid { error, consumed } => res is Err && res->Err_0@ == error
                    && buf_bytes(*final(src)) == buf_bytes(*old(src)).skip(consumed as int),
                HeaderOutcome::Frame { header } => res == Ok::<Option<Header>, ProtoError>(
                    Some(header),
                ) && buf_bytes(*final(src)) == buf_bytes(*old(src)).skip(2),
            },
    {
        if buf_len(src) < 2 {
            return Ok(None);
        }
        let ver = buf_get_u8(src);
        if ver != VER {
            return Err(ProtoError::VersionMismatch { expect: VER, actual: ver });
        }
        let cmd = CmdType::from(buf_get_u8(src));
        if let CmdType::Other(value) = cmd {
            return Err(ProtoError::UnknownCommandType { value });
        }
        assert(buf_bytes(*old(src)).skip(1).skip(1) == buf_bytes(*old(src)).skip(2));
        Ok(Some(Header::new(cmd)))
    }

    /// Reads one header from the last input there will be: as `decode`, but
    /// input that ends before the header does is an error.
    pub fn decode_eof(&mut self, buf: &mut BytesMut) -> (res: Result<Option<Header>, ProtoError>)
        ensures
            match decode_header_spec(buf_bytes(*old(buf))) {
                HeaderOutcome::Incomplete => res is Err && res->Err_0@
                    == ProtoErrorView::BytesRemaining && buf_bytes(*final(buf)) == buf_bytes(
                    *old(buf),
                ),
                HeaderOutcome::Invalid { error, consumed } => res is Err && res->Err_0@ == error
                    && buf_bytes(*final(buf)) == buf_bytes(*old(buf)).skip(consumed as int),
                HeaderOutcome::Frame { header } => res == Ok::<Option<Header>, ProtoError>(
                    Some(header),
                ) && buf_bytes(*final(buf)) == buf_bytes(*old(buf)).skip(2),
            },
    {
        match self.decode(buf) {
            Ok(None) => Err(ProtoError::BytesRemaining),
            v => v,
        }
    }

    /// Appends the two bytes of `item` to `dst`. Never fails.
    pub fn encode(&mut self, item: Header, dst: &mut BytesMut) -> (res: Result<(), ProtoError>)
        ensures
            res is Ok,
            buf_bytes(*final(dst)) == buf_bytes(*old(dst)) + encode_header(item),
    {
        buf_put_u8(dst, item.version);
        buf_put_u8(dst, u8::from(item.command));
        assert(buf_bytes(*dst) =~= buf_bytes(*old(dst)) + encode_header(item));
        Ok(())
    }
}

/// A valid header that is written and then read comes back unchanged, with
/// whatever follows it left in the buffer.
pub proof fn lemma_header_round_trip(h: Header, rest: Seq<u8>)
    requires
        h.valid(),
    ensures
        decode_header_spec(encode_header(h) + rest) == (HeaderOutcome::Frame { header: h }),
        (encode_header(h) + rest).skip(2) == rest,
{
    assert((encode_header(h) + rest).skip(2) =~= rest);
}

/// The reader asks for more input on every proper prefix of a header's bytes.
pub proof fn lemma_header_streaming(h: Header, cut: int)
    requires
        0 <= cut < encode_header(h).len(),
    ensures
        decode_header_spec(encode_header(h).take(cut)) is Incomplete,
{
}

} // verus!
