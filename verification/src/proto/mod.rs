//! The TUIC wire protocol, version 5: frames, their codecs, and the UDP
//! session that fragments and reassembles packets.

pub mod addr;
pub mod arrivals;
pub mod cmd;
pub mod error;
pub mod header;
pub mod lifecycle;
pub mod message;
pub mod reassembly;
pub mod sessions;
pub mod udp_stream;

use vstd::prelude::*;
use bytes::BytesMut;
use crate::buf::{buf_bytes, buf_new};
use crate::proto::addr::{
    address_encodable, address_of_target, decode_address_spec, encode_address, Address,
    AddressCodec, AddressOutcome, AddressView,
};
use crate::proto::cmd::{
    decode_command_spec, encode_command, CmdCodec, Command, CommandOutcome, CommandView,
};
use crate::proto::error::{ProtoError, ProtoErrorView};
use crate::proto::header::{
    decode_header_spec, encode_header, CmdType, Header, HeaderCodec, HeaderOutcome,
};
use crate::types::{TargetAddr, TargetAddrView};

verus! {

/// The protocol version that every header carries.
pub const VER: u8 = 5;

/// The part of a frame that a reader was after.
#[derive(Debug, Clone, Copy, PartialEq, Eq, Structural)]
pub enum FramePart {
    Header,
    Command,
    Address,
}

/// Why a frame could not be taken from a buffer that holds all there is.
#[derive(Debug, Clone, PartialEq, Eq)]
pub enum Error {
    /// The bytes are no frame.
    Proto(ProtoError),
    /// The buffer ends before `part` does; `context` says where it was read.
    Incomplete { part: FramePart, context: String },
    /// The frame carries no address where one is needed.
    NoAddress,
}

/// The mathematical value of an [`Error`].
pub enum ErrorView {
    Proto(ProtoErrorView),
    Incomplete { part: FramePart, context: Seq<char> },
    NoAddress,
}

impl View for Error {
    type V = ErrorView;

    open spec fn view(&self) -> ErrorView {
        match *self {
            Error::Proto(e) => ErrorView::Proto(e@),
            Error::Incomplete { part, context } => ErrorView::Incomplete {
                part,
                context: context@,
            },
            Error::NoAddress => ErrorView::NoAddress,
        }
    }
}

/// Whether an error means that the peer speaks another version of the
/// protocol.  Such an error ends the connection; after any other the
/// connection goes on without the frame.
pub open spec fn is_fatal(e: ErrorView) -> bool {
    e matches ErrorView::Proto(ProtoErrorView::VersionMismatch { .. })
}

impl Error {
    /// Whether the error ends the connection: whether the peer speaks
    /// another version of the protocol.
    pub fn is_fatal(&self) -> (fatal: bool)
        ensures
            fatal == is_fatal(self@),
    {
        match self {
            Error::Proto(ProtoError::VersionMismatch { .. }) => true,
            _ => false,
        }
    }
}

/// Takes a header off the front of `buf`; a buffer that ends before the
/// header does is an error that names `context`.
pub fn decode_header(buf: &mut BytesMut, context: &str) -> (res: Result<Header, Error>)
    ensures
        match decode_header_spec(buf_bytes(*old(buf))) {
            HeaderOutcome::Incomplete => res is Err && res->Err_0@ == (ErrorView::Incomplete {
                part: FramePart::Header,
                context: context@,
            }) && buf_bytes(*final(buf)) == buf_bytes(*old(buf)),
            HeaderOutcome::Invalid { error, consumed } => res is Err && res->Err_0@
                == ErrorView::Proto(error) && buf_bytes(*final(buf)) == buf_bytes(*old(buf)).skip(
                consumed as int,
            ),
            HeaderOutcome::Frame { header } => res == Ok::<Header, Error>(header) && buf_bytes(
                *final(buf),
            ) == buf_bytes(*old(buf)).skip(2),
        },
{
    let mut codec = HeaderCodec;
    match codec.decode(buf) {
        Ok(Some(header)) => Ok(header),
        Ok(None) => Err(Error::Incomplete { part: FramePart::Header, context: context.to_owned() }),
        Err(e) => Err(Error::Proto(e)),
    }
}

/// Takes the command of type `cmd_type` off the front of `buf`; a buffer
/// that ends before the command does is an error that names `context`.
pub fn decode_command(cmd_type: CmdType, buf: &mut BytesMut, context: &str) -> (res: Result<
    Command,
    Error,
>)
    ensures
        match decode_command_spec(cmd_type, buf_bytes(*old(buf))) {
            CommandOutcome::Incomplete => res is Err && res->Err_0@ == (ErrorView::Incomplete {
                part: FramePart::Command,
                context: context@,
            }) && buf_bytes(*final(buf)) == buf_bytes(*old(buf)),
            CommandOutcome::Invalid { error } => res is Err && res->Err_0@ == ErrorView::Proto(
                error,
            ) && buf_bytes(*final(buf)) == buf_bytes(*old(buf)),
            CommandOutcome::Frame { command, consumed } => res is Ok && res->Ok_0@ == command
                && buf_bytes(*final(buf)) == buf_bytes(*old(buf)).skip(consumed as int),
        },
{
    let mut codec = CmdCodec(cmd_type);
    match codec.decode(buf) {
        Ok(Some(command)) => Ok(command),
        Ok(None) => Err(
            Error::Incomplete { part: FramePart::Command, context: context.to_owned() },
        ),
        Err(e) => Err(Error::Proto(e)),
    }
}

/// Takes an address off the front of `buf`; a buffer that ends before the
/// address does is an error that names `context`.
pub fn decode_address(buf: &mut BytesMut, context: &str) -> (res: Result<Address, Error>)
    ensures
        match decode_address_spec(buf_bytes(*old(buf))) {
            AddressOutcome::Incomplete => res is Err && res->Err_0@ == (ErrorView::Incomplete {
                part: FramePart::Address,
                context: context@,
            }) && buf_bytes(*final(buf)) == buf_bytes(*old(buf)),
            AddressOutcome::Invalid { error, consumed } => res is Err && res->Err_0@
                == ErrorView::Proto(error) && buf_bytes(*final(buf)) == buf_bytes(*old(buf)).skip(
                consumed as int,
            ),
            AddressOutcome::Frame { address, consumed } => res is Ok && res->Ok_0@ == address
                && buf_bytes(*final(buf)) == buf_bytes(*old(buf)).skip(consumed as int),
        },
{
    let mut codec = AddressCodec;
    match codec.decode(buf) {
        Ok(Some(address)) => Ok(address),
        Ok(None) => Err(
            Error::Incomplete { part: FramePart::Address, context: context.to_owned() },
        ),
        Err(e) => Err(Error::Proto(e)),
    }
}

/// The target that a wire address names, where it names one.
pub open spec fn target_of_address(a: AddressView) -> Option<TargetAddrView> {
    match a {
        AddressView::Empty => None,
        AddressView::Domain(name, port) => Some(TargetAddrView::Domain(name, port)),
        AddressView::IPv4(ip, port) => Some(TargetAddrView::IPv4(ip, port)),
        AddressView::IPv6(ip, port) => Some(TargetAddrView::IPv6(ip, port)),
    }
}

/// The target that a wire address names. The empty address names none and
/// is an error.
pub fn address_to_target(addr: Address) -> (res: Result<TargetAddr, Error>)
    ensures
        match target_of_address(addr@) {
            Some(target) => res is Ok && res->Ok_0@ == target,
            None => res is Err && res->Err_0@ == ErrorView::NoAddress,
        },
{
    match addr {
        Address::Domain(domain, port) => Ok(TargetAddr::Domain(domain, port)),
        Address::IPv4(ip, port) => Ok(TargetAddr::IPv4(ip, port)),
        Address::IPv6(ip, port) => Ok(TargetAddr::IPv6(ip, port)),
        Address::Empty => Err(Error::NoAddress),
    }
}

/// The bytes of a frame: header, command, and the address where there is one.
pub open spec fn frame_bytes(
    cmd_type: CmdType,
    command: CommandView,
    address: Option<AddressView>,
) -> Seq<u8> {
    encode_header(Header { version: VER, command: cmd_type }) + encode_command(command) + match address {
        Some(a) => encode_address(a),
        None => Seq::empty(),
    }
}

/// A fresh buffer that holds a header of type `cmd_type` and the command.
fn frame_head(cmd_type: CmdType, command: Command) -> (buf: BytesMut)
    ensures
        buf_bytes(buf) == frame_bytes(cmd_type, command@, None),
{
    let mut buf = buf_new();
    let mut header_codec = HeaderCodec;
    let mut cmd_codec = CmdCodec(cmd_type);
    let ghost command_view = command@;
    let _ = header_codec.encode(Header::new(cmd_type), &mut buf);
    let _ = cmd_codec.encode(command, &mut buf);
    assert(buf_bytes(buf) =~= frame_bytes(cmd_type, command_view, None));
    buf
}

/// Writes a frame into a fresh buffer: a header of type `cmd_type`, the
/// command, and the address if one is given.  Fails only on an address that
/// cannot be written.
pub fn encode_frame(cmd_type: CmdType, command: Command, address: Option<Address>) -> (res: Result<
    BytesMut,
    ProtoError,
>)
    ensures
        match address {
            Some(a) if !address_encodable(a@) => res is Err && res->Err_0@
                == (ProtoErrorView::DomainTooLong { domain: a@->Domain_0 }),
            Some(a) => res is Ok && buf_bytes(res->Ok_0) == frame_bytes(
                cmd_type,
                command@,
                Some(a@),
            ),
            None => res is Ok && buf_bytes(res->Ok_0) == frame_bytes(cmd_type, command@, None),
        },
{
    let ghost command_view = command@;
    let mut buf = frame_head(cmd_type, command);
    if let Some(addr) = address {
        let ghost a = addr@;
        let mut addr_codec = AddressCodec;
        addr_codec.encode(addr, &mut buf)?;
        assert(buf_bytes(buf) =~= frame_bytes(cmd_type, command_view, Some(a)));
    }
    Ok(buf)
}

/// The frame that opens a connection: an Auth command with the user's
/// identifier and the token derived for this connection. Fifty bytes.
pub fn auth_frame(uuid: [u8; 16], token: [u8; 32]) -> (buf: BytesMut)
    ensures
        buf_bytes(buf) == frame_bytes(
            CmdType::Auth,
            CommandView::Auth { uuid: uuid@, token: token@ },
            None,
        ),
        buf_bytes(buf).len() == 50,
{
    frame_head(CmdType::Auth, Command::Auth { uuid, token })
}

/// The prefix of a TCP relay stream: a Connect command and the target.
/// Fails only on a domain name that cannot be written.
pub fn connect_frame(addr: &TargetAddr) -> (res: Result<BytesMut, ProtoError>)
    ensures
        address_encodable(address_of_target(addr@)) ==> res is Ok && buf_bytes(res->Ok_0)
            == frame_bytes(CmdType::Connect, CommandView::Connect, Some(address_of_target(addr@))),
        !address_encodable(address_of_target(addr@)) ==> res is Err && res->Err_0@
            == (ProtoErrorView::DomainTooLong { domain: addr@->Domain_0 }),
{
    encode_frame(CmdType::Connect, Command::Connect, Some(target_address(addr)))
}

/// The wire address of a target.
pub fn target_address(addr: &TargetAddr) -> (a: Address)
    ensures
        a@ == address_of_target(addr@),
{
    match addr {
        TargetAddr::Domain(name, port) => Address::Domain(name.clone(), *port),
        TargetAddr::IPv4(ip, port) => Address::IPv4(*ip, *port),
        TargetAddr::IPv6(ip, port) => Address::IPv6(*ip, *port),
    }
}

/// The frame that ends a UDP association.
pub fn dissociate_frame(assoc_id: u16) -> (buf: BytesMut)
    ensures
        buf_bytes(buf) == frame_bytes(
            CmdType::Dissociate,
            CommandView::Dissociate { assoc_id },
            None,
        ),
        buf_bytes(buf).len() == 4,
{
    frame_head(CmdType::Dissociate, Command::Dissociate { assoc_id })
}

/// The keep-alive frame: a header alone, two bytes.
pub fn heartbeat_frame() -> (buf: BytesMut)
    ensures
        buf_bytes(buf) == frame_bytes(CmdType::Heartbeat, CommandView::Heartbeat, None),
        buf_bytes(buf) == seq![5u8, 4u8],
{
    let buf = frame_head(CmdType::Heartbeat, Command::Heartbeat);
    assert(buf_bytes(buf) =~= seq![5u8, 4u8]);
    buf
}

} // verus!
