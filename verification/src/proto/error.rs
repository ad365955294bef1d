//! Errors of the wire codec.

use vstd::prelude::*;

verus! {

/// What can go wrong while a frame is read or written.
#[derive(Debug, Clone, PartialEq, Eq)]
pub enum ProtoError {
    /// The first byte of a header is not the protocol version.
    VersionMismatch { expect: u8, actual: u8 },
    /// The command byte names no command.
    UnknownCommandType { value: u8 },
    /// The address type byte names no address form.
    UnknownAddressType { value: u8 },
    /// The bytes of a domain name are not UTF-8; `hex` holds them in
    /// lower-case hexadecimal.
    InvalidDomain { hex: String },
    /// A domain name is longer than the one length byte can say.
    DomainTooLong { domain: String },
    /// A payload needs more fragments than a packet can have.
    PacketTooLarge,
    /// The input ended in the middle of a frame.
    BytesRemaining,
}

/// The mathematical value of a [`ProtoError`].
pub enum ProtoErrorView {
    VersionMismatch { expect: u8, actual: u8 },
    UnknownCommandType { value: u8 },
    UnknownAddressType { value: u8 },
    InvalidDomain { hex: Seq<char> },
    DomainTooLong { domain: Seq<char> },
    PacketTooLarge,
    BytesRemaining,
}

impl View for ProtoError {
    type V = ProtoErrorView;

    open spec fn view(&self) -> ProtoErrorView {
        match *self {
            ProtoError::VersionMismatch { expect, actual } => ProtoErrorView::VersionMismatch {
                expect,
                actual,
            },
            ProtoError::UnknownCommandType { value } => ProtoErrorView::UnknownCommandType {
                value,
            },
            ProtoError::UnknownAddressType { value } => ProtoErrorView::UnknownAddressType {
                value,
            },
            ProtoError::InvalidDomain { hex } => ProtoErrorView::InvalidDomain { hex: hex@ },
            ProtoError::DomainTooLong { domain } => ProtoErrorView::DomainTooLong {
                domain: domain@,
            },
            ProtoError::PacketTooLarge => ProtoErrorView::PacketTooLarge,
            ProtoError::BytesRemaining => ProtoErrorView::BytesRemaining,
        }
    }
}

} // verus!
