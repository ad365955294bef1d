//! The address that follows a Connect or a Packet command.

use vstd::prelude::*;
use vstd::std_specs::convert::FromSpecImpl;
use vstd::string::StringSliceAdditionalSpecFns;
use vstd::utf8::{decode_utf8, encode_utf8, valid_utf8};
use bytes::BytesMut;
use crate::buf::{
    be16, be16_bytes, buf_advance, buf_bytes, buf_copy_range, buf_get_array, buf_get_u16, buf_len,
    buf_peek, buf_put_slice, buf_put_u16, buf_put_u8,
};
use crate::proto::cmd::lemma_be16_round_trip;
use crate::proto::error::{ProtoError, ProtoErrorView};
use crate::text::{hex_encode, hex_string, lemma_text_of_bytes, utf8_text};
use crate::types::{TargetAddr, TargetAddrView};

verus! {

/// Reads and writes [`Address`] frames.
#[derive(Debug, Clone, Copy)]
pub struct AddressCodec;

/// An address on the wire.  `Empty` stands in the fragments of a packet that
/// follow the first.
#[derive(Debug, PartialEq, Eq)]
pub enum Address {
    Empty,
    Domain(String, u16),
    IPv4([u8; 4], u16),
    IPv6([u8; 16], u16),
}

/// The mathematical value of an [`Address`].
pub enum AddressView {
    Empty,
    Domain(Seq<char>, u16),
    IPv4(Seq<u8>, u16),
    IPv6(Seq<u8>, u16),
}

impl View for Address {
    type V = AddressView;

    open spec fn view(&self) -> AddressView {
        match *self {
            Address::Empty => AddressView::Empty,
            Address::Domain(name, port) => AddressView::Domain(name@, port),
            Address::IPv4(ip, port) => AddressView::IPv4(ip@, port),
            Address::IPv6(ip, port) => AddressView::IPv6(ip@, port),
        }
    }
}

impl Clone for Address {
    fn clone(&self) -> (res: Address)
        ensures
            res@ == self@,
    {
        match self {
            Address::Empty => Address::Empty,
            Address::Domain(name, port) => Address::Domain(name.clone(), *port),
            Address::IPv4(ip, port) => Address::IPv4(*ip, *port),
            Address::IPv6(ip, port) => Address::IPv6(*ip, *port),
        }
    }
}

/// The type byte of an address. `Other` keeps a byte that names no form.
#[derive(Copy, Clone, Debug, PartialEq, Eq, Structural)]
pub enum AddressType {
    Empty,
    Domain,
    IPv4,
    IPv6,
    Other(u8),
}

/// The address form that a type byte names.
pub open spec fn address_type_of(b: u8) -> AddressType {
    if b == 0xff {
        AddressType::Empty
    } else if b == 0 {
        AddressType::Domain
    } else if b == 1 {
        AddressType::IPv4
    } else if b == 2 {
        AddressType::IPv6
    } else {
        AddressType::Other(b)
    }
}

/// The type byte that stands for an address form on the wire.
pub open spec fn address_type_byte(t: AddressType) -> u8 {
    match t {
        AddressType::Empty => 0xff,
        AddressType::Domain => 0,
        AddressType::IPv4 => 1,
        AddressType::IPv6 => 2,
        AddressType::Other(b) => b,
    }
}

impl From<u8> for AddressType {
    fn from(value: u8) -> (ret: AddressType) {
        if value == 0xff {
            AddressType::Empty
        } else if value == 0 {
            AddressType::Domain
        } else if value == 1 {
            AddressType::IPv4
        } else if value == 2 {
            AddressType::IPv6
        } else {
            AddressType::Other(value)
        }
    }
}

impl FromSpecImpl<u8> for AddressType {
    open spec fn obeys_from_spec() -> bool {
        true
    }

    open spec fn from_spec(value: u8) -> AddressType {
        address_type_of(value)
    }
}

impl From<AddressType> for u8 {
    fn from(value: AddressType) -> (ret: u8) {
        match value {
            AddressType::Empty => 0xff,
            AddressType::Domain => 0,
            AddressType::IPv4 => 1,
            AddressType::IPv6 => 2,
            AddressType::Other(b) => b,
        }
    }
}

impl FromSpecImpl<AddressType> for u8 {
    open spec fn obeys_from_spec() -> bool {
        true
    }

    open spec fn from_spec(value: AddressType) -> u8 {
        address_type_byte(value)
    }
}

/// The wire address that names the same place as a target.
pub open spec fn address_of_target(t: TargetAddrView) -> AddressView {
    match t {
        TargetAddrView::Domain(name, port) => AddressView::Domain(name, port),
        TargetAddrView::IPv4(ip, port) => AddressView::IPv4(ip, port),
        TargetAddrView::IPv6(ip, port) => AddressView::IPv6(ip, port),
    }
}

impl From<TargetAddr> for Address {
    fn from(value: TargetAddr) -> (ret: Address) {
        match value {
            TargetAddr::Domain(s, port) => Address::Domain(s, port),
            TargetAddr::IPv4(addr, port) => Address::IPv4(addr, port),
            TargetAddr::IPv6(addr, port) => Address::IPv6(addr, port),
        }
    }
}

impl FromSpecImpl<TargetAddr> for Address {
    open spec fn obeys_from_spec() -> bool {
        true
    }

    open spec fn from_spec(value: TargetAddr) -> Address {
        match value {
            TargetAddr::Domain(s, port) => Address::Domain(s, port),
            TargetAddr::IPv4(addr, port) => Address::IPv4(addr, port),
            TargetAddr::IPv6(addr, port) => Address::IPv6(addr, port),
        }
    }
}

/// Whether an address can be written: a domain name must fit the one byte
/// that carries its length.
pub open spec fn address_encodable(a: AddressView) -> bool {
    match a {
        AddressView::Domain(name, _) => encode_utf8(name).len() <= 255,
        _ => true,
    }
}

/// The bytes of an address on the wire.
pub open spec fn encode_address(a: AddressView) -> Seq<u8> {
    match a {
        AddressView::Empty => seq![0xffu8],
        AddressView::Domain(name, port) => seq![0u8, encode_utf8(name).len() as u8] + encode_utf8(
            name,
        ) + be16_bytes(port),
        AddressView::IPv4(ip, port) => seq![1u8] + ip + be16_bytes(port),
        AddressView::IPv6(ip, port) => seq![2u8] + ip + be16_bytes(port),
    }
}

/// The number of bytes that an address takes on the wire.
pub open spec fn address_size(a: AddressView) -> nat {
    match a {
        AddressView::Empty => 1,
        AddressView::Domain(name, _) => 4 + encode_utf8(name).len(),
        AddressView::IPv4(_, _) => 7,
        AddressView::IPv6(_, _) => 19,
    }
}

/// What reading an address from the front of `bytes` gives.
pub enum AddressOutcome {
    /// The address's bytes are not all there yet.
    Incomplete,
    /// The bytes are no address; `consumed` of them were read.
    Invalid { error: ProtoErrorView, consumed: nat },
    /// An address, read from the first `consumed` bytes.
    Frame { address: AddressView, consumed: nat },
}

/// Reads an address from the front of `bytes`.
pub open spec fn decode_address_spec(bytes: Seq<u8>) -> AddressOutcome {
    if bytes.len() == 0 {
        AddressOutcome::Incomplete
    } else {
        match address_type_of(bytes[0]) {
            AddressType::Other(value) => AddressOutcome::Invalid {
                error: ProtoErrorView::UnknownAddressType { value },
                consumed: 0,
            },
            AddressType::Empty => AddressOutcome::Frame { address: AddressView::Empty, consumed: 1 },
            AddressType::IPv4 => if bytes.len() < 7 {
                AddressOutcome::Incomplete
            } else {
                AddressOutcome::Frame {
                    address: AddressView::IPv4(bytes.subrange(1, 5), be16(bytes[5], bytes[6])),
                    consumed: 7,
                }
            },
            AddressType::IPv6 => if bytes.len() < 19 {
                AddressOutcome::Incomplete
            } else {
                AddressOutcome::Frame {
                    address: AddressView::IPv6(bytes.subrange(1, 17), be16(bytes[17], bytes[18])),
                    consumed: 19,
                }
            },
            AddressType::Domain => if bytes.len() < 2 || bytes.len() < 2 + bytes[1] + 2 {
                AddressOutcome::Incomplete
            } else {
                let n = bytes[1] as int;
                let name = bytes.subrange(2, 2 + n);
                if valid_utf8(name) {
                    AddressOutcome::Frame {
                        address: AddressView::Domain(
                            decode_utf8(name),
                            be16(bytes[2 + n], bytes[3 + n]),
                        ),
                        consumed: (4 + n) as nat,
                    }
                } else {
                    AddressOutcome::Invalid {
                        error: ProtoErrorView::InvalidDomain { hex: hex_string(name) },
                        consumed: 2,
                    }
                }
            },
        }
    }
}

impl AddressCodec {
    /// Reads one address from the front of `src`.
    ///
    /// While the address's bytes are not all there, nothing is read and
    /// `Ok(None)` asks for more input.  An unknown type byte is reported and
    /// left in the buffer.  A domain name that is not UTF-8 is reported with
    /// its bytes in hexadecimal, after the type and length bytes were read.
    pub fn decode(&mut self, src: &mut BytesMut) -> (res: Result<Option<Address>, ProtoError>)
        ensures
            match decode_address_spec(buf_bytes(*old(src))) {
                AddressOutcome::Incomplete => res is Ok && res->Ok_0 is None && buf_bytes(
                    *final(src),
                ) == buf_bytes(*old(src)),
                AddressOutcome::Invalid { error, consumed } => res is Err && res->Err_0@ == error
                    && buf_bytes(*final(src)) == buf_bytes(*old(src)).skip(consumed as int),
                AddressOutcome::Frame { address, consumed } => res is Ok && res->Ok_0 is Some
                    && res->Ok_0->Some_0@ == address && buf_bytes(*final(src)) == buf_bytes(
                    *old(src),
                ).skip(consumed as int),
            },
    {
        let ghost bytes = buf_bytes(*src);
        if buf_len(src) == 0 {
            return Ok(None);
        }
        let addr_type = AddressType::from(buf_peek(src, 0));
        match addr_type {
            AddressType::Other(value) => {
                assert(bytes.skip(0) =~= bytes);
                Err(ProtoError::UnknownAddressType { value })
            },
            AddressType::Empty => {
                buf_advance(src, 1);
                Ok(Some(Address::Empty))
            },
            AddressType::IPv4 => {
                if buf_len(src) < 1 + 4 + 2 {
                    return Ok(None);
                }
                buf_advance(src, 1);
                let ip: [u8; 4] = buf_get_array::<4>(src);
                let port = buf_get_u16(src);
                proof {
                    assert(ip@ =~= bytes.subrange(1, 5));
                    assert(buf_bytes(*src) =~= bytes.skip(7));
                }
                Ok(Some(Address::IPv4(ip, port)))
            },
            AddressType::IPv6 => {
                if buf_len(src) < 1 + 16 + 2 {
                    return Ok(None);
                }
                buf_advance(src, 1);
                let ip: [u8; 16] = buf_get_array::<16>(src);
                let port = buf_get_u16(src);
                proof {
                    assert(ip@ =~= bytes.subrange(1, 17));
                    assert(buf_bytes(*src) =~= bytes.skip(19));
                }
                Ok(Some(Address::IPv6(ip, port)))
            },
            AddressType::Domain => {
                if buf_len(src) < 1 + 1 {
                    return Ok(None);
                }
                let domain_len = buf_peek(src, 1) as usize;
                if buf_len(src) < 1 + 1 + domain_len + 2 {
                    return Ok(None);
                }
                buf_advance(src, 2);
                let raw = buf_copy_range(src, 0, domain_len);
                assert(raw@ =~= bytes.subrange(2, 2 + domain_len));
                match utf8_text(raw.as_slice()) {
                    None => Err(ProtoError::InvalidDomain { hex: hex_encode(raw.as_slice()) }),
                    Some(text) => {
                        let domain = text.to_owned();
                        buf_advance(src, domain_len);
                        let port = buf_get_u16(src);
                        proof {
                            lemma_text_of_bytes(domain@, raw@);
                            assert(buf_bytes(*src) =~= bytes.skip(4 + domain_len));
                        }
                        Ok(Some(Address::Domain(domain, port)))
                    },
                }
            },
        }
    }

    /// Reads one address from the last input there will be: as `decode`, but
    /// input that ends before the address does is an error.
    pub fn decode_eof(&mut self, buf: &mut BytesMut) -> (res: Result<Option<Address>, ProtoError>)
        ensures
            match decode_address_spec(buf_bytes(*old(buf))) {
                AddressOutcome::Incomplete => res is Err && res->Err_0@
                    == ProtoErrorView::BytesRemaining && buf_bytes(*final(buf)) == buf_bytes(
                    *old(buf),
                ),
                AddressOutcome::Invalid { error, consumed } => res is Err && res->Err_0@ == error
                    && buf_bytes(*final(buf)) == buf_bytes(*old(buf)).skip(consumed as int),
                AddressOutcome::Frame { address, consumed } => res is Ok && res->Ok_0 is Some
                    && res->Ok_0->Some_0@ == address && buf_bytes(*final(buf)) == buf_bytes(
                    *old(buf),
                ).skip(consumed as int),
            },
    {
        match self.decode(buf) {
            Ok(None) => Err(ProtoError::BytesRemaining),
            v => v,
        }
    }

    /// Appends the bytes of `item` to `dst`.
    ///
    /// A domain name of more than 255 bytes cannot be written: it comes back
    /// in the error and `dst` stays as it was.
    pub fn encode(&mut self, item: Address, dst: &mut BytesMut) -> (res: Result<(), ProtoError>)
        ensures
            address_encodable(item@) ==> res is Ok && buf_bytes(*final(dst)) == buf_bytes(
                *old(dst),
            ) + encode_address(item@),
            !address_encodable(item@) ==> res is Err && res->Err_0@
                == (ProtoErrorView::DomainTooLong { domain: item@->Domain_0 }) && buf_bytes(
                *final(dst),
            ) == buf_bytes(*old(dst)),
    {
        let ghost before = buf_bytes(*dst);
        match item {
            Address::Empty => {
                buf_put_u8(dst, u8::from(AddressType::Empty));
                assert(buf_bytes(*dst) =~= before + encode_address(AddressView::Empty));
            },
            Address::IPv4(ip, port) => {
                buf_put_u8(dst, u8::from(AddressType::IPv4));
                buf_put_slice(dst, ip.as_slice());
                buf_put_u16(dst, port);
                assert(buf_bytes(*dst) =~= before + encode_address(AddressView::IPv4(ip@, port)));
            },
            Address::IPv6(ip, port) => {
                buf_put_u8(dst, u8::from(AddressType::IPv6));
                buf_put_slice(dst, ip.as_slice());
                buf_put_u16(dst, port);
                assert(buf_bytes(*dst) =~= before + encode_address(AddressView::IPv6(ip@, port)));
            },
            Address::Domain(domain, port) => {
                let name = domain.as_str().as_bytes();
                let len = name.len();
                if len > 255 {
                    return Err(ProtoError::DomainTooLong { domain });
                }
                buf_put_u8(dst, u8::from(AddressType::Domain));
                buf_put_u8(dst, len as u8);
                buf_put_slice(dst, name);
                buf_put_u16(dst, port);
                assert(buf_bytes(*dst) =~= before + encode_address(
                    AddressView::Domain(domain@, port),
                ));
            },
        }
        Ok(())
    }
}

/// An address that can be written has exactly the size that the size
/// formula gives.
pub proof fn lemma_address_size(a: Address)
    ensures
        encode_address(a@).len() == address_size(a@),
{
}

/// An address that can be written and is then read comes back unchanged,
/// with whatever follows it left in the buffer.
pub proof fn lemma_address_round_trip(a: Address, rest: Seq<u8>)
    requires
        address_encodable(a@),
    ensures
        decode_address_spec(encode_address(a@) + rest) == (AddressOutcome::Frame {
            address: a@,
            consumed: encode_address(a@).len(),
        }),
        (encode_address(a@) + rest).skip(encode_address(a@).len() as int) == rest,
{
    let e = encode_address(a@);
    let all = e + rest;
    assert(all.skip(e.len() as int) =~= rest);
    match a {
        Address::Empty => {},
        Address::IPv4(ip, port) => {
            lemma_be16_round_trip(port);
            assert(all.subrange(1, 5) =~= ip@);
        },
        Address::IPv6(ip, port) => {
            lemma_be16_round_trip(port);
            assert(all.subrange(1, 17) =~= ip@);
        },
        Address::Domain(name, port) => {
            lemma_be16_round_trip(port);
            let raw = encode_utf8(name@);
            let n = raw.len() as int;
            assert(all[1] == n);
            assert(all.subrange(2, 2 + n) =~= raw);
            lemma_text_of_bytes(name@, raw);
        },
    }
}

/// The reader asks for more input on every proper prefix of an address's
/// bytes.
pub proof fn lemma_address_streaming(a: Address, cut: int)
    requires
        address_encodable(a@),
        0 <= cut < encode_address(a@).len(),
    ensures
        decode_address_spec(encode_address(a@).take(cut)) is Incomplete,
{
}

} // verus!
