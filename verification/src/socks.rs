//! What the SOCKS5 side of the proxy decides: who may connect.

use vstd::prelude::*;
use vstd::slice::slice_subrange;
use crate::buf::be16;
use crate::text::{utf8_lossy, utf8_text_lossy};
use crate::types::{TargetAddr, TargetAddrView};

verus! {

/// How clients of the SOCKS5 listener prove who they are.
#[derive(Debug, Clone, PartialEq, Eq)]
pub enum AuthMode {
    /// Anybody may connect.
    NoAuth,
    /// Only who gives this name and password.
    Password { username: String, password: String },
}

/// The mathematical value of an [`AuthMode`].
pub enum AuthModeView {
    NoAuth,
    Password { username: Seq<char>, password: Seq<char> },
}

impl View for AuthMode {
    type V = AuthModeView;

    open spec fn view(&self) -> AuthModeView {
        match *self {
            AuthMode::NoAuth => AuthModeView::NoAuth,
            AuthMode::Password { username, password } => AuthModeView::Password {
                username: username@,
                password: password@,
            },
        }
    }
}

impl AuthMode {
    /// Whether a client that gives `user` and `pass` may connect.
    pub fn accepts(&self, user: &String, pass: &String) -> (ok: bool)
        ensures
            ok == match self@ {
                AuthModeView::NoAuth => true,
                AuthModeView::Password { username, password } => user@ == username && pass@
                    == password,
            },
    {
        match self {
            AuthMode::NoAuth => true,
            AuthMode::Password { username, password } => *user == *username && *pass == *password,
        }
    }
}

/// Why the bytes of a datagram are no SOCKS5 UDP request.
#[derive(Debug, Clone, Copy, PartialEq, Eq, Structural)]
pub enum UdpHeaderError {
    /// Fewer than the four bytes that every header has.
    TooShort,
    /// The two reserved bytes are not zero.
    InvalidReserved,
    /// The datagram ends inside an IPv4 address or its port.
    IncompleteIpv4,
    /// The datagram ends before the length of a domain name.
    IncompleteDomainLength,
    /// The datagram ends inside a domain name or its port.
    IncompleteDomain,
    /// The datagram ends inside an IPv6 address or its port.
    IncompleteIpv6,
    /// The address type is none of IPv4, domain name and IPv6.
    UnsupportedAddressType { atyp: u8 },
}

/// The header of a SOCKS5 UDP request: the fragment number, where the
/// datagram is to go, and the position at which its payload begins.
#[derive(Debug, PartialEq, Eq)]
pub struct UdpRequest {
    pub frag: u8,
    pub target: TargetAddr,
    pub payload_offset: usize,
}

/// The mathematical value of a [`UdpRequest`].
pub struct UdpRequestView {
    pub frag: u8,
    pub target: TargetAddrView,
    pub payload_offset: nat,
}

impl View for UdpRequest {
    type V = UdpRequestView;

    open spec fn view(&self) -> UdpRequestView {
        UdpRequestView {
            frag: self.frag,
            target: self.target@,
            payload_offset: self.payload_offset as nat,
        }
    }
}

/// The header that `data` begins with: two reserved zero bytes, the
/// fragment number, the address type, then an IPv4 address (type 1), a
/// domain name with its length before it (type 3) or an IPv6 address
/// (type 4), and the port, most significant byte first.  A domain name that
/// is not UTF-8 is read with replacement characters.
pub open spec fn parse_udp_request_spec(data: Seq<u8>) -> Result<UdpRequestView, UdpHeaderError> {
    if data.len() < 4 {
        Err(UdpHeaderError::TooShort)
    } else if data[0] != 0 || data[1] != 0 {
        Err(UdpHeaderError::InvalidReserved)
    } else if data[3] == 1 {
        if data.len() < 10 {
            Err(UdpHeaderError::IncompleteIpv4)
        } else {
            Ok(
                UdpRequestView {
                    frag: data[2],
                    target: TargetAddrView::IPv4(data.subrange(4, 8), be16(data[8], data[9])),
                    payload_offset: 10,
                },
            )
        }
    } else if data[3] == 3 {
        if data.len() < 5 {
            Err(UdpHeaderError::IncompleteDomainLength)
        } else if data.len() < 5 + data[4] + 2 {
            Err(UdpHeaderError::IncompleteDomain)
        } else {
            let n = data[4] as int;
            Ok(
                UdpRequestView {
                    frag: data[2],
                    target: TargetAddrView::Domain(
                        utf8_lossy(data.subrange(5, 5 + n)),
                        be16(data[5 + n], data[6 + n]),
                    ),
                    payload_offset: (7 + n) as nat,
                },
            )
        }
    } else if data[3] == 4 {
        if data.len() < 22 {
            Err(UdpHeaderError::IncompleteIpv6)
        } else {
            Ok(
                UdpRequestView {
                    frag: data[2],
                    target: TargetAddrView::IPv6(data.subrange(4, 20), be16(data[20], data[21])),
                    payload_offset: 22,
                },
            )
        }
    } else {
        Err(UdpHeaderError::UnsupportedAddressType { atyp: data[3] })
    }
}

/// The 16-bit number that two bytes spell, most significant first.
fn read_be16(hi: u8, lo: u8) -> (v: u16)
    ensures
        v == be16(hi, lo),
{
    (hi as u16) * 256 + lo as u16
}

/// Reads the header of a SOCKS5 UDP request from the front of a datagram.
pub fn parse_udp_request(data: &[u8]) -> (res: Result<UdpRequest, UdpHeaderError>)
    ensures
        match parse_udp_request_spec(data@) {
            Ok(request) => res is Ok && res->Ok_0@ == request && request.payload_offset
                <= data@.len(),
            Err(error) => res == Err::<UdpRequest, UdpHeaderError>(error),
        },
{
    if data.len() < 4 {
        return Err(UdpHeaderError::TooShort);
    }
    if data[0] != 0x00 || data[1] != 0x00 {
        return Err(UdpHeaderError::InvalidReserved);
    }
    let frag = data[2];
    let atyp = data[3];
    if atyp == 0x01 {
        if data.len() < 4 + 6 {
            return Err(UdpHeaderError::IncompleteIpv4);
        }
        let ip: [u8; 4] = [data[4], data[5], data[6], data[7]];
        assert(ip@ =~= data@.subrange(4, 8));
        let port = read_be16(data[8], data[9]);
        Ok(UdpRequest { frag, target: TargetAddr::IPv4(ip, port), payload_offset: 10 })
    } else if atyp == 0x03 {
        if data.len() < 4 + 1 {
            return Err(UdpHeaderError::IncompleteDomainLength);
        }
        let domain_len = data[4] as usize;
        if data.len() < 5 + domain_len + 2 {
            return Err(UdpHeaderError::IncompleteDomain);
        }
        let domain = utf8_text_lossy(slice_subrange(data, 5, 5 + domain_len));
        let port = read_be16(data[5 + domain_len], data[6 + domain_len]);
        Ok(
            UdpRequest {
                frag,
                target: TargetAddr::Domain(domain, port),
                payload_offset: 7 + domain_len,
            },
        )
    } else if atyp == 0x04 {
        if data.len() < 4 + 18 {
            return Err(UdpHeaderError::IncompleteIpv6);
        }
        let mut ip: [u8; 16] = [0; 16];
        let mut i: usize = 0;
        while i < 16
            invariant
                i <= 16,
                data@.len() >= 22,
                forall|k: int| 0 <= k < i ==> ip@[k] == data@[4 + k],
            decreases 16 - i,
        {
            ip[i] = data[4 + i];
            i += 1;
        }
        assert(ip@ =~= data@.subrange(4, 20));
        let port = read_be16(data[20], data[21]);
        Ok(UdpRequest { frag, target: TargetAddr::IPv6(ip, port), payload_offset: 22 })
    } else {
        Err(UdpHeaderError::UnsupportedAddressType { atyp })
    }
}

/// Which bytes of a received datagram go on to the engine, and for where.
#[derive(Debug, PartialEq, Eq)]
pub struct Unwrapped {
    /// Where the bytes begin in the datagram.
    pub offset: usize,
    /// How many they are.
    pub len: usize,
    /// Where the datagram is to go, if its header said so.
    pub destination: Option<TargetAddr>,
}

/// The mathematical value of an [`Unwrapped`].
pub struct UnwrappedView {
    pub offset: nat,
    pub len: nat,
    pub destination: Option<TargetAddrView>,
}

impl View for Unwrapped {
    type V = UnwrappedView;

    open spec fn view(&self) -> UnwrappedView {
        UnwrappedView {
            offset: self.offset as nat,
            len: self.len as nat,
            destination: match self.destination {
                Some(t) => Some(t@),
                None => None,
            },
        }
    }
}

/// The smaller of two lengths.
pub open spec fn at_most(len: int, room: int) -> nat {
    if len <= room {
        len as nat
    } else {
        room as nat
    }
}

/// What of a datagram from a SOCKS5 client is passed on, into a buffer
/// with room for `room` bytes: the payload behind the header and the
/// header's target, or, where the datagram has no header that can be read,
/// all of it and no target.  What does not fit is cut off.
pub open spec fn unwrap_datagram_spec(data: Seq<u8>, room: nat) -> UnwrappedView {
    match parse_udp_request_spec(data) {
        Ok(request) => UnwrappedView {
            offset: request.payload_offset,
            len: at_most(data.len() - request.payload_offset, room as int),
            destination: Some(request.target),
        },
        Err(_) => UnwrappedView {
            offset: 0,
            len: at_most(data.len() as int, room as int),
            destination: None,
        },
    }
}

/// Says which bytes of a datagram from a SOCKS5 client are passed on into a
/// buffer with room for `room` bytes, and for where.
pub fn unwrap_datagram(data: &[u8], room: usize) -> (res: Unwrapped)
    ensures
        res@ == unwrap_datagram_spec(data@, room as nat),
        res.offset + res.len <= data@.len(),
        res.len <= room,
{
    match parse_udp_request(data) {
        Ok(request) => {
            let rest = data.len() - request.payload_offset;
            let len = if rest <= room {
                rest
            } else {
                room
            };
            Unwrapped {
                offset: request.payload_offset,
                len,
                destination: Some(request.target),
            }
        },
        Err(_) => {
            let len = if data.len() <= room {
                data.len()
            } else {
                room
            };
            Unwrapped { offset: 0, len, destination: None }
        },
    }
}

} // verus!
