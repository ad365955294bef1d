//! Reading a target from text of the form `host:port` or `[host]:port`.
//!
//! What is read here is the shape of the text and the port.  Whether a host
//! is an IPv4 or an IPv6 address is for the caller to say, who knows the
//! operating system's reading of such text.

use vstd::prelude::*;
use vstd::string::StringSliceAdditionalSpecFns;
use vstd::utf8::{
    decode_utf8, encode_utf8, encode_utf8_valid_utf8, is_char_boundary,
    is_char_boundary_iff_not_is_continuation_byte, is_char_boundary_start_end_of_seq,
    pop_first_scalar, valid_first_scalar, valid_utf8, valid_utf8_split,
};
use crate::text::lemma_text_of_bytes;
use crate::types::{TargetAddr, TargetAddrView};

verus! {

/// Why a text names no target.
#[derive(Debug, Clone, Copy, PartialEq, Eq, Structural)]
pub enum AddrParseError {
    /// The text opens a bracket and does not close it.
    MissingBracket,
    /// No colon and port follow the closing bracket.
    MissingPort,
    /// The host in brackets is no IPv6 address.
    InvalidIpv6,
    /// The port is no number from 0 to 65535.
    InvalidPort,
    /// The text is not a host and a port with one colon between them.
    InvalidFormat,
}

/// The parts of a text that has the shape of a target.
#[derive(Debug, Clone, PartialEq, Eq)]
pub struct HostPort {
    /// Whether the host stood in square brackets.
    pub bracketed: bool,
    pub host: String,
    pub port: String,
}

/// The mathematical value of a [`HostPort`]: the host and the port as
/// their UTF-8 bytes.
pub struct HostPortView {
    pub bracketed: bool,
    pub host: Seq<u8>,
    pub port: Seq<u8>,
}

impl View for HostPort {
    type V = HostPortView;

    open spec fn view(&self) -> HostPortView {
        HostPortView {
            bracketed: self.bracketed,
            host: encode_utf8(self.host@),
            port: encode_utf8(self.port@),
        }
    }
}

/// The position of the first `b` in `text`, or the length of `text` where
/// it holds none.
pub open spec fn first_index(text: Seq<u8>, b: u8) -> int
    decreases text.len(),
{
    if text.len() == 0 || text[0] == b {
        0
    } else {
        1 + first_index(text.skip(1), b)
    }
}

/// The first index is within the text, no `b` stands before it, and one
/// stands at it where it is short of the end.
pub proof fn lemma_first_index(text: Seq<u8>, b: u8)
    ensures
        0 <= first_index(text, b) <= text.len(),
        forall|k: int| 0 <= k < first_index(text, b) ==> text[k] != b,
        first_index(text, b) < text.len() ==> text[first_index(text, b)] == b,
    decreases text.len(),
{
    if !(text.len() == 0 || text[0] == b) {
        lemma_first_index(text.skip(1), b);
        assert forall|k: int| 0 <= k < first_index(text, b) implies text[k] != b by {
            if k > 0 {
                assert(text.skip(1)[k - 1] == text[k]);
            }
        }
    }
}

/// The parts of a text of the shape `[host]:port` or `host:port`.
///
/// In the first shape the host ends at the first `]`, which a colon must
/// follow; the rest is the port.  In the second the text holds exactly one
/// colon, which parts host and port.
pub open spec fn split_host_port_spec(text: Seq<u8>) -> Result<HostPortView, AddrParseError> {
    if text.len() > 0 && text[0] == 0x5b {
        let end = first_index(text, 0x5d);
        if end >= text.len() {
            Err(AddrParseError::MissingBracket)
        } else if end + 1 >= text.len() || text[end + 1] != 0x3a {
            Err(AddrParseError::MissingPort)
        } else {
            Ok(
                HostPortView {
                    bracketed: true,
                    host: text.subrange(1, end),
                    port: text.subrange(end + 2, text.len() as int),
                },
            )
        }
    } else {
        let colon = first_index(text, 0x3a);
        if colon >= text.len() || first_index(text.skip(colon + 1), 0x3a) < text.len() - colon
            - 1 {
            Err(AddrParseError::InvalidFormat)
        } else {
            Ok(
                HostPortView {
                    bracketed: false,
                    host: text.subrange(0, colon),
                    port: text.subrange(colon + 1, text.len() as int),
                },
            )
        }
    }
}

/// The position of the first `b` at or after `from`, or the length of
/// `text`.
fn find_byte(text: &[u8], from: usize, b: u8) -> (at: usize)
    requires
        from <= text@.len(),
    ensures
        at == from + first_index(text@.skip(from as int), b),
        from <= at <= text@.len(),
        at < text@.len() ==> text@[at as int] == b,
{
    let mut i = from;
    proof {
        lemma_first_index(text@.skip(from as int), b);
    }
    while i < text.len() && text[i] != b
        invariant
            from <= i <= text@.len(),
            first_index(text@.skip(from as int), b) == (i - from) + first_index(
                text@.skip(i as int),
                b,
            ),
        decreases text@.len() - i,
    {
        assert(text@.skip(i as int)[0] == text@[i as int]);
        assert(text@.skip(i as int).skip(1) =~= text@.skip(i + 1));
        i += 1;
    }
    proof {
        if i < text.len() {
            assert(text@.skip(i as int)[0] == text@[i as int]);
        }
    }
    i
}

/// The part of `text` from byte `from` up to byte `to`, where both are
/// places at which a character begins.
fn slice_text(text: &str, from: usize, to: usize) -> (part: &str)
    requires
        from <= to <= text.spec_bytes().len(),
        is_char_boundary(text.spec_bytes(), from as int),
        is_char_boundary(text.spec_bytes(), to as int),
    ensures
        part.spec_bytes() == text.spec_bytes().subrange(from as int, to as int),
{
    let ghost all = text.spec_bytes();
    let (head, _) = text.split_at(to);
    proof {
        encode_utf8_valid_utf8(text@);
        encode_utf8_valid_utf8(head@);
        let h = head.spec_bytes();
        assert(h =~= all.subrange(0, to as int));
        if from == 0 {
            is_char_boundary_start_end_of_seq(h);
        } else if from == to {
            is_char_boundary_start_end_of_seq(h);
        } else {
            is_char_boundary_iff_not_is_continuation_byte(all, from as int);
            assert(h[from as int] == all[from as int]);
            is_char_boundary_iff_not_is_continuation_byte(h, from as int);
        }
    }
    let (_, part) = head.split_at(from);
    assert(part.spec_bytes() =~= all.subrange(from as int, to as int));
    part
}

/// The place behind an ASCII byte in valid UTF-8 is a place at which a
/// character begins.
proof fn lemma_after_ascii(text: Seq<u8>, at: int)
    requires
        valid_utf8(text),
        0 <= at < text.len(),
        text[at] < 0x80,
    ensures
        is_char_boundary(text, at),
        is_char_boundary(text, at + 1),
{
    is_char_boundary_iff_not_is_continuation_byte(text, at);
    valid_utf8_split(text, at);
    let tail = text.subrange(at, text.len() as int);
    assert(tail[0] == text[at]);
    assert(valid_first_scalar(tail) && valid_utf8(pop_first_scalar(tail)));
    let rest = pop_first_scalar(tail);
    assert(rest =~= text.subrange(at + 1, text.len() as int));
    if at + 1 < text.len() {
        assert(valid_first_scalar(rest));
        assert(rest[0] == text[at + 1]);
        is_char_boundary_iff_not_is_continuation_byte(text, at + 1);
    } else {
        is_char_boundary_start_end_of_seq(text);
    }
}

/// Parts a text of the shape `[host]:port` or `host:port` into host and
/// port.
pub fn split_host_port(text: &str) -> (res: Result<HostPort, AddrParseError>)
    ensures
        match split_host_port_spec(text.spec_bytes()) {
            Ok(parts) => res is Ok && res->Ok_0@ == parts,
            Err(error) => res == Err::<HostPort, AddrParseError>(error),
        },
{
    let bytes = text.as_bytes();
    let ghost all = text.spec_bytes();
    let len = bytes.len();
    proof {
        encode_utf8_valid_utf8(text@);
        assert(all.skip(0) =~= all);
        is_char_boundary_start_end_of_seq(all);
    }
    if len > 0 && bytes[0] == 0x5b {
        let end = find_byte(bytes, 0, 0x5d);
        if end >= len {
            return Err(AddrParseError::MissingBracket);
        }
        if end + 1 >= len || bytes[end + 1] != 0x3a {
            return Err(AddrParseError::MissingPort);
        }
        proof {
            lemma_after_ascii(all, 0);
            lemma_after_ascii(all, end as int);
            lemma_after_ascii(all, end + 1);
        }
        let host = slice_text(text, 1, end);
        let port = slice_text(text, end + 2, len);
        Ok(HostPort { bracketed: true, host: host.to_owned(), port: port.to_owned() })
    } else {
        let colon = find_byte(bytes, 0, 0x3a);
        if colon >= len {
            return Err(AddrParseError::InvalidFormat);
        }
        let second = find_byte(bytes, colon + 1, 0x3a);
        if second < len {
            return Err(AddrParseError::InvalidFormat);
        }
        proof {
            lemma_after_ascii(all, colon as int);
        }
        let host = slice_text(text, 0, colon);
        let port = slice_text(text, colon + 1, len);
        Ok(HostPort { bracketed: false, host: host.to_owned(), port: port.to_owned() })
    }
}

/// Whether every byte is a decimal digit.
pub open spec fn all_digits(text: Seq<u8>) -> bool {
    forall|i: int| 0 <= i < text.len() ==> 0x30 <= #[trigger] text[i] <= 0x39
}

/// The number that decimal digits spell.
pub open spec fn number(digits: Seq<u8>) -> nat
    decreases digits.len(),
{
    if digits.len() == 0 {
        0
    } else {
        number(digits.drop_last()) * 10 + (digits.last() - 0x30) as nat
    }
}

/// The port that a text spells: one or more decimal digits, with or
/// without a plus sign before them, that make a number up to 65535.
pub open spec fn port_of_text(text: Seq<u8>) -> Option<u16> {
    let digits = if text.len() > 0 && text[0] == 0x2b {
        text.skip(1)
    } else {
        text
    };
    if digits.len() == 0 || !all_digits(digits) || number(digits) > 0xffff {
        None
    } else {
        Some(number(digits) as u16)
    }
}

/// More digits make no smaller number.
proof fn lemma_number_grows(digits: Seq<u8>, k: int)
    requires
        all_digits(digits),
        0 <= k <= digits.len(),
    ensures
        number(digits.take(k)) <= number(digits),
    decreases digits.len() - k,
{
    if k < digits.len() {
        lemma_number_grows(digits, k + 1);
        assert(digits.take(k + 1).drop_last() =~= digits.take(k));
        assert(0x30 <= digits[k] <= 0x39);
        assert(digits.take(k + 1).last() == digits[k]);
    } else {
        assert(digits.take(k) =~= digits);
    }
}

/// Reads a port: one or more decimal digits, with or without a plus sign
/// before them, that make a number up to 65535.
pub fn parse_port(text: &str) -> (port: Option<u16>)
    ensures
        port == port_of_text(text.spec_bytes()),
{
    let bytes = text.as_bytes();
    let start: usize = if bytes.len() > 0 && bytes[0] == 0x2b {
        1
    } else {
        0
    };
    let ghost digits = bytes@.skip(start as int);
    proof {
        assert(bytes@.skip(0) =~= bytes@);
    }
    if bytes.len() == start {
        return None;
    }
    let mut value: u32 = 0;
    let mut i: usize = start;
    assert(digits.take(0) =~= Seq::<u8>::empty());
    while i < bytes.len()
        invariant
            start <= i <= bytes@.len(),
            digits == bytes@.skip(start as int),
            digits.len() > 0,
            digits == (if text.spec_bytes().len() > 0 && text.spec_bytes()[0] == 0x2b {
                text.spec_bytes().skip(1)
            } else {
                text.spec_bytes()
            }),
            all_digits(digits.take(i - start)),
            value == number(digits.take(i - start)),
            value <= 0xffff,
        decreases bytes@.len() - i,
    {
        let b = bytes[i];
        let ghost next = digits.take(i - start + 1);
        proof {
            assert(next.drop_last() =~= digits.take(i - start));
            assert(next.last() == b);
            assert(digits[i - start] == b);
        }
        if b < 0x30 || b > 0x39 {
            assert(!all_digits(digits));
            return None;
        }
        value = value * 10 + (b - 0x30) as u32;
        assert(value == number(next));
        proof {
            assert forall|k: int| 0 <= k < next.len() implies 0x30 <= #[trigger] next[k]
                <= 0x39 by {
                if k < i - start {
                    assert(digits.take(i - start)[k] == next[k]);
                }
            }
        }
        if value > 0xffff {
            proof {
                if all_digits(digits) {
                    lemma_number_grows(digits, i - start + 1);
                }
            }
            return None;
        }
        i += 1;
    }
    assert(digits.take(i - start) =~= digits);
    Some(value as u16)
}

/// The target that the parts of a text name.
///
/// `ipv4` and `ipv6` are the host read as an IPv4 and as an IPv6 address,
/// `None` where it is none.  A host in brackets must be an IPv6 address.
/// Any other host that is no IPv4 address is taken for a domain name.
pub open spec fn target_from_parts_spec(
    parts: HostPortView,
    ipv4: Option<Seq<u8>>,
    ipv6: Option<Seq<u8>>,
) -> Result<TargetAddrView, AddrParseError> {
    if parts.bracketed {
        match ipv6 {
            None => Err(AddrParseError::InvalidIpv6),
            Some(ip) => match port_of_text(parts.port) {
                None => Err(AddrParseError::InvalidPort),
                Some(port) => Ok(TargetAddrView::IPv6(ip, port)),
            },
        }
    } else {
        match port_of_text(parts.port) {
            None => Err(AddrParseError::InvalidPort),
            Some(port) => match ipv4 {
                Some(ip) => Ok(TargetAddrView::IPv4(ip, port)),
                None => Ok(TargetAddrView::Domain(decode_utf8(parts.host), port)),
            },
        }
    }
}

/// The value of octets that may be missing.
pub open spec fn opt_octets<const N: usize>(ip: Option<[u8; N]>) -> Option<Seq<u8>> {
    match ip {
        Some(octets) => Some(octets@),
        None => None,
    }
}

/// Makes a target of the parts of a text and of what the host is as an
/// IPv4 and as an IPv6 address.
pub fn target_from_parts(parts: HostPort, ipv4: Option<[u8; 4]>, ipv6: Option<[u8; 16]>) -> (res:
    Result<TargetAddr, AddrParseError>)
    ensures
        match target_from_parts_spec(parts@, opt_octets(ipv4), opt_octets(ipv6)) {
            Ok(target) => res is Ok && res->Ok_0@ == target,
            Err(error) => res == Err::<TargetAddr, AddrParseError>(error),
        },
{
    let HostPort { bracketed, host, port } = parts;
    if bracketed {
        let ip = match ipv6 {
            Some(ip) => ip,
            None => {
                return Err(AddrParseError::InvalidIpv6);
            },
};
        match parse_port(port.as_str()) {
            Some(port) => Ok(TargetAddr::IPv6(ip, port)),
            None => Err(AddrParseError::InvalidPort),
        }
    } else {
        let port = match parse_port(port.as_str()) {
            Some(port) => port,
            None => {
                return Err(AddrParseError::InvalidPort);
            },
};
        match ipv4 {
            Some(ip) => Ok(TargetAddr::IPv4(ip, port)),
            None => {
                proof {
                    lemma_text_of_bytes(host@, encode_utf8(host@));
                }
                Ok(TargetAddr::Domain(host, port))
            },
        }
    }
}

} // verus!
