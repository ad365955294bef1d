//! UDP packets as the engine hands them to and takes them from a local
//! socket.

use vstd::prelude::*;
use vstd::slice::{slice_subrange, slice_to_vec};
use crate::proto::udp_stream::{fragment_count_spec, fragment_of, lemma_fragment_count};
use crate::types::{TargetAddr, TargetAddrView};

verus! {

/// One datagram with the place it goes to and, where known, the place it
/// came from.
#[derive(Debug, PartialEq, Eq)]
pub struct UdpPacket {
    pub source: Option<TargetAddr>,
    pub target: TargetAddr,
    pub payload: Vec<u8>,
}

/// The mathematical value of a [`UdpPacket`].
pub struct UdpPacketView {
    pub source: Option<TargetAddrView>,
    pub target: TargetAddrView,
    pub payload: Seq<u8>,
}

/// The value of an address that may be missing.
pub open spec fn opt_target_view(t: Option<TargetAddr>) -> Option<TargetAddrView> {
    match t {
        Some(a) => Some(a@),
        None => None,
    }
}

impl View for UdpPacket {
    type V = UdpPacketView;

    open spec fn view(&self) -> UdpPacketView {
        UdpPacketView {
            source: opt_target_view(self.source),
            target: self.target@,
            payload: self.payload@,
        }
    }
}

/// An IP address and port that a socket can send to.
#[derive(Debug, Clone, Copy, PartialEq, Eq)]
pub enum IpEndpoint {
    V4([u8; 4], u16),
    V6([u8; 16], u16),
}

/// A packet from the peer names a domain as its target, which a local
/// socket cannot send to.
#[derive(Debug, Clone, PartialEq, Eq)]
pub struct DomainTargetOnInbound {
    pub domain: String,
    pub port: u16,
}

/// Where a local socket sends a packet that came from the peer: to the IP
/// address and port of its target.  A packet for a domain name is refused.
pub fn local_destination(packet: &UdpPacket) -> (res: Result<IpEndpoint, DomainTargetOnInbound>)
    ensures
        match packet.target {
            TargetAddr::IPv4(ip, port) => res == Ok::<IpEndpoint, DomainTargetOnInbound>(
                IpEndpoint::V4(ip, port),
            ),
            TargetAddr::IPv6(ip, port) => res == Ok::<IpEndpoint, DomainTargetOnInbound>(
                IpEndpoint::V6(ip, port),
            ),
            TargetAddr::Domain(domain, port) => res is Err && res->Err_0.domain@ == domain@
                && res->Err_0.port == port,
        },
{
    match &packet.target {
        TargetAddr::IPv4(ip, port) => Ok(IpEndpoint::V4(*ip, *port)),
        TargetAddr::IPv6(ip, port) => Ok(IpEndpoint::V6(*ip, *port)),
        TargetAddr::Domain(domain, port) => Err(
            DomainTargetOnInbound { domain: domain.clone(), port: *port },
        ),
    }
}

/// Whether a receive of `len` bytes with segment size `stride` holds more
/// than one datagram.
pub open spec fn is_coalesced(len: nat, stride: nat) -> bool {
    stride > 0 && len > stride
}

/// The number of datagrams in a receive of `len` bytes with segment size
/// `stride`.
pub open spec fn segment_count(len: nat, stride: nat) -> nat {
    if is_coalesced(len, stride) {
        fragment_count_spec(len, stride)
    } else {
        1
    }
}

/// The `i`-th datagram in the first `len` bytes of a receive buffer with
/// segment size `stride`: datagrams begin every `stride` bytes, and the last
/// may be shorter.
pub open spec fn segment_of(buf: Seq<u8>, len: nat, stride: nat, i: nat) -> Seq<u8> {
    if is_coalesced(len, stride) {
        fragment_of(buf.take(len as int), stride, i)
    } else {
        buf.take(len as int)
    }
}

/// The packets in one receive from a local socket.
///
/// `buf` is the receive buffer, `len` the number of bytes received and
/// `stride` the segment size that the socket reports.  A receive that was
/// coalesced holds several datagrams, which become one packet each, all for
/// `target`; any other receive is one packet.
pub fn split_segments(buf: &[u8], len: usize, stride: usize, target: &TargetAddr) -> (packets: Vec<
    UdpPacket,
>)
    requires
        len <= buf@.len(),
    ensures
        packets@.len() == segment_count(len as nat, stride as nat),
        forall|i: int|
            0 <= i < packets@.len() ==> (#[trigger] packets@[i])@ == (UdpPacketView {
                source: None,
                target: target@,
                payload: segment_of(buf@, len as nat, stride as nat, i as nat),
            }),
{
    let mut packets: Vec<UdpPacket> = Vec::new();
    if stride > 0 && len > stride {
        proof {
            lemma_fragment_count(len as nat, stride as nat);
        }
        let whole = len / stride;
        let count = if len % stride == 0 {
            whole
        } else {
            whole + 1
        };
        let mut i: usize = 0;
        while i < count
            invariant
                i <= count,
                stride > 0,
                len > stride,
                len <= buf@.len(),
                count == fragment_count_spec(len as nat, stride as nat),
                (count - 1) * stride < len,
                packets@.len() == i,
                forall|k: int|
                    0 <= k < i ==> (#[trigger] packets@[k])@ == (UdpPacketView {
                        source: None,
                        target: target@,
                        payload: segment_of(buf@, len as nat, stride as nat, k as nat),
                    }),
            decreases count - i,
        {
            assert(i * stride <= (count - 1) * stride) by (nonlinear_arith)
                requires
                    i <= count - 1,
                    stride > 0,
            ;
            assert((i + 1) * stride == i * stride + stride) by (nonlinear_arith);
            let start = i * stride;
            let end = if len - start >= stride {
                start + stride
            } else {
                len
            };
            let payload = slice_to_vec(slice_subrange(buf, start, end));
            assert(payload@ =~= fragment_of(buf@.take(len as int), stride as nat, i as nat));
            packets.push(UdpPacket { source: None, target: target.clone(), payload });
            i += 1;
        }
    } else {
        let payload = slice_to_vec(slice_subrange(buf, 0, len));
        assert(payload@ =~= buf@.take(len as int));
        packets.push(UdpPacket { source: None, target: target.clone(), payload });
    }
    packets
}

/// Remembers how to wait until a socket can be written to, and the wait
/// that is under way.
pub struct UdpPollHelper<MakeFut, Fut> {
    pub make_fut: MakeFut,
    pub fut: Option<Fut>,
}

impl<MakeFut, Fut> UdpPollHelper<MakeFut, Fut> {
    /// A helper that makes its waits with `make_fut` and is not waiting
    /// yet.
    pub fn new(make_fut: MakeFut) -> (helper: Self)
        ensures
            helper.make_fut == make_fut,
            helper.fut is None,
    {
        UdpPollHelper { make_fut, fut: None }
    }
}

} // verus!
