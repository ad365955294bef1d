//! The sending half of a UDP association: one packet becomes one datagram,
//! or several fragments where it does not fit.

use vstd::prelude::*;
use vstd::slice::slice_subrange;
use bytes::BytesMut;
use crate::buf::{buf_bytes, buf_put_slice};
use crate::proto::addr::{
    address_encodable, address_of_target, address_size, Address, AddressView,
};
use crate::proto::cmd::{Command, CommandView};
use crate::proto::error::{ProtoError, ProtoErrorView};
use crate::proto::header::CmdType;
use crate::proto::reassembly::{
    add_fragment_spec, buffer_wf, opt_packet_view, retain_fresh, FragmentInfo,
    FragmentInfoView, FragmentMetadataView, FragmentReassemblyBuffer,
};
use crate::proto::{dissociate_frame, encode_frame, frame_bytes, target_address};
use crate::types::{TargetAddr, TargetAddrView};
use crate::udp::{opt_target_view, UdpPacket};

verus! {

/// The most fragments that one packet can be cut into.
pub const MAX_FRAGMENTS: u8 = 255;

/// The datagram size that is assumed while the connection has not said
/// what it can carry.
pub const DEFAULT_MAX_DATAGRAM_SIZE: usize = 1200;

/// The bytes of a header and a Packet command together.
pub const PACKET_HEAD_SIZE: usize = 10;

/// The number of bytes that the address of a target takes on the wire.
pub open spec fn addr_size(target: TargetAddrView) -> nat {
    address_size(address_of_target(target))
}

/// The bytes that stand before the payload in the first datagram of a
/// packet: header, Packet command and address.
pub open spec fn header_overhead(target: TargetAddrView) -> nat {
    PACKET_HEAD_SIZE as nat + addr_size(target)
}

/// The payload bytes that fit into one fragment: what the datagram size
/// leaves after the overhead, and nothing where it leaves less than nothing.
pub open spec fn max_fragment_size_spec(max_datagram_size: nat, overhead: nat) -> nat {
    if max_datagram_size >= overhead {
        (max_datagram_size - overhead) as nat
    } else {
        0
    }
}

/// The number of fragments of at most `size` bytes that `len` bytes make:
/// `len / size`, rounded up.
pub open spec fn fragment_count_spec(len: nat, size: nat) -> nat
    recommends
        size > 0,
{
    ((len + size - 1) / (size as int)) as nat
}

/// The `i`-th fragment of a payload cut into pieces of `size` bytes.
pub open spec fn fragment_of(payload: Seq<u8>, size: nat, i: nat) -> Seq<u8> {
    let len = payload.len() as int;
    let start = if i * size <= len {
        (i * size) as int
    } else {
        len
    };
    let end = if (i + 1) * size <= len {
        ((i + 1) * size) as int
    } else {
        len
    };
    payload.subrange(start, end)
}

/// The bytes of one datagram that carries a Packet command, an address and
/// payload bytes.
pub open spec fn packet_datagram(
    assoc_id: u16,
    pkt_id: u16,
    frag_total: u8,
    frag_id: u8,
    address: AddressView,
    data: Seq<u8>,
) -> Seq<u8> {
    frame_bytes(
        CmdType::Packet,
        CommandView::Packet { assoc_id, pkt_id, frag_total, frag_id, size: data.len() as u16 },
        Some(address),
    ) + data
}

/// The address that fragment `i` of a packet carries: the target in the
/// first, the empty address in the others.
pub open spec fn fragment_address(target: TargetAddrView, i: nat) -> AddressView {
    if i == 0 {
        address_of_target(target)
    } else {
        AddressView::Empty
    }
}

/// How a packet is sent.
pub enum SendPlan {
    /// Not at all: the target's domain name cannot be written.
    DomainTooLong,
    /// Not at all: it would take more than 255 fragments, or no payload
    /// byte fits beside the overhead, or a piece is longer than the 16-bit
    /// size field can say.
    TooLarge,
    /// As one datagram.
    Single,
    /// As `count` fragments of `size` bytes, the last one perhaps shorter.
    Fragmented { count: nat, size: nat },
}

/// How a payload of `len` bytes for `target` is sent over a connection that
/// carries datagrams of `max_datagram_size` bytes.
pub open spec fn send_plan(target: TargetAddrView, len: nat, max_datagram_size: nat) -> SendPlan {
    if !address_encodable(address_of_target(target)) {
        SendPlan::DomainTooLong
    } else {
        let overhead = header_overhead(target);
        let size = max_fragment_size_spec(max_datagram_size, overhead);
        if len + overhead <= max_datagram_size {
            if len > 0xffff {
                SendPlan::TooLarge
            } else {
                SendPlan::Single
            }
        } else if size == 0 || size > 0xffff || fragment_count_spec(len, size) > 255 {
            SendPlan::TooLarge
        } else {
            SendPlan::Fragmented { count: fragment_count_spec(len, size), size }
        }
    }
}

/// The datagram size to plan with: what the connection reports, or the
/// default where it reports nothing.
pub open spec fn effective_datagram_size(reported: Option<usize>) -> nat {
    match reported {
        Some(n) => n as nat,
        None => DEFAULT_MAX_DATAGRAM_SIZE as nat,
    }
}

/// Whether `datagrams` are what `plan` sends of the packet: the one
/// datagram that holds it whole, or its fragments in the order of their
/// numbers, all under the packet identifier `pkt_id`.
pub open spec fn datagrams_carry(
    datagrams: Seq<BytesMut>,
    plan: SendPlan,
    assoc_id: u16,
    pkt_id: u16,
    target: TargetAddrView,
    payload: Seq<u8>,
) -> bool {
    match plan {
        SendPlan::Single => datagrams.len() == 1 && buf_bytes(datagrams[0]) == packet_datagram(
            assoc_id,
            pkt_id,
            1,
            0,
            address_of_target(target),
            payload,
        ),
        SendPlan::Fragmented { count, size } => datagrams.len() == count && forall|i: int|
            0 <= i < count ==> buf_bytes(#[trigger] datagrams[i]) == fragment_datagram(
                assoc_id,
                pkt_id,
                count,
                i as nat,
                target,
                payload,
                size,
            ),
        _ => false,
    }
}

/// The packet identifier that follows `id`: one more, and 0 after 65535.
pub open spec fn next_id(id: u16) -> u16 {
    if id == 0xffff {
        0
    } else {
        (id + 1) as u16
    }
}

/// The number of bytes that the address of `target` takes on the wire.
/// A domain name of more than 255 bytes has no wire form.
pub fn address_wire_size(target: &TargetAddr) -> (res: Result<usize, ProtoError>)
    ensures
        address_encodable(address_of_target(target@)) ==> res is Ok && res->Ok_0 == addr_size(
            target@,
        ),
        !address_encodable(address_of_target(target@)) ==> res is Err && res->Err_0@
            == (ProtoErrorView::DomainTooLong { domain: target@->Domain_0 }),
{
    match target {
        TargetAddr::IPv4(_, _) => Ok(1 + 4 + 2),
        TargetAddr::IPv6(_, _) => Ok(1 + 16 + 2),
        TargetAddr::Domain(domain, _) => {
            let domain_len = domain.as_str().as_bytes().len();
            if domain_len > 255 {
                return Err(ProtoError::DomainTooLong { domain: domain.clone() });
            }
            Ok(1 + 1 + domain_len + 2)
        },
    }
}

/// The payload bytes that fit into one fragment. Never underflows: a
/// datagram size below the overhead leaves room for nothing.
pub fn max_fragment_size(max_datagram_size: usize, header_overhead: usize) -> (size: usize)
    ensures
        size == max_fragment_size_spec(max_datagram_size as nat, header_overhead as nat),
{
    max_datagram_size.saturating_sub(header_overhead)
}

/// The number of fragments that a payload of `payload_len` bytes makes, or
/// `None` where a fragment can hold no byte.
pub fn fragment_count(payload_len: usize, max_fragment_size: usize) -> (count: Option<usize>)
    ensures
        max_fragment_size == 0 ==> count is None,
        max_fragment_size > 0 ==> count == Some(
            fragment_count_spec(payload_len as nat, max_fragment_size as nat) as usize,
        ) && fragment_count_spec(payload_len as nat, max_fragment_size as nat) <= payload_len,
{
    if max_fragment_size == 0 {
        return None;
    }
    let whole = payload_len / max_fragment_size;
    let part = payload_len % max_fragment_size;
    proof {
        lemma_fragment_count(payload_len as nat, max_fragment_size as nat);
    }
    if part == 0 {
        Some(whole)
    } else {
        Some(whole + 1)
    }
}

/// Rounding up a division: the count is the quotient, and one more where
/// there is a remainder.
pub proof fn lemma_fragment_count(len: nat, size: nat)
    requires
        size > 0,
    ensures
        fragment_count_spec(len, size) == len / size + if len % size == 0 {
            0nat
        } else {
            1nat
        },
        fragment_count_spec(len, size) <= len,
        fragment_count_spec(len, size) * size >= len,
        len > 0 ==> (fragment_count_spec(len, size) - 1) * size < len,
        len == 0 ==> fragment_count_spec(len, size) == 0,
{
    let q = len / size;
    let r = len % size;
    assert(len == q * size + r) by (nonlinear_arith)
        requires
            q == len / size,
            r == len % size,
            size > 0,
    ;
    if r == 0 {
        assert((q * size + size - 1) / (size as int) == q) by (nonlinear_arith)
            requires
                size > 0,
                q >= 0,
        ;
    } else {
        assert((q * size + r + size - 1) / (size as int) == q + 1) by (nonlinear_arith)
            requires
                size > 0,
                q >= 0,
                0 < r < size,
        ;
    }
    assert(q * size >= q) by (nonlinear_arith)
        requires
            size >= 1,
            q >= 0,
    ;
    assert((q + 1) * size == q * size + size) by (nonlinear_arith);
    assert((q - 1) * size == q * size - size) by (nonlinear_arith);
}

/// A packet that is sent in fragments takes as many as its length divided
/// by the room of one fragment, rounded up: at least two, at most 255, each
/// with as many payload bytes as the datagram size leaves beside the
/// overhead.
pub proof fn lemma_fragmented_plan(target: TargetAddrView, len: nat, max_datagram_size: nat)
    requires
        send_plan(target, len, max_datagram_size) is Fragmented,
    ensures
        ({
            let count = send_plan(target, len, max_datagram_size)->count;
            let size = send_plan(target, len, max_datagram_size)->size;
            &&& size == max_datagram_size - header_overhead(target)
            &&& 0 < size <= 0xffff
            &&& count == fragment_count_spec(len, size)
            &&& (count - 1) * size < len <= count * size
            &&& 2 <= count <= 255
        }),
{
    let size = max_fragment_size_spec(max_datagram_size, header_overhead(target));
    lemma_fragment_count(len, size);
    let count = fragment_count_spec(len, size);
    if count <= 1 {
        assert(count * size <= size) by (nonlinear_arith)
            requires
                count <= 1,
                size > 0,
        ;
    }
}

/// The datagram of fragment `i` of a payload cut into `total` pieces of
/// `size` bytes.
pub open spec fn fragment_datagram(
    assoc_id: u16,
    pkt_id: u16,
    total: nat,
    i: nat,
    target: TargetAddrView,
    payload: Seq<u8>,
    size: nat,
) -> Seq<u8> {
    packet_datagram(
        assoc_id,
        pkt_id,
        total as u8,
        i as u8,
        fragment_address(target, i),
        fragment_of(payload, size, i),
    )
}

/// One datagram: a Packet command with the given fields, the address, and
/// the payload bytes.
fn packet_frame_of(
    assoc_id: u16,
    pkt_id: u16,
    frag_total: u8,
    frag_id: u8,
    address: Address,
    data: &[u8],
) -> (buf: BytesMut)
    requires
        address_encodable(address@),
        data@.len() <= 0xffff,
    ensures
        buf_bytes(buf) == packet_datagram(assoc_id, pkt_id, frag_total, frag_id, address@, data@),
{
    let command = Command::Packet { assoc_id, pkt_id, frag_total, frag_id, size: data.len() as u16 };
    let ghost a = address@;
    let ghost c = command@;
    let mut buf = frame_head_with(command, address);
    buf_put_slice(&mut buf, data);
    buf
}

/// A Packet command and an address that can be written, in a fresh buffer.
fn frame_head_with(command: Command, address: Address) -> (buf: BytesMut)
    requires
        address_encodable(address@),
    ensures
        buf_bytes(buf) == frame_bytes(CmdType::Packet, command@, Some(address@)),
{
    let ghost a = address@;
    let ghost c = command@;
    let res = encode_frame(CmdType::Packet, command, Some(address));
    assert(res is Ok);
    res.unwrap()
}

/// One datagram that carries a whole packet or one fragment of it.
///
/// Fails with `DomainTooLong` on an address that cannot be written, and
/// with `PacketTooLarge` on more payload bytes than the 16-bit size field
/// can say.
pub fn packet_frame(
    assoc_id: u16,
    pkt_id: u16,
    frag_total: u8,
    frag_id: u8,
    address: Address,
    data: &[u8],
) -> (res: Result<BytesMut, ProtoError>)
    ensures
        !address_encodable(address@) ==> res is Err && res->Err_0@
            == (ProtoErrorView::DomainTooLong { domain: address@->Domain_0 }),
        address_encodable(address@) && data@.len() > 0xffff ==> res is Err && res->Err_0@
            == ProtoErrorView::PacketTooLarge,
        address_encodable(address@) && data@.len() <= 0xffff ==> res is Ok && buf_bytes(res->Ok_0)
            == packet_datagram(assoc_id, pkt_id, frag_total, frag_id, address@, data@),
{
    if let Address::Domain(name, _) = &address {
        if name.as_str().as_bytes().len() > 255 {
            return Err(ProtoError::DomainTooLong { domain: name.clone() });
        }
    }
    if data.len() > 0xffff {
        return Err(ProtoError::PacketTooLarge);
    }
    Ok(packet_frame_of(assoc_id, pkt_id, frag_total, frag_id, address, data))
}

/// The sending and receiving state of one UDP association.
pub struct UdpStream {
    assoc_id: u16,
    next_pkt_id: u16,
    fragment_buffer: FragmentReassemblyBuffer,
}

/// The mathematical value of a [`UdpStream`].
pub struct UdpStreamView {
    /// The association that the stream belongs to.
    pub assoc_id: u16,
    /// The identifier that the next packet sent will carry.
    pub next_pkt_id: u16,
    /// The unfinished packets of the receiving side.
    pub pending: Seq<FragmentMetadataView>,
}

impl View for UdpStream {
    type V = UdpStreamView;

    closed spec fn view(&self) -> UdpStreamView {
        UdpStreamView {
            assoc_id: self.assoc_id,
            next_pkt_id: self.next_pkt_id,
            pending: self.fragment_buffer@,
        }
    }
}

impl UdpStream {
    /// The invariant of the stream: that of its reassembly buffer.
    pub open spec fn wf(&self) -> bool {
        buffer_wf(self@.pending)
    }

    /// The stream of association `assoc_id`, with nothing sent and nothing
    /// received yet.
    pub fn new(assoc_id: u16) -> (stream: UdpStream)
        ensures
            stream.wf(),
            stream@.assoc_id == assoc_id,
            stream@.next_pkt_id == 0,
            stream@.pending == Seq::<FragmentMetadataView>::empty(),
    {
        UdpStream { assoc_id, next_pkt_id: 0, fragment_buffer: FragmentReassemblyBuffer::new() }
    }

    /// The association that the stream belongs to.
    pub fn assoc_id(&self) -> (id: u16)
        ensures
            id == self@.assoc_id,
    {
        self.assoc_id
    }

    /// The identifier that the next packet sent will carry.
    pub fn next_pkt_id(&self) -> (id: u16)
        ensures
            id == self@.next_pkt_id,
    {
        self.next_pkt_id
    }

    /// The datagrams that carry `packet` to the peer, in the order in which
    /// they are to be sent.
    ///
    /// `max_datagram_size` is what the connection reports that one datagram
    /// can hold; without a report 1200 bytes are assumed.  A packet that fits
    /// goes out as one datagram, any other as fragments that all carry the
    /// same packet identifier.  Every packet sent uses up one identifier; a
    /// packet that cannot be sent uses none.
    pub fn send_packet(&mut self, packet: UdpPacket, max_datagram_size: Option<usize>) -> (res:
        Result<Vec<BytesMut>, ProtoError>)
        ensures
            final(self)@.assoc_id == old(self)@.assoc_id,
            final(self)@.pending == old(self)@.pending,
            match send_plan(
                packet.target@,
                packet.payload@.len(),
                effective_datagram_size(max_datagram_size),
            ) {
                SendPlan::DomainTooLong => res is Err && res->Err_0@
                    == (ProtoErrorView::DomainTooLong { domain: packet.target@->Domain_0 })
                    && final(self)@.next_pkt_id == old(self)@.next_pkt_id,
                SendPlan::TooLarge => res is Err && res->Err_0@ == ProtoErrorView::PacketTooLarge
                    && final(self)@.next_pkt_id == old(self)@.next_pkt_id,
                plan => res is Ok && datagrams_carry(
                    res->Ok_0@,
                    plan,
                    old(self)@.assoc_id,
                    old(self)@.next_pkt_id,
                    packet.target@,
                    packet.payload@,
                ) && final(self)@.next_pkt_id == next_id(old(self)@.next_pkt_id),
            },
    {
        let payload_len = packet.payload.len();
        let addr_size = address_wire_size(&packet.target)?;
        let header_overhead = PACKET_HEAD_SIZE + addr_size;
        let max_datagram_size = match max_datagram_size {
            Some(n) => n,
            None => DEFAULT_MAX_DATAGRAM_SIZE,
};
        if header_overhead <= max_datagram_size && payload_len <= max_datagram_size
            - header_overhead {
            if payload_len > 0xffff {
                return Err(ProtoError::PacketTooLarge);
            }
            let frame = packet_frame_of(
                self.assoc_id,
                self.next_pkt_id,
                1,
                0,
                target_address(&packet.target),
                packet.payload.as_slice(),
            );
            self.next_pkt_id = self.next_pkt_id.wrapping_add(1);
            let mut out: Vec<BytesMut> = Vec::new();
            out.push(frame);
            return Ok(out);
        }
        self.send_fragmented_packet(packet, max_datagram_size, header_overhead)
    }

    /// The fragments of a packet that does not fit into one datagram.
    fn send_fragmented_packet(
        &mut self,
        packet: UdpPacket,
        max_datagram_size: usize,
        header_overhead: usize,
    ) -> (res: Result<Vec<BytesMut>, ProtoError>)
        requires
            address_encodable(address_of_target(packet.target@)),
            header_overhead == self::header_overhead(packet.target@),
            packet.payload@.len() + header_overhead > max_datagram_size,
        ensures
            final(self)@.assoc_id == old(self)@.assoc_id,
            final(self)@.pending == old(self)@.pending,
            match send_plan(packet.target@, packet.payload@.len(), max_datagram_size as nat) {
                SendPlan::Fragmented { count, size } => res is Ok && datagrams_carry(
                    res->Ok_0@,
                    SendPlan::Fragmented { count, size },
                    old(self)@.assoc_id,
                    old(self)@.next_pkt_id,
                    packet.target@,
                    packet.payload@,
                ) && final(self)@.next_pkt_id == next_id(old(self)@.next_pkt_id),
                _ => res is Err && res->Err_0@ == ProtoErrorView::PacketTooLarge
                    && final(self)@.next_pkt_id == old(self)@.next_pkt_id,
            },
    {
        let payload_len = packet.payload.len();
        let size = max_fragment_size(max_datagram_size, header_overhead);
        let count = match fragment_count(payload_len, size) {
            Some(count) => count,
            None => {
                return Err(ProtoError::PacketTooLarge);
            },
};
        if count > MAX_FRAGMENTS as usize || size > 0xffff {
            return Err(ProtoError::PacketTooLarge);
        }
        let pkt_id = self.next_pkt_id;
        self.next_pkt_id = self.next_pkt_id.wrapping_add(1);
        let frag_total = count as u8;
        let mut out: Vec<BytesMut> = Vec::new();
        let mut frag_id: usize = 0;
        proof {
            lemma_fragment_count(payload_len as nat, size as nat);
        }
        while frag_id < count
            invariant
                frag_id <= count <= 255,
                0 < size <= 0xffff,
                payload_len == packet.payload@.len(),
                count == fragment_count_spec(payload_len as nat, size as nat),
                payload_len > 0 ==> (count - 1) * size < payload_len,
                payload_len == 0 ==> count == 0,
                frag_total == count,
                address_encodable(address_of_target(packet.target@)),
                out@.len() == frag_id,
                forall|i: int|
                    0 <= i < frag_id ==> buf_bytes(#[trigger] out@[i]) == fragment_datagram(
                        self.assoc_id,
                        pkt_id,
                        count as nat,
                        i as nat,
                        packet.target@,
                        packet.payload@,
                        size as nat,
                    ),
            decreases count - frag_id,
        {
            assert(frag_id * size <= (count - 1) * size) by (nonlinear_arith)
                requires
                    frag_id <= count - 1,
                    size > 0,
            ;
            let start = frag_id * size;
            let end = if payload_len - start >= size {
                start + size
            } else {
                payload_len
            };
            assert((frag_id + 1) * size == frag_id * size + size) by (nonlinear_arith);
            let piece = slice_subrange(packet.payload.as_slice(), start, end);
            assert(piece@ == fragment_of(packet.payload@, size as nat, frag_id as nat));
            let address = if frag_id == 0 {
                target_address(&packet.target)
            } else {
                Address::Empty
            };
            let frame = packet_frame_of(
                self.assoc_id,
                pkt_id,
                frag_total,
                frag_id as u8,
                address,
                piece,
            );
            out.push(frame);
            frag_id += 1;
        }
        Ok(out)
    }

    /// Takes in one fragment of a packet from the peer that arrived at time
    /// `now`, and returns the packet once it is whole.
    pub fn process_fragment(
        &mut self,
        assoc_id: u16,
        pkt_id: u16,
        frag_total: u8,
        frag_id: u8,
        payload: Vec<u8>,
        source: Option<TargetAddr>,
        target: TargetAddr,
        now: u64,
    ) -> (res: Option<UdpPacket>)
        ensures
            final(self).wf(),
            final(self)@.assoc_id == old(self)@.assoc_id,
            final(self)@.next_pkt_id == old(self)@.next_pkt_id,
            final(self)@.pending == add_fragment_spec(
                old(self)@.pending,
                FragmentInfoView {
                    assoc_id,
                    pkt_id,
                    frag_total,
                    frag_id,
                    source: opt_target_view(source),
                    target: target@,
                },
                payload@,
                now,
            ).buffer,
            opt_packet_view(res) == add_fragment_spec(
                old(self)@.pending,
                FragmentInfoView {
                    assoc_id,
                    pkt_id,
                    frag_total,
                    frag_id,
                    source: opt_target_view(source),
                    target: target@,
                },
                payload@,
                now,
            ).packet,
    {
        self.fragment_buffer.add_fragment(
            FragmentInfo { assoc_id, pkt_id, frag_total, frag_id, source, target },
            payload,
            now,
        )
    }

    /// Forgets the unfinished packets that have waited too long at time
    /// `now`.
    pub fn collect_garbage(&mut self, now: u64)
        ensures
            final(self).wf(),
            final(self)@.assoc_id == old(self)@.assoc_id,
            final(self)@.next_pkt_id == old(self)@.next_pkt_id,
            final(self)@.pending == retain_fresh(old(self)@.pending, now),
    {
        self.fragment_buffer.cleanup_expired(now)
    }

    /// The frame that tells the peer that the association is over.
    pub fn close(&mut self) -> (frame: BytesMut)
        ensures
            *final(self) == *old(self),
            buf_bytes(frame) == frame_bytes(
                CmdType::Dissociate,
                CommandView::Dissociate { assoc_id: old(self)@.assoc_id },
                None,
            ),
    {
        dissociate_frame(self.assoc_id)
    }
}

} // verus!
