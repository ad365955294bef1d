//! Reassembly of fragmented packets.
//!
//! Fragments of one packet share an association and a packet identifier.
//! The buffer keeps what has arrived of each packet until all of it is
//! there, the packet turns out to be malformed, or it has waited too long.

use vstd::prelude::*;
use crate::types::{TargetAddr, TargetAddrView};
use crate::udp::{opt_target_view, UdpPacket, UdpPacketView};

verus! {

/// How long an unfinished packet is kept after its last fragment arrived,
/// in milliseconds.
pub const FRAGMENT_TIMEOUT_MS: u64 = 30000;

/// The most unfinished packets that the buffer keeps at a time.
pub const FRAGMENT_BUFFER_CAPACITY: usize = 1000;

/// What a Packet command says of the fragment it comes with.
#[derive(Debug)]
pub struct FragmentInfo {
    pub assoc_id: u16,
    pub pkt_id: u16,
    pub frag_total: u8,
    pub frag_id: u8,
    pub source: Option<TargetAddr>,
    pub target: TargetAddr,
}

/// The mathematical value of a [`FragmentInfo`].
pub struct FragmentInfoView {
    pub assoc_id: u16,
    pub pkt_id: u16,
    pub frag_total: u8,
    pub frag_id: u8,
    pub source: Option<TargetAddrView>,
    pub target: TargetAddrView,
}

impl View for FragmentInfo {
    type V = FragmentInfoView;

    open spec fn view(&self) -> FragmentInfoView {
        FragmentInfoView {
            assoc_id: self.assoc_id,
            pkt_id: self.pkt_id,
            frag_total: self.frag_total,
            frag_id: self.frag_id,
            source: opt_target_view(self.source),
            target: self.target@,
        }
    }
}

/// What has arrived of one packet.
pub struct FragmentMetadata {
    assoc_id: u16,
    pkt_id: u16,
    frag_total: u8,
    fragments: Vec<Option<Vec<u8>>>,
    last_updated: u64,
    source: Option<TargetAddr>,
    target: TargetAddr,
}

/// The mathematical value of a [`FragmentMetadata`]: `fragments` has one
/// place for each fragment of the packet, filled where it has arrived.
pub struct FragmentMetadataView {
    pub assoc_id: u16,
    pub pkt_id: u16,
    pub frag_total: u8,
    pub fragments: Seq<Option<Seq<u8>>>,
    pub last_updated: u64,
    pub source: Option<TargetAddrView>,
    pub target: TargetAddrView,
}

/// The value of a fragment that may be missing.
pub open spec fn fragment_view(f: Option<Vec<u8>>) -> Option<Seq<u8>> {
    match f {
        Some(bytes) => Some(bytes@),
        None => None,
    }
}

/// The values of a packet's fragments, place by place.
pub open spec fn fragments_view(fs: Seq<Option<Vec<u8>>>) -> Seq<Option<Seq<u8>>> {
    Seq::new(fs.len(), |i: int| fragment_view(fs[i]))
}

impl View for FragmentMetadata {
    type V = FragmentMetadataView;

    closed spec fn view(&self) -> FragmentMetadataView {
        FragmentMetadataView {
            assoc_id: self.assoc_id,
            pkt_id: self.pkt_id,
            frag_total: self.frag_total,
            fragments: fragments_view(self.fragments@),
            last_updated: self.last_updated,
            source: opt_target_view(self.source),
            target: self.target@,
        }
    }
}

/// The unfinished packets of one association, at most
/// [`FRAGMENT_BUFFER_CAPACITY`] of them, no two with the same identifiers.
pub struct FragmentReassemblyBuffer {
    entries: Vec<FragmentMetadata>,
}

/// The values of the entries of a buffer, in their order.
pub closed spec fn entries_view(entries: Seq<FragmentMetadata>) -> Seq<FragmentMetadataView> {
    Seq::new(entries.len(), |i: int| entries[i]@)
}

impl View for FragmentReassemblyBuffer {
    type V = Seq<FragmentMetadataView>;

    closed spec fn view(&self) -> Seq<FragmentMetadataView> {
        entries_view(self.entries@)
    }
}

/// Whether a target is the stand-in that a fragment without an address is
/// given: the IPv4 address 0.0.0.0 with port 0.
pub open spec fn is_placeholder(t: TargetAddrView) -> bool {
    match t {
        TargetAddrView::IPv4(ip, port) => port == 0 && ip.len() == 4 && ip[0] == 0 && ip[1] == 0
            && ip[2] == 0 && ip[3] == 0,
        _ => false,
    }
}

/// Whether an entry is the one for the packet `pkt_id` of `assoc_id`.
pub open spec fn has_key(e: FragmentMetadataView, assoc_id: u16, pkt_id: u16) -> bool {
    e.assoc_id == assoc_id && e.pkt_id == pkt_id
}

/// Whether the buffer holds an entry for the packet.
pub open spec fn contains_key(buf: Seq<FragmentMetadataView>, assoc_id: u16, pkt_id: u16) -> bool {
    exists|i: int| 0 <= i < buf.len() && has_key(#[trigger] buf[i], assoc_id, pkt_id)
}

/// The place of the packet's entry in a buffer that holds one.
pub open spec fn index_of(buf: Seq<FragmentMetadataView>, assoc_id: u16, pkt_id: u16) -> int {
    choose|i: int| 0 <= i < buf.len() && has_key(#[trigger] buf[i], assoc_id, pkt_id)
}

/// No two entries are for the same packet.
pub open spec fn keys_distinct(buf: Seq<FragmentMetadataView>) -> bool {
    forall|i: int, j: int|
        0 <= i < j < buf.len() ==> !has_key(#[trigger] buf[i], (#[trigger] buf[j]).assoc_id, buf[j].pkt_id)
}

/// An entry is for a packet of at least two fragments and has one place for
/// each of them.
pub open spec fn entry_wf(e: FragmentMetadataView) -> bool {
    e.frag_total >= 2 && e.fragments.len() == e.frag_total
}

/// The invariant of the buffer.
pub open spec fn buffer_wf(buf: Seq<FragmentMetadataView>) -> bool {
    &&& buf.len() <= FRAGMENT_BUFFER_CAPACITY
    &&& forall|i: int| 0 <= i < buf.len() ==> entry_wf(#[trigger] buf[i])
    &&& keys_distinct(buf)
}

/// Whether an entry has waited too long at time `now`.
pub open spec fn expired(e: FragmentMetadataView, now: u64) -> bool {
    now >= e.last_updated && now - e.last_updated >= FRAGMENT_TIMEOUT_MS
}

/// The buffer without the entries that have waited too long, the others in
/// their order.
pub open spec fn retain_fresh(buf: Seq<FragmentMetadataView>, now: u64) -> Seq<
    FragmentMetadataView,
>
    decreases buf.len(),
{
    if buf.len() == 0 {
        buf
    } else if expired(buf.last(), now) {
        retain_fresh(buf.drop_last(), now)
    } else {
        retain_fresh(buf.drop_last(), now).push(buf.last())
    }
}

/// Whether every fragment has arrived.
pub open spec fn all_present(fragments: Seq<Option<Seq<u8>>>) -> bool {
    forall|i: int| 0 <= i < fragments.len() ==> (#[trigger] fragments[i]) is Some
}

/// The fragments that have arrived, one after the other in the order of
/// their places.
pub open spec fn join_fragments(fragments: Seq<Option<Seq<u8>>>) -> Seq<u8>
    decreases fragments.len(),
{
    if fragments.len() == 0 {
        Seq::empty()
    } else {
        join_fragments(fragments.drop_last()) + match fragments.last() {
            Some(bytes) => bytes,
            None => Seq::empty(),
        }
    }
}

/// The places of a packet of `total` fragments of which only fragment `id`
/// has arrived.
pub open spec fn first_fragment(total: nat, id: nat, payload: Seq<u8>) -> Seq<Option<Seq<u8>>> {
    Seq::new(
        total,
        |i: int|
            if i == id {
                Some(payload)
            } else {
                None
            },
    )
}

/// The buffer after a fragment arrived, and the packet that it completed.
pub struct AddOutcome {
    pub buffer: Seq<FragmentMetadataView>,
    pub packet: Option<UdpPacketView>,
}

/// An entry after one more fragment of its packet arrived at time `now`.
/// A fragment that arrives again replaces the earlier one.  The target is
/// taken from fragment 0 where that carries a real address.
pub open spec fn entry_with(
    e: FragmentMetadataView,
    info: FragmentInfoView,
    payload: Seq<u8>,
    now: u64,
) -> FragmentMetadataView {
    FragmentMetadataView {
        assoc_id: e.assoc_id,
        pkt_id: e.pkt_id,
        frag_total: e.frag_total,
        fragments: e.fragments.update(info.frag_id as int, Some(payload)),
        last_updated: now,
        source: e.source,
        target: if info.frag_id == 0 && !is_placeholder(info.target) {
            info.target
        } else {
            e.target
        },
    }
}

/// The entry that the first fragment to arrive of a packet makes.
pub open spec fn entry_new(info: FragmentInfoView, payload: Seq<u8>, now: u64) -> FragmentMetadataView {
    FragmentMetadataView {
        assoc_id: info.assoc_id,
        pkt_id: info.pkt_id,
        frag_total: info.frag_total,
        fragments: first_fragment(info.frag_total as nat, info.frag_id as nat, payload),
        last_updated: now,
        source: info.source,
        target: info.target,
    }
}

/// What the arrival of one fragment at time `now` does.
///
/// A packet of one fragment is complete at once and never enters the buffer.
/// A fragment whose number is not below its total, or whose total differs
/// from that of the fragments before it, is dropped together with what was
/// kept of its packet.  The fragment that fills the last place completes the
/// packet, which leaves the buffer.  A fragment of a new packet that finds
/// the buffer full makes room by removing what has waited too long, and is
/// dropped where that frees nothing.
pub open spec fn add_fragment_spec(
    buf: Seq<FragmentMetadataView>,
    info: FragmentInfoView,
    payload: Seq<u8>,
    now: u64,
) -> AddOutcome {
    if info.frag_total == 1 {
        AddOutcome {
            buffer: buf,
            packet: if info.frag_id == 0 {
                Some(UdpPacketView { source: info.source, target: info.target, payload })
            } else {
                None
            },
        }
    } else if contains_key(buf, info.assoc_id, info.pkt_id) {
        let i = index_of(buf, info.assoc_id, info.pkt_id);
        let e = buf[i];
        if info.frag_total != e.frag_total || info.frag_id >= e.frag_total {
            AddOutcome { buffer: buf.remove(i), packet: None }
        } else {
            let updated = entry_with(e, info, payload, now);
            if all_present(updated.fragments) {
                AddOutcome {
                    buffer: buf.remove(i),
                    packet: Some(
                        UdpPacketView {
                            source: updated.source,
                            target: updated.target,
                            payload: join_fragments(updated.fragments),
                        },
                    ),
                }
            } else {
                AddOutcome { buffer: buf.update(i, updated), packet: None }
            }
        }
    } else if info.frag_id >= info.frag_total {
        AddOutcome { buffer: buf, packet: None }
    } else {
        let room = if buf.len() >= FRAGMENT_BUFFER_CAPACITY {
            retain_fresh(buf, now)
        } else {
            buf
        };
        if room.len() >= FRAGMENT_BUFFER_CAPACITY {
            AddOutcome { buffer: room, packet: None }
        } else {
            AddOutcome { buffer: room.push(entry_new(info, payload, now)), packet: None }
        }
    }
}

/// The value of a packet that may be missing.
pub open spec fn opt_packet_view(p: Option<UdpPacket>) -> Option<UdpPacketView> {
    match p {
        Some(packet) => Some(packet@),
        None => None,
    }
}

/// The target that stands in for the address of a fragment that carries
/// none.
pub fn placeholder_target() -> (t: TargetAddr)
    ensures
        is_placeholder(t@),
        t@ == TargetAddrView::IPv4(seq![0u8, 0u8, 0u8, 0u8], 0),
{
    let ip: [u8; 4] = [0, 0, 0, 0];
    assert(ip@ =~= seq![0u8, 0u8, 0u8, 0u8]);
    TargetAddr::IPv4(ip, 0)
}

/// Whether `target` is the stand-in of [`placeholder_target`].
pub fn is_placeholder_target(target: &TargetAddr) -> (b: bool)
    ensures
        b == is_placeholder(target@),
{
    match target {
        TargetAddr::IPv4(ip, port) => *port == 0 && ip[0] == 0 && ip[1] == 0 && ip[2] == 0 && ip[3]
            == 0,
        _ => false,
    }
}

/// Appends the bytes of `src` to `out`.
fn append_bytes(out: &mut Vec<u8>, src: &Vec<u8>)
    ensures
        final(out)@ == old(out)@ + src@,
{
    let mut i: usize = 0;
    while i < src.len()
        invariant
            i <= src.len(),
            out@ == old(out)@ + src@.take(i as int),
        decreases src.len() - i,
    {
        out.push(src[i]);
        i += 1;
        assert(out@ =~= old(out)@ + src@.take(i as int));
    }
    assert(src@.take(src.len() as int) =~= src@);
}

/// Whether every fragment has arrived.
fn fragments_complete(fragments: &Vec<Option<Vec<u8>>>) -> (b: bool)
    ensures
        b == all_present(fragments_view(fragments@)),
{
    let mut i: usize = 0;
    while i < fragments.len()
        invariant
            i <= fragments.len(),
            forall|k: int| 0 <= k < i ==> (#[trigger] fragments_view(fragments@)[k]) is Some,
        decreases fragments.len() - i,
    {
        if fragments[i].is_none() {
            assert(fragments_view(fragments@)[i as int] is None);
            return false;
        }
        i += 1;
    }
    true
}

/// The fragments that have arrived, one after the other.
fn join(fragments: &Vec<Option<Vec<u8>>>) -> (out: Vec<u8>)
    ensures
        out@ == join_fragments(fragments_view(fragments@)),
{
    let ghost all = fragments_view(fragments@);
    let mut out: Vec<u8> = Vec::new();
    let mut i: usize = 0;
    while i < fragments.len()
        invariant
            i <= fragments.len(),
            all == fragments_view(fragments@),
            out@ == join_fragments(all.take(i as int)),
        decreases fragments.len() - i,
    {
        proof {
            assert(all.take(i + 1).drop_last() =~= all.take(i as int));
            assert(all.take(i + 1).last() == all[i as int]);
        }
        match &fragments[i] {
            Some(bytes) => {
                append_bytes(&mut out, bytes);
            },
            None => {
                assert(out@ + Seq::<u8>::empty() =~= out@);
            },
        }
        i += 1;
    }
    assert(all.take(fragments.len() as int) =~= all);
    out
}

/// The place of the entry for the packet, if the buffer holds one.
fn find_entry(entries: &Vec<FragmentMetadata>, assoc_id: u16, pkt_id: u16) -> (res: Option<usize>)
    requires
        buffer_wf(entries_view(entries@)),
    ensures
        res is Some <==> contains_key(entries_view(entries@), assoc_id, pkt_id),
        res is Some ==> res->Some_0 == index_of(entries_view(entries@), assoc_id, pkt_id),
{
    let mut i: usize = 0;
    while i < entries.len()
        invariant
            i <= entries.len(),
            buffer_wf(entries_view(entries@)),
            forall|k: int| 0 <= k < i ==> !has_key(#[trigger] entries_view(entries@)[k], assoc_id, pkt_id),
        decreases entries.len() - i,
    {
        if entries[i].assoc_id == assoc_id && entries[i].pkt_id == pkt_id {
            assert(has_key(entries_view(entries@)[i as int], assoc_id, pkt_id));
            let ghost j = index_of(entries_view(entries@), assoc_id, pkt_id);
            assert(has_key(entries_view(entries@)[j], assoc_id, pkt_id));
            assert(j == i);
            return Some(i);
        }
        i += 1;
    }
    None
}


/// Takes one fragment into the entries of a buffer.
fn add_to(entries: &mut Vec<FragmentMetadata>, info: FragmentInfo, payload: Vec<u8>, now: u64) -> (res:
    Option<UdpPacket>)
    requires
        buffer_wf(entries_view(old(entries)@)),
    ensures
        buffer_wf(entries_view(final(entries)@)),
        entries_view(final(entries)@) == add_fragment_spec(entries_view(old(entries)@), info@, payload@, now).buffer,
        opt_packet_view(res) == add_fragment_spec(entries_view(old(entries)@), info@, payload@, now).packet,
{
    let ghost before = entries_view(entries@);
    let ghost info_view = info@;
    let FragmentInfo { assoc_id, pkt_id, frag_total, frag_id, source, target } = info;
    if frag_total == 1 {
        if frag_id == 0 {
            return Some(UdpPacket { source, target, payload });
        }
        return None;
    }
    match find_entry(entries, assoc_id, pkt_id) {
        Some(idx) => {
            let mut meta = entries.remove(idx);
            assert(entries_view(entries@) =~= before.remove(idx as int));
            proof {
                lemma_remove_keeps_wf(before, idx as int);
            }
            let ghost e = before[idx as int];
            assert(meta@ == e);
            if meta.frag_total != frag_total || frag_id >= meta.frag_total {
                return None;
            }
            let ghost updated = entry_with(e, info_view, payload@, now);
            if frag_id == 0 && !is_placeholder_target(&target) {
                meta.target = target;
            }
            meta.last_updated = now;
            let ghost old_fragments = meta.fragments@;
            meta.fragments[frag_id as usize] = Some(payload);
            assert(fragments_view(meta.fragments@) =~= fragments_view(old_fragments).update(
                frag_id as int,
                Some(payload@),
            ));
            assert(meta@ == updated);
            if fragments_complete(&meta.fragments) {
                let joined = join(&meta.fragments);
                return Some(
                    UdpPacket { source: meta.source, target: meta.target, payload: joined },
                );
            }
            entries.insert(idx, meta);
            assert(entries_view(entries@) =~= before.update(idx as int, updated));
            proof {
                lemma_update_keeps_wf(before, idx as int, updated);
            }
            None
        },
        None => {
            if frag_id >= frag_total {
                return None;
            }
            if entries.len() >= FRAGMENT_BUFFER_CAPACITY {
                cleanup_in(entries, now);
                if entries.len() >= FRAGMENT_BUFFER_CAPACITY {
                    return None;
                }
            }
            let ghost room = entries_view(entries@);
            proof {
                if before.len() >= FRAGMENT_BUFFER_CAPACITY {
                    lemma_retain_fresh_subset(before, now);
                }
                assert(!contains_key(room, assoc_id, pkt_id));
            }
            let mut fragments: Vec<Option<Vec<u8>>> = Vec::new();
            let mut i: u8 = 0;
            while i < frag_total
                invariant
                    i <= frag_total,
                    fragments@.len() == i,
                    forall|k: int| 0 <= k < i ==> (#[trigger] fragments@[k]) is None,
                decreases frag_total - i,
            {
                fragments.push(None);
                i += 1;
            }
            fragments[frag_id as usize] = Some(payload);
            assert(fragments_view(fragments@) =~= first_fragment(
                frag_total as nat,
                frag_id as nat,
                payload@,
            ));
            let meta = FragmentMetadata {
                assoc_id,
                pkt_id,
                frag_total,
                fragments,
                last_updated: now,
                source,
                target,
};
            assert(meta@ == entry_new(info_view, payload@, now));
            entries.push(meta);
            assert(entries_view(entries@) =~= room.push(entry_new(info_view, payload@, now)));
            None
        },
    }
}


/// Removes the expired entries of a buffer.
fn cleanup_in(entries: &mut Vec<FragmentMetadata>, now: u64)
    requires
        buffer_wf(entries_view(old(entries)@)),
    ensures
        buffer_wf(entries_view(final(entries)@)),
        entries_view(final(entries)@) == retain_fresh(entries_view(old(entries)@), now),
{
    let ghost before = entries_view(entries@);
    let mut i: usize = 0;
    let ghost mut done: int = 0;
    while i < entries.len()
        invariant
            0 <= done <= before.len(),
            i <= entries.len(),
            entries.len() == i + (before.len() - done),
            entries_view(entries@) == retain_fresh(before.take(done), now) + before.skip(done),
            i == retain_fresh(before.take(done), now).len(),
        decreases entries.len() - i,
    {
        let ghost head = retain_fresh(before.take(done), now);
        proof {
            assert(entries_view(entries@)[i as int] == before.skip(done)[0]);
            assert(before.take(done + 1).drop_last() =~= before.take(done));
            assert(before.take(done + 1).last() == before[done]);
        }
        let ghost cur = entries_view(entries@);
        let last_updated = entries[i].last_updated;
        if now >= last_updated && now - last_updated >= FRAGMENT_TIMEOUT_MS {
            let _ = entries.remove(i);
            proof {
                assert(entries_view(entries@) =~= cur.remove(i as int));
                assert(cur.remove(i as int) =~= head + before.skip(done + 1));
                done = done + 1;
            }
        } else {
            i += 1;
            proof {
                assert(entries_view(entries@) =~= head.push(before[done]) + before.skip(done + 1));
                done = done + 1;
            }
        }
    }
    proof {
        assert(before.skip(done) =~= Seq::<FragmentMetadataView>::empty());
        assert(before.take(done) =~= before);
        assert(entries_view(entries@) =~= retain_fresh(before, now));
        lemma_retain_fresh_subset(before, now);
    }
}

/// A buffer without entries has no values and keeps the invariant.
proof fn lemma_empty_entries()
    ensures
        entries_view(Seq::<FragmentMetadata>::empty()) == Seq::<FragmentMetadataView>::empty(),
        buffer_wf(entries_view(Seq::<FragmentMetadata>::empty())),
{
    assert(entries_view(Seq::<FragmentMetadata>::empty()) =~= Seq::<FragmentMetadataView>::empty());
}

impl FragmentReassemblyBuffer {
    #[verifier::type_invariant]
    closed spec fn inv(&self) -> bool {
        buffer_wf(entries_view(self.entries@))
    }

    /// A buffer that holds nothing.
    pub fn new() -> (buf: FragmentReassemblyBuffer)
        ensures
            buf@ == Seq::<FragmentMetadataView>::empty(),
    {
        proof {
            lemma_empty_entries();
        }
        FragmentReassemblyBuffer { entries: Vec::new() }
    }

    /// The number of unfinished packets, never more than
    /// [`FRAGMENT_BUFFER_CAPACITY`].
    pub fn len(&self) -> (n: usize)
        ensures
            n == self@.len(),
            n <= FRAGMENT_BUFFER_CAPACITY,
    {
        proof {
            use_type_invariant(self);
        }
        self.entries.len()
    }

    /// Takes in one fragment that arrived at time `now` (milliseconds on a
    /// clock that does not go back) and returns the packet that it
    /// completed, if it completed one.
    pub fn add_fragment(&mut self, info: FragmentInfo, payload: Vec<u8>, now: u64) -> (res: Option<
        UdpPacket,
    >)
        ensures
            buffer_wf(old(self)@),
            buffer_wf(final(self)@),
            final(self)@ == add_fragment_spec(old(self)@, info@, payload@, now).buffer,
            opt_packet_view(res) == add_fragment_spec(old(self)@, info@, payload@, now).packet,
    {
        proof {
            use_type_invariant(&*self);
        }
        let mut entries: Vec<FragmentMetadata> = Vec::new();
        proof {
            lemma_empty_entries();
        }
        core::mem::swap(&mut self.entries, &mut entries);
        let res = add_to(&mut entries, info, payload, now);
        self.entries = entries;
        res
    }

    /// Removes the packets that have waited [`FRAGMENT_TIMEOUT_MS`] or
    /// longer at time `now`.
    pub fn cleanup_expired(&mut self, now: u64)
        ensures
            buffer_wf(old(self)@),
            buffer_wf(final(self)@),
            final(self)@ == retain_fresh(old(self)@, now),
    {
        proof {
            use_type_invariant(&*self);
        }
        let mut entries: Vec<FragmentMetadata> = Vec::new();
        proof {
            lemma_empty_entries();
        }
        core::mem::swap(&mut self.entries, &mut entries);
        cleanup_in(&mut entries, now);
        self.entries = entries;
    }
}

/// Removing an entry keeps the invariant, and the removed packet is then
/// absent.
pub proof fn lemma_remove_keeps_wf(buf: Seq<FragmentMetadataView>, i: int)
    requires
        buffer_wf(buf),
        0 <= i < buf.len(),
    ensures
        buffer_wf(buf.remove(i)),
        !contains_key(buf.remove(i), buf[i].assoc_id, buf[i].pkt_id),
{
    let out = buf.remove(i);
    assert forall|a: int, b: int| 0 <= a < b < out.len() implies !has_key(
        #[trigger] out[a],
        (#[trigger] out[b]).assoc_id,
        out[b].pkt_id,
    ) by {
        let a0 = if a < i { a } else { a + 1 };
        let b0 = if b < i { b } else { b + 1 };
        assert(out[a] == buf[a0] && out[b] == buf[b0]);
    }
    assert forall|k: int| 0 <= k < out.len() implies entry_wf(#[trigger] out[k]) by {
        let k0 = if k < i { k } else { k + 1 };
        assert(out[k] == buf[k0]);
    }
    assert forall|k: int| 0 <= k < out.len() implies !has_key(
        #[trigger] out[k],
        buf[i].assoc_id,
        buf[i].pkt_id,
    ) by {
        let k0 = if k < i { k } else { k + 1 };
        assert(out[k] == buf[k0]);
        if k0 < i {
            assert(!has_key(buf[k0], buf[i].assoc_id, buf[i].pkt_id));
        } else {
            assert(!has_key(buf[i], buf[k0].assoc_id, buf[k0].pkt_id));
        }
    }
}

/// Replacing an entry by one for the same packet keeps the invariant.
pub proof fn lemma_update_keeps_wf(
    buf: Seq<FragmentMetadataView>,
    i: int,
    e: FragmentMetadataView,
)
    requires
        buffer_wf(buf),
        0 <= i < buf.len(),
        entry_wf(e),
        has_key(e, buf[i].assoc_id, buf[i].pkt_id),
    ensures
        buffer_wf(buf.update(i, e)),
{
    let out = buf.update(i, e);
    assert forall|a: int, b: int| 0 <= a < b < out.len() implies !has_key(
        #[trigger] out[a],
        (#[trigger] out[b]).assoc_id,
        out[b].pkt_id,
    ) by {
        assert(!has_key(buf[a], buf[b].assoc_id, buf[b].pkt_id));
    }
    assert forall|k: int| 0 <= k < out.len() implies entry_wf(#[trigger] out[k]) by {
        if k != i {
            assert(out[k] == buf[k]);
        }
    }
}

/// What is left after the expired entries went is part of what was there:
/// it is no longer, the invariant still holds, and a packet that was absent
/// is still absent.
pub proof fn lemma_retain_fresh_subset(buf: Seq<FragmentMetadataView>, now: u64)
    requires
        buffer_wf(buf),
    ensures
        buffer_wf(retain_fresh(buf, now)),
        retain_fresh(buf, now).len() <= buf.len(),
        forall|k: int|
            0 <= k < retain_fresh(buf, now).len() ==> buf.contains(
                #[trigger] retain_fresh(buf, now)[k],
            ) && !expired(retain_fresh(buf, now)[k], now),
        forall|assoc_id: u16, pkt_id: u16|
            !contains_key(buf, assoc_id, pkt_id) ==> !contains_key(
                retain_fresh(buf, now),
                assoc_id,
                pkt_id,
            ),
    decreases buf.len(),
{
    let out = retain_fresh(buf, now);
    if buf.len() > 0 {
        let init = buf.drop_last();
        let rest = retain_fresh(init, now);
        assert(buffer_wf(init)) by {
            assert forall|a: int, b: int| 0 <= a < b < init.len() implies !has_key(
                #[trigger] init[a],
                (#[trigger] init[b]).assoc_id,
                init[b].pkt_id,
            ) by {
                assert(init[a] == buf[a] && init[b] == buf[b]);
            }
            assert forall|k: int| 0 <= k < init.len() implies entry_wf(#[trigger] init[k]) by {
                assert(init[k] == buf[k]);
            }
        }
        lemma_retain_fresh_subset(init, now);
        assert forall|k: int| 0 <= k < rest.len() implies buf.contains(#[trigger] rest[k]) by {
            assert(init.contains(rest[k]));
            let w = choose|w: int| 0 <= w < init.len() && init[w] == rest[k];
            assert(buf[w] == rest[k]);
        }
        assert(buf.contains(buf.last())) by {
            assert(buf[buf.len() - 1] == buf.last());
        }
        assert forall|a: int, b: int| 0 <= a < b < out.len() implies !has_key(
            #[trigger] out[a],
            (#[trigger] out[b]).assoc_id,
            out[b].pkt_id,
        ) by {
            if b < rest.len() {
                assert(out[a] == rest[a] && out[b] == rest[b]);
            } else {
                assert(out[b] == buf.last());
                assert(out[a] == rest[a]);
                assert(init.contains(rest[a]));
                let w = choose|w: int| 0 <= w < init.len() && init[w] == rest[a];
                assert(!has_key(buf[w], buf[buf.len() - 1].assoc_id, buf[buf.len() - 1].pkt_id));
            }
        }
        assert forall|k: int| 0 <= k < out.len() implies entry_wf(#[trigger] out[k]) by {
            if k < rest.len() {
                assert(out[k] == rest[k]);
            } else {
                assert(out[k] == buf[buf.len() - 1]);
            }
        }
        assert forall|k: int| 0 <= k < out.len() implies buf.contains(#[trigger] out[k])
            && !expired(out[k], now) by {
            if k < rest.len() {
                assert(out[k] == rest[k]);
            }
        }
        assert forall|assoc_id: u16, pkt_id: u16|
            !contains_key(buf, assoc_id, pkt_id) implies !contains_key(out, assoc_id, pkt_id) by {
            if contains_key(out, assoc_id, pkt_id) {
                let k = choose|k: int| 0 <= k < out.len() && has_key(#[trigger] out[k], assoc_id, pkt_id);
                assert(buf.contains(out[k]));
                let w = choose|w: int| 0 <= w < buf.len() && buf[w] == out[k];
                assert(has_key(buf[w], assoc_id, pkt_id));
            }
        }
    }
}

} // verus!
