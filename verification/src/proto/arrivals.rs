//! What a run of fragment arrivals does to the reassembly buffer.
//!
//! The theorems here are about the model of the buffer: whatever the order
//! in which the fragments of a packet arrive, the packet comes out whole
//! when the last of them is in, and not before.

use vstd::prelude::*;
use vstd::set_lib::{lemma_int_range, lemma_len_subset, lemma_subset_equality, set_int_range};
use crate::proto::reassembly::{
    add_fragment_spec, all_present, buffer_wf, contains_key, entry_new, entry_with, has_key,
    index_of, is_placeholder, join_fragments, FragmentInfoView, FragmentMetadataView,
    FRAGMENT_BUFFER_CAPACITY,
};
use crate::proto::addr::{address_encodable, address_of_target, Address};
use crate::proto::message::{lemma_packet_datagram_round_trip, parse_message_spec, MessageView};
use crate::proto::sessions::packet_target;
use crate::proto::udp_stream::{
    fragment_address, fragment_count_spec, fragment_datagram, fragment_of, lemma_fragment_count,
    lemma_fragmented_plan, send_plan,
};
use crate::types::{TargetAddr, TargetAddrView};
use crate::udp::UdpPacketView;

verus! {

/// One fragment as it arrives: what its command says, its bytes, and the
/// time.
pub struct Arrival {
    pub info: FragmentInfoView,
    pub payload: Seq<u8>,
    pub now: u64,
}

/// The buffer after the arrivals, taken in one after the other.
pub open spec fn feed(buf: Seq<FragmentMetadataView>, arrivals: Seq<Arrival>) -> Seq<
    FragmentMetadataView,
>
    decreases arrivals.len(),
{
    if arrivals.len() == 0 {
        buf
    } else {
        let a = arrivals.last();
        add_fragment_spec(feed(buf, arrivals.drop_last()), a.info, a.payload, a.now).buffer
    }
}

/// The packet that the last of the arrivals completes, if it completes one.
pub open spec fn delivered(buf: Seq<FragmentMetadataView>, arrivals: Seq<Arrival>) -> Option<
    UdpPacketView,
>
    recommends
        arrivals.len() > 0,
{
    let a = arrivals.last();
    add_fragment_spec(feed(buf, arrivals.drop_last()), a.info, a.payload, a.now).packet
}

/// `order` names each of the numbers `0..n` once.
pub open spec fn is_permutation(order: Seq<int>, n: int) -> bool {
    &&& order.len() == n
    &&& forall|j: int| 0 <= j < n ==> 0 <= #[trigger] order[j] < n
    &&& forall|j: int, k: int| 0 <= j < k < n ==> #[trigger] order[j] != #[trigger] order[k]
}

/// `arrivals` are the pieces of packet `pkt_id` of `assoc_id`, arriving in
/// the order that `order` gives: the `j`-th to arrive is piece `order[j]`.
pub open spec fn arrivals_of(
    assoc_id: u16,
    pkt_id: u16,
    pieces: Seq<Seq<u8>>,
    order: Seq<int>,
    arrivals: Seq<Arrival>,
) -> bool {
    &&& arrivals.len() == order.len()
    &&& forall|j: int|
        0 <= j < arrivals.len() ==> {
            let a = #[trigger] arrivals[j];
            &&& a.info.assoc_id == assoc_id
            &&& a.info.pkt_id == pkt_id
            &&& a.info.frag_total == pieces.len()
            &&& a.info.frag_id == order[j]
            &&& a.payload == pieces[order[j]]
        }
}

/// The places of a packet all of whose pieces have arrived.
pub open spec fn whole(pieces: Seq<Seq<u8>>) -> Seq<Option<Seq<u8>>> {
    Seq::new(pieces.len(), |i: int| Some(pieces[i]))
}

/// The pieces that a payload is cut into for fragments of `size` bytes.
pub open spec fn pieces_of(payload: Seq<u8>, size: nat) -> Seq<Seq<u8>> {
    Seq::new(fragment_count_spec(payload.len(), size), |i: int| fragment_of(payload, size, i as nat))
}

/// Whether piece `i` is among the first `j` to arrive.
pub open spec fn seen(order: Seq<int>, j: int, i: int) -> bool {
    exists|k: int| 0 <= k < j && #[trigger] order[k] == i
}

/// The places of the packet after the first `j` arrivals.
pub open spec fn partial_fragments(pieces: Seq<Seq<u8>>, order: Seq<int>, j: int) -> Seq<
    Option<Seq<u8>>,
> {
    Seq::new(
        pieces.len(),
        |i: int|
            if seen(order, j, i) {
                Some(pieces[i])
            } else {
                None
            },
    )
}

/// The target that the packet has after the first `j` arrivals: that of
/// the first arrival, until fragment 0 brings a real address.
pub open spec fn partial_target(arrivals: Seq<Arrival>, j: int) -> TargetAddrView
    decreases j,
{
    if j <= 1 {
        arrivals[0].info.target
    } else {
        let a = arrivals[j - 1];
        if a.info.frag_id == 0 && !is_placeholder(a.info.target) {
            a.info.target
        } else {
            partial_target(arrivals, j - 1)
        }
    }
}

/// The entry of the packet after the first `j` arrivals.
pub open spec fn partial_entry(
    assoc_id: u16,
    pkt_id: u16,
    pieces: Seq<Seq<u8>>,
    order: Seq<int>,
    arrivals: Seq<Arrival>,
    j: int,
) -> FragmentMetadataView {
    FragmentMetadataView {
        assoc_id,
        pkt_id,
        frag_total: pieces.len() as u8,
        fragments: partial_fragments(pieces, order, j),
        last_updated: arrivals[j - 1].now,
        source: arrivals[0].info.source,
        target: partial_target(arrivals, j),
    }
}

/// Each of `0..n` is named by a permutation of `0..n`.
pub proof fn lemma_permutation_covers(order: Seq<int>, n: int)
    requires
        is_permutation(order, n),
    ensures
        forall|i: int| 0 <= i < n ==> seen(order, n, i),
{
    broadcast use vstd::seq_lib::group_seq_properties;

    assert(order.no_duplicates());
    order.unique_seq_to_set();
    lemma_int_range(0, n);
    let named = order.to_set();
    let range = set_int_range(0, n);
    assert(named.subset_of(range)) by {
        assert forall|v: int| named.contains(v) implies range.contains(v) by {
            let k = choose|k: int| 0 <= k < order.len() && order[k] == v;
            assert(0 <= order[k] < n);
        }
    }
    lemma_len_subset(named, range);
    lemma_subset_equality(named, range);
    assert forall|i: int| 0 <= i < n implies seen(order, n, i) by {
        assert(range.contains(i));
        assert(named.contains(i));
        let k = choose|k: int| 0 <= k < order.len() && order[k] == i;
        assert(order[k] == i);
    }
}

/// Fewer than `n` arrivals leave one of `0..n` out.
pub proof fn lemma_prefix_misses(order: Seq<int>, n: int, j: int)
    requires
        is_permutation(order, n),
        0 <= j < n,
    ensures
        exists|i: int| 0 <= i < n && !seen(order, j, i),
{
    broadcast use vstd::seq_lib::group_seq_properties;

    if forall|i: int| 0 <= i < n ==> seen(order, j, i) {
        let prefix = order.take(j);
        assert(prefix.no_duplicates());
        prefix.unique_seq_to_set();
        lemma_int_range(0, n);
        let named = prefix.to_set();
        let range = set_int_range(0, n);
        assert(range.subset_of(named)) by {
            assert forall|i: int| range.contains(i) implies named.contains(i) by {
                assert(seen(order, j, i));
                let k = choose|k: int| 0 <= k < j && #[trigger] order[k] == i;
                assert(prefix[k] == i);
            }
        }
        lemma_len_subset(range, named);
        assert(false);
    }
}

/// The entry of a packet that the buffer did not hold stands at the end.
proof fn lemma_pushed_index(buf: Seq<FragmentMetadataView>, e: FragmentMetadataView)
    requires
        !contains_key(buf, e.assoc_id, e.pkt_id),
    ensures
        contains_key(buf.push(e), e.assoc_id, e.pkt_id),
        index_of(buf.push(e), e.assoc_id, e.pkt_id) == buf.len(),
{
    let all = buf.push(e);
    assert(has_key(all[buf.len() as int], e.assoc_id, e.pkt_id));
    let i = index_of(all, e.assoc_id, e.pkt_id);
    if i < buf.len() {
        assert(all[i] == buf[i]);
        assert(has_key(buf[i], e.assoc_id, e.pkt_id));
    }
}

/// After the first `j` of a packet's pieces arrived, for `j` short of all
/// of them, the buffer holds what it held and the packet's entry behind it,
/// and none of these arrivals completed a packet.
pub proof fn lemma_feed_prefix(
    buf: Seq<FragmentMetadataView>,
    assoc_id: u16,
    pkt_id: u16,
    pieces: Seq<Seq<u8>>,
    order: Seq<int>,
    arrivals: Seq<Arrival>,
    j: int,
)
    requires
        buffer_wf(buf),
        !contains_key(buf, assoc_id, pkt_id),
        buf.len() < FRAGMENT_BUFFER_CAPACITY,
        2 <= pieces.len() <= 255,
        is_permutation(order, pieces.len() as int),
        arrivals_of(assoc_id, pkt_id, pieces, order, arrivals),
        1 <= j < pieces.len(),
    ensures
        feed(buf, arrivals.take(j)) == buf.push(
            partial_entry(assoc_id, pkt_id, pieces, order, arrivals, j),
        ),
        forall|m: int| 1 <= m <= j ==> delivered(buf, #[trigger] arrivals.take(m)) is None,
    decreases j,
{
    let n = pieces.len() as int;
    let a = arrivals[j - 1];
    assert(arrivals.take(j).drop_last() =~= arrivals.take(j - 1));
    assert(arrivals.take(j).last() == a);
    assert(0 <= order[j - 1] < n);
    let entry = partial_entry(assoc_id, pkt_id, pieces, order, arrivals, j);
    if j == 1 {
        assert(arrivals.take(0) =~= Seq::<Arrival>::empty());
        assert(feed(buf, arrivals.take(0)) == buf);
        assert(entry_new(a.info, a.payload, a.now).fragments =~= partial_fragments(
            pieces,
            order,
            1,
        )) by {
            assert forall|i: int| 0 <= i < n implies (#[trigger] seen(order, 1, i) <==> i
                == order[0]) by {
                if i == order[0] {
                    assert(order[0] == i);
                }
            }
        }
        assert(entry_new(a.info, a.payload, a.now) == entry);
    } else {
        lemma_feed_prefix(buf, assoc_id, pkt_id, pieces, order, arrivals, j - 1);
        let before = partial_entry(assoc_id, pkt_id, pieces, order, arrivals, j - 1);
        let state = buf.push(before);
        assert(feed(buf, arrivals.take(j - 1)) == state);
        lemma_pushed_index(buf, before);
        let updated = entry_with(before, a.info, a.payload, a.now);
        assert(updated.fragments =~= partial_fragments(pieces, order, j)) by {
            assert forall|i: int| 0 <= i < n implies (#[trigger] seen(order, j, i) <==> (seen(
                order,
                j - 1,
                i,
            ) || i == order[j - 1])) by {
                if seen(order, j, i) {
                    let k = choose|k: int| 0 <= k < j && #[trigger] order[k] == i;
                    if k < j - 1 {
                        assert(order[k] == i);
                    }
                }
                if seen(order, j - 1, i) {
                    let k = choose|k: int| 0 <= k < j - 1 && #[trigger] order[k] == i;
                    assert(order[k] == i);
                }
                if i == order[j - 1] {
                    assert(order[j - 1] == i);
                }
            }
        }
        assert(updated == entry);
        lemma_prefix_misses(order, n, j);
        let missing = choose|i: int| 0 <= i < n && !seen(order, j, i);
        assert(updated.fragments[missing] is None);
        assert(!all_present(updated.fragments));
        assert(state.update(buf.len() as int, updated) =~= buf.push(entry));
        assert forall|m: int| 1 <= m <= j implies delivered(
            buf,
            #[trigger] arrivals.take(m),
        ) is None by {
            if m == j {
            }
        }
    }
}

/// Whatever the order in which the pieces of a packet arrive, the arrival
/// of the last one completes the packet, none before it does, and the
/// packet's payload is the pieces in the order of their numbers.  The
/// buffer is then as it was before the first piece came.
pub proof fn lemma_reassembly_any_order(
    buf: Seq<FragmentMetadataView>,
    assoc_id: u16,
    pkt_id: u16,
    pieces: Seq<Seq<u8>>,
    order: Seq<int>,
    arrivals: Seq<Arrival>,
)
    requires
        buffer_wf(buf),
        !contains_key(buf, assoc_id, pkt_id),
        buf.len() < FRAGMENT_BUFFER_CAPACITY,
        2 <= pieces.len() <= 255,
        is_permutation(order, pieces.len() as int),
        arrivals_of(assoc_id, pkt_id, pieces, order, arrivals),
    ensures
        forall|m: int| 1 <= m < pieces.len() ==> delivered(buf, #[trigger] arrivals.take(m)) is None,
        delivered(buf, arrivals) == Some(
            UdpPacketView {
                source: arrivals[0].info.source,
                target: partial_target(arrivals, pieces.len() as int),
                payload: join_fragments(whole(pieces)),
            },
        ),
        feed(buf, arrivals) == buf,
{
    let n = pieces.len() as int;
    let a = arrivals[n - 1];
    lemma_feed_prefix(buf, assoc_id, pkt_id, pieces, order, arrivals, n - 1);
    assert(arrivals.drop_last() =~= arrivals.take(n - 1));
    assert(arrivals.last() == a);
    assert(0 <= order[n - 1] < n);
    let before = partial_entry(assoc_id, pkt_id, pieces, order, arrivals, n - 1);
    let state = buf.push(before);
    lemma_pushed_index(buf, before);
    let updated = entry_with(before, a.info, a.payload, a.now);
    lemma_permutation_covers(order, n);
    assert(updated.fragments =~= whole(pieces)) by {
        assert forall|i: int| 0 <= i < n implies (#[trigger] seen(order, n - 1, i) || i
            == order[n - 1]) by {
            assert(seen(order, n, i));
            let k = choose|k: int| 0 <= k < n && #[trigger] order[k] == i;
            if k < n - 1 {
                assert(order[k] == i);
            }
        }
    }
    assert(all_present(updated.fragments));
    assert(state.remove(buf.len() as int) =~= buf);
    assert forall|m: int| 1 <= m < n implies delivered(buf, #[trigger] arrivals.take(m)) is None by {
    }
}

/// Joining the first `k` pieces of a payload gives the payload up to where
/// piece `k` begins.
proof fn lemma_pieces_join_prefix(payload: Seq<u8>, size: nat, k: int)
    requires
        size > 0,
        0 <= k <= fragment_count_spec(payload.len(), size),
    ensures
        k * size <= payload.len() ==> join_fragments(whole(pieces_of(payload, size)).take(k))
            == payload.take(k * size),
        k * size > payload.len() ==> join_fragments(whole(pieces_of(payload, size)).take(k))
            == payload,
    decreases k,
{
    let all = whole(pieces_of(payload, size));
    let len = payload.len() as int;
    lemma_fragment_count(payload.len(), size);
    if k == 0 {
        assert(k * size == 0) by (nonlinear_arith)
            requires
                k == 0,
        ;
        assert(all.take(0) =~= Seq::<Option<Seq<u8>>>::empty());
        assert(payload.take(0) =~= Seq::<u8>::empty());
    } else {
        lemma_pieces_join_prefix(payload, size, k - 1);
        assert(all.take(k).drop_last() =~= all.take(k - 1));
        assert(all.take(k).last() == Some(fragment_of(payload, size, (k - 1) as nat)));
        assert((k - 1) * size <= (fragment_count_spec(payload.len(), size) - 1) * size)
            by (nonlinear_arith)
            requires
                k <= fragment_count_spec(payload.len(), size),
                size > 0,
        ;
        assert(k * size == (k - 1) * size + size) by (nonlinear_arith);
        let start = (k - 1) * size;
        assert(start <= len);
        let end = if k * size <= len {
            k * size
        } else {
            len
        };
        let piece = fragment_of(payload, size, (k - 1) as nat);
        assert(piece == payload.subrange(start, end));
        assert(join_fragments(all.take(k - 1)) == payload.take(start));
        assert(join_fragments(all.take(k)) == join_fragments(all.take(k).drop_last()) + piece);
        assert(payload.take(start) + payload.subrange(start, end) =~= payload.take(end));
        assert(payload.take(len) =~= payload);
        assert(join_fragments(all.take(k)) == payload.take(end));
    }
}

/// A payload that is cut into pieces and joined again is the payload.
pub proof fn lemma_pieces_join(payload: Seq<u8>, size: nat)
    requires
        size > 0,
    ensures
        join_fragments(whole(pieces_of(payload, size))) == payload,
{
    let all = whole(pieces_of(payload, size));
    let count = fragment_count_spec(payload.len(), size) as int;
    lemma_fragment_count(payload.len(), size);
    lemma_pieces_join_prefix(payload, size, count);
    assert(all.take(count) =~= all);
    assert(payload.take(payload.len() as int) =~= payload);
}

/// A payload that is cut into fragments of `size` bytes comes out of the
/// buffer bit for bit, whatever the order in which the fragments arrive.
pub proof fn lemma_fragment_round_trip(
    buf: Seq<FragmentMetadataView>,
    assoc_id: u16,
    pkt_id: u16,
    payload: Seq<u8>,
    size: nat,
    order: Seq<int>,
    arrivals: Seq<Arrival>,
)
    requires
        buffer_wf(buf),
        !contains_key(buf, assoc_id, pkt_id),
        buf.len() < FRAGMENT_BUFFER_CAPACITY,
        size > 0,
        2 <= fragment_count_spec(payload.len(), size) <= 255,
        is_permutation(order, fragment_count_spec(payload.len(), size) as int),
        arrivals_of(assoc_id, pkt_id, pieces_of(payload, size), order, arrivals),
    ensures
        delivered(buf, arrivals) is Some,
        delivered(buf, arrivals)->Some_0.payload == payload,
        feed(buf, arrivals) == buf,
{
    lemma_reassembly_any_order(buf, assoc_id, pkt_id, pieces_of(payload, size), order, arrivals);
    lemma_pieces_join(payload, size);
}

/// A fragment that arrives a second time replaces the first: the places of
/// the packet are filled as before, with the later bytes in the fragment's
/// place, and where the bytes are the same nothing but the time changes.
pub proof fn lemma_duplicate_fragment(
    buf: Seq<FragmentMetadataView>,
    i: int,
    info: FragmentInfoView,
    payload: Seq<u8>,
    now: u64,
)
    requires
        buffer_wf(buf),
        0 <= i < buf.len(),
        has_key(buf[i], info.assoc_id, info.pkt_id),
        info.frag_total == buf[i].frag_total,
        info.frag_id < info.frag_total,
        buf[i].fragments[info.frag_id as int] is Some,
        !all_present(buf[i].fragments),
    ensures
        add_fragment_spec(buf, info, payload, now).packet is None,
        add_fragment_spec(buf, info, payload, now).buffer == buf.update(
            i,
            entry_with(buf[i], info, payload, now),
        ),
        buf[i].fragments[info.frag_id as int] == Some(payload) ==> entry_with(
            buf[i],
            info,
            payload,
            now,
        ).fragments == buf[i].fragments,
{
    assert(contains_key(buf, info.assoc_id, info.pkt_id));
    let j = index_of(buf, info.assoc_id, info.pkt_id);
    assert(has_key(buf[j], info.assoc_id, info.pkt_id));
    if j < i {
        assert(!has_key(buf[j], buf[i].assoc_id, buf[i].pkt_id));
    } else if i < j {
        assert(!has_key(buf[i], buf[j].assoc_id, buf[j].pkt_id));
    }
    assert(j == i);
    let updated = entry_with(buf[i], info, payload, now);
    let missing = choose|k: int| 0 <= k < buf[i].fragments.len() && !(
    #[trigger] buf[i].fragments[k] is Some);
    assert(updated.fragments[missing] is None);
    if buf[i].fragments[info.frag_id as int] == Some(payload) {
        assert(updated.fragments =~= buf[i].fragments);
    }
}

/// The arrival that a datagram makes at a receiver who learns `source`
/// from the network and reads the clock as `now`, where the datagram holds a
/// Packet command that names a target or is a later fragment.
pub open spec fn arrival_from_datagram(
    bytes: Seq<u8>,
    context: Seq<char>,
    source: Option<TargetAddrView>,
    now: u64,
) -> Option<Arrival> {
    match parse_message_spec(bytes, context) {
        Ok(MessageView::Packet(m)) => match packet_target(m) {
            Some(target) => Some(
                Arrival {
                    info: FragmentInfoView {
                        assoc_id: m.assoc_id,
                        pkt_id: m.pkt_id,
                        frag_total: m.frag_total,
                        frag_id: m.frag_id,
                        source,
                        target,
                    },
                    payload: m.payload,
                    now,
                },
            ),
            None => None,
        },
        _ => None,
    }
}

/// The wire address that fragment `i` of a packet for `target` carries.
spec fn fragment_address_value(target: TargetAddr, i: int) -> Address {
    if i == 0 {
        match target {
            TargetAddr::Domain(name, port) => Address::Domain(name, port),
            TargetAddr::IPv4(ip, port) => Address::IPv4(ip, port),
            TargetAddr::IPv6(ip, port) => Address::IPv6(ip, port),
        }
    } else {
        Address::Empty
    }
}

/// While fragment 0 has not arrived, the packet's target is the stand-in
/// that the later fragments came with; from then on it is the target that
/// fragment 0 brought.
proof fn lemma_partial_target(
    arrivals: Seq<Arrival>,
    order: Seq<int>,
    target: TargetAddrView,
    j: int,
)
    requires
        1 <= j <= arrivals.len(),
        order.len() == arrivals.len(),
        forall|a: int, b: int| 0 <= a < b < order.len() ==> #[trigger] order[a] != #[trigger] order[b],
        forall|k: int|
            0 <= k < arrivals.len() ==> (#[trigger] arrivals[k]).info.frag_id == order[k]
                && arrivals[k].info.target == (if order[k] == 0 {
                target
            } else {
                TargetAddrView::IPv4(seq![0u8, 0u8, 0u8, 0u8], 0)
            }),
    ensures
        seen(order, j, 0) ==> partial_target(arrivals, j) == target,
        !seen(order, j, 0) ==> partial_target(arrivals, j) == TargetAddrView::IPv4(
            seq![0u8, 0u8, 0u8, 0u8],
            0,
        ),
    decreases j,
{
    let stand_in = TargetAddrView::IPv4(seq![0u8, 0u8, 0u8, 0u8], 0);
    assert(is_placeholder(stand_in));
    if j <= 1 {
        assert(arrivals[0].info.frag_id == order[0]);
        if seen(order, j, 0) {
            let k = choose|k: int| 0 <= k < j && #[trigger] order[k] == 0;
            assert(k == 0);
        } else {
            if order[0] == 0 {
                assert(seen(order, j, 0));
            }
        }
    } else {
        lemma_partial_target(arrivals, order, target, j - 1);
        let a = arrivals[j - 1];
        assert(a.info.frag_id == order[j - 1]);
        if order[j - 1] == 0 {
            assert(seen(order, j, 0));
            if is_placeholder(target) {
                assert(target.arrow_IPv4_0() =~= seq![0u8, 0u8, 0u8, 0u8]);
                assert(target == stand_in);
                if seen(order, j - 1, 0) {
                    let k = choose|k: int| 0 <= k < j - 1 && #[trigger] order[k] == 0;
                    assert(order[k] != order[j - 1]);
                }
            }
        } else {
            if seen(order, j, 0) {
                let k = choose|k: int| 0 <= k < j && #[trigger] order[k] == 0;
                assert(k < j - 1);
                assert(seen(order, j - 1, 0));
            } else {
                if seen(order, j - 1, 0) {
                    let k = choose|k: int| 0 <= k < j - 1 && #[trigger] order[k] == 0;
                    assert(order[k] == 0);
                    assert(seen(order, j, 0));
                }
            }
        }
    }
}

/// The datagram of fragment `i` is read as the arrival of that fragment:
/// with the piece of the payload that it carries, and with the packet's
/// target in fragment 0 and the stand-in in the others.
proof fn lemma_arrival_of_fragment(
    assoc_id: u16,
    pkt_id: u16,
    target: TargetAddr,
    payload: Seq<u8>,
    count: nat,
    size: nat,
    i: int,
    context: Seq<char>,
    source: Option<TargetAddrView>,
    now: u64,
)
    requires
        address_encodable(address_of_target(target@)),
        0 < size <= 0xffff,
        0 <= i < count <= 255,
    ensures
        arrival_from_datagram(
            fragment_datagram(assoc_id, pkt_id, count, i as nat, target@, payload, size),
            context,
            source,
            now,
        ) == Some(
            Arrival {
                info: FragmentInfoView {
                    assoc_id,
                    pkt_id,
                    frag_total: count as u8,
                    frag_id: i as u8,
                    source,
                    target: if i == 0 {
                        target@
                    } else {
                        TargetAddrView::IPv4(seq![0u8, 0u8, 0u8, 0u8], 0)
                    },
                },
                payload: fragment_of(payload, size, i as nat),
                now,
            },
        ),
{
    let address = fragment_address_value(target, i);
    let piece = fragment_of(payload, size, i as nat);
    assert(address@ == fragment_address(target@, i as nat));
    assert((i + 1) * size == i * size + size) by (nonlinear_arith);
    assert(i * size >= 0) by (nonlinear_arith)
        requires
            i >= 0,
            size >= 0,
    ;
    assert(piece.len() <= size);
    lemma_packet_datagram_round_trip(assoc_id, pkt_id, count as u8, i as u8, address, piece, context);
}

/// What is sent in fragments arrives as the packet that was sent.
///
/// Take a packet that goes out in fragments, and let the datagrams that
/// carry them reach a receiver in any order, each read and handed to a
/// reassembly buffer that has room and holds nothing of this packet yet.
/// Then the arrival of the last datagram completes a packet with the payload
/// and the target of the one that was sent, no arrival before it completes
/// any, and the buffer is left as it was.
pub proof fn lemma_send_receive(
    buf: Seq<FragmentMetadataView>,
    assoc_id: u16,
    pkt_id: u16,
    target: TargetAddr,
    payload: Seq<u8>,
    max_datagram_size: nat,
    context: Seq<char>,
    order: Seq<int>,
    arrivals: Seq<Arrival>,
)
    requires
        send_plan(target@, payload.len(), max_datagram_size) is Fragmented,
        buffer_wf(buf),
        !contains_key(buf, assoc_id, pkt_id),
        buf.len() < FRAGMENT_BUFFER_CAPACITY,
        is_permutation(
            order,
            send_plan(target@, payload.len(), max_datagram_size)->count as int,
        ),
        arrivals.len() == order.len(),
        forall|j: int|
            0 <= j < arrivals.len() ==> arrival_from_datagram(
                fragment_datagram(
                    assoc_id,
                    pkt_id,
                    send_plan(target@, payload.len(), max_datagram_size)->count,
                    order[j] as nat,
                    target@,
                    payload,
                    send_plan(target@, payload.len(), max_datagram_size)->size,
                ),
                context,
                (#[trigger] arrivals[j]).info.source,
                arrivals[j].now,
            ) == Some(arrivals[j]),
    ensures
        forall|m: int| 1 <= m < arrivals.len() ==> delivered(buf, #[trigger] arrivals.take(m)) is None,
        delivered(buf, arrivals) == Some(
            UdpPacketView { source: arrivals[0].info.source, target: target@, payload },
        ),
        feed(buf, arrivals) == buf,
{
    let count = send_plan(target@, payload.len(), max_datagram_size)->count;
    let size = send_plan(target@, payload.len(), max_datagram_size)->size;
    lemma_fragmented_plan(target@, payload.len(), max_datagram_size);
    assert(address_encodable(address_of_target(target@)));
    lemma_send_receive_planned(
        buf,
        assoc_id,
        pkt_id,
        target,
        payload,
        count,
        size,
        context,
        order,
        arrivals,
    );
}

/// The same for fragments of `size` bytes, `count` of them, however the
/// numbers were come by.
proof fn lemma_send_receive_planned(
    buf: Seq<FragmentMetadataView>,
    assoc_id: u16,
    pkt_id: u16,
    target: TargetAddr,
    payload: Seq<u8>,
    count: nat,
    size: nat,
    context: Seq<char>,
    order: Seq<int>,
    arrivals: Seq<Arrival>,
)
    requires
        address_encodable(address_of_target(target@)),
        0 < size <= 0xffff,
        count == fragment_count_spec(payload.len(), size),
        2 <= count <= 255,
        buffer_wf(buf),
        !contains_key(buf, assoc_id, pkt_id),
        buf.len() < FRAGMENT_BUFFER_CAPACITY,
        is_permutation(order, count as int),
        arrivals.len() == order.len(),
        forall|j: int|
            0 <= j < arrivals.len() ==> arrival_from_datagram(
                fragment_datagram(
                    assoc_id,
                    pkt_id,
                    count,
                    order[j] as nat,
                    target@,
                    payload,
                    size,
                ),
                context,
                (#[trigger] arrivals[j]).info.source,
                arrivals[j].now,
            ) == Some(arrivals[j]),
    ensures
        forall|m: int| 1 <= m < arrivals.len() ==> delivered(buf, #[trigger] arrivals.take(m)) is None,
        delivered(buf, arrivals) == Some(
            UdpPacketView { source: arrivals[0].info.source, target: target@, payload },
        ),
        feed(buf, arrivals) == buf,
{
    let n = count as int;
    let stand_in = TargetAddrView::IPv4(seq![0u8, 0u8, 0u8, 0u8], 0);
    let pieces = pieces_of(payload, size);
    assert forall|j: int| 0 <= j < arrivals.len() implies {
        let a = #[trigger] arrivals[j];
        &&& a.info.assoc_id == assoc_id
        &&& a.info.pkt_id == pkt_id
        &&& a.info.frag_total == pieces.len()
        &&& a.info.frag_id == order[j]
        &&& a.payload == pieces[order[j]]
        &&& a.info.target == (if order[j] == 0 {
            target@
        } else {
            stand_in
        })
    } by {
        assert(0 <= order[j] < n);
        lemma_arrival_of_fragment(
            assoc_id,
            pkt_id,
            target,
            payload,
            count,
            size,
            order[j],
            context,
            arrivals[j].info.source,
            arrivals[j].now,
        );
    }
    assert(arrivals_of(assoc_id, pkt_id, pieces, order, arrivals));
    lemma_reassembly_any_order(buf, assoc_id, pkt_id, pieces, order, arrivals);
    lemma_pieces_join(payload, size);
    lemma_permutation_covers(order, n);
    lemma_partial_target(arrivals, order, target@, n);
}

} // verus!
