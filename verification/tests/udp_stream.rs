use bytes::BytesMut;
use wind::proto::error::ProtoError;
use wind::proto::message::{parse_message, Message, PacketMessage};
use wind::proto::addr::Address;
use wind::proto::reassembly::{
    is_placeholder_target, placeholder_target, FragmentInfo, FragmentReassemblyBuffer,
    FRAGMENT_BUFFER_CAPACITY, FRAGMENT_TIMEOUT_MS,
};
use wind::proto::udp_stream::{
    address_wire_size, fragment_count, max_fragment_size, packet_frame, UdpStream,
    DEFAULT_MAX_DATAGRAM_SIZE, MAX_FRAGMENTS, PACKET_HEAD_SIZE,
};
use wind::types::TargetAddr;
use wind::udp::UdpPacket;

fn target_v4() -> TargetAddr {
    TargetAddr::IPv4([192, 168, 1, 1], 8080)
}

fn local_target() -> TargetAddr {
    TargetAddr::IPv4([127, 0, 0, 1], 8080)
}

fn info(pkt_id: u16, frag_total: u8, frag_id: u8, target: TargetAddr) -> FragmentInfo {
    FragmentInfo { assoc_id: 1, pkt_id, frag_total, frag_id, source: None, target }
}

fn payload_of(len: usize) -> Vec<u8> {
    (0..len).map(|i| (i * 7 + 3) as u8).collect()
}

fn packet(target: TargetAddr, payload: Vec<u8>) -> UdpPacket {
    UdpPacket { source: None, target, payload }
}

fn parse_packet(datagram: &BytesMut) -> PacketMessage {
    match parse_message(&datagram[..], "datagram").unwrap() {
        Message::Packet(p) => p,
        other => panic!("not a packet: {:?}", other),
    }
}

#[test]
fn test_saturating_sub_prevents_underflow() {
    let small_mtu: usize = 10;
    let large_overhead: usize = 100;
    let result = max_fragment_size(small_mtu, large_overhead);
    assert_eq!(result, 0, "saturating_sub should prevent underflow");
}

#[test]
fn max_fragment_size_is_the_difference() {
    assert_eq!(max_fragment_size(1200, 17), 1183);
    assert_eq!(max_fragment_size(17, 17), 0);
    assert_eq!(max_fragment_size(0, 0), 0);
    assert_eq!(max_fragment_size(0, usize::MAX), 0);
    assert_eq!(max_fragment_size(usize::MAX, 0), usize::MAX);
}

#[test]
fn test_fragment_count_calculation() {
    const MAX_DATAGRAM_SIZE: usize = 1200;
    let addr = target_v4();
    let header_overhead = 2 + 8 + address_wire_size(&addr).unwrap();
    let max_fragment_size = MAX_DATAGRAM_SIZE - header_overhead;
    let test_cases = vec![(1000, 1), (1183, 1), (1184, 2), (2366, 2), (2367, 3), (10000, 9)];
    for (payload_size, expected_fragments) in test_cases {
        let count = fragment_count(payload_size, max_fragment_size).unwrap();
        assert_eq!(
            count, expected_fragments,
            "Payload {} bytes should require {} fragments",
            payload_size, expected_fragments
        );
    }
}

#[test]
fn test_max_fragment_limit() {
    const MAX_DATAGRAM_SIZE: usize = 1200;
    let addr = target_v4();
    let header_overhead = 2 + 8 + address_wire_size(&addr).unwrap();
    let max_fragment_size = MAX_DATAGRAM_SIZE - header_overhead;
    let max_payload = max_fragment_size * (MAX_FRAGMENTS as usize);
    let count = fragment_count(max_payload, max_fragment_size).unwrap();
    assert_eq!(count, 255, "Should be able to send 255 fragments");
    assert!(count <= MAX_FRAGMENTS as usize, "Fragment count must not exceed 255");
    let oversized_payload = max_payload + 1;
    let oversized_count = fragment_count(oversized_payload, max_fragment_size).unwrap();
    assert!(oversized_count > MAX_FRAGMENTS as usize, "Oversized payload should exceed fragment limit");
    assert_eq!(oversized_count, 256);
}

#[test]
fn fragment_count_edges() {
    assert_eq!(fragment_count(0, 10), Some(0));
    assert_eq!(fragment_count(1, 10), Some(1));
    assert_eq!(fragment_count(10, 10), Some(1));
    assert_eq!(fragment_count(11, 10), Some(2));
    assert_eq!(fragment_count(5, 0), None);
    assert_eq!(fragment_count(0, 0), None);
    assert_eq!(fragment_count(usize::MAX, 1), Some(usize::MAX));
    assert_eq!(fragment_count(usize::MAX, usize::MAX), Some(1));
    assert_eq!(fragment_count(usize::MAX, 2), Some(usize::MAX / 2 + 1));
}

#[test]
fn address_sizes() {
    assert_eq!(address_wire_size(&target_v4()).unwrap(), 7);
    assert_eq!(address_wire_size(&TargetAddr::IPv6([0; 16], 1)).unwrap(), 19);
    assert_eq!(address_wire_size(&TargetAddr::Domain(String::from("example.com"), 1)).unwrap(), 15);
    assert_eq!(address_wire_size(&TargetAddr::Domain("d".repeat(255), 1)).unwrap(), 259);
    let long = "d".repeat(256);
    assert_eq!(
        address_wire_size(&TargetAddr::Domain(long.clone(), 1)).unwrap_err(),
        ProtoError::DomainTooLong { domain: long }
    );
    assert_eq!(PACKET_HEAD_SIZE, 10);
    assert_eq!(DEFAULT_MAX_DATAGRAM_SIZE, 1200);
}

#[test]
fn single_datagram_send() {
    let mut stream = UdpStream::new(9);
    assert_eq!(stream.assoc_id(), 9);
    assert_eq!(stream.next_pkt_id(), 0);
    let payload = payload_of(1000);
    let datagrams = stream.send_packet(packet(target_v4(), payload.clone()), Some(1200)).unwrap();
    assert_eq!(datagrams.len(), 1);
    assert_eq!(datagrams[0].len(), 17 + 1000);
    assert_eq!(hex::encode(&datagrams[0][..17]), "05020009000001000 3e801c0a801011f90".replace(' ', ""));
    let message = parse_packet(&datagrams[0]);
    assert_eq!(
        message,
        PacketMessage {
            assoc_id: 9,
            pkt_id: 0,
            frag_total: 1,
            frag_id: 0,
            address: Address::IPv4([192, 168, 1, 1], 8080),
            payload,
        }
    );
    assert_eq!(stream.next_pkt_id(), 1);
}

#[test]
fn payload_that_just_fits_is_not_fragmented() {
    let mut stream = UdpStream::new(1);
    let datagrams = stream.send_packet(packet(target_v4(), payload_of(1183)), Some(1200)).unwrap();
    assert_eq!(datagrams.len(), 1);
    assert_eq!(datagrams[0].len(), 1200);
    let datagrams = stream.send_packet(packet(target_v4(), payload_of(1184)), Some(1200)).unwrap();
    assert_eq!(datagrams.len(), 2);
    assert_eq!(stream.next_pkt_id(), 2);
}

#[test]
fn unknown_datagram_size_means_1200() {
    let mut stream = UdpStream::new(1);
    assert_eq!(stream.send_packet(packet(target_v4(), payload_of(1183)), None).unwrap().len(), 1);
    assert_eq!(stream.send_packet(packet(target_v4(), payload_of(1184)), None).unwrap().len(), 2);
}

#[test]
fn fragmented_send() {
    let mut stream = UdpStream::new(7);
    let _ = stream.send_packet(packet(target_v4(), payload_of(1)), Some(1200)).unwrap();
    let payload = payload_of(2000);
    let datagrams = stream.send_packet(packet(target_v4(), payload.clone()), Some(1200)).unwrap();
    assert_eq!(datagrams.len(), 2);
    let first = parse_packet(&datagrams[0]);
    let second = parse_packet(&datagrams[1]);
    assert_eq!(datagrams[0].len(), 1200);
    assert_eq!(datagrams[1].len(), 2 + 8 + 1 + 817);
    assert_eq!(
        first,
        PacketMessage {
            assoc_id: 7,
            pkt_id: 1,
            frag_total: 2,
            frag_id: 0,
            address: Address::IPv4([192, 168, 1, 1], 8080),
            payload: payload[..1183].to_vec(),
        }
    );
    assert_eq!(
        second,
        PacketMessage {
            assoc_id: 7,
            pkt_id: 1,
            frag_total: 2,
            frag_id: 1,
            address: Address::Empty,
            payload: payload[1183..].to_vec(),
        }
    );
    assert_eq!(second.payload.len(), 817);
    assert_eq!(stream.next_pkt_id(), 2);
}

#[test]
fn fragments_come_back_as_the_payload() {
    for (len, mtu) in [(2000usize, 1200usize), (5000, 300), (255 * 3, 20), (40, 18), (1184, 1200)] {
        let mut sender = UdpStream::new(3);
        let mut receiver = UdpStream::new(3);
        let payload = payload_of(len);
        let datagrams = sender.send_packet(packet(target_v4(), payload.clone()), Some(mtu)).unwrap();
        let room = mtu - 17;
        assert_eq!(datagrams.len(), (len + room - 1) / room);
        assert!(datagrams.len() <= 255);
        let mut result = None;
        for (i, datagram) in datagrams.iter().enumerate() {
            assert!(datagram.len() <= mtu);
            let m = parse_packet(datagram);
            let target = match m.address {
                Address::Empty => placeholder_target(),
                Address::IPv4(ip, port) => TargetAddr::IPv4(ip, port),
                other => panic!("unexpected address {:?}", other),
            };
            let out = receiver.process_fragment(
                m.assoc_id,
                m.pkt_id,
                m.frag_total,
                m.frag_id,
                m.payload,
                None,
                target,
                i as u64,
            );
            if i + 1 < datagrams.len() {
                assert!(out.is_none());
            } else {
                result = out;
            }
        }
        let whole = result.unwrap();
        assert_eq!(whole.payload, payload);
        assert_eq!(whole.target, target_v4());
    }
}

#[test]
fn too_many_fragments_is_an_error_and_uses_no_packet_id() {
    let mut stream = UdpStream::new(1);
    let room = 1200 - 17;
    let res = stream.send_packet(packet(target_v4(), payload_of(room * 255 + 1)), Some(1200));
    assert_eq!(res.unwrap_err(), ProtoError::PacketTooLarge);
    assert_eq!(stream.next_pkt_id(), 0);
    let res = stream.send_packet(packet(target_v4(), payload_of(room * 255)), Some(1200));
    assert_eq!(res.unwrap().len(), 255);
    assert_eq!(stream.next_pkt_id(), 1);
}

#[test]
fn tiny_datagram_size_is_an_error_not_a_panic() {
    let mut stream = UdpStream::new(1);
    for mtu in [0usize, 1, 10, 16, 17] {
        let res = stream.send_packet(packet(target_v4(), payload_of(5)), Some(mtu));
        assert_eq!(res.unwrap_err(), ProtoError::PacketTooLarge);
    }
    assert_eq!(stream.next_pkt_id(), 0);
    let res = stream.send_packet(packet(target_v4(), payload_of(5)), Some(18)).unwrap();
    assert_eq!(res.len(), 5);
    let res = stream.send_packet(packet(target_v4(), Vec::new()), Some(17)).unwrap();
    assert_eq!(res.len(), 1);
    let res = stream.send_packet(packet(target_v4(), Vec::new()), Some(16));
    assert_eq!(res.unwrap_err(), ProtoError::PacketTooLarge);
}

#[test]
fn long_domain_target_is_an_error() {
    let mut stream = UdpStream::new(1);
    let name = "n".repeat(256);
    let res = stream.send_packet(packet(TargetAddr::Domain(name.clone(), 1), payload_of(5)), None);
    assert_eq!(res.unwrap_err(), ProtoError::DomainTooLong { domain: name });
    assert_eq!(stream.next_pkt_id(), 0);
}

#[test]
fn payload_longer_than_the_size_field_is_an_error() {
    let mut stream = UdpStream::new(1);
    let res = stream.send_packet(packet(target_v4(), payload_of(65536)), Some(100000));
    assert_eq!(res.unwrap_err(), ProtoError::PacketTooLarge);
    let res = stream.send_packet(packet(target_v4(), payload_of(65535)), Some(100000)).unwrap();
    assert_eq!(res.len(), 1);
    assert_eq!(parse_packet(&res[0]).payload.len(), 65535);
    let res = stream.send_packet(packet(target_v4(), payload_of(200000)), Some(100000));
    assert_eq!(res.unwrap_err(), ProtoError::PacketTooLarge);
}

#[test]
fn packet_ids_wrap() {
    let mut stream = UdpStream::new(1);
    for expected in 0..=65535u32 {
        assert_eq!(stream.next_pkt_id() as u32, expected);
        let d = stream.send_packet(packet(target_v4(), vec![1]), None).unwrap();
        assert_eq!(parse_packet(&d[0]).pkt_id as u32, expected);
    }
    assert_eq!(stream.next_pkt_id(), 0);
}

#[test]
fn domain_target_travels_in_the_first_fragment() {
    let mut stream = UdpStream::new(2);
    let target = TargetAddr::Domain(String::from("example.com"), 53);
    let datagrams = stream.send_packet(packet(target, payload_of(100)), Some(65)).unwrap();
    let room = 65 - (10 + 15);
    assert_eq!(datagrams.len(), (100 + room - 1) / room);
    assert_eq!(parse_packet(&datagrams[0]).address, Address::Domain(String::from("example.com"), 53));
    for d in &datagrams[1..] {
        assert_eq!(parse_packet(d).address, Address::Empty);
    }
}

#[test]
fn packet_frame_checks_its_input() {
    let frame = packet_frame(1, 2, 3, 1, Address::Empty, &[9, 8, 7]).unwrap();
    assert_eq!(hex::encode(&frame), "050200010002030100 03ff090807".replace(' ', ""));
    let name = "n".repeat(256);
    assert_eq!(
        packet_frame(1, 2, 1, 0, Address::Domain(name.clone(), 1), &[1]).unwrap_err(),
        ProtoError::DomainTooLong { domain: name }
    );
    let big = vec![0u8; 65536];
    assert_eq!(
        packet_frame(1, 2, 1, 0, Address::Empty, &big).unwrap_err(),
        ProtoError::PacketTooLarge
    );
}

#[test]
fn close_builds_the_dissociate_frame() {
    let mut stream = UdpStream::new(0x0a0b);
    assert_eq!(hex::encode(stream.close()), "05030a0b");
}

#[test]
fn test_fragment_reassembly_single_fragment() {
    let mut buffer = FragmentReassemblyBuffer::new();
    let target = local_target();
    let payload = b"test payload".to_vec();
    let result = buffer.add_fragment(info(100, 1, 0, target.clone()), payload.clone(), 0);
    assert!(result.is_some(), "Single fragment should complete immediately");
    let packet = result.unwrap();
    assert_eq!(packet.payload, payload);
    assert_eq!(packet.target, target);
    assert_eq!(buffer.len(), 0);
}

#[test]
fn test_fragment_reassembly_multiple_fragments() {
    let mut buffer = FragmentReassemblyBuffer::new();
    let target = local_target();
    let result1 = buffer.add_fragment(info(200, 2, 0, target.clone()), b"Hello ".to_vec(), 0);
    assert!(result1.is_none(), "First fragment should not complete packet");
    let result2 = buffer.add_fragment(info(200, 2, 1, target.clone()), b"World".to_vec(), 1);
    assert!(result2.is_some(), "Second fragment should complete packet");
    let packet = result2.unwrap();
    assert_eq!(packet.payload, b"Hello World".to_vec());
}

#[test]
fn test_fragment_reassembly_out_of_order() {
    let mut buffer = FragmentReassemblyBuffer::new();
    let target = local_target();
    assert!(buffer.add_fragment(info(300, 3, 2, target.clone()), b"C".to_vec(), 0).is_none());
    assert!(buffer.add_fragment(info(300, 3, 0, target.clone()), b"A".to_vec(), 0).is_none());
    let result = buffer.add_fragment(info(300, 3, 1, target.clone()), b"B".to_vec(), 0);
    assert!(result.is_some(), "All fragments received, should complete");
    let packet = result.unwrap();
    assert_eq!(packet.payload, b"ABC".to_vec());
    assert_eq!(buffer.len(), 0);
}

#[test]
fn every_arrival_order_gives_the_same_packet() {
    let orders: [[u8; 3]; 6] = [[0, 1, 2], [0, 2, 1], [1, 0, 2], [1, 2, 0], [2, 0, 1], [2, 1, 0]];
    let pieces = [b"one-".to_vec(), b"two-".to_vec(), b"three".to_vec()];
    for order in orders {
        let mut buffer = FragmentReassemblyBuffer::new();
        let mut last = None;
        for (n, id) in order.iter().enumerate() {
            let target = if *id == 0 { local_target() } else { placeholder_target() };
            let out = buffer.add_fragment(info(5, 3, *id, target), pieces[*id as usize].clone(), n as u64);
            if n < 2 {
                assert!(out.is_none());
                assert_eq!(buffer.len(), 1);
            } else {
                last = out;
            }
        }
        let packet = last.unwrap();
        assert_eq!(packet.payload, b"one-two-three".to_vec());
        assert_eq!(packet.target, local_target());
        assert_eq!(packet.source, None);
        assert_eq!(buffer.len(), 0);
    }
}

#[test]
fn test_multiple_simultaneous_fragmentations() {
    let mut buffer = FragmentReassemblyBuffer::new();
    let target = local_target();
    buffer.add_fragment(info(100, 2, 0, target.clone()), b"A1".to_vec(), 0);
    buffer.add_fragment(info(101, 2, 0, target.clone()), b"B1".to_vec(), 0);
    assert_eq!(buffer.len(), 2);
    let result1 = buffer.add_fragment(info(100, 2, 1, target.clone()), b"A2".to_vec(), 0);
    assert!(result1.is_some());
    assert_eq!(result1.unwrap().payload, b"A1A2".to_vec());
    let result2 = buffer.add_fragment(info(101, 2, 1, target.clone()), b"B2".to_vec(), 0);
    assert!(result2.is_some());
    assert_eq!(result2.unwrap().payload, b"B1B2".to_vec());
}

#[test]
fn same_packet_id_in_other_association_is_another_packet() {
    let mut buffer = FragmentReassemblyBuffer::new();
    let a = FragmentInfo { assoc_id: 1, pkt_id: 9, frag_total: 2, frag_id: 0, source: None, target: local_target() };
    let b = FragmentInfo { assoc_id: 2, pkt_id: 9, frag_total: 2, frag_id: 1, source: None, target: local_target() };
    assert!(buffer.add_fragment(a, b"x".to_vec(), 0).is_none());
    assert!(buffer.add_fragment(b, b"y".to_vec(), 0).is_none());
    assert_eq!(buffer.len(), 2);
}

#[test]
fn test_fragment_cleanup() {
    let mut buffer = FragmentReassemblyBuffer::new();
    let target = local_target();
    buffer.add_fragment(info(400, 2, 0, target.clone()), b"test".to_vec(), 1000);
    assert_eq!(buffer.len(), 1, "Should have one incomplete packet");
    buffer.cleanup_expired(1000 + FRAGMENT_TIMEOUT_MS);
    assert_eq!(buffer.len(), 0, "Fragments should be cleaned up");
}

#[test]
fn fragment_expiration() {
    let t0 = 5_000u64;
    let mut buffer = FragmentReassemblyBuffer::new();
    assert!(buffer.add_fragment(info(7, 2, 0, local_target()), b"first".to_vec(), t0).is_none());
    buffer.cleanup_expired(t0 + 29_999);
    assert_eq!(buffer.len(), 1);
    buffer.cleanup_expired(t0 + 30_000 + 1);
    assert_eq!(buffer.len(), 0);
    let t1 = t0 + 30_002;
    assert!(buffer.add_fragment(info(7, 2, 1, placeholder_target()), b"second".to_vec(), t1).is_none());
    assert_eq!(buffer.len(), 1);
    buffer.cleanup_expired(t1 + 29_999);
    assert_eq!(buffer.len(), 1);
    buffer.cleanup_expired(t1 + 30_000);
    assert_eq!(buffer.len(), 0);
}

#[test]
fn a_new_fragment_refreshes_the_timeout() {
    let mut buffer = FragmentReassemblyBuffer::new();
    assert!(buffer.add_fragment(info(7, 3, 0, local_target()), b"a".to_vec(), 0).is_none());
    assert!(buffer.add_fragment(info(7, 3, 1, placeholder_target()), b"b".to_vec(), 20_000).is_none());
    buffer.cleanup_expired(40_000);
    assert_eq!(buffer.len(), 1);
    let out = buffer.add_fragment(info(7, 3, 2, placeholder_target()), b"c".to_vec(), 40_001);
    assert_eq!(out.unwrap().payload, b"abc".to_vec());
}

#[test]
fn clock_that_went_back_expires_nothing() {
    let mut buffer = FragmentReassemblyBuffer::new();
    assert!(buffer.add_fragment(info(7, 2, 0, local_target()), b"a".to_vec(), 100_000).is_none());
    buffer.cleanup_expired(10);
    assert_eq!(buffer.len(), 1);
}

#[test]
fn duplicate_fragment_is_idempotent() {
    let mut buffer = FragmentReassemblyBuffer::new();
    assert!(buffer.add_fragment(info(1, 3, 0, local_target()), b"A".to_vec(), 0).is_none());
    assert!(buffer.add_fragment(info(1, 3, 0, local_target()), b"A".to_vec(), 1).is_none());
    assert_eq!(buffer.len(), 1);
    assert!(buffer.add_fragment(info(1, 3, 1, placeholder_target()), b"B".to_vec(), 2).is_none());
    let out = buffer.add_fragment(info(1, 3, 2, placeholder_target()), b"C".to_vec(), 3);
    assert_eq!(out.unwrap().payload, b"ABC".to_vec());
}

#[test]
fn duplicate_fragment_with_other_bytes_replaces_the_first() {
    let mut buffer = FragmentReassemblyBuffer::new();
    assert!(buffer.add_fragment(info(1, 2, 0, local_target()), b"old".to_vec(), 0).is_none());
    assert!(buffer.add_fragment(info(1, 2, 0, local_target()), b"new".to_vec(), 1).is_none());
    let out = buffer.add_fragment(info(1, 2, 1, placeholder_target()), b"!".to_vec(), 2);
    assert_eq!(out.unwrap().payload, b"new!".to_vec());
    assert_eq!(buffer.len(), 0);
}

#[test]
fn fragment_after_completion_starts_a_new_entry() {
    let mut buffer = FragmentReassemblyBuffer::new();
    assert!(buffer.add_fragment(info(1, 2, 0, local_target()), b"a".to_vec(), 0).is_none());
    assert!(buffer.add_fragment(info(1, 2, 1, placeholder_target()), b"b".to_vec(), 0).is_some());
    assert!(buffer.add_fragment(info(1, 2, 1, placeholder_target()), b"b".to_vec(), 0).is_none());
    assert_eq!(buffer.len(), 1);
}

#[test]
fn fragment_number_beyond_total_drops_the_packet() {
    let mut buffer = FragmentReassemblyBuffer::new();
    assert!(buffer.add_fragment(info(1, 3, 0, local_target()), b"a".to_vec(), 0).is_none());
    assert_eq!(buffer.len(), 1);
    assert!(buffer.add_fragment(info(1, 3, 3, placeholder_target()), b"b".to_vec(), 0).is_none());
    assert_eq!(buffer.len(), 0);
    assert!(buffer.add_fragment(info(2, 3, 7, placeholder_target()), b"b".to_vec(), 0).is_none());
    assert_eq!(buffer.len(), 0);
    assert!(buffer.add_fragment(info(2, 0, 0, local_target()), b"b".to_vec(), 0).is_none());
    assert_eq!(buffer.len(), 0);
    assert!(buffer.add_fragment(info(2, 1, 1, local_target()), b"b".to_vec(), 0).is_none());
    assert_eq!(buffer.len(), 0);
}

#[test]
fn changed_total_drops_the_packet() {
    let mut buffer = FragmentReassemblyBuffer::new();
    assert!(buffer.add_fragment(info(1, 3, 0, local_target()), b"a".to_vec(), 0).is_none());
    assert!(buffer.add_fragment(info(1, 2, 1, placeholder_target()), b"b".to_vec(), 0).is_none());
    assert_eq!(buffer.len(), 0);
    assert!(buffer.add_fragment(info(1, 2, 0, local_target()), b"a".to_vec(), 0).is_none());
    assert_eq!(buffer.len(), 1);
}

#[test]
fn single_fragment_packet_leaves_unfinished_ones_alone() {
    let mut buffer = FragmentReassemblyBuffer::new();
    assert!(buffer.add_fragment(info(1, 3, 0, local_target()), b"a".to_vec(), 0).is_none());
    let out = buffer.add_fragment(info(1, 1, 0, local_target()), b"solo".to_vec(), 0);
    assert_eq!(out.unwrap().payload, b"solo".to_vec());
    assert_eq!(buffer.len(), 1);
}

#[test]
fn target_comes_from_fragment_zero() {
    let mut buffer = FragmentReassemblyBuffer::new();
    let real = TargetAddr::Domain(String::from("example.org"), 53);
    let source = Some(TargetAddr::IPv4([10, 0, 0, 9], 4000));
    let first = FragmentInfo {
        assoc_id: 1,
        pkt_id: 1,
        frag_total: 2,
        frag_id: 1,
        source: source.clone(),
        target: placeholder_target(),
    };
    assert!(buffer.add_fragment(first, b"2".to_vec(), 0).is_none());
    let out = buffer.add_fragment(info(1, 2, 0, real.clone()), b"1".to_vec(), 0).unwrap();
    assert_eq!(out.target, real);
    assert_eq!(out.source, source);
    assert_eq!(out.payload, b"12".to_vec());
}

#[test]
fn placeholder_is_zero_address_and_port() {
    assert_eq!(placeholder_target(), TargetAddr::IPv4([0, 0, 0, 0], 0));
    assert!(is_placeholder_target(&placeholder_target()));
    assert!(!is_placeholder_target(&TargetAddr::IPv4([0, 0, 0, 0], 1)));
    assert!(!is_placeholder_target(&TargetAddr::IPv4([0, 0, 1, 0], 0)));
    assert!(!is_placeholder_target(&TargetAddr::IPv6([0; 16], 0)));
    assert!(!is_placeholder_target(&TargetAddr::Domain(String::new(), 0)));
}

#[test]
fn full_buffer_makes_room_by_expiry_or_drops() {
    let mut buffer = FragmentReassemblyBuffer::new();
    for pkt_id in 0..FRAGMENT_BUFFER_CAPACITY {
        let now = if pkt_id < 10 { 0 } else { 50_000 };
        assert!(buffer.add_fragment(info(pkt_id as u16, 2, 0, local_target()), vec![1], now).is_none());
    }
    assert_eq!(buffer.len(), FRAGMENT_BUFFER_CAPACITY);
    assert!(buffer.add_fragment(info(5000, 2, 0, local_target()), vec![1], 20_000).is_none());
    assert_eq!(buffer.len(), FRAGMENT_BUFFER_CAPACITY);
    assert!(buffer.add_fragment(info(5000, 2, 1, placeholder_target()), vec![2], 20_000).is_none());
    let out = buffer.add_fragment(info(999, 2, 1, placeholder_target()), vec![2], 20_000);
    assert_eq!(out.unwrap().payload, vec![1, 2]);
    assert_eq!(buffer.len(), FRAGMENT_BUFFER_CAPACITY - 1);
    assert!(buffer.add_fragment(info(999, 2, 0, local_target()), vec![1], 20_000).is_none());
    assert_eq!(buffer.len(), FRAGMENT_BUFFER_CAPACITY);
    assert!(buffer.add_fragment(info(5001, 2, 0, local_target()), vec![7], 30_000).is_none());
    assert_eq!(buffer.len(), FRAGMENT_BUFFER_CAPACITY - 10 + 1);
    let out = buffer.add_fragment(info(5001, 2, 1, placeholder_target()), vec![8], 30_000);
    assert_eq!(out.unwrap().payload, vec![7, 8]);
}

#[test]
fn stream_collects_garbage() {
    let mut stream = UdpStream::new(1);
    assert!(stream
        .process_fragment(1, 4, 2, 0, vec![1], None, local_target(), 0)
        .is_none());
    stream.collect_garbage(30_000);
    let out = stream.process_fragment(1, 4, 2, 1, vec![2], None, placeholder_target(), 30_000);
    assert!(out.is_none());
    let out = stream.process_fragment(1, 4, 2, 0, vec![1], None, local_target(), 30_001);
    assert_eq!(out.unwrap().payload, vec![1, 2]);
}
