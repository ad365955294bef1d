use bytes::BytesMut;
use uuid::Uuid;
use wind::proto::addr::{Address, AddressCodec, AddressType};
use wind::proto::cmd::{CmdCodec, Command};
use wind::proto::error::ProtoError;
use wind::proto::header::{CmdType, Header, HeaderCodec};
use wind::proto::{
    address_to_target, auth_frame, connect_frame, decode_address, decode_command, decode_header,
    dissociate_frame, encode_frame, heartbeat_frame, target_address, Error, FramePart, VER,
};
use wind::types::TargetAddr;

fn sample_commands() -> Vec<Command> {
    vec![
        Command::Auth {
            uuid: Uuid::parse_str("02f09a3f-1624-3b1d-8409-44eff7708208").unwrap().into_bytes(),
            token: [1; 32],
        },
        Command::Connect,
        Command::Packet { assoc_id: 123, pkt_id: 123, frag_total: 5, frag_id: 1, size: 8 },
        Command::Dissociate { assoc_id: 23 },
        Command::Heartbeat,
    ]
}

fn sample_addresses() -> Vec<Address> {
    vec![
        Address::Empty,
        Address::IPv4([127, 0, 0, 1], 80),
        Address::IPv6([0; 16], 12),
        Address::Domain(String::from("www.google.com"), 443),
    ]
}

#[test]
fn test_header_1() {
    let header = Header { version: VER, command: CmdType::Auth };
    let mut buffer = BytesMut::with_capacity(2);
    HeaderCodec.encode(header.clone(), &mut buffer).unwrap();
    assert_eq!(buffer.len(), 2);
    let frame = HeaderCodec.decode(&mut buffer).unwrap().unwrap();
    assert_eq!(header, frame);
    assert_eq!(buffer.len(), 0);
}

#[test]
fn test_header_2() {
    let header = Header { version: VER, command: CmdType::Auth };
    let mut whole = BytesMut::with_capacity(2);
    HeaderCodec.encode(header.clone(), &mut whole).unwrap();
    let full_len = whole.len();
    let mut half_a = BytesMut::from(&whole[..full_len / 2]);
    assert!(matches!(HeaderCodec.decode_eof(&mut half_a).unwrap_err(), ProtoError::BytesRemaining));
    assert_eq!(HeaderCodec.decode(&mut half_a).unwrap(), None);
    assert_eq!(half_a.len(), full_len / 2);
    half_a.extend_from_slice(&whole[full_len / 2..]);
    assert_eq!(HeaderCodec.decode_eof(&mut half_a).unwrap().unwrap(), header);
}

#[test]
fn header_rejects_other_versions() {
    let mut buf = BytesMut::from(&[4u8, 1, 9][..]);
    assert_eq!(
        HeaderCodec.decode(&mut buf).unwrap_err(),
        ProtoError::VersionMismatch { expect: 5, actual: 4 }
    );
    assert_eq!(&buf[..], &[1u8, 9][..]);
}

#[test]
fn header_rejects_unknown_commands() {
    let mut buf = BytesMut::from(&[5u8, 5, 9][..]);
    assert_eq!(
        HeaderCodec.decode(&mut buf).unwrap_err(),
        ProtoError::UnknownCommandType { value: 5 }
    );
    assert_eq!(&buf[..], &[9u8][..]);
    let mut buf = BytesMut::from(&[5u8, 0xff][..]);
    assert_eq!(
        HeaderCodec.decode(&mut buf).unwrap_err(),
        ProtoError::UnknownCommandType { value: 0xff }
    );
}

#[test]
fn header_decodes_every_command_and_leaves_the_rest() {
    let expected =
        [CmdType::Auth, CmdType::Connect, CmdType::Packet, CmdType::Dissociate, CmdType::Heartbeat];
    for (value, command) in expected.iter().enumerate() {
        let mut buf = BytesMut::from(&[5u8, value as u8, 0xaa, 0xbb][..]);
        let header = HeaderCodec.decode(&mut buf).unwrap().unwrap();
        assert_eq!(header, Header::new(*command));
        assert_eq!(&buf[..], &[0xaau8, 0xbb][..]);
    }
}

#[test]
fn header_new_carries_the_version() {
    let header = Header::new(CmdType::Packet);
    assert_eq!(header.version, 5);
    assert_eq!(header.command, CmdType::Packet);
}

#[test]
fn cmd_type_numbers() {
    assert_eq!(CmdType::from(0u8), CmdType::Auth);
    assert_eq!(CmdType::from(1u8), CmdType::Connect);
    assert_eq!(CmdType::from(2u8), CmdType::Packet);
    assert_eq!(CmdType::from(3u8), CmdType::Dissociate);
    assert_eq!(CmdType::from(4u8), CmdType::Heartbeat);
    assert_eq!(CmdType::from(5u8), CmdType::Other(5));
    assert_eq!(u8::from(CmdType::Auth), 0);
    assert_eq!(u8::from(CmdType::Heartbeat), 4);
    assert_eq!(u8::from(CmdType::Other(77)), 77);
    for cmd in sample_commands() {
        let ty = CmdType::from(&cmd);
        assert_eq!(CmdType::from(u8::from(ty)), ty);
    }
}

#[test]
fn address_type_numbers() {
    assert_eq!(AddressType::from(0xffu8), AddressType::Empty);
    assert_eq!(AddressType::from(0u8), AddressType::Domain);
    assert_eq!(AddressType::from(1u8), AddressType::IPv4);
    assert_eq!(AddressType::from(2u8), AddressType::IPv6);
    assert_eq!(AddressType::from(3u8), AddressType::Other(3));
    assert_eq!(u8::from(AddressType::Empty), 0xff);
    assert_eq!(u8::from(AddressType::Domain), 0);
    assert_eq!(u8::from(AddressType::IPv4), 1);
    assert_eq!(u8::from(AddressType::IPv6), 2);
    assert_eq!(u8::from(AddressType::Other(9)), 9);
}

#[test]
fn cmd_test_cmd_1() {
    for cmd in sample_commands() {
        let mut buffer = BytesMut::with_capacity(128);
        let expect_len = match cmd {
            Command::Auth { .. } => 16 + 32,
            Command::Connect => 0,
            Command::Packet { .. } => 8,
            Command::Dissociate { .. } => 2,
            Command::Heartbeat => 0,
        };
        CmdCodec((&cmd).into()).encode(cmd.clone(), &mut buffer).unwrap();
        assert_eq!(buffer.len(), expect_len);
        let frame = CmdCodec((&cmd).into()).decode(&mut buffer).unwrap().unwrap();
        assert_eq!(cmd, frame);
        assert_eq!(buffer.len(), 0);
    }
}

#[test]
fn cmd_test_cmd_2() {
    let vars = vec![
        Command::Auth {
            uuid: Uuid::parse_str("02f09a3f-1624-3b1d-8409-44eff7708208").unwrap().into_bytes(),
            token: [1; 32],
        },
        Command::Packet { assoc_id: 123, pkt_id: 123, frag_total: 5, frag_id: 1, size: 8 },
        Command::Dissociate { assoc_id: 23 },
    ];
    for cmd in vars {
        let mut whole = BytesMut::with_capacity(128);
        CmdCodec((&cmd).into()).encode(cmd.clone(), &mut whole).unwrap();
        let full_len = whole.len();
        let mut half_a = BytesMut::from(&whole[..full_len / 2]);
        assert!(matches!(
            CmdCodec((&cmd).into()).decode_eof(&mut half_a).unwrap_err(),
            ProtoError::BytesRemaining
        ));
        assert_eq!(CmdCodec((&cmd).into()).decode(&mut half_a).unwrap(), None);
        assert_eq!(half_a.len(), full_len / 2);
        half_a.extend_from_slice(&whole[full_len / 2..]);
        assert_eq!(CmdCodec((&cmd).into()).decode_eof(&mut half_a).unwrap().unwrap(), cmd);
    }
}

#[test]
fn packet_command_is_big_endian() {
    let cmd = Command::Packet {
        assoc_id: 0x0102,
        pkt_id: 0x0304,
        frag_total: 5,
        frag_id: 6,
        size: 0x0708,
    };
    let mut buf = BytesMut::new();
    CmdCodec(CmdType::Packet).encode(cmd.clone(), &mut buf).unwrap();
    assert_eq!(&buf[..], &[1u8, 2, 3, 4, 5, 6, 7, 8][..]);
    buf.extend_from_slice(&[0xee]);
    assert_eq!(CmdCodec(CmdType::Packet).decode(&mut buf).unwrap().unwrap(), cmd);
    assert_eq!(&buf[..], &[0xeeu8][..]);
}

#[test]
fn dissociate_command_is_big_endian() {
    let mut buf = BytesMut::new();
    CmdCodec(CmdType::Dissociate).encode(Command::Dissociate { assoc_id: 0xabcd }, &mut buf).unwrap();
    assert_eq!(&buf[..], &[0xabu8, 0xcd][..]);
    assert_eq!(
        CmdCodec(CmdType::Dissociate).decode(&mut buf).unwrap().unwrap(),
        Command::Dissociate { assoc_id: 0xabcd }
    );
}

#[test]
fn command_of_unknown_type_is_rejected() {
    let mut buf = BytesMut::from(&[1u8, 2, 3][..]);
    assert_eq!(
        CmdCodec(CmdType::Other(9)).decode(&mut buf).unwrap_err(),
        ProtoError::UnknownCommandType { value: 9 }
    );
    assert_eq!(buf.len(), 3);
}

#[test]
fn commands_without_fields_read_nothing() {
    let mut buf = BytesMut::from(&[1u8, 2, 3][..]);
    assert_eq!(CmdCodec(CmdType::Connect).decode(&mut buf).unwrap().unwrap(), Command::Connect);
    assert_eq!(CmdCodec(CmdType::Heartbeat).decode(&mut buf).unwrap().unwrap(), Command::Heartbeat);
    assert_eq!(buf.len(), 3);
    let mut empty = BytesMut::new();
    assert_eq!(CmdCodec(CmdType::Connect).decode_eof(&mut empty).unwrap().unwrap(), Command::Connect);
}

#[test]
fn addr_test_addr_1() {
    let vars = sample_addresses();
    let mut buffer = BytesMut::with_capacity(128);
    let mut expect_len = 0;
    for var in &vars {
        match var {
            Address::Empty => expect_len = expect_len + 1,
            Address::Domain(domain, _) => expect_len = expect_len + 1 + 1 + domain.len() + 2,
            Address::IPv4(..) => expect_len = expect_len + 1 + 4 + 2,
            Address::IPv6(..) => expect_len = expect_len + 1 + 16 + 2,
        }
        AddressCodec.encode(var.clone(), &mut buffer).unwrap();
        assert_eq!(buffer.len(), expect_len);
    }
    for var in vars {
        let frame = AddressCodec.decode(&mut buffer).unwrap().unwrap();
        assert_eq!(var, frame);
    }
    assert_eq!(buffer.len(), 0);
}

#[test]
fn addr_test_addr_2() {
    let vars = vec![
        Address::IPv4([127, 0, 0, 1], 80),
        Address::IPv6([0; 16], 12),
        Address::Domain(String::from("www.google.com"), 443),
    ];
    for addr in vars {
        let mut whole = BytesMut::with_capacity(128);
        AddressCodec.encode(addr.clone(), &mut whole).unwrap();
        let full_len = whole.len();
        let mut half_a = BytesMut::from(&whole[..full_len / 2]);
        assert!(matches!(
            AddressCodec.decode_eof(&mut half_a).unwrap_err(),
            ProtoError::BytesRemaining
        ));
        assert_eq!(AddressCodec.decode(&mut half_a).unwrap(), None);
        assert_eq!(half_a.len(), full_len / 2);
        half_a.extend_from_slice(&whole[full_len / 2..]);
        assert_eq!(AddressCodec.decode_eof(&mut half_a).unwrap().unwrap(), addr);
    }
}

#[test]
fn every_proper_prefix_asks_for_more() {
    for addr in sample_addresses() {
        let mut whole = BytesMut::new();
        AddressCodec.encode(addr.clone(), &mut whole).unwrap();
        for cut in 0..whole.len() {
            let mut part = BytesMut::from(&whole[..cut]);
            assert_eq!(AddressCodec.decode(&mut part).unwrap(), None);
            assert_eq!(part.len(), cut);
        }
    }
    for cmd in sample_commands() {
        let mut whole = BytesMut::new();
        CmdCodec((&cmd).into()).encode(cmd.clone(), &mut whole).unwrap();
        for cut in 0..whole.len() {
            let mut part = BytesMut::from(&whole[..cut]);
            assert_eq!(CmdCodec((&cmd).into()).decode(&mut part).unwrap(), None);
            assert_eq!(part.len(), cut);
        }
    }
}

#[test]
fn hex_check() {
    let vars = vec![
        Address::Empty,
        Address::IPv4([127, 0, 0, 1], 80),
        Address::IPv6([0, 0, 0, 0, 0, 0, 0, 0, 0, 0, 0, 0, 0, 0, 0, 1], 12),
        Address::Domain(String::from("www.google.com"), 443),
    ];
    let expected = [
        "ff",
        "017f0000010050",
        "0200000000000000000000000000000001000c",
        "000e7777772e676f6f676c652e636f6d01bb",
    ];
    for (var, hex_text) in vars.iter().zip(expected.iter()) {
        let mut buffer = BytesMut::new();
        AddressCodec.encode(var.clone(), &mut buffer).unwrap();
        assert_eq!(hex::encode(&buffer), *hex_text);
    }
}

#[test]
fn hex_check_connect_encode() {
    let mut buffer = BytesMut::with_capacity(9);
    let addr = Address::IPv4([127, 0, 0, 1], 80);
    HeaderCodec.encode(Header::new(CmdType::Connect), &mut buffer).unwrap();
    CmdCodec(CmdType::Connect).encode(Command::Connect, &mut buffer).unwrap();
    AddressCodec.encode(addr, &mut buffer).unwrap();
    assert_eq!("0501017f0000010050", hex::encode(buffer));
}

#[test]
fn hex_check_auth_encode() {
    let auth_cmd = Command::Auth { uuid: Uuid::from_u128(0).into_bytes(), token: [1u8; 32] };
    let mut buf = BytesMut::with_capacity(50);
    HeaderCodec.encode(Header::new(CmdType::Auth), &mut buf).unwrap();
    CmdCodec(CmdType::Auth).encode(auth_cmd, &mut buf).unwrap();
    assert_eq!(
        "0500000000000000000000000000000000000101010101010101010101010101010101010101010101010101010101010101",
        hex::encode(buf)
    );
}

#[test]
fn encode_appends_to_what_is_there() {
    let mut buf = BytesMut::from(&[0xaau8][..]);
    HeaderCodec.encode(Header::new(CmdType::Heartbeat), &mut buf).unwrap();
    AddressCodec.encode(Address::Empty, &mut buf).unwrap();
    assert_eq!(&buf[..], &[0xaau8, 5, 4, 0xff][..]);
}

#[test]
fn unknown_address_type_is_rejected_and_left() {
    let mut buf = BytesMut::from(&[3u8, 1, 2][..]);
    assert_eq!(
        AddressCodec.decode(&mut buf).unwrap_err(),
        ProtoError::UnknownAddressType { value: 3 }
    );
    assert_eq!(buf.len(), 3);
}

#[test]
fn domain_that_is_not_utf8_is_reported_in_hex() {
    let mut buf = BytesMut::from(&[0u8, 3, 0xff, 0xfe, 0x41, 0x01, 0xbb, 0x77][..]);
    assert_eq!(
        AddressCodec.decode(&mut buf).unwrap_err(),
        ProtoError::InvalidDomain { hex: String::from("fffe41") }
    );
    assert_eq!(&buf[..], &[0xffu8, 0xfe, 0x41, 0x01, 0xbb, 0x77][..]);
}

#[test]
fn domain_of_255_bytes_round_trips() {
    let name = "a".repeat(255);
    let addr = Address::Domain(name.clone(), 65535);
    let mut buf = BytesMut::new();
    AddressCodec.encode(addr.clone(), &mut buf).unwrap();
    assert_eq!(buf.len(), 4 + 255);
    assert_eq!(buf[1], 255);
    assert_eq!(AddressCodec.decode(&mut buf).unwrap().unwrap(), addr);
}

#[test]
fn domain_of_256_bytes_is_too_long() {
    let name = "a".repeat(256);
    let mut buf = BytesMut::from(&[7u8][..]);
    assert_eq!(
        AddressCodec.encode(Address::Domain(name.clone(), 1), &mut buf).unwrap_err(),
        ProtoError::DomainTooLong { domain: name }
    );
    assert_eq!(&buf[..], &[7u8][..]);
}

#[test]
fn domain_length_counts_bytes_not_characters() {
    let name = "é".repeat(128);
    assert_eq!(name.len(), 256);
    let mut buf = BytesMut::new();
    assert!(matches!(
        AddressCodec.encode(Address::Domain(name, 1), &mut buf).unwrap_err(),
        ProtoError::DomainTooLong { .. }
    ));
    let name = "é".repeat(127);
    let addr = Address::Domain(name, 443);
    AddressCodec.encode(addr.clone(), &mut buf).unwrap();
    assert_eq!(buf.len(), 4 + 254);
    assert_eq!(AddressCodec.decode(&mut buf).unwrap().unwrap(), addr);
}

#[test]
fn empty_domain_round_trips() {
    let addr = Address::Domain(String::new(), 53);
    let mut buf = BytesMut::new();
    AddressCodec.encode(addr.clone(), &mut buf).unwrap();
    assert_eq!(&buf[..], &[0u8, 0, 0, 53][..]);
    assert_eq!(AddressCodec.decode(&mut buf).unwrap().unwrap(), addr);
}

#[test]
fn decode_helpers_name_the_missing_part() {
    let mut buf = BytesMut::from(&[5u8][..]);
    assert_eq!(
        decode_header(&mut buf, "datagram").unwrap_err(),
        Error::Incomplete { part: FramePart::Header, context: String::from("datagram") }
    );
    let mut buf = BytesMut::from(&[0u8, 1][..]);
    assert_eq!(
        decode_command(CmdType::Packet, &mut buf, "uni stream").unwrap_err(),
        Error::Incomplete { part: FramePart::Command, context: String::from("uni stream") }
    );
    let mut buf = BytesMut::from(&[1u8, 127, 0][..]);
    assert_eq!(
        decode_address(&mut buf, "bi stream").unwrap_err(),
        Error::Incomplete { part: FramePart::Address, context: String::from("bi stream") }
    );
    assert_eq!(buf.len(), 3);
}

#[test]
fn decode_helpers_pass_on_frames_and_errors() {
    let mut buf = BytesMut::from(&[5u8, 2, 0, 7, 0, 8, 1, 0, 0, 3, 0xff, 1, 2, 3][..]);
    assert_eq!(decode_header(&mut buf, "t").unwrap(), Header::new(CmdType::Packet));
    assert_eq!(
        decode_command(CmdType::Packet, &mut buf, "t").unwrap(),
        Command::Packet { assoc_id: 7, pkt_id: 8, frag_total: 1, frag_id: 0, size: 3 }
    );
    assert_eq!(decode_address(&mut buf, "t").unwrap(), Address::Empty);
    assert_eq!(&buf[..], &[1u8, 2, 3][..]);
    let mut buf = BytesMut::from(&[6u8, 2][..]);
    assert_eq!(
        decode_header(&mut buf, "t").unwrap_err(),
        Error::Proto(ProtoError::VersionMismatch { expect: 5, actual: 6 })
    );
    let mut buf = BytesMut::from(&[9u8][..]);
    assert_eq!(
        decode_address(&mut buf, "t").unwrap_err(),
        Error::Proto(ProtoError::UnknownAddressType { value: 9 })
    );
    let mut buf = BytesMut::new();
    assert_eq!(
        decode_command(CmdType::Other(200), &mut buf, "t").unwrap_err(),
        Error::Proto(ProtoError::UnknownCommandType { value: 200 })
    );
}

#[test]
fn address_and_target_convert() {
    let targets = vec![
        TargetAddr::Domain(String::from("example.com"), 443),
        TargetAddr::IPv4([10, 0, 0, 1], 53),
        TargetAddr::IPv6([0x20, 1, 0xd, 0xb8, 0, 0, 0, 0, 0, 0, 0, 0, 0, 0, 0, 1], 5678),
    ];
    for target in targets {
        let address = target_address(&target);
        assert_eq!(address, Address::from(target.clone()));
        assert_eq!(address_to_target(address).unwrap(), target);
    }
    assert_eq!(address_to_target(Address::Empty).unwrap_err(), Error::NoAddress);
}

#[test]
fn frames_are_header_command_address() {
    let frame = connect_frame(&TargetAddr::IPv4([127, 0, 0, 1], 80)).unwrap();
    assert_eq!(hex::encode(&frame), "0501017f0000010050");
    let frame = auth_frame([0u8; 16], [1u8; 32]);
    assert_eq!(frame.len(), 50);
    assert_eq!(
        hex::encode(&frame),
        "0500000000000000000000000000000000000101010101010101010101010101010101010101010101010101010101010101"
    );
    assert_eq!(hex::encode(dissociate_frame(0x1234)), "05031234");
    assert_eq!(hex::encode(heartbeat_frame()), "0504");
    let frame = encode_frame(
        CmdType::Packet,
        Command::Packet { assoc_id: 1, pkt_id: 2, frag_total: 1, frag_id: 0, size: 0 },
        Some(Address::Domain(String::from("ab"), 80)),
    )
    .unwrap();
    assert_eq!(hex::encode(&frame), "05020001000201000000000261620050");
    let frame = encode_frame(CmdType::Heartbeat, Command::Heartbeat, None).unwrap();
    assert_eq!(hex::encode(&frame), "0504");
}

#[test]
fn frames_refuse_long_domains() {
    let name = "x".repeat(300);
    assert_eq!(
        connect_frame(&TargetAddr::Domain(name.clone(), 80)).unwrap_err(),
        ProtoError::DomainTooLong { domain: name.clone() }
    );
    assert_eq!(
        encode_frame(CmdType::Connect, Command::Connect, Some(Address::Domain(name.clone(), 80)))
            .unwrap_err(),
        ProtoError::DomainTooLong { domain: name }
    );
}
