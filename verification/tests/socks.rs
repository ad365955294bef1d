use wind::cli::ConfigFormat;
use wind::socks::{parse_udp_request, unwrap_datagram, UdpHeaderError, UdpRequest, Unwrapped};
use wind::types::TargetAddr;
use wind::udp::{local_destination, DomainTargetOnInbound, IpEndpoint, UdpPacket};

#[test]
fn udp_request_for_ipv4() {
    let data = [0u8, 0, 7, 1, 10, 1, 2, 3, 0x1f, 0x90, b'h', b'i'];
    assert_eq!(
        parse_udp_request(&data),
        Ok(UdpRequest { frag: 7, target: TargetAddr::IPv4([10, 1, 2, 3], 8080), payload_offset: 10 })
    );
    assert_eq!(&data[10..], b"hi");
}

#[test]
fn udp_request_for_ipv6() {
    let mut data = vec![0u8, 0, 0, 4];
    let ip: [u8; 16] = [0x20, 0x01, 0x0d, 0xb8, 0, 0, 0, 0, 0, 0, 0, 0, 0, 0, 0, 1];
    data.extend_from_slice(&ip);
    data.extend_from_slice(&[0x01, 0xbb]);
    assert_eq!(
        parse_udp_request(&data),
        Ok(UdpRequest { frag: 0, target: TargetAddr::IPv6(ip, 443), payload_offset: 22 })
    );
    data.extend_from_slice(b"payload");
    assert_eq!(parse_udp_request(&data).unwrap().payload_offset, 22);
}

#[test]
fn udp_request_for_domain() {
    let mut data = vec![0u8, 0, 1, 3, 11];
    data.extend_from_slice(b"example.com");
    data.extend_from_slice(&[0, 53]);
    data.extend_from_slice(b"query");
    assert_eq!(
        parse_udp_request(&data),
        Ok(UdpRequest {
            frag: 1,
            target: TargetAddr::Domain(String::from("example.com"), 53),
            payload_offset: 18,
        })
    );
    let data = [0u8, 0, 0, 3, 0, 0x12, 0x34];
    assert_eq!(
        parse_udp_request(&data),
        Ok(UdpRequest { frag: 0, target: TargetAddr::Domain(String::new(), 0x1234), payload_offset: 7 })
    );
}

#[test]
fn udp_request_domain_that_is_not_utf8_is_patched() {
    let data = [0u8, 0, 0, 3, 3, b'a', 0xff, b'b', 0, 80];
    assert_eq!(
        parse_udp_request(&data),
        Ok(UdpRequest {
            frag: 0,
            target: TargetAddr::Domain(String::from("a\u{fffd}b"), 80),
            payload_offset: 10,
        })
    );
}

#[test]
fn udp_request_errors() {
    assert_eq!(parse_udp_request(&[]), Err(UdpHeaderError::TooShort));
    assert_eq!(parse_udp_request(&[0, 0, 0]), Err(UdpHeaderError::TooShort));
    assert_eq!(parse_udp_request(&[1, 0, 0, 1]), Err(UdpHeaderError::InvalidReserved));
    assert_eq!(parse_udp_request(&[0, 1, 0, 1]), Err(UdpHeaderError::InvalidReserved));
    assert_eq!(parse_udp_request(&[0, 0, 0, 1]), Err(UdpHeaderError::IncompleteIpv4));
    assert_eq!(parse_udp_request(&[0, 0, 0, 1, 1, 2, 3, 4, 5]), Err(UdpHeaderError::IncompleteIpv4));
    assert_eq!(parse_udp_request(&[0, 0, 0, 3]), Err(UdpHeaderError::IncompleteDomainLength));
    assert_eq!(parse_udp_request(&[0, 0, 0, 3, 2, b'a', b'b', 0]), Err(UdpHeaderError::IncompleteDomain));
    assert_eq!(parse_udp_request(&[0, 0, 0, 3, 1]), Err(UdpHeaderError::IncompleteDomain));
    assert_eq!(parse_udp_request(&[0u8; 21][..]).map(|_| ()), Err(UdpHeaderError::UnsupportedAddressType { atyp: 0 }));
    let mut short_v6 = vec![0u8, 0, 0, 4];
    short_v6.extend_from_slice(&[0u8; 17]);
    assert_eq!(parse_udp_request(&short_v6), Err(UdpHeaderError::IncompleteIpv6));
    assert_eq!(parse_udp_request(&[0, 0, 0, 2, 0, 0]), Err(UdpHeaderError::UnsupportedAddressType { atyp: 2 }));
    assert_eq!(parse_udp_request(&[0, 0, 0, 0xff]), Err(UdpHeaderError::UnsupportedAddressType { atyp: 0xff }));
}

#[test]
fn datagram_with_header_loses_it() {
    let data = [0u8, 0, 0, 1, 10, 1, 2, 3, 0, 80, b'a', b'b', b'c'];
    assert_eq!(
        unwrap_datagram(&data, 100),
        Unwrapped { offset: 10, len: 3, destination: Some(TargetAddr::IPv4([10, 1, 2, 3], 80)) }
    );
    assert_eq!(
        unwrap_datagram(&data, 2),
        Unwrapped { offset: 10, len: 2, destination: Some(TargetAddr::IPv4([10, 1, 2, 3], 80)) }
    );
    assert_eq!(
        unwrap_datagram(&data[..10], 100),
        Unwrapped { offset: 10, len: 0, destination: Some(TargetAddr::IPv4([10, 1, 2, 3], 80)) }
    );
}

#[test]
fn datagram_without_header_is_passed_whole() {
    let data = [9u8, 9, 9, 9, 9];
    assert_eq!(unwrap_datagram(&data, 100), Unwrapped { offset: 0, len: 5, destination: None });
    assert_eq!(unwrap_datagram(&data, 3), Unwrapped { offset: 0, len: 3, destination: None });
    assert_eq!(unwrap_datagram(&data, 0), Unwrapped { offset: 0, len: 0, destination: None });
    assert_eq!(unwrap_datagram(&[], 10), Unwrapped { offset: 0, len: 0, destination: None });
}

#[test]
fn local_sockets_take_ip_targets_only() {
    let v4 = UdpPacket { source: None, target: TargetAddr::IPv4([1, 2, 3, 4], 5), payload: vec![] };
    assert_eq!(local_destination(&v4), Ok(IpEndpoint::V4([1, 2, 3, 4], 5)));
    let v6 = UdpPacket { source: None, target: TargetAddr::IPv6([7; 16], 8), payload: vec![] };
    assert_eq!(local_destination(&v6), Ok(IpEndpoint::V6([7; 16], 8)));
    let name = UdpPacket { source: None, target: TargetAddr::Domain(String::from("a.example"), 9), payload: vec![] };
    assert_eq!(
        local_destination(&name),
        Err(DomainTargetOnInbound { domain: String::from("a.example"), port: 9 })
    );
}

#[test]
fn configuration_format_goes_by_the_file_name() {
    assert_eq!(ConfigFormat::for_path("config.toml"), ConfigFormat::Toml);
    assert_eq!(ConfigFormat::for_path("config.yaml"), ConfigFormat::Yaml);
    assert_eq!(ConfigFormat::for_path("config.yml"), ConfigFormat::Yaml);
    assert_eq!(ConfigFormat::for_path("/etc/wind/settings"), ConfigFormat::Toml);
    assert_eq!(ConfigFormat::for_path(""), ConfigFormat::Toml);
    assert_eq!(ConfigFormat::for_path("yaml"), ConfigFormat::Toml);
    assert_eq!(ConfigFormat::for_path(".yml"), ConfigFormat::Yaml);
    assert_eq!(ConfigFormat::for_path("a.YAML"), ConfigFormat::Toml);
    assert_eq!(ConfigFormat::for_path("a.yaml.toml"), ConfigFormat::Toml);
    assert_eq!(ConfigFormat::for_path("a.toml.yaml"), ConfigFormat::Yaml);
    assert_eq!(ConfigFormat::for_path("a.yaml "), ConfigFormat::Toml);
}
