use wind::address_text::{parse_port, split_host_port, target_from_parts, AddrParseError, HostPort};
use wind::types::TargetAddr;

fn parts(bracketed: bool, host: &str, port: &str) -> HostPort {
    HostPort { bracketed, host: host.to_string(), port: port.to_string() }
}

#[test]
fn test_serialize_deserialize_ipv4() {
    let addr = TargetAddr::IPv4([192, 168, 1, 1], 1234);
    let serialized = addr.to_string();
    assert_eq!(serialized, "192.168.1.1:1234");
    let split = split_host_port(&serialized).unwrap();
    assert_eq!(split, parts(false, "192.168.1.1", "1234"));
    let deserialized = target_from_parts(split, Some([192, 168, 1, 1]), None).unwrap();
    assert_eq!(deserialized, addr);
}

#[test]
fn test_serialize_deserialize_ipv6() {
    let ip = [0x20, 0x01, 0x0d, 0xb8, 0, 0, 0, 0, 0, 0, 0, 0, 0, 0, 0, 1];
    let addr = TargetAddr::IPv6(ip, 5678);
    let serialized = addr.to_string();
    assert_eq!(serialized, "[2001:db8::1]:5678");
    let split = split_host_port(&serialized).unwrap();
    assert_eq!(split, parts(true, "2001:db8::1", "5678"));
    let deserialized = target_from_parts(split, None, Some(ip)).unwrap();
    assert_eq!(deserialized, addr);
}

#[test]
fn test_serialize_deserialize_domain() {
    let addr = TargetAddr::Domain("test.org".to_string(), 80);
    let serialized = addr.to_string();
    assert_eq!(serialized, "test.org:80");
    let split = split_host_port(&serialized).unwrap();
    let deserialized = target_from_parts(split, None, None).unwrap();
    assert_eq!(deserialized, addr);
}

#[test]
fn test_deserialize_invalid_ipv6() {
    let s = "[invalid]:1234";
    let split = split_host_port(s).unwrap();
    assert_eq!(split, parts(true, "invalid", "1234"));
    let result = target_from_parts(split, None, None);
    assert!(result.is_err());
    assert_eq!(result, Err(AddrParseError::InvalidIpv6));
}

#[test]
fn test_deserialize_invalid_port() {
    let s = "127.0.0.1:notaport";
    let split = split_host_port(s).unwrap();
    let result = target_from_parts(split, Some([127, 0, 0, 1]), None);
    assert!(result.is_err());
    assert_eq!(result, Err(AddrParseError::InvalidPort));
}

#[test]
fn test_deserialize_missing_bracket() {
    let s = "[::1:8080";
    let result = split_host_port(s);
    assert!(result.is_err());
    assert_eq!(result, Err(AddrParseError::MissingBracket));
}

#[test]
fn test_deserialize_invalid_format() {
    let s = "justastring";
    let result = split_host_port(s);
    assert!(result.is_err());
    assert_eq!(result, Err(AddrParseError::InvalidFormat));
}

#[test]
fn shapes_of_text() {
    assert_eq!(split_host_port("a:1"), Ok(parts(false, "a", "1")));
    assert_eq!(split_host_port(":"), Ok(parts(false, "", "")));
    assert_eq!(split_host_port("host:"), Ok(parts(false, "host", "")));
    assert_eq!(split_host_port(":80"), Ok(parts(false, "", "80")));
    assert_eq!(split_host_port(""), Err(AddrParseError::InvalidFormat));
    assert_eq!(split_host_port("a:b:c"), Err(AddrParseError::InvalidFormat));
    assert_eq!(split_host_port("::1"), Err(AddrParseError::InvalidFormat));
    assert_eq!(split_host_port("a::"), Err(AddrParseError::InvalidFormat));
    assert_eq!(split_host_port("a]:1"), Ok(parts(false, "a]", "1")));
    assert_eq!(split_host_port("bücher.example:443"), Ok(parts(false, "bücher.example", "443")));
    assert_eq!(split_host_port("a:ü"), Ok(parts(false, "a", "ü")));
    assert_eq!(split_host_port("[::1]:8080"), Ok(parts(true, "::1", "8080")));
    assert_eq!(split_host_port("[]:1"), Ok(parts(true, "", "1")));
    assert_eq!(split_host_port("[a]:"), Ok(parts(true, "a", "")));
    assert_eq!(split_host_port("[a]:b:c]"), Ok(parts(true, "a", "b:c]")));
    assert_eq!(split_host_port("[ü]:ö"), Ok(parts(true, "ü", "ö")));
    assert_eq!(split_host_port("["), Err(AddrParseError::MissingBracket));
    assert_eq!(split_host_port("[::1"), Err(AddrParseError::MissingBracket));
    assert_eq!(split_host_port("[::1]"), Err(AddrParseError::MissingPort));
    assert_eq!(split_host_port("[::1]8080"), Err(AddrParseError::MissingPort));
    assert_eq!(split_host_port("[::1] :8080"), Err(AddrParseError::MissingPort));
    assert_eq!(split_host_port("[a]ü:1"), Err(AddrParseError::MissingPort));
}

#[test]
fn ports() {
    assert_eq!(parse_port("0"), Some(0));
    assert_eq!(parse_port("80"), Some(80));
    assert_eq!(parse_port("65535"), Some(65535));
    assert_eq!(parse_port("65536"), None);
    assert_eq!(parse_port("99999"), None);
    assert_eq!(parse_port("100000"), None);
    assert_eq!(parse_port("4294967296"), None);
    assert_eq!(parse_port("99999999999999999999999999"), None);
    assert_eq!(parse_port("00080"), Some(80));
    assert_eq!(parse_port("0000000000000000000065535"), Some(65535));
    assert_eq!(parse_port("+80"), Some(80));
    assert_eq!(parse_port("+"), None);
    assert_eq!(parse_port("++80"), None);
    assert_eq!(parse_port("-80"), None);
    assert_eq!(parse_port("-0"), None);
    assert_eq!(parse_port(""), None);
    assert_eq!(parse_port(" 80"), None);
    assert_eq!(parse_port("80 "), None);
    assert_eq!(parse_port("8a"), None);
    assert_eq!(parse_port("65536x"), None);
    assert_eq!(parse_port("0x50"), None);
    assert_eq!(parse_port("８０"), None);
    assert_eq!(parse_port("notaport"), None);
}

#[test]
fn ports_as_the_number_parser_reads_them() {
    for text in ["0", "7", "+7", "007", "65535", "65536", "", "+", "-1", "1e3", " 1", "70000", "١٢"] {
        assert_eq!(parse_port(text), text.parse::<u16>().ok(), "{:?}", text);
    }
    for n in 0..=70000u32 {
        let text = n.to_string();
        assert_eq!(parse_port(&text), text.parse::<u16>().ok());
    }
}

#[test]
fn targets_from_parts() {
    assert_eq!(
        target_from_parts(parts(false, "example.com", "443"), None, None),
        Ok(TargetAddr::Domain("example.com".to_string(), 443))
    );
    assert_eq!(
        target_from_parts(parts(false, "10.0.0.1", "+53"), Some([10, 0, 0, 1]), None),
        Ok(TargetAddr::IPv4([10, 0, 0, 1], 53))
    );
    assert_eq!(
        target_from_parts(parts(false, "::1", "53"), None, Some([0; 16])),
        Ok(TargetAddr::Domain("::1".to_string(), 53))
    );
    assert_eq!(
        target_from_parts(parts(true, "::", "53"), Some([1, 2, 3, 4]), Some([0; 16])),
        Ok(TargetAddr::IPv6([0; 16], 53))
    );
    assert_eq!(
        target_from_parts(parts(true, "1.2.3.4", "53"), Some([1, 2, 3, 4]), None),
        Err(AddrParseError::InvalidIpv6)
    );
    assert_eq!(
        target_from_parts(parts(true, "nonsense", "nonsense"), None, None),
        Err(AddrParseError::InvalidIpv6)
    );
    assert_eq!(
        target_from_parts(parts(true, "::", "65536"), None, Some([0; 16])),
        Err(AddrParseError::InvalidPort)
    );
    assert_eq!(
        target_from_parts(parts(false, "example.com", ""), None, None),
        Err(AddrParseError::InvalidPort)
    );
    assert_eq!(
        target_from_parts(parts(false, "", "1"), None, None),
        Ok(TargetAddr::Domain(String::new(), 1))
    );
}
