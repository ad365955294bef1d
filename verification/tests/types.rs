use wind::types::TargetAddr;

fn v6(groups: [u16; 8], port: u16) -> TargetAddr {
    let mut octets = [0u8; 16];
    for (i, group) in groups.iter().enumerate() {
        octets[2 * i] = (group >> 8) as u8;
        octets[2 * i + 1] = *group as u8;
    }
    TargetAddr::IPv6(octets, port)
}

#[test]
fn test_display_ipv4() {
    let addr = TargetAddr::IPv4([127, 0, 0, 1], 8080);
    assert_eq!(addr.to_string(), "127.0.0.1:8080");
}

#[test]
fn test_display_ipv6() {
    let addr = v6([0, 0, 0, 0, 0, 0, 0, 1], 8080);
    assert_eq!(addr.to_string(), "[::1]:8080");
}

#[test]
fn test_display_domain() {
    let addr = TargetAddr::Domain("example.com".to_string(), 443);
    assert_eq!(addr.to_string(), "example.com:443");
}

#[test]
fn ports_and_octets_in_decimal() {
    assert_eq!(TargetAddr::IPv4([0, 0, 0, 0], 0).to_string(), "0.0.0.0:0");
    assert_eq!(TargetAddr::IPv4([255, 255, 255, 255], 65535).to_string(), "255.255.255.255:65535");
    assert_eq!(TargetAddr::IPv4([192, 168, 1, 1], 1234).to_string(), "192.168.1.1:1234");
    assert_eq!(TargetAddr::IPv4([10, 20, 30, 40], 9).to_string(), "10.20.30.40:9");
    assert_eq!(TargetAddr::IPv4([1, 2, 3, 4], 10).to_string(), "1.2.3.4:10");
    assert_eq!(TargetAddr::IPv4([1, 2, 3, 4], 100).to_string(), "1.2.3.4:100");
    assert_eq!(TargetAddr::IPv4([1, 2, 3, 4], 10000).to_string(), "1.2.3.4:10000");
    assert_eq!(TargetAddr::IPv4([109, 99, 101, 200], 60009).to_string(), "109.99.101.200:60009");
    assert_eq!(TargetAddr::Domain(String::new(), 1).to_string(), ":1");
    assert_eq!(TargetAddr::Domain("test.org".to_string(), 80).to_string(), "test.org:80");
    assert_eq!(TargetAddr::Domain("bücher.example".to_string(), 80).to_string(), "bücher.example:80");
}

#[test]
fn ipv6_text_shortens_the_longest_run_of_zeros() {
    assert_eq!(v6([0x2001, 0xdb8, 0, 0, 0, 0, 0, 1], 5678).to_string(), "[2001:db8::1]:5678");
    assert_eq!(v6([0; 8], 1).to_string(), "[::]:1");
    assert_eq!(v6([1, 0, 0, 0, 0, 0, 0, 0], 1).to_string(), "[1::]:1");
    assert_eq!(v6([1, 0, 0, 2, 0, 0, 0, 3], 1).to_string(), "[1:0:0:2::3]:1");
    assert_eq!(v6([1, 0, 0, 2, 0, 0, 3, 4], 1).to_string(), "[1::2:0:0:3:4]:1");
    assert_eq!(v6([1, 0, 0, 0, 2, 0, 0, 3], 1).to_string(), "[1::2:0:0:3]:1");
    assert_eq!(v6([1, 0, 2, 3, 4, 5, 6, 7], 1).to_string(), "[1:0:2:3:4:5:6:7]:1");
    assert_eq!(v6([0, 1, 2, 3, 4, 5, 6, 7], 1).to_string(), "[0:1:2:3:4:5:6:7]:1");
    assert_eq!(v6([1, 2, 3, 4, 5, 6, 7, 0], 1).to_string(), "[1:2:3:4:5:6:7:0]:1");
    assert_eq!(v6([1, 2, 3, 4, 5, 6, 0, 0], 1).to_string(), "[1:2:3:4:5:6::]:1");
    assert_eq!(v6([0, 0, 3, 4, 5, 6, 7, 8], 1).to_string(), "[::3:4:5:6:7:8]:1");
    assert_eq!(v6([0, 1, 0, 1, 0, 1, 0, 1], 1).to_string(), "[0:1:0:1:0:1:0:1]:1");
    assert_eq!(
        v6([0xffff; 8], 1).to_string(),
        "[ffff:ffff:ffff:ffff:ffff:ffff:ffff:ffff]:1"
    );
    assert_eq!(
        v6([0xabcd, 0xef01, 0x2345, 0x6789, 0xa, 0xb0, 0xc00, 0xd000], 1).to_string(),
        "[abcd:ef01:2345:6789:a:b0:c00:d000]:1"
    );
}

#[test]
fn ipv6_address_that_stands_for_ipv4_shows_it() {
    assert_eq!(v6([0, 0, 0, 0, 0, 0xffff, 0xc0a8, 0x0001], 1).to_string(), "[::ffff:192.168.0.1]:1");
    assert_eq!(v6([0, 0, 0, 0, 0, 0xffff, 0, 0], 1).to_string(), "[::ffff:0.0.0.0]:1");
    assert_eq!(v6([0, 0, 0, 0, 0, 0xfffe, 1, 2], 1).to_string(), "[::fffe:1:2]:1");
    assert_eq!(v6([0, 0, 0, 0, 0, 0, 0x0102, 0x0304], 1).to_string(), "[::102:304]:1");
    assert_eq!(v6([0, 0, 0, 0, 1, 0xffff, 1, 2], 1).to_string(), "[::1:ffff:1:2]:1");
}
