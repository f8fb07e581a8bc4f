use rnc::addr::{parse_ipv4, parse_ipv6, IpAddress};
use rnc::cli::{Cli, Ipvs};
use rnc::parse::{parse_host_addr, parse_port, AddrKind, HostParseError, Hostname};
use rnc::resolve::{parse_socket_addr, resolve, select_first_allowed, FamilyPref};

fn cli(
    listen: bool,
    ipv4: bool,
    ipv6: bool,
    hostname: Option<&str>,
    port: Option<u16>,
) -> Cli {
    let mut c = Cli {
        ipvs: Ipvs { ipv4, ipv6 },
        listen,
        keep_open: false,
        hostname: hostname.map(|h| h.to_string()),
        port,
    };
    c.reorder();
    c
}

fn v4(a: u8, b: u8, c: u8, d: u8) -> IpAddress {
    IpAddress::V4([a, b, c, d])
}

fn v6_unspec() -> IpAddress {
    IpAddress::V6([0; 8])
}

#[test]
fn test_parse_socket_addr_1() {
    let ep = parse_socket_addr(&cli(true, false, false, Some("127.0.0.1"), Some(1234))).unwrap();

    assert_eq!(ep.host, Hostname::Addr(v4(127, 0, 0, 1)));
    assert_eq!(ep.port, 1234);
}

#[test]
fn test_parse_socket_addr_2() {
    let ep = parse_socket_addr(&cli(true, false, false, Some("127.0.0.1"), None)).unwrap();

    assert_eq!(ep.host, Hostname::Addr(v4(127, 0, 0, 1)));
    assert_eq!(ep.port, 31337);
}

#[test]
fn test_parse_socket_addr_3() {
    let ep = parse_socket_addr(&cli(true, false, false, Some("1234"), None)).unwrap();

    assert_eq!(ep.host, Hostname::Addr(v6_unspec()));
    assert_eq!(ep.port, 1234);
}

#[test]
fn test_parse_socket_addr_4() {
    let ep = parse_socket_addr(&cli(true, false, false, None, None)).unwrap();

    assert_eq!(ep.host, Hostname::Addr(v6_unspec()));
    assert_eq!(ep.port, 31337);
}

#[test]
fn test_parse_socket_addr_5() {
    let ep = parse_socket_addr(&cli(false, false, false, Some("127.0.0.1"), Some(1234))).unwrap();

    assert_eq!(ep.host, Hostname::Addr(v4(127, 0, 0, 1)));
    assert_eq!(ep.port, 1234);
}

#[test]
fn test_parse_socket_addr_6() {
    let ep = parse_socket_addr(&cli(false, false, false, Some("127.0.0.1"), None)).unwrap();

    assert_eq!(ep.host, Hostname::Addr(v4(127, 0, 0, 1)));
    assert_eq!(ep.port, 31337);
}

#[test]
fn test_parse_socket_addr_7() {
    let ep = parse_socket_addr(&cli(false, false, false, Some("localhost"), None)).unwrap();

    assert_eq!(ep.host, Hostname::Name("localhost".to_string()));
    assert_eq!(ep.port, 31337);
}

#[test]
fn test_parse_socket_addr_8() {
    let ep = parse_socket_addr(&cli(false, true, false, Some("localhost"), None)).unwrap();

    assert_eq!(ep.host, Hostname::Name("localhost".to_string()));
    assert_eq!(ep.port, 31337);
    assert_eq!(ep.family, FamilyPref::V4Only);

    // The name lookup that follows must keep only IPv4 candidates: with
    // localhost resolving to [::1, 127.0.0.1], the IPv4 one is chosen.
    let candidates_v4 = vec![false, true];
    assert_eq!(select_first_allowed(&candidates_v4, true, false), Some(1));
}

#[test]
#[should_panic(expected = "IpVersionMismatch")]
fn test_parse_socket_addr_9() {
    parse_socket_addr(&cli(false, false, true, Some("127.0.0.1"), None)).unwrap();
}

#[test]
#[should_panic(expected = "NoHostName")]
fn test_parse_socket_addr_10() {
    parse_socket_addr(&cli(false, false, false, None, None)).unwrap();
}

#[test]
fn connect_without_hostname_fails() {
    for port in [None, Some(1u16), Some(31337), Some(65535)] {
        for (ipv4, ipv6) in [(false, false), (true, false), (false, true)] {
            let r = resolve(false, &None, port, ipv4, ipv6);
            assert_eq!(r, Err(HostParseError::NoHostName));
        }
    }
}

#[test]
fn listen_without_hostname_binds_unspecified() {
    let ep = resolve(true, &None, Some(1234), false, false).unwrap();
    assert_eq!(ep.host, Hostname::Addr(v6_unspec()));
    assert_eq!(ep.port, 1234);

    let ep = resolve(true, &None, None, true, false).unwrap();
    assert_eq!(ep.host, Hostname::Addr(v4(0, 0, 0, 0)));
    assert_eq!(ep.port, 31337);

    let ep = resolve(true, &None, None, false, true).unwrap();
    assert_eq!(ep.host, Hostname::Addr(v6_unspec()));
}

#[test]
fn family_filter_on_literals() {
    let ok = resolve(true, &Some("127.0.0.1".to_string()), None, true, false).unwrap();
    assert_eq!(ok.host, Hostname::Addr(v4(127, 0, 0, 1)));

    let err = resolve(true, &Some("127.0.0.1".to_string()), None, false, true);
    assert_eq!(err, Err(HostParseError::IpVersionMismatch));

    let err = resolve(false, &Some("::1".to_string()), None, true, false);
    assert_eq!(err, Err(HostParseError::IpVersionMismatch));
}

#[test]
fn malformed_literals_are_rejected() {
    let err = resolve(false, &Some("1.2.3.256".to_string()), None, false, false);
    assert_eq!(err, Err(HostParseError::AddrParse(AddrKind::V4)));

    let err = resolve(false, &Some("1.2.3".to_string()), None, false, false);
    assert_eq!(err, Err(HostParseError::AddrParse(AddrKind::V4)));

    let err = resolve(false, &Some("::fffff".to_string()), None, false, false);
    assert_eq!(err, Err(HostParseError::AddrParse(AddrKind::V6)));

    let err = resolve(false, &Some("1:2:3:4:5:6:7:8:9".to_string()), None, false, false);
    assert_eq!(err, Err(HostParseError::AddrParse(AddrKind::V6)));
}

#[test]
fn dotted_names_stay_symbolic_only_without_digit_shape() {
    let ep = resolve(false, &Some("example.org".to_string()), None, false, false).unwrap();
    assert_eq!(ep.host, Hostname::Name("example.org".to_string()));
}

#[test]
fn parse_host_addr_matches_contract() {
    let ha = parse_host_addr(true, &Some("127.0.0.1".to_string()), Some(1234)).unwrap();
    assert_eq!(ha.hostname, Hostname::Addr(v4(127, 0, 0, 1)));
    assert_eq!(ha.port, 1234);

    let ha = parse_host_addr(true, &None, None).unwrap();
    assert_eq!(ha.hostname, Hostname::Addr(v6_unspec()));
    assert_eq!(ha.port, 31337);

    let err = parse_host_addr(false, &None, None);
    assert_eq!(err, Err(HostParseError::NoHostName));
}

#[test]
fn parse_port_defaults() {
    assert_eq!(parse_port(None), 31337);
    assert_eq!(parse_port(Some(80)), 80);
}

#[test]
fn ipv4_literal_grammar() {
    assert_eq!(parse_ipv4("0.0.0.0"), Some([0, 0, 0, 0]));
    assert_eq!(parse_ipv4("255.255.255.255"), Some([255, 255, 255, 255]));
    assert_eq!(parse_ipv4("192.168.0.1"), Some([192, 168, 0, 1]));
    assert_eq!(parse_ipv4("256.0.0.1"), None);
    assert_eq!(parse_ipv4("01.2.3.4"), None);
    assert_eq!(parse_ipv4("1.2.3"), None);
    assert_eq!(parse_ipv4("1.2.3.4.5"), None);
    assert_eq!(parse_ipv4(""), None);
    assert_eq!(parse_ipv4("1..2.3"), None);
}

#[test]
fn ipv6_literal_grammar() {
    assert_eq!(parse_ipv6("::"), Some([0; 8]));
    assert_eq!(parse_ipv6("::1"), Some([0, 0, 0, 0, 0, 0, 0, 1]));
    assert_eq!(parse_ipv6("1::"), Some([1, 0, 0, 0, 0, 0, 0, 0]));
    assert_eq!(
        parse_ipv6("2001:db8::8a2e:370:7334"),
        Some([0x2001, 0xdb8, 0, 0, 0, 0x8a2e, 0x370, 0x7334])
    );
    assert_eq!(
        parse_ipv6("1:2:3:4:5:6:7:8"),
        Some([1, 2, 3, 4, 5, 6, 7, 8])
    );
    assert_eq!(
        parse_ipv6("1:2:3:4:5:6:7::"),
        Some([1, 2, 3, 4, 5, 6, 7, 0])
    );
    assert_eq!(
        parse_ipv6("::ffff:192.168.0.1"),
        Some([0, 0, 0, 0, 0, 0xffff, 0xc0a8, 0x1])
    );
    assert_eq!(
        parse_ipv6("64:ff9b::1.2.3.4"),
        Some([0x64, 0xff9b, 0, 0, 0, 0, 0x102, 0x304])
    );
    assert_eq!(parse_ipv6("1:2:3:4:5:6:7"), None);
    assert_eq!(parse_ipv6("1:2:3:4:5:6:7:8:9"), None);
    assert_eq!(parse_ipv6("1:2:3:4:5:6:7:8::"), None);
    assert_eq!(parse_ipv6(":::"), None);
    assert_eq!(parse_ipv6(":1"), None);
    assert_eq!(parse_ipv6("1:"), None);
    assert_eq!(parse_ipv6("1::2::3"), None);
    assert_eq!(parse_ipv6("g::1"), None);
    assert_eq!(parse_ipv6("12345::1"), None);
    assert_eq!(parse_ipv6("1.2.3.4::"), None);
    assert_eq!(parse_ipv6("localhost"), None);
}

#[test]
fn select_first_allowed_filters() {
    assert_eq!(select_first_allowed(&vec![false, true, true], false, false), Some(0));
    assert_eq!(select_first_allowed(&vec![false, true, true], true, false), Some(1));
    assert_eq!(select_first_allowed(&vec![false, false], true, false), None);
    assert_eq!(select_first_allowed(&vec![true, true], false, true), None);
    assert_eq!(select_first_allowed(&vec![], false, false), None);
}
