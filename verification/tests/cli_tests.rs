use rnc::cli::{port_in_range, App, Cli, Ipvs, PortParseError};

fn cli(
    listen: bool,
    keep_open: bool,
    ipv4: bool,
    ipv6: bool,
    hostname: Option<&str>,
    port: Option<u16>,
) -> Cli {
    Cli {
        ipvs: Ipvs { ipv4, ipv6 },
        listen,
        keep_open,
        hostname: hostname.map(|h| h.to_string()),
        port,
    }
}

#[test]
fn test_port_in_range() {
    let port = port_in_range("1").unwrap();

    assert_eq!(port, 1);
}

#[test]
fn test_port_not_in_range() {
    assert_eq!(port_in_range("65536"), Err(PortParseError::OutOfRange));
}

#[test]
fn test_port_not_a_number() {
    assert_eq!(port_in_range("a"), Err(PortParseError::NotANumber));
}

#[test]
fn port_rejects_zero() {
    assert_eq!(port_in_range("0"), Err(PortParseError::OutOfRange));
}

#[test]
fn port_rejects_empty() {
    assert_eq!(port_in_range(""), Err(PortParseError::NotANumber));
}

#[test]
fn port_round_trips_exactly() {
    assert_eq!(port_in_range("65535"), Ok(65535));
    assert_eq!(port_in_range("31337"), Ok(31337));
    assert_eq!(port_in_range("007"), Ok(7));
}

#[test]
fn reorder_moves_numeric_hostname() {
    let mut c = cli(true, false, false, false, Some("1234"), None);
    c.reorder();
    assert_eq!(c.hostname, None);
    assert_eq!(c.port, Some(1234));
}

#[test]
fn reorder_keeps_real_hostname() {
    let mut c = cli(true, false, false, false, Some("example.org"), None);
    c.reorder();
    assert_eq!(c.hostname, Some("example.org".to_string()));
    assert_eq!(c.port, None);
}

#[test]
fn reorder_only_applies_in_listen_mode() {
    let mut c = cli(false, false, false, false, Some("1234"), None);
    c.reorder();
    assert_eq!(c.hostname, Some("1234".to_string()));
    assert_eq!(c.port, None);
}

#[test]
fn reorder_keeps_explicit_port() {
    let mut c = cli(true, false, false, false, Some("1234"), Some(80));
    c.reorder();
    assert_eq!(c.hostname, Some("1234".to_string()));
    assert_eq!(c.port, Some(80));
}

#[test]
fn app_new_normalises() {
    let a = App::new(cli(true, false, false, false, Some("31337"), None));
    assert_eq!(a.cli.hostname, None);
    assert_eq!(a.cli.port, Some(31337));
}

#[test]
fn banner_shape() {
    let line = rnc::cli::print_info("rnc", "https://example.org", "1.0.0");
    assert_eq!(line, "rnc (https://example.org) 1.0.0");
}
