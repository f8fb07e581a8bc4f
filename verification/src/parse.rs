//! Hostname and port parsing: a user-supplied host is a literal IP address
//! or a symbolic name to be resolved at connect or bind time.

use vstd::prelude::*;

use crate::addr::{
    is_ipv4_literal, is_unspecified_v6, is_v4_shaped, is_v6_shaped, ipv4_octets, parse_ipv4,
    parse_ipv6, spec_ipv6_groups, unspecified_v6, v4_shaped, IpAddress,
};
use crate::text::str_contains_char;

verus! {

/// A host: a symbolic name, or a literal IP address.
#[derive(Clone, Debug, PartialEq, Eq)]
pub enum Hostname {
    Name(String),
    Addr(IpAddress),
}

/// A host together with a port.
#[derive(Clone, Debug, PartialEq, Eq)]
pub struct HostAddr {
    pub hostname: Hostname,
    pub port: u16,
}

/// Which literal address grammar a malformed host fell under.
#[derive(Clone, Copy, Debug, PartialEq, Eq)]
pub enum AddrKind {
    V4,
    V6,
}

/// Why host resolution failed.
#[derive(Clone, Copy, Debug, PartialEq, Eq)]
pub enum HostParseError {
    /// The host reads as a literal address but is malformed.
    AddrParse(AddrKind),
    /// Connect mode needs a hostname and none was given.
    NoHostName,
    /// The literal address belongs to the excluded IP family.
    IpVersionMismatch,
}

/// The port to use: the given one, or 31337 when none was given.
pub open spec fn spec_parse_port(port: Option<u16>) -> u16 {
    match port {
        Some(p) => p,
        None => 31337u16,
    }
}

pub fn parse_port(port: Option<u16>) -> (r: u16)
    ensures
        r == spec_parse_port(port),
{
    match port {
        Some(p) => p,
        None => 31337,
    }
}

/// `h` is the host that the string `s` denotes: a literal address when `s`
/// reads as one, a symbolic name otherwise.
pub open spec fn hostname_ok(h: Hostname, s: Seq<char>) -> bool {
    if is_v6_shaped(s) {
        match spec_ipv6_groups(s) {
            Some(g) => h matches Hostname::Addr(ip) && ip matches IpAddress::V6(gs)
                && gs@.map_values(|x: u16| x as int) == g,
            None => false,
        }
    } else if is_v4_shaped(s) {
        if is_ipv4_literal(s) {
            h matches Hostname::Addr(ip) && ip matches IpAddress::V4(o) && o@.map_values(
                |x: u8| x as int,
            ) == ipv4_octets(s)
        } else {
            false
        }
    } else {
        h matches Hostname::Name(n) && n@ == s
    }
}

/// The string `s` reads as a literal address but is malformed.
pub open spec fn hostname_bad(s: Seq<char>) -> bool {
    if is_v6_shaped(s) {
        spec_ipv6_groups(s) is None
    } else {
        is_v4_shaped(s) && !is_ipv4_literal(s)
    }
}

/// Which grammar a malformed host fell under.
pub open spec fn bad_kind(s: Seq<char>) -> AddrKind {
    if is_v6_shaped(s) {
        AddrKind::V6
    } else {
        AddrKind::V4
    }
}

/// What a successful host parse returns for the given inputs.
pub open spec fn spec_hostname_ok(h: Hostname, listen: bool, hostname: &Option<String>) -> bool {
    match hostname {
        Some(hs) => hostname_ok(h, hs@),
        None => listen && (h matches Hostname::Addr(ip) && is_unspecified_v6(ip)),
    }
}

/// What a failed host parse returns for the given inputs.
pub open spec fn spec_hostname_err(e: HostParseError, listen: bool, hostname: &Option<String>) -> bool {
    match hostname {
        Some(hs) => hostname_bad(hs@) && e == HostParseError::AddrParse(bad_kind(hs@)),
        None => !listen && e == HostParseError::NoHostName,
    }
}

/// Parses the host string: a literal IPv6 address when it contains a colon,
/// a literal IPv4 address when it is made of digits and dots, and a symbolic
/// name otherwise.  Without a host string, listen mode falls back to the
/// IPv6 unspecified address and connect mode fails.
pub fn parse_hostname(listen: bool, hostname: &Option<String>) -> (r: Result<
    Hostname,
    HostParseError,
>)
    ensures
        match r {
            Ok(h) => spec_hostname_ok(h, listen, hostname),
            Err(e) => spec_hostname_err(e, listen, hostname),
        },
{
    match hostname {
        Some(hs) => {
            let s = hs.as_str();
            if str_contains_char(s, ':') {
                match parse_ipv6(s) {
                    Some(g) => Ok(Hostname::Addr(IpAddress::V6(g))),
                    None => Err(HostParseError::AddrParse(AddrKind::V6)),
                }
            } else if v4_shaped(s) {
                match parse_ipv4(s) {
                    Some(o) => Ok(Hostname::Addr(IpAddress::V4(o))),
                    None => Err(HostParseError::AddrParse(AddrKind::V4)),
                }
            } else {
                Ok(Hostname::Name(hs.clone()))
            }
        },
        None => {
            if listen {
                Ok(Hostname::Addr(unspecified_v6()))
            } else {
                Err(HostParseError::NoHostName)
            }
        },
    }
}

/// Parses host and port together; see `parse_hostname` and `parse_port`.
pub fn parse_host_addr(listen: bool, hostname: &Option<String>, port: Option<u16>) -> (r: Result<
    HostAddr,
    HostParseError,
>)
    ensures
        match r {
            Ok(ha) => spec_hostname_ok(ha.hostname, listen, hostname) && ha.port
                == spec_parse_port(port),
            Err(e) => spec_hostname_err(e, listen, hostname),
        },
{
    match parse_hostname(listen, hostname) {
        Ok(h) => Ok(HostAddr { hostname: h, port: parse_port(port) }),
        Err(e) => Err(e),
    }
}

} // verus!
