//! Endpoint resolution: turns the command-line inputs into a bindable or
//! dialable endpoint, applying the port default, the listen-mode fallback
//! address and the IP-version restriction.

use vstd::prelude::*;

use crate::addr::{
    is_ipv4_literal, is_unspecified_v4, is_unspecified_v6, is_v4_shaped, is_v6_shaped,
    spec_ipv6_groups, unspecified_v4, unspecified_v6, IpAddress,
};
use crate::cli::Cli;
use crate::parse::{
    bad_kind, hostname_bad, hostname_ok, parse_hostname, parse_port, spec_parse_port, AddrKind,
    HostParseError, Hostname,
};

verus! {

/// The IP-version restriction chosen on the command line.
#[derive(Clone, Copy, Debug, PartialEq, Eq)]
pub enum FamilyPref {
    Any,
    V4Only,
    V6Only,
}

/// A resolved endpoint: the host to bind or dial, the port, and the
/// IP-version restriction that any later name lookup must respect.
#[derive(Clone, Debug, PartialEq, Eq)]
pub struct Endpoint {
    pub host: Hostname,
    pub port: u16,
    pub family: FamilyPref,
}

pub open spec fn spec_pref(ipv4_only: bool, ipv6_only: bool) -> FamilyPref {
    if ipv4_only {
        FamilyPref::V4Only
    } else if ipv6_only {
        FamilyPref::V6Only
    } else {
        FamilyPref::Any
    }
}

/// The string `s` parses as an IPv4 literal.
pub open spec fn literal_is_v4(s: Seq<char>) -> bool {
    !is_v6_shaped(s) && is_v4_shaped(s) && is_ipv4_literal(s)
}

/// The string `s` parses as an IPv6 literal.
pub open spec fn literal_is_v6(s: Seq<char>) -> bool {
    is_v6_shaped(s) && spec_ipv6_groups(s) is Some
}

/// The literal address in `s` belongs to the family that the flags exclude.
pub open spec fn literal_excluded(s: Seq<char>, ipv4_only: bool, ipv6_only: bool) -> bool {
    (ipv4_only && literal_is_v6(s)) || (ipv6_only && literal_is_v4(s))
}

/// What a successful resolution returns.
pub open spec fn resolve_ok(
    ep: Endpoint,
    listen: bool,
    hostname: &Option<String>,
    port: Option<u16>,
    ipv4_only: bool,
    ipv6_only: bool,
) -> bool {
    &&& ep.port == spec_parse_port(port)
    &&& ep.family == spec_pref(ipv4_only, ipv6_only)
    &&& match hostname {
        Some(hs) => hostname_ok(ep.host, hs@) && !literal_excluded(hs@, ipv4_only, ipv6_only),
        None => listen && (ep.host matches Hostname::Addr(ip) && (if ipv4_only {
            is_unspecified_v4(ip)
        } else {
            is_unspecified_v6(ip)
        })),
    }
}

/// What a failed resolution returns.
pub open spec fn resolve_err(
    e: HostParseError,
    listen: bool,
    hostname: &Option<String>,
    ipv4_only: bool,
    ipv6_only: bool,
) -> bool {
    match hostname {
        Some(hs) => (hostname_bad(hs@) && e == HostParseError::AddrParse(bad_kind(hs@))) || (
        literal_excluded(hs@, ipv4_only, ipv6_only) && e == HostParseError::IpVersionMismatch),
        None => !listen && e == HostParseError::NoHostName,
    }
}

/// Resolves the command-line inputs into an endpoint.
///
/// The port defaults to 31337.  Without a hostname, listen mode binds the
/// unspecified address of the selected family (IPv6 unless IPv4 alone is
/// allowed) and connect mode fails.  A hostname that reads as a literal
/// address must parse and must belong to an allowed family; any other
/// hostname is kept as a symbolic name whose lookup happens at connect or
/// bind time, filtered by `select_first_allowed`.
pub fn resolve(
    listen: bool,
    hostname: &Option<String>,
    port: Option<u16>,
    ipv4_only: bool,
    ipv6_only: bool,
) -> (r: Result<Endpoint, HostParseError>)
    requires
        !(ipv4_only && ipv6_only),
    ensures
        match r {
            Ok(ep) => resolve_ok(ep, listen, hostname, port, ipv4_only, ipv6_only),
            Err(e) => resolve_err(e, listen, hostname, ipv4_only, ipv6_only),
        },
{
    let family = if ipv4_only {
        FamilyPref::V4Only
    } else if ipv6_only {
        FamilyPref::V6Only
    } else {
        FamilyPref::Any
    };
    let port = parse_port(port);
    match hostname {
        Some(_) => {
            let host = match parse_hostname(listen, hostname) {
                Ok(h) => h,
                Err(e) => {
                    return Err(e);
                },
            };
            match &host {
                Hostname::Addr(ip) => {
                    let excluded = match ip {
                        IpAddress::V4(_) => ipv6_only,
                        IpAddress::V6(_) => ipv4_only,
                    };
                    if excluded {
                        return Err(HostParseError::IpVersionMismatch);
                    }
                },
                Hostname::Name(_) => {},
            }
            Ok(Endpoint { host, port, family })
        },
        None => {
            if listen {
                let ip = if ipv4_only {
                    unspecified_v4()
                } else {
                    unspecified_v6()
                };
                Ok(Endpoint { host: Hostname::Addr(ip), port, family })
            } else {
                Err(HostParseError::NoHostName)
            }
        },
    }
}

/// Resolves from the command-line values; see `resolve`.
pub fn parse_socket_addr(cli: &Cli) -> (r: Result<Endpoint, HostParseError>)
    requires
        !(cli.ipvs.ipv4 && cli.ipvs.ipv6),
    ensures
        match r {
            Ok(ep) => resolve_ok(
                ep,
                cli.listen,
                &cli.hostname,
                cli.port,
                cli.ipvs.ipv4,
                cli.ipvs.ipv6,
            ),
            Err(e) => resolve_err(e, cli.listen, &cli.hostname, cli.ipvs.ipv4, cli.ipvs.ipv6),
        },
{
    resolve(cli.listen, &cli.hostname, cli.port, cli.ipvs.ipv4, cli.ipvs.ipv6)
}

/// Law: in connect mode without a hostname, resolution always fails with
/// `NoHostName`, whatever the port and IP-version flags.  The premise is
/// exactly what `resolve` ensures for such inputs.
pub proof fn lemma_connect_needs_hostname(
    r: Result<Endpoint, HostParseError>,
    port: Option<u16>,
    ipv4_only: bool,
    ipv6_only: bool,
)
    requires
        match r {
            Ok(ep) => resolve_ok(ep, false, &Option::<String>::None, port, ipv4_only, ipv6_only),
            Err(e) => resolve_err(e, false, &Option::<String>::None, ipv4_only, ipv6_only),
        },
    ensures
        r == Err::<Endpoint, HostParseError>(HostParseError::NoHostName),
{
}

/// Law: in listen mode without a hostname, resolution always succeeds and
/// yields the unspecified address of the selected family — IPv6 unless
/// IPv4 alone is allowed — with the port defaulting as usual.  The premise
/// is exactly what `resolve` ensures for such inputs.
pub proof fn lemma_listen_default_endpoint(
    r: Result<Endpoint, HostParseError>,
    port: Option<u16>,
    ipv4_only: bool,
    ipv6_only: bool,
)
    requires
        match r {
            Ok(ep) => resolve_ok(ep, true, &Option::<String>::None, port, ipv4_only, ipv6_only),
            Err(e) => resolve_err(e, true, &Option::<String>::None, ipv4_only, ipv6_only),
        },
    ensures
        r matches Ok(ep) && ep.port == spec_parse_port(port) && (ep.host matches Hostname::Addr(
            ip,
        ) && (if ipv4_only {
            is_unspecified_v4(ip)
        } else {
            is_unspecified_v6(ip)
        })),
{
}

/// A looked-up candidate of family `is_v4` passes the IP-version filter.
pub open spec fn family_allowed(is_v4: bool, ipv4_only: bool, ipv6_only: bool) -> bool {
    if is_v4 {
        !ipv6_only
    } else {
        !ipv4_only
    }
}

/// Picks the first name-lookup candidate whose address family passes the
/// IP-version filter; `None` means the filter eliminated every candidate
/// and resolution fails with `IpVersionMismatch`.
pub fn select_first_allowed(candidates_v4: &Vec<bool>, ipv4_only: bool, ipv6_only: bool) -> (r:
    Option<usize>)
    ensures
        match r {
            Some(i) => i < candidates_v4@.len() && family_allowed(
                candidates_v4@[i as int],
                ipv4_only,
                ipv6_only,
            ) && forall|j: int|
                0 <= j < i ==> !family_allowed(#[trigger] candidates_v4@[j], ipv4_only, ipv6_only),
            None => forall|j: int|
                0 <= j < candidates_v4@.len() ==> !family_allowed(
                    #[trigger] candidates_v4@[j],
                    ipv4_only,
                    ipv6_only,
                ),
        },
{
    let n = candidates_v4.len();
    let mut i: usize = 0;
    while i < n
        invariant
            0 <= i <= n,
            n == candidates_v4@.len(),
            forall|j: int|
                0 <= j < i ==> !family_allowed(#[trigger] candidates_v4@[j], ipv4_only, ipv6_only),
        decreases n - i,
    {
        let is_v4 = candidates_v4[i];
        let allowed = if is_v4 {
            !ipv6_only
        } else {
            !ipv4_only
        };
        if allowed {
            return Some(i);
        }
        i = i + 1;
    }
    None
}

} // verus!
