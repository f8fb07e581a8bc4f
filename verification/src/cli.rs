//! Command-line values as plain data, the port validator, and the
//! normalisation step that lets a trailing numeric argument stand for the
//! port when no hostname is wanted.

use vstd::prelude::*;

use crate::text::{dec_u16, dec_val, is_dec_str, is_dec_string};

verus! {

/// The mutually exclusive IP-version restriction flags.
#[derive(Clone, Copy, Debug, PartialEq, Eq)]
pub struct Ipvs {
    /// Use IPv4 only.
    pub ipv4: bool,
    /// Use IPv6 only.
    pub ipv6: bool,
}

/// The command-line inputs that the core works from.
#[derive(Clone, Debug, PartialEq, Eq)]
pub struct Cli {
    pub ipvs: Ipvs,
    /// Bind and listen for incoming connections.
    pub listen: bool,
    /// Accept multiple connections in listen mode.
    pub keep_open: bool,
    /// Hostname or IP address to connect to.
    pub hostname: Option<String>,
    /// Port number to connect to or listen on.
    pub port: Option<u16>,
}

/// Why a port argument was rejected.
#[derive(Clone, Copy, Debug, PartialEq, Eq)]
pub enum PortParseError {
    /// The argument is not a run of decimal digits.
    NotANumber,
    /// The value is zero or exceeds 65535.
    OutOfRange,
}

/// Validates a port argument: a decimal numeral whose value lies in
/// `1..=65535`.
pub fn port_in_range(s: &str) -> (r: Result<u16, PortParseError>)
    ensures
        match r {
            Ok(p) => is_dec_string(s@) && dec_val(s@) == p as int && 1 <= p,
            Err(e) => match e {
                PortParseError::NotANumber => !is_dec_string(s@),
                PortParseError::OutOfRange => is_dec_string(s@) && (dec_val(s@) == 0
                    || dec_val(s@) > 65535),
            },
        },
{
    if !is_dec_str(s) {
        return Err(PortParseError::NotANumber);
    }
    match dec_u16(s) {
        Some(p) => {
            if p == 0 {
                Err(PortParseError::OutOfRange)
            } else {
                Ok(p)
            }
        },
        None => Err(PortParseError::OutOfRange),
    }
}

/// Law: a decimal numeral whose value lies in `1..=65535` is accepted and
/// round-trips exactly; a numeral reading zero or past 65535 is rejected as
/// out of range; anything else is rejected as not a number.  The premise is
/// exactly what `port_in_range` ensures.
pub proof fn lemma_port_round_trip(r: Result<u16, PortParseError>, s: Seq<char>)
    requires
        match r {
            Ok(p) => is_dec_string(s) && dec_val(s) == p as int && 1 <= p,
            Err(e) => match e {
                PortParseError::NotANumber => !is_dec_string(s),
                PortParseError::OutOfRange => is_dec_string(s) && (dec_val(s) == 0 || dec_val(s)
                    > 65535),
            },
        },
    ensures
        (is_dec_string(s) && 1 <= dec_val(s) <= 65535) ==> (r matches Ok(p) && p as int
            == dec_val(s)),
        (is_dec_string(s) && (dec_val(s) == 0 || dec_val(s) > 65535)) ==> r is Err,
        !is_dec_string(s) ==> r == Err::<u16, PortParseError>(PortParseError::NotANumber),
{
}

/// The hostname argument stands for a port: listen mode, no port given, and
/// the hostname is a decimal numeral that fits in sixteen bits.
pub open spec fn reorder_applies(c: Cli) -> bool {
    &&& c.listen
    &&& c.port is None
    &&& match c.hostname {
        Some(h) => is_dec_string(h@) && dec_val(h@) <= 65535,
        None => false,
    }
}

/// The command-line values after normalisation: when `reorder_applies`, the
/// numeric hostname moves into the port position.
pub open spec fn spec_reorder(c: Cli) -> Cli {
    if reorder_applies(c) {
        Cli {
            hostname: None,
            port: Some(dec_val(c.hostname.unwrap()@) as u16),
            ..c
        }
    } else {
        c
    }
}

impl Cli {
    /// Moves a numeric hostname into the port position in listen mode, as
    /// `spec_reorder` describes.
    pub fn reorder(&mut self)
        ensures
            *final(self) == spec_reorder(*old(self)),
    {
        if !self.listen || !self.port.is_none() {
            return ;
        }
        let parsed = match &self.hostname {
            Some(h) => dec_u16(h.as_str()),
            None => None,
        };
        if let Some(p) = parsed {
            self.hostname = None;
            self.port = Some(p);
        }
    }
}

/// The application state: the normalised command-line values.
#[derive(Clone, Debug, PartialEq, Eq)]
pub struct App {
    pub cli: Cli,
}

impl App {
    /// Builds the application state from parsed command-line values,
    /// normalising them as `spec_reorder` describes.
    pub fn new(cli: Cli) -> (a: App)
        ensures
            a.cli == spec_reorder(cli),
    {
        let mut cli = cli;
        cli.reorder();
        App { cli }
    }
}

/// The application banner: "name (homepage) version".
pub fn print_info(name: &str, homepage: &str, version: &str) -> (r: String)
    ensures
        r@ == name@ + " ("@ + homepage@ + ") "@ + version@,
{
    let mut r = String::from_str(name);
    r.append(" (");
    r.append(homepage);
    r.append(") ");
    r.append(version);
    proof {
        assert(r@ =~= name@ + " ("@ + homepage@ + ") "@ + version@);
    }
    r
}

} // verus!
