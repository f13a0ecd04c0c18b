//! IP addresses and prefixes as plain octets, and the prefix policy that
//! decides whether a source address may be used by an instance.

use vstd::arithmetic::power2::pow2;
use vstd::prelude::*;

verus! {

/// An IP address as its octets, most significant first.
#[derive(Clone, Copy, Debug, PartialEq, Eq)]
pub enum IpAddress {
    V4([u8; 4]),
    V6([u8; 16]),
}

impl IpAddress {
    pub open spec fn octets(self) -> Seq<u8> {
        match self {
            IpAddress::V4(a) => a@,
            IpAddress::V6(a) => a@,
        }
    }
}

/// The unsigned integer that a sequence of octets spells, most significant first.
pub open spec fn octets_value(s: Seq<u8>) -> nat
    decreases s.len(),
{
    if s.len() == 0 {
        0
    } else {
        octets_value(s.drop_last()) * 256 + s.last() as nat
    }
}

/// Whether the leading `len` bits of `addr` are those of `net`.
pub open spec fn prefix_matches(net: Seq<u8>, len: nat, addr: Seq<u8>) -> bool {
    let host_bits = (8 * net.len() - len) as nat;
    octets_value(addr) / pow2(host_bits) == octets_value(net) / pow2(host_bits)
}

/// An IPv4 prefix: an address and the number of leading bits that count.
#[derive(Clone, Copy, Debug, PartialEq, Eq)]
pub struct Ipv4Prefix {
    pub addr: [u8; 4],
    pub prefix_len: u8,
}

/// An IPv6 prefix: an address and the number of leading bits that count.
#[derive(Clone, Copy, Debug, PartialEq, Eq)]
pub struct Ipv6Prefix {
    pub addr: [u8; 16],
    pub prefix_len: u8,
}

/// The octets of the address that a text spells, if it spells one.
pub uninterp spec fn ip_octets_of(s: Seq<char>) -> Option<Seq<u8>>;

/// The address and prefix length of the IPv4 prefix that a text spells.
pub uninterp spec fn ipv4_net_of(s: Seq<char>) -> Option<(Seq<u8>, u8)>;

/// The address and prefix length of the IPv6 prefix that a text spells.
pub uninterp spec fn ipv6_net_of(s: Seq<char>) -> Option<(Seq<u8>, u8)>;

/// Relies on `<core::net::IpAddr as FromStr>::from_str`: the textual form of
/// an IPv4 or IPv6 address, read into its octets.
#[verifier::external_body]
pub(crate) fn parse_ip_address(s: &str) -> (r: Option<IpAddress>)
    ensures
        r is Some <==> ip_octets_of(s@) is Some,
        r is Some ==> ip_octets_of(s@) == Some(r->0.octets()),
{
    match s.parse::<core::net::IpAddr>() {
        Ok(core::net::IpAddr::V4(a)) => Some(IpAddress::V4(a.octets())),
        Ok(core::net::IpAddr::V6(a)) => Some(IpAddress::V6(a.octets())),
        Err(_) => None,
    }
}

/// Relies on `<ipnet::Ipv4Net as FromStr>::from_str`, whose parser reads a
/// prefix length of at most 32.
#[verifier::external_body]
pub(crate) fn parse_ipv4_prefix(s: &str) -> (r: Option<Ipv4Prefix>)
    ensures
        r is Some <==> ipv4_net_of(s@) is Some,
        r is Some ==> ipv4_net_of(s@) == Some((r->0.addr@, r->0.prefix_len)),
        r is Some ==> r->0.prefix_len <= 32,
{
    match s.parse::<ipnet::Ipv4Net>() {
        Ok(n) => Some(Ipv4Prefix { addr: n.addr().octets(), prefix_len: n.prefix_len() }),
        Err(_) => None,
    }
}

/// Relies on `<ipnet::Ipv6Net as FromStr>::from_str`, whose parser reads a
/// prefix length of at most 128.
#[verifier::external_body]
pub(crate) fn parse_ipv6_prefix(s: &str) -> (r: Option<Ipv6Prefix>)
    ensures
        r is Some <==> ipv6_net_of(s@) is Some,
        r is Some ==> ipv6_net_of(s@) == Some((r->0.addr@, r->0.prefix_len)),
        r is Some ==> r->0.prefix_len <= 128,
{
    match s.parse::<ipnet::Ipv6Net>() {
        Ok(n) => Some(Ipv6Prefix { addr: n.addr().octets(), prefix_len: n.prefix_len() }),
        Err(_) => None,
    }
}

/// Relies on `ipnet::Ipv4Net::contains` for an address: `network() <= a` and
/// `a <= broadcast()`, that is the leading `prefix_len` bits agree.
#[verifier::external_body]
pub(crate) fn ipv4_prefix_contains(p: &Ipv4Prefix, a: &[u8; 4]) -> (r: bool)
    requires
        p.prefix_len <= 32,
    ensures
        r == prefix_matches(p.addr@, p.prefix_len as nat, a@),
{
    let a = core::net::Ipv4Addr::from(*a);
    match ipnet::Ipv4Net::new(core::net::Ipv4Addr::from(p.addr), p.prefix_len) {
        Ok(n) => n.contains(&a),
        Err(_) => false,
    }
}

/// Relies on `ipnet::Ipv6Net::contains` for an address: `network() <= a` and
/// `a <= broadcast()`, that is the leading `prefix_len` bits agree.
#[verifier::external_body]
pub(crate) fn ipv6_prefix_contains(p: &Ipv6Prefix, a: &[u8; 16]) -> (r: bool)
    requires
        p.prefix_len <= 128,
    ensures
        r == prefix_matches(p.addr@, p.prefix_len as nat, a@),
{
    let a = core::net::Ipv6Addr::from(*a);
    match ipnet::Ipv6Net::new(core::net::Ipv6Addr::from(p.addr), p.prefix_len) {
        Ok(n) => n.contains(&a),
        Err(_) => false,
    }
}

/// Why a source address is refused by an instance's prefix policy.
#[derive(Clone, Copy, Debug, PartialEq, Eq)]
pub enum PrefixError {
    InvalidAddress,
    NoIpv4Prefix,
    InvalidIpv4Prefix,
    OutsideIpv4Prefix,
    NoIpv6Prefix,
    InvalidIpv6Prefix,
    OutsideIpv6Prefix,
}

pub open spec fn option_view(o: Option<String>) -> Option<Seq<char>> {
    match o {
        Some(s) => Some(s@),
        None => None,
    }
}

/// The verdict of the prefix policy on the address that `ip` spells, under
/// the optional IPv4 and IPv6 prefixes that `v4` and `v6` spell.
pub open spec fn prefix_verdict(ip: Seq<char>, v4: Option<Seq<char>>, v6: Option<Seq<char>>) -> Result<(), PrefixError> {
    match ip_octets_of(ip) {
        None => Err(PrefixError::InvalidAddress),
        Some(o) => if o.len() == 4 {
            match v4 {
                None => Err(PrefixError::NoIpv4Prefix),
                Some(p) => match ipv4_net_of(p) {
                    None => Err(PrefixError::InvalidIpv4Prefix),
                    Some(n) => if prefix_matches(n.0, n.1 as nat, o) {
                        Ok(())
                    } else {
                        Err(PrefixError::OutsideIpv4Prefix)
                    },
                },
            }
        } else {
            match v6 {
                None => Err(PrefixError::NoIpv6Prefix),
                Some(p) => match ipv6_net_of(p) {
                    None => Err(PrefixError::InvalidIpv6Prefix),
                    Some(n) => if prefix_matches(n.0, n.1 as nat, o) {
                        Ok(())
                    } else {
                        Err(PrefixError::OutsideIpv6Prefix)
                    },
                },
            }
        },
    }
}

} // verus!
