//! Configuration of the agent: its instances, the message bus, the gateway,
//! and the source-address policy of each instance.

pub mod agent;
pub mod caracat;
pub mod client;
pub mod kafka;

pub use agent::RawAgentConfig;
pub use caracat::CaracatConfig;
pub use client::{parse_and_validate_client_args, ClientConfig};

pub use kafka::KafkaConfig;

use crate::net::{
    ipv4_prefix_contains, ipv6_prefix_contains, option_view, parse_ip_address, parse_ipv4_prefix,
    parse_ipv6_prefix, prefix_verdict, IpAddress, PrefixError,
};
use vstd::prelude::*;

verus! {

/// Checks that `ip_str` is an address inside the prefix configured for its
/// family.
pub fn validate_ip_against_prefixes(
    ip_str: &str,
    ipv4_prefix: &Option<String>,
    ipv6_prefix: &Option<String>,
) -> (r: Result<(), PrefixError>)
    ensures
        r == prefix_verdict(ip_str@, option_view(*ipv4_prefix), option_view(*ipv6_prefix)),
{
    match parse_ip_address(ip_str) {
        None => Err(PrefixError::InvalidAddress),
        Some(IpAddress::V4(a)) => match ipv4_prefix {
            None => Err(PrefixError::NoIpv4Prefix),
            Some(p) => match parse_ipv4_prefix(p.as_str()) {
                None => Err(PrefixError::InvalidIpv4Prefix),
                Some(net) => if ipv4_prefix_contains(&net, &a) {
                    Ok(())
                } else {
                    Err(PrefixError::OutsideIpv4Prefix)
                },
            },
        },
        Some(IpAddress::V6(a)) => match ipv6_prefix {
            None => Err(PrefixError::NoIpv6Prefix),
            Some(p) => match parse_ipv6_prefix(p.as_str()) {
                None => Err(PrefixError::InvalidIpv6Prefix),
                Some(net) => if ipv6_prefix_contains(&net, &a) {
                    Ok(())
                } else {
                    Err(PrefixError::OutsideIpv6Prefix)
                },
            },
        },
    }
}

/// Where the gateway is reached and how the agent identifies itself to it.
#[derive(Clone, Debug)]
pub struct GatewayConfig {
    pub url: Option<String>,
    pub agent_key: Option<String>,
    pub agent_secret: Option<String>,
}

impl Default for GatewayConfig {
    fn default() -> (r: Self)
        ensures
            r.url is None,
            r.agent_key is None,
            r.agent_secret is None,
    {
        GatewayConfig { url: None, agent_key: None, agent_secret: None }
    }
}

/// The instance list that the agent runs: the configured one, or a single
/// instance with every setting at its default when none is configured; each
/// normalized.
pub fn normalize_instances(configs: Vec<CaracatConfig>, default_interface: &str) -> (r: Vec<CaracatConfig>)
    ensures
        configs@.len() == 0 ==> r@.len() == 1 && exists|d: CaracatConfig|
            d.is_unset() && #[trigger] r@[0].normalizes(d, default_interface@),
        configs@.len() > 0 ==> r@.len() == configs@.len() && forall|i: int|
            0 <= i < r@.len() ==> #[trigger] r@[i].normalizes(configs@[i], default_interface@),
{
    let mut input = configs;
    if input.len() == 0 {
        input.push(CaracatConfig::default());
    }
    let ghost before = input@;
    assert(configs@.len() == 0 ==> before[0].is_unset());
    let mut out: Vec<CaracatConfig> = Vec::new();
    let mut i: usize = 0;
    while i < input.len()
        invariant
            input@ == before,
            i <= before.len(),
            out@.len() == i,
            forall|j: int| 0 <= j < i ==> #[trigger] out@[j].normalizes(before[j], default_interface@),
        decreases before.len() - i,
    {
        let mut c = input[i].copy();
        c.validate_and_normalize(default_interface);
        out.push(c);
        i = i + 1;
    }
    assert(configs@.len() == 0 ==> out@[0].normalizes(before[0], default_interface@));
    out
}

} // verus!
