//! Parameters of one probing instance.

use crate::text::copy_opt_string;
use vstd::prelude::*;

verus! {

pub const DEFAULT_CARACAT_BATCH_SIZE: u64 = 100;

pub const DEFAULT_CARACAT_INSTANCE_ID: u16 = 0;

pub const DEFAULT_CARACAT_PACKETS: u64 = 1;

pub const DEFAULT_CARACAT_PROBING_RATE: u64 = 100;

pub const DEFAULT_RATE_LIMITING_METHOD: &'static str = "auto";

/// Parameters of one probing instance: its identity, the interface it is
/// bound to, the source prefixes it may draw addresses from, its pace and
/// its TTL filters.
#[derive(Clone, Debug)]
pub struct CaracatConfig {
    pub name: Option<String>,
    pub batch_size: u64,
    pub instance_id: u16,
    pub dry_run: bool,
    pub min_ttl: Option<u8>,
    pub max_ttl: Option<u8>,
    pub integrity_check: bool,
    pub interface: String,
    pub src_ipv4_prefix: Option<String>,
    pub src_ipv6_prefix: Option<String>,
    pub packets: u64,
    pub probing_rate: u64,
    pub rate_limiting_method: String,
}

pub fn default_caracat_batch_size() -> (r: u64)
    ensures
        r == DEFAULT_CARACAT_BATCH_SIZE,
{
    DEFAULT_CARACAT_BATCH_SIZE
}

pub fn default_caracat_instance_id() -> (r: u16)
    ensures
        r == DEFAULT_CARACAT_INSTANCE_ID,
{
    DEFAULT_CARACAT_INSTANCE_ID
}

pub fn default_caracat_packets() -> (r: u64)
    ensures
        r == DEFAULT_CARACAT_PACKETS,
{
    DEFAULT_CARACAT_PACKETS
}

pub fn default_caracat_probing_rate() -> (r: u64)
    ensures
        r == DEFAULT_CARACAT_PROBING_RATE,
{
    DEFAULT_CARACAT_PROBING_RATE
}

pub fn default_rate_limiting_method() -> (r: String)
    ensures
        r@ == DEFAULT_RATE_LIMITING_METHOD@,
{
    DEFAULT_RATE_LIMITING_METHOD.to_owned()
}

impl CaracatConfig {
    /// Whether every setting is at its zero value: no name, zero numbers,
    /// no TTL bounds, no prefixes, empty strings, flags off.
    pub open spec fn is_unset(self) -> bool {
        &&& self.name is None
        &&& self.batch_size == 0
        &&& self.instance_id == 0
        &&& !self.dry_run
        &&& self.min_ttl is None
        &&& self.max_ttl is None
        &&& !self.integrity_check
        &&& self.interface@.len() == 0
        &&& self.src_ipv4_prefix is None
        &&& self.src_ipv6_prefix is None
        &&& self.packets == 0
        &&& self.probing_rate == 0
        &&& self.rate_limiting_method@.len() == 0
    }

    /// Whether the instance restricts its source addresses to a prefix.
    pub open spec fn has_prefix(self) -> bool {
        self.src_ipv4_prefix is Some || self.src_ipv6_prefix is Some
    }

    /// Whether `self` is `old` with each zero or empty setting replaced by its
    /// default, the interface by `default_interface`.
    pub open spec fn normalizes(self, old: CaracatConfig, default_interface: Seq<char>) -> bool {
        &&& self.name == old.name
        &&& self.batch_size == (if old.batch_size == 0 { DEFAULT_CARACAT_BATCH_SIZE } else { old.batch_size })
        &&& self.instance_id == (if old.instance_id == 0 { DEFAULT_CARACAT_INSTANCE_ID } else { old.instance_id })
        &&& self.dry_run == old.dry_run
        &&& self.min_ttl == old.min_ttl
        &&& self.max_ttl == old.max_ttl
        &&& self.integrity_check == old.integrity_check
        &&& self.interface@ == (if old.interface@.len() == 0 { default_interface } else { old.interface@ })
        &&& self.src_ipv4_prefix == old.src_ipv4_prefix
        &&& self.src_ipv6_prefix == old.src_ipv6_prefix
        &&& self.packets == (if old.packets == 0 { DEFAULT_CARACAT_PACKETS } else { old.packets })
        &&& self.probing_rate == (if old.probing_rate == 0 { DEFAULT_CARACAT_PROBING_RATE } else { old.probing_rate })
        &&& self.rate_limiting_method@ == (if old.rate_limiting_method@.len() == 0 {
            DEFAULT_RATE_LIMITING_METHOD@
        } else {
            old.rate_limiting_method@
        })
    }

    /// A field-by-field copy.
    pub fn copy(&self) -> (r: CaracatConfig)
        ensures
            r == *self,
    {
        CaracatConfig {
            name: copy_opt_string(&self.name),
            batch_size: self.batch_size,
            instance_id: self.instance_id,
            dry_run: self.dry_run,
            min_ttl: self.min_ttl,
            max_ttl: self.max_ttl,
            integrity_check: self.integrity_check,
            interface: self.interface.clone(),
            src_ipv4_prefix: copy_opt_string(&self.src_ipv4_prefix),
            src_ipv6_prefix: copy_opt_string(&self.src_ipv6_prefix),
            packets: self.packets,
            probing_rate: self.probing_rate,
            rate_limiting_method: self.rate_limiting_method.clone(),
        }
    }

    /// Replaces each zero or empty setting by its default; an empty interface
    /// by `default_interface`, the host's default interface.
    pub fn validate_and_normalize(&mut self, default_interface: &str)
        ensures
            final(self).normalizes(*old(self), default_interface@),
    {
        if self.batch_size == 0 {
            self.batch_size = default_caracat_batch_size();
        }
        if self.instance_id == 0 {
            self.instance_id = default_caracat_instance_id();
        }
        if self.interface.as_str().is_empty() {
            self.interface = default_interface.to_owned();
        }
        if self.packets == 0 {
            self.packets = default_caracat_packets();
        }
        if self.probing_rate == 0 {
            self.probing_rate = default_caracat_probing_rate();
        }
        if self.rate_limiting_method.as_str().is_empty() {
            self.rate_limiting_method = default_rate_limiting_method();
        }
    }
}

impl Default for CaracatConfig {
    fn default() -> (r: Self)
        ensures
            r.is_unset(),
    {
        CaracatConfig {
            name: None,
            batch_size: 0,
            instance_id: 0,
            dry_run: false,
            min_ttl: None,
            max_ttl: None,
            integrity_check: false,
            interface: String::new(),
            src_ipv4_prefix: None,
            src_ipv6_prefix: None,
            packets: 0,
            probing_rate: 0,
            rate_limiting_method: String::new(),
        }
    }
}

} // verus!
