//! Decisions of the receive loop: which captured replies are forwarded, and
//! its counters. One receive loop serves every instance bound to an
//! interface.

use crate::counters::{sat_add, sat_sum};
use crate::reply::Reply;
use vstd::prelude::*;

verus! {

/// IANA protocol number of ICMP.
pub const IPPROTO_ICMP: u8 = 1;

/// ICMP type of a destination unreachable message.
pub const ICMP_DESTINATION_UNREACHABLE: u8 = 3;

/// ICMP type of a time exceeded message.
pub const ICMP_TIME_EXCEEDED: u8 = 11;

/// The instance checksum stamped on a probe: instance id, destination (as a
/// little-endian integer of its last four octets), source port and TTL,
/// summed modulo 2^32, reduced modulo 65535 and complemented.
pub open spec fn checksum_spec(instance_id: u16, dst_addr: u32, src_port: u16, ttl: u8) -> u16 {
    let sum = (instance_id as int + dst_addr as int + src_port as int + ttl as int) % 0x1_0000_0000;
    (0xffff - sum % 65535) as u16
}

/// The last four octets of an address, as a little-endian integer.
pub open spec fn tail_u32(a: Seq<u8>) -> u32 {
    (a[12] as int + a[13] as int * 0x100 + a[14] as int * 0x1_0000 + a[15] as int * 0x100_0000) as u32
}

/// The checksum an instance would have stamped on the probe a reply quotes.
pub open spec fn reply_checksum(r: Reply, instance_id: u16) -> u16 {
    checksum_spec(instance_id, tail_u32(r.probe_dst_addr@), r.probe_src_port, r.probe_ttl)
}

/// Whether a reply validates under an instance: ICMP destination
/// unreachable and time exceeded messages quote the probe's checksum and must
/// match; other replies carry no checksum and validate.
pub open spec fn reply_valid(r: Reply, instance_id: u16) -> bool {
    if r.reply_protocol == IPPROTO_ICMP && (r.reply_icmp_type == ICMP_DESTINATION_UNREACHABLE
        || r.reply_icmp_type == ICMP_TIME_EXCEEDED) {
        r.probe_id == reply_checksum(r, instance_id)
    } else {
        true
    }
}

/// Whether a reply validates under at least one of the instances.
pub open spec fn valid_for_any(r: Reply, ids: Seq<u16>) -> bool {
    exists|i: int| 0 <= i < ids.len() && reply_valid(r, #[trigger] ids[i])
}

/// Whether the receive loop forwards a reply.
pub open spec fn accepts(r: Reply, integrity_check: bool, ids: Seq<u16>) -> bool {
    !integrity_check || valid_for_any(r, ids)
}

/// The instance checksum of a probe's fields.
pub fn caracat_checksum(instance_id: u16, dst_addr: u32, src_port: u16, ttl: u8) -> (r: u16)
    ensures
        r == checksum_spec(instance_id, dst_addr, src_port, ttl),
{
    let sum = (instance_id as u32).wrapping_add(dst_addr).wrapping_add(src_port as u32).wrapping_add(ttl as u32);
    let m = sum % 65535;
    (65535 - m) as u16
}

/// The checksum an instance would have stamped on the probe a reply quotes.
pub fn checksum(reply: &Reply, instance_id: u16) -> (r: u16)
    ensures
        r == reply_checksum(*reply, instance_id),
{
    let a = reply.probe_dst_addr;
    let dst = a[12] as u32 + a[13] as u32 * 0x100 + a[14] as u32 * 0x1_0000 + a[15] as u32 * 0x100_0000;
    caracat_checksum(instance_id, dst, reply.probe_src_port, reply.probe_ttl)
}

/// Whether a reply validates under an instance.
pub fn is_valid(reply: &Reply, instance_id: u16) -> (r: bool)
    ensures
        r == reply_valid(*reply, instance_id),
{
    if reply.reply_protocol == IPPROTO_ICMP && (reply.reply_icmp_type == ICMP_DESTINATION_UNREACHABLE
        || reply.reply_icmp_type == ICMP_TIME_EXCEEDED) {
        reply.probe_id == checksum(reply, instance_id)
    } else {
        true
    }
}

/// Whether a reply validates under at least one of the instances bound to
/// the interface.
pub fn is_valid_for_any_instance(reply: &Reply, valid_instance_ids: &[u16]) -> (r: bool)
    ensures
        r == valid_for_any(*reply, valid_instance_ids@),
{
    let mut i: usize = 0;
    while i < valid_instance_ids.len()
        invariant
            i <= valid_instance_ids@.len(),
            forall|j: int| 0 <= j < i ==> !reply_valid(*reply, #[trigger] valid_instance_ids@[j]),
        decreases valid_instance_ids@.len() - i,
    {
        if is_valid(reply, valid_instance_ids[i]) {
            return true;
        }
        i = i + 1;
    }
    false
}

/// Application-level counters of a receive loop.
#[derive(Clone, Copy, Debug, Default)]
pub struct ReceiveCounters {
    /// Replies parsed.
    pub received: u64,
    /// Replies refused by the integrity check.
    pub received_invalid: u64,
    /// Packets that could not be parsed into a reply.
    pub received_error: u64,
}

/// The receive loop's decisions for one interface.
#[derive(Clone, Debug)]
pub struct ReceiveLoopState {
    pub integrity_check: bool,
    pub instance_ids: Vec<u16>,
    pub counters: ReceiveCounters,
}

impl ReceiveLoopState {
    /// A receive loop for the instances `instance_ids`, which share one
    /// interface.
    pub fn new(integrity_check: bool, instance_ids: Vec<u16>) -> (r: ReceiveLoopState)
        ensures
            r.integrity_check == integrity_check,
            r.instance_ids@ == instance_ids@,
            r.counters.received == 0,
            r.counters.received_invalid == 0,
            r.counters.received_error == 0,
    {
        ReceiveLoopState {
            integrity_check,
            instance_ids,
            counters: ReceiveCounters { received: 0, received_invalid: 0, received_error: 0 },
        }
    }

    /// Takes one captured reply: returns whether it is forwarded to the
    /// producer. With the integrity check on, a reply is forwarded exactly
    /// when it validates under one of the interface's instances, and each
    /// refused reply is counted invalid.
    pub fn on_reply(&mut self, reply: &Reply) -> (accepted: bool)
        ensures
            accepted == accepts(*reply, old(self).integrity_check, old(self).instance_ids@),
            accepted ==> !old(self).integrity_check || valid_for_any(*reply, old(self).instance_ids@),
            final(self).integrity_check == old(self).integrity_check,
            final(self).instance_ids@ == old(self).instance_ids@,
            final(self).counters.received == sat_sum(old(self).counters.received as int, 1),
            final(self).counters.received_invalid == if accepted {
                old(self).counters.received_invalid as int
            } else {
                sat_sum(old(self).counters.received_invalid as int, 1)
            },
            final(self).counters.received_error == old(self).counters.received_error,
    {
        self.counters.received = sat_add(self.counters.received, 1);
        let accepted = !self.integrity_check || is_valid_for_any_instance(reply, self.instance_ids.as_slice());
        if !accepted {
            self.counters.received_invalid = sat_add(self.counters.received_invalid, 1);
        }
        accepted
    }

    /// Takes a packet that could not be parsed into a reply.
    pub fn on_parse_error(&mut self)
        ensures
            final(self).integrity_check == old(self).integrity_check,
            final(self).instance_ids@ == old(self).instance_ids@,
            final(self).counters.received == old(self).counters.received,
            final(self).counters.received_invalid == old(self).counters.received_invalid,
            final(self).counters.received_error == sat_sum(old(self).counters.received_error as int, 1),
    {
        self.counters.received_error = sat_add(self.counters.received_error, 1);
    }
}

} // verus!
