//! Decisions of the send loop: which probes of a batch are sent, how often
//! the rate limiter is waited on, which source address a batch uses, and the
//! per-measurement count of probes sent.

use crate::agent::gateway::{MeasurementInfo, MeasurementStatusUpdate};
use crate::counters::{sat_add, sat_sum};
use crate::net::{ip_octets_of, parse_ip_address, IpAddress};
use crate::probe::Probe;
use crate::text::{lowercase_of, str_equals, to_lowercase};
use vstd::prelude::*;

verus! {

/// A probe batch on its way to a send loop: the probes, the source address
/// to send them from (empty for the instance's default), and the measurement
/// they belong to.
#[derive(Debug)]
pub struct ProbesWithSource {
    pub probes: Vec<Probe>,
    pub source_ip: String,
    pub measurement_info: Option<MeasurementInfo>,
}

/// How the send loop keeps its pace.
#[derive(Clone, Copy, Debug, PartialEq, Eq, Structural)]
pub enum RateLimitingMethod {
    Auto,
    Active,
    Sleep,
    Unlimited,
}

/// The method a lowercase name selects; an unknown name selects `Auto`.
pub open spec fn method_of(s: Seq<char>) -> RateLimitingMethod {
    if s == "active"@ {
        RateLimitingMethod::Active
    } else if s == "sleep"@ {
        RateLimitingMethod::Sleep
    } else if s == "none"@ {
        RateLimitingMethod::Unlimited
    } else {
        RateLimitingMethod::Auto
    }
}

/// The method that a lowercase name selects.
pub fn rate_limiting_method_from_lowercase(s: &str) -> (r: RateLimitingMethod)
    ensures
        r == method_of(s@),
{
    if str_equals(s, "active") {
        RateLimitingMethod::Active
    } else if str_equals(s, "sleep") {
        RateLimitingMethod::Sleep
    } else if str_equals(s, "none") {
        RateLimitingMethod::Unlimited
    } else {
        RateLimitingMethod::Auto
    }
}

/// The method that a configured name selects, in any case.
pub fn parse_rate_limiting_method(s: &str) -> (r: RateLimitingMethod)
    ensures
        r == method_of(lowercase_of(s@)),
{
    let lower = to_lowercase(s);
    rate_limiting_method_from_lowercase(lower.as_str())
}

/// What the TTL filters decide for one probe.
#[derive(Clone, Copy, Debug, PartialEq, Eq, Structural)]
pub enum TtlVerdict {
    TooLow,
    TooHigh,
    Send,
}

pub open spec fn ttl_verdict_spec(min_ttl: Option<u8>, max_ttl: Option<u8>, ttl: u8) -> TtlVerdict {
    if min_ttl is Some && ttl < min_ttl->0 {
        TtlVerdict::TooLow
    } else if max_ttl is Some && ttl > max_ttl->0 {
        TtlVerdict::TooHigh
    } else {
        TtlVerdict::Send
    }
}

/// What the TTL filters decide for a probe of TTL `ttl`.
pub fn ttl_verdict(min_ttl: Option<u8>, max_ttl: Option<u8>, ttl: u8) -> (r: TtlVerdict)
    ensures
        r == ttl_verdict_spec(min_ttl, max_ttl, ttl),
{
    match min_ttl {
        Some(m) => if ttl < m {
            return TtlVerdict::TooLow;
        },
        None => {},
    }
    match max_ttl {
        Some(m) => if ttl > m {
            return TtlVerdict::TooHigh;
        },
        None => {},
    }
    TtlVerdict::Send
}

/// The probes of a batch that pass the TTL filters, in order.
pub open spec fn surviving(ps: Seq<Probe>, min_ttl: Option<u8>, max_ttl: Option<u8>) -> Seq<Probe>
    decreases ps.len(),
{
    if ps.len() == 0 {
        Seq::empty()
    } else if ttl_verdict_spec(min_ttl, max_ttl, ps.last().ttl) == TtlVerdict::Send {
        surviving(ps.drop_last(), min_ttl, max_ttl).push(ps.last())
    } else {
        surviving(ps.drop_last(), min_ttl, max_ttl)
    }
}

/// How many probes of a batch get verdict `v`.
pub open spec fn count_verdict(ps: Seq<Probe>, min_ttl: Option<u8>, max_ttl: Option<u8>, v: TtlVerdict) -> nat
    decreases ps.len(),
{
    if ps.len() == 0 {
        0
    } else {
        count_verdict(ps.drop_last(), min_ttl, max_ttl, v) + if ttl_verdict_spec(min_ttl, max_ttl, ps.last().ttl) == v {
            1nat
        } else {
            0nat
        }
    }
}

/// Counters of a send loop.
#[derive(Clone, Copy, Debug, Default)]
pub struct SendStatistics {
    /// Probes taken from batches.
    pub read: u64,
    /// Packets emitted.
    pub sent: u64,
    /// Emissions that failed.
    pub failed: u64,
    /// Probes dropped for a TTL below the minimum.
    pub filtered_low_ttl: u64,
    /// Probes dropped for a TTL above the maximum.
    pub filtered_high_ttl: u64,
}

impl SendStatistics {
    pub fn new() -> (r: SendStatistics)
        ensures
            r.read == 0 && r.sent == 0 && r.failed == 0 && r.filtered_low_ttl == 0 && r.filtered_high_ttl == 0,
    {
        SendStatistics { read: 0, sent: 0, failed: 0, filtered_low_ttl: 0, filtered_high_ttl: 0 }
    }

    /// Takes a batch: counts its probes as read and those the TTL filters
    /// drop, and returns those that pass, in order.
    pub fn filter_batch(&mut self, min_ttl: Option<u8>, max_ttl: Option<u8>, probes: &Vec<Probe>) -> (r: Vec<Probe>)
        ensures
            r@ == surviving(probes@, min_ttl, max_ttl),
            final(self).read == sat_sum(old(self).read as int, probes@.len() as int),
            final(self).filtered_low_ttl == sat_sum(
                old(self).filtered_low_ttl as int,
                count_verdict(probes@, min_ttl, max_ttl, TtlVerdict::TooLow) as int,
            ),
            final(self).filtered_high_ttl == sat_sum(
                old(self).filtered_high_ttl as int,
                count_verdict(probes@, min_ttl, max_ttl, TtlVerdict::TooHigh) as int,
            ),
            final(self).sent == old(self).sent,
            final(self).failed == old(self).failed,
    {
        let mut out: Vec<Probe> = Vec::new();
        let mut i: usize = 0;
        while i < probes.len()
            invariant
                i <= probes@.len(),
                out@ == surviving(probes@.subrange(0, i as int), min_ttl, max_ttl),
                self.read == sat_sum(old(self).read as int, i as int),
                self.filtered_low_ttl == sat_sum(
                    old(self).filtered_low_ttl as int,
                    count_verdict(probes@.subrange(0, i as int), min_ttl, max_ttl, TtlVerdict::TooLow) as int,
                ),
                self.filtered_high_ttl == sat_sum(
                    old(self).filtered_high_ttl as int,
                    count_verdict(probes@.subrange(0, i as int), min_ttl, max_ttl, TtlVerdict::TooHigh) as int,
                ),
                self.sent == old(self).sent,
                self.failed == old(self).failed,
            decreases probes@.len() - i,
        {
            let p = probes[i];
            let ghost pre = probes@.subrange(0, i as int);
            let ghost next = probes@.subrange(0, i + 1);
            assert(next.drop_last() =~= pre);
            assert(next.last() == p);
            self.read = sat_add(self.read, 1);
            match ttl_verdict(min_ttl, max_ttl, p.ttl) {
                TtlVerdict::TooLow => {
                    self.filtered_low_ttl = sat_add(self.filtered_low_ttl, 1);
                },
                TtlVerdict::TooHigh => {
                    self.filtered_high_ttl = sat_add(self.filtered_high_ttl, 1);
                },
                TtlVerdict::Send => {
                    out.push(p);
                },
            }
            i = i + 1;
        }
        assert(probes@.subrange(0, i as int) =~= probes@);
        out
    }

    /// Takes the outcome of one emission, `sent_in_batch` being the batch's
    /// successful sends so far. Returns whether to wait on the rate limiter
    /// now: after every `batch_size`-th successful send of the batch.
    pub fn record_emission(&mut self, sent_in_batch: &mut u64, ok: bool, batch_size: u64) -> (wait: bool)
        ensures
            *final(sent_in_batch) == if ok { sat_sum(*old(sent_in_batch) as int, 1) } else { *old(sent_in_batch) as int },
            final(self).sent == if ok { sat_sum(old(self).sent as int, 1) } else { old(self).sent as int },
            final(self).failed == if ok { old(self).failed as int } else { sat_sum(old(self).failed as int, 1) },
            final(self).read == old(self).read,
            final(self).filtered_low_ttl == old(self).filtered_low_ttl,
            final(self).filtered_high_ttl == old(self).filtered_high_ttl,
            wait == (ok && batch_size > 0 && *final(sent_in_batch) % batch_size == 0),
    {
        if ok {
            *sent_in_batch = sat_add(*sent_in_batch, 1);
            self.sent = sat_add(self.sent, 1);
            batch_size > 0 && *sent_in_batch % batch_size == 0
        } else {
            self.failed = sat_add(self.failed, 1);
            false
        }
    }
}

/// Where a batch is sent from.
#[derive(Clone, Copy, Debug)]
pub enum SourceChoice {
    /// The instance's default source, which the system picks.
    Default,
    /// The given address.
    Address(IpAddress),
    /// The batch names a source that is no address; it is dropped.
    Invalid,
}

/// The source a batch's `source_ip` selects: the default where it is empty,
/// else the address it spells.
pub fn choose_source(source_ip: &str) -> (r: SourceChoice)
    ensures
        source_ip@.len() == 0 ==> r is Default,
        source_ip@.len() > 0 && ip_octets_of(source_ip@) is None ==> r is Invalid,
        source_ip@.len() > 0 && ip_octets_of(source_ip@) is Some ==> r is Address && ip_octets_of(source_ip@)
            == Some(r->Address_0.octets()),
{
    if source_ip.is_empty() {
        SourceChoice::Default
    } else {
        match parse_ip_address(source_ip) {
            Some(a) => SourceChoice::Address(a),
            None => SourceChoice::Invalid,
        }
    }
}

/// The key under which the send loop caches the raw sender of a batch's
/// source: `default` for the instance's default source, else the address.
pub fn sender_cache_key(source_ip: &str) -> (r: String)
    ensures
        source_ip@.len() == 0 ==> r@ == "default"@,
        source_ip@.len() > 0 ==> r@ == source_ip@,
{
    if source_ip.is_empty() {
        "default".to_owned()
    } else {
        source_ip.to_owned()
    }
}

/// The per-measurement count of probes sent, as an association list with
/// one entry per measurement id.
#[derive(Debug)]
pub struct MeasurementCounters {
    pub entries: Vec<(String, u64)>,
}

pub open spec fn entries_map(es: Seq<(String, u64)>) -> Map<Seq<char>, u64>
    decreases es.len(),
{
    if es.len() == 0 {
        Map::empty()
    } else {
        entries_map(es.drop_last()).insert(es.last().0@, es.last().1)
    }
}

pub open spec fn keys_unique(es: Seq<(String, u64)>) -> bool {
    forall|i: int, j: int| 0 <= i < es.len() && 0 <= j < es.len() && i != j ==> #[trigger] es[i].0@ != #[trigger] es[j].0@
}

/// The count of a measurement, zero when it has none.
pub open spec fn count_or_zero(m: Map<Seq<char>, u64>, id: Seq<char>) -> u64 {
    if m.contains_key(id) {
        m[id]
    } else {
        0
    }
}

/// The total a batch of `sent` probes brings its measurement to.
pub open spec fn batch_total(m: Map<Seq<char>, u64>, id: Seq<char>, sent: u64) -> u64 {
    sat_sum(count_or_zero(m, id) as int, sent as int) as u64
}

/// The counts after a batch of `sent` probes of measurement `id`: its count
/// grows by `sent`, and is dropped when the batch ends the measurement.
pub open spec fn after_batch(m: Map<Seq<char>, u64>, id: Seq<char>, sent: u64, end: bool) -> Map<Seq<char>, u64> {
    if end {
        m.remove(id)
    } else {
        m.insert(id, batch_total(m, id, sent))
    }
}

proof fn lemma_entries_map_keys(es: Seq<(String, u64)>, k: Seq<char>)
    ensures
        entries_map(es).contains_key(k) <==> exists|j: int| 0 <= j < es.len() && #[trigger] es[j].0@ == k,
    decreases es.len(),
{
    if es.len() > 0 {
        lemma_entries_map_keys(es.drop_last(), k);
        if entries_map(es.drop_last()).contains_key(k) {
            let j = choose|j: int| 0 <= j < es.drop_last().len() && #[trigger] es.drop_last()[j].0@ == k;
            assert(es[j].0@ == k);
        }
        if exists|j: int| 0 <= j < es.len() && #[trigger] es[j].0@ == k {
            let j = choose|j: int| 0 <= j < es.len() && #[trigger] es[j].0@ == k;
            if j < es.len() - 1 {
                assert(es.drop_last()[j].0@ == k);
            }
        }
    }
}

proof fn lemma_entries_map_at(es: Seq<(String, u64)>, i: int)
    requires
        keys_unique(es),
        0 <= i < es.len(),
    ensures
        entries_map(es).contains_key(es[i].0@),
        entries_map(es)[es[i].0@] == es[i].1,
    decreases es.len(),
{
    if i < es.len() - 1 {
        assert(keys_unique(es.drop_last()));
        lemma_entries_map_at(es.drop_last(), i);
        assert(es.drop_last()[i] == es[i]);
        assert(es[i].0@ != es[es.len() - 1].0@);
    }
}

proof fn lemma_entries_map_update(es: Seq<(String, u64)>, i: int, e: (String, u64))
    requires
        keys_unique(es),
        0 <= i < es.len(),
        e.0@ == es[i].0@,
    ensures
        entries_map(es.update(i, e)) == entries_map(es).insert(e.0@, e.1),
        keys_unique(es.update(i, e)),
    decreases es.len(),
{
    let u = es.update(i, e);
    assert(keys_unique(u)) by {
        assert forall|a: int, b: int| 0 <= a < u.len() && 0 <= b < u.len() && a != b implies #[trigger] u[a].0@
            != #[trigger] u[b].0@ by {
            assert(u[a].0@ == es[a].0@);
            assert(u[b].0@ == es[b].0@);
        }
    }
    if i == es.len() - 1 {
        assert(u.drop_last() =~= es.drop_last());
        assert(entries_map(u) =~= entries_map(es).insert(e.0@, e.1));
    } else {
        assert(keys_unique(es.drop_last()));
        lemma_entries_map_update(es.drop_last(), i, e);
        assert(u.drop_last() =~= es.drop_last().update(i, e));
        assert(es.last().0@ != e.0@) by {
            assert(es[es.len() - 1].0@ != es[i].0@);
        }
        assert(entries_map(u) =~= entries_map(es).insert(e.0@, e.1));
    }
}

proof fn lemma_entries_map_remove(es: Seq<(String, u64)>, i: int)
    requires
        keys_unique(es),
        0 <= i < es.len(),
    ensures
        entries_map(es.remove(i)) == entries_map(es).remove(es[i].0@),
        keys_unique(es.remove(i)),
    decreases es.len(),
{
    let r = es.remove(i);
    let k = es[i].0@;
    assert(keys_unique(r)) by {
        assert forall|a: int, b: int| 0 <= a < r.len() && 0 <= b < r.len() && a != b implies #[trigger] r[a].0@
            != #[trigger] r[b].0@ by {
            let a2 = if a < i { a } else { a + 1 };
            let b2 = if b < i { b } else { b + 1 };
            assert(r[a] == es[a2]);
            assert(r[b] == es[b2]);
        }
    }
    if i == es.len() - 1 {
        assert(r =~= es.drop_last());
        assert(keys_unique(es.drop_last()));
        lemma_entries_map_keys(es.drop_last(), k);
        assert forall|j: int| 0 <= j < es.drop_last().len() implies #[trigger] es.drop_last()[j].0@ != k by {
            assert(es[j].0@ != es[i].0@);
        }
        assert(entries_map(r) =~= entries_map(es).remove(k));
    } else {
        let d = es.drop_last();
        assert(keys_unique(d));
        lemma_entries_map_remove(d, i);
        assert(r.drop_last() =~= d.remove(i));
        assert(r.last() == es.last());
        assert(es.last().0@ != k) by {
            assert(es[es.len() - 1].0@ != es[i].0@);
        }
        assert(d[i] == es[i]);
        assert(entries_map(r) =~= entries_map(es).remove(k));
    }
}

impl MeasurementCounters {
    pub open spec fn wf(&self) -> bool {
        keys_unique(self.entries@)
    }

    /// The count of each measurement that has one.
    pub open spec fn view(&self) -> Map<Seq<char>, u64> {
        entries_map(self.entries@)
    }

    pub fn new() -> (r: MeasurementCounters)
        ensures
            r.wf(),
            r.view() == Map::<Seq<char>, u64>::empty(),
    {
        MeasurementCounters { entries: Vec::new() }
    }

    fn find(&self, id: &str) -> (r: Option<usize>)
        ensures
            match r {
                Some(i) => i < self.entries@.len() && self.entries@[i as int].0@ == id@,
                None => forall|j: int| 0 <= j < self.entries@.len() ==> #[trigger] self.entries@[j].0@ != id@,
            },
    {
        let mut i: usize = 0;
        while i < self.entries.len()
            invariant
                i <= self.entries@.len(),
                forall|j: int| 0 <= j < i ==> #[trigger] self.entries@[j].0@ != id@,
            decreases self.entries@.len() - i,
        {
            if str_equals(self.entries[i].0.as_str(), id) {
                return Some(i);
            }
            i = i + 1;
        }
        None
    }

    /// The count of measurement `id`.
    pub fn get(&self, id: &str) -> (r: Option<u64>)
        requires
            self.wf(),
        ensures
            r is Some <==> self.view().contains_key(id@),
            r is Some ==> r->0 == self.view()[id@],
    {
        proof {
            lemma_entries_map_keys(self.entries@, id@);
        }
        match self.find(id) {
            Some(i) => {
                proof {
                    lemma_entries_map_at(self.entries@, i as int);
                }
                Some(self.entries[i].1)
            },
            None => None,
        }
    }

    /// Takes a batch of the measurement `info` that sent `sent` probes: adds
    /// them to its count and returns the report to make, whose count is the
    /// measurement's total so far. A batch that ends the measurement drops
    /// its count.
    pub fn record_batch(&mut self, info: &MeasurementInfo, sent: u64) -> (r: MeasurementStatusUpdate)
        requires
            old(self).wf(),
        ensures
            final(self).wf(),
            final(self).view() == after_batch(old(self).view(), info.measurement_id@, sent, info.end_of_measurement),
            r.sent_probes == batch_total(old(self).view(), info.measurement_id@, sent),
            r.is_complete == info.end_of_measurement,
    {
        let id = info.measurement_id.as_str();
        proof {
            lemma_entries_map_keys(self.entries@, id@);
        }
        match self.find(id) {
            Some(i) => {
                proof {
                    lemma_entries_map_at(self.entries@, i as int);
                }
                let total = sat_add(self.entries[i].1, sent);
                if info.end_of_measurement {
                    proof {
                        lemma_entries_map_remove(self.entries@, i as int);
                    }
                    self.entries.remove(i);
                } else {
                    let e = (info.measurement_id.clone(), total);
                    proof {
                        lemma_entries_map_update(self.entries@, i as int, e);
                    }
                    self.entries.set(i, e);
                }
                MeasurementStatusUpdate { sent_probes: total, is_complete: info.end_of_measurement }
            },
            None => {
                let total = sat_add(0, sent);
                if !info.end_of_measurement {
                    let ghost before = self.entries@;
                    self.entries.push((info.measurement_id.clone(), total));
                    proof {
                        assert(self.entries@.drop_last() =~= before);
                        assert(keys_unique(self.entries@)) by {
                            assert forall|a: int, b: int|
                                0 <= a < self.entries@.len() && 0 <= b < self.entries@.len() && a != b implies
                                #[trigger] self.entries@[a].0@ != #[trigger] self.entries@[b].0@ by {
                                if a < before.len() && b < before.len() {
                                    assert(self.entries@[a] == before[a]);
                                    assert(self.entries@[b] == before[b]);
                                } else if a < before.len() {
                                    assert(self.entries@[a] == before[a]);
                                } else if b < before.len() {
                                    assert(self.entries@[b] == before[b]);
                                }
                            }
                        }
                    }
                } else {
                    assert(self.view() =~= self.view().remove(id@));
                }
                MeasurementStatusUpdate { sent_probes: total, is_complete: info.end_of_measurement }
            },
        }
    }
}

/// The counts after a sequence of batches, each given as its measurement id,
/// the probes it sent, and whether it ends the measurement.
pub open spec fn after_batches(m: Map<Seq<char>, u64>, bs: Seq<(Seq<char>, u64, bool)>) -> Map<Seq<char>, u64>
    decreases bs.len(),
{
    if bs.len() == 0 {
        m
    } else {
        let b = bs.last();
        after_batch(after_batches(m, bs.drop_last()), b.0, b.1, b.2)
    }
}

/// The probes sent by the batches of measurement `id`.
pub open spec fn sent_for(bs: Seq<(Seq<char>, u64, bool)>, id: Seq<char>) -> int
    decreases bs.len(),
{
    if bs.len() == 0 {
        0
    } else {
        sent_for(bs.drop_last(), id) + if bs.last().0 == id {
            bs.last().1 as int
        } else {
            0
        }
    }
}

proof fn lemma_count_tracks_sum(m: Map<Seq<char>, u64>, bs: Seq<(Seq<char>, u64, bool)>, id: Seq<char>)
    requires
        !m.contains_key(id),
        forall|i: int| 0 <= i < bs.len() && (#[trigger] bs[i]).0 == id ==> !bs[i].2,
        sent_for(bs, id) <= u64::MAX,
    ensures
        count_or_zero(after_batches(m, bs), id) == sent_for(bs, id),
        sent_for(bs, id) >= 0,
    decreases bs.len(),
{
    if bs.len() > 0 {
        let d = bs.drop_last();
        assert forall|i: int| 0 <= i < d.len() && (#[trigger] d[i]).0 == id implies !d[i].2 by {
            assert(d[i] == bs[i]);
        }
        lemma_count_tracks_sum(m, d, id);
        let b = bs.last();
        assert(b == bs[bs.len() - 1]);
    }
}

/// The count reported with the batch that ends a measurement is the sum of
/// the probes that all of that measurement's batches sent, whatever batches
/// of other measurements came between; after it the measurement has no
/// count.
pub proof fn lemma_measurement_accounting(m: Map<Seq<char>, u64>, bs: Seq<(Seq<char>, u64, bool)>, id: Seq<char>)
    requires
        !m.contains_key(id),
        bs.len() > 0,
        bs.last().0 == id,
        bs.last().2,
        forall|i: int| 0 <= i < bs.len() - 1 && (#[trigger] bs[i]).0 == id ==> !bs[i].2,
        sent_for(bs, id) <= u64::MAX,
    ensures
        batch_total(after_batches(m, bs.drop_last()), id, bs.last().1) == sent_for(bs, id),
        !after_batches(m, bs).contains_key(id),
{
    let d = bs.drop_last();
    assert forall|i: int| 0 <= i < d.len() && (#[trigger] d[i]).0 == id implies !d[i].2 by {
        assert(d[i] == bs[i]);
    }
    lemma_count_tracks_sum(m, d, id);
}

} // verus!
