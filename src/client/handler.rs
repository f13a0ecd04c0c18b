//! Probes read from CSV: five columns, no header, each field trimmed:
//! `dst_addr,src_port,dst_port,ttl,protocol`, the protocol one of `udp`,
//! `icmp` or `icmpv6` in any case.

use crate::net::ip_octets_of;
use crate::net::parse_ip_address;
use crate::probe::{Probe, ProbeView, L4};
use crate::text::{lowercase_of, parse_u16, parse_u8, str_equals, to_lowercase, u16_of, u8_of};
use vstd::prelude::*;

verus! {

/// The records of a CSV text without a header row, each field trimmed.
pub uninterp spec fn csv_records_of(data: Seq<u8>) -> Option<Seq<Seq<Seq<char>>>>;

pub open spec fn fields_view(f: Vec<String>) -> Seq<Seq<char>> {
    f@.map_values(|s: String| s@)
}

pub open spec fn records_view(rs: Seq<Vec<String>>) -> Seq<Seq<Seq<char>>> {
    rs.map_values(|f: Vec<String>| fields_view(f))
}

/// Relies on the `csv` crate: a `ReaderBuilder` without headers and trimming
/// every field, and `Reader::records`. The records and their fields, or
/// `None` where the reader reports an error.
#[verifier::external_body]
fn csv_records(data: &[u8]) -> (r: Option<Vec<Vec<String>>>)
    ensures
        match r {
            Some(rs) => csv_records_of(data@) == Some(records_view(rs@)),
            None => csv_records_of(data@) is None,
        },
{
    let mut rdr = csv::ReaderBuilder::new().has_headers(false).trim(csv::Trim::All).from_reader(data);
    let mut out = Vec::new();
    for rec in rdr.records() {
        match rec {
            Ok(r) => out.push(r.iter().map(|f| f.to_string()).collect()),
            Err(_) => return None,
        }
    }
    Some(out)
}

/// Why a CSV text holds no probe list.
#[derive(Clone, Copy, Debug, PartialEq, Eq, Structural)]
pub enum CsvError {
    /// The CSV reader failed.
    Read,
    /// The record at this line (from 1) has fewer than five fields.
    FieldCount(usize),
    /// The destination at this line is not an address.
    BadAddress(usize),
    /// The source port at this line is not a `u16`.
    BadSrcPort(usize),
    /// The destination port at this line is not a `u16`.
    BadDstPort(usize),
    /// The TTL at this line is not a `u8`.
    BadTtl(usize),
    /// The protocol at this line is none of `udp`, `icmp`, `icmpv6`.
    BadProtocol(usize),
}

/// The protocol a lowercase name selects.
pub open spec fn protocol_named(s: Seq<char>) -> Option<L4> {
    if s == "udp"@ {
        Some(L4::UDP)
    } else if s == "icmp"@ {
        Some(L4::ICMP)
    } else if s == "icmpv6"@ {
        Some(L4::ICMPv6)
    } else {
        None
    }
}

/// The probe that a CSV record at line `line` describes.
pub open spec fn probe_of_record(rec: Seq<Seq<char>>, line: usize) -> Result<ProbeView, CsvError> {
    if rec.len() < 5 {
        Err(CsvError::FieldCount(line))
    } else {
        match ip_octets_of(rec[0]) {
            None => Err(CsvError::BadAddress(line)),
            Some(a) => match u16_of(rec[1]) {
                None => Err(CsvError::BadSrcPort(line)),
                Some(sp) => match u16_of(rec[2]) {
                    None => Err(CsvError::BadDstPort(line)),
                    Some(dp) => match u8_of(rec[3]) {
                        None => Err(CsvError::BadTtl(line)),
                        Some(ttl) => match protocol_named(lowercase_of(rec[4])) {
                            None => Err(CsvError::BadProtocol(line)),
                            Some(l4) => Ok(ProbeView { dst_addr: a, src_port: sp, dst_port: dp, ttl: ttl, protocol: l4 }),
                        },
                    },
                },
            },
        }
    }
}

/// The probes of the records, or the error of the first bad one.
pub open spec fn probes_of_records(recs: Seq<Seq<Seq<char>>>) -> Result<Seq<ProbeView>, CsvError>
    decreases recs.len(),
{
    if recs.len() == 0 {
        Ok(Seq::empty())
    } else {
        match probes_of_records(recs.drop_last()) {
            Err(e) => Err(e),
            Ok(ps) => match probe_of_record(recs.last(), recs.len() as usize) {
                Err(e) => Err(e),
                Ok(p) => Ok(ps.push(p)),
            },
        }
    }
}

/// The probes that a CSV text describes.
pub open spec fn probes_of_csv(data: Seq<u8>) -> Result<Seq<ProbeView>, CsvError> {
    match csv_records_of(data) {
        None => Err(CsvError::Read),
        Some(recs) => probes_of_records(recs),
    }
}

fn probe_from_record(rec: &Vec<String>, line: usize) -> (r: Result<Probe, CsvError>)
    ensures
        match r {
            Ok(p) => probe_of_record(fields_view(*rec), line) == Ok::<ProbeView, CsvError>(p@),
            Err(e) => probe_of_record(fields_view(*rec), line) == Err::<ProbeView, CsvError>(e),
        },
{
    let ghost fs = fields_view(*rec);
    if rec.len() < 5 {
        return Err(CsvError::FieldCount(line));
    }
    assert(fs[0] == rec@[0]@ && fs[1] == rec@[1]@ && fs[2] == rec@[2]@ && fs[3] == rec@[3]@ && fs[4] == rec@[4]@);
    let dst_addr = match parse_ip_address(rec[0].as_str()) {
        None => return Err(CsvError::BadAddress(line)),
        Some(a) => a,
    };
    let src_port = match parse_u16(rec[1].as_str()) {
        None => return Err(CsvError::BadSrcPort(line)),
        Some(v) => v,
    };
    let dst_port = match parse_u16(rec[2].as_str()) {
        None => return Err(CsvError::BadDstPort(line)),
        Some(v) => v,
    };
    let ttl = match parse_u8(rec[3].as_str()) {
        None => return Err(CsvError::BadTtl(line)),
        Some(v) => v,
    };
    let lower = to_lowercase(rec[4].as_str());
    let protocol = if str_equals(lower.as_str(), "udp") {
        L4::UDP
    } else if str_equals(lower.as_str(), "icmp") {
        L4::ICMP
    } else if str_equals(lower.as_str(), "icmpv6") {
        L4::ICMPv6
    } else {
        return Err(CsvError::BadProtocol(line));
    };
    Ok(Probe { dst_addr, src_port, dst_port, ttl, protocol })
}

/// The probes that a CSV text describes, in order; the first bad record
/// fails the whole text. An empty text describes no probe.
pub fn read_probes_from_csv(data: &[u8]) -> (r: Result<Vec<Probe>, CsvError>)
    ensures
        match r {
            Ok(ps) => probes_of_csv(data@) == Ok::<Seq<ProbeView>, CsvError>(ps@.map_values(|p: Probe| p@)),
            Err(e) => probes_of_csv(data@) == Err::<Seq<ProbeView>, CsvError>(e),
        },
{
    let records = match csv_records(data) {
        None => return Err(CsvError::Read),
        Some(rs) => rs,
    };
    let ghost recs = records_view(records@);
    let mut probes: Vec<Probe> = Vec::new();
    let mut i: usize = 0;
    assert(recs.subrange(0, 0) =~= Seq::<Seq<Seq<char>>>::empty());
    assert(probes@.map_values(|p: Probe| p@) =~= Seq::<ProbeView>::empty());
    while i < records.len()
        invariant
            i <= records@.len(),
            recs == records_view(records@),
            csv_records_of(data@) == Some(recs),
            probes_of_records(recs.subrange(0, i as int)) == Ok::<Seq<ProbeView>, CsvError>(
                probes@.map_values(|p: Probe| p@),
            ),
        decreases records@.len() - i,
    {
        proof {
            assert(recs.subrange(0, i + 1).drop_last() =~= recs.subrange(0, i as int));
            assert(recs.subrange(0, i + 1).last() == fields_view(records@[i as int]));
        }
        let p = match probe_from_record(&records[i], i + 1) {
            Err(e) => {
                proof {
                    let pre = recs.subrange(0, i + 1);
                    assert(pre.len() == i + 1);
                    assert(probe_of_record(pre.last(), (i + 1) as usize) == Err::<ProbeView, CsvError>(e));
                    assert(probes_of_records(pre) == Err::<Seq<ProbeView>, CsvError>(e));
                    lemma_error_persists(recs, i + 1);
                }
                return Err(e);
            },
            Ok(p) => p,
        };
        let ghost before = probes@;
        probes.push(p);
        assert(probes@.map_values(|q: Probe| q@) =~= before.map_values(|q: Probe| q@).push(p@));
        i = i + 1;
    }
    assert(recs.subrange(0, i as int) =~= recs);
    Ok(probes)
}

proof fn lemma_error_persists(recs: Seq<Seq<Seq<char>>>, k: int)
    requires
        0 <= k <= recs.len(),
        probes_of_records(recs.subrange(0, k)) is Err,
    ensures
        probes_of_records(recs) == probes_of_records(recs.subrange(0, k)),
    decreases recs.len() - k,
{
    if k == recs.len() {
        assert(recs.subrange(0, k) =~= recs);
    } else {
        assert(recs.subrange(0, k + 1).drop_last() =~= recs.subrange(0, k));
        lemma_error_persists(recs, k + 1);
    }
}

} // verus!
