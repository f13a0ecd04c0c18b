//! Probes and their records.

use crate::net::IpAddress;
use crate::wire::{
    append_bytes, fields_bytes, fields_fit, first_with_tag, lemma_first_with_tag_unique,
    lemma_parse_fields_bytes, frame, parse_fields, push_field, push_record, read_fields, read_record,
    read_sized_field, read_u16_field, read_u8_field, record_at, lemma_record_at_frame, sized_field, spans_view, u16_field,
    u8_field, DecodeError, DecodeErrorKind,
};
use vstd::bytes::*;
use vstd::prelude::*;

verus! {

/// The transport protocol of a probe.
#[derive(Clone, Copy, Debug, PartialEq, Eq, Structural)]
pub enum L4 {
    ICMP,
    ICMPv6,
    UDP,
}

/// One packet to emit.
#[derive(Clone, Copy, Debug, PartialEq, Eq)]
pub struct Probe {
    pub dst_addr: IpAddress,
    pub src_port: u16,
    pub dst_port: u16,
    pub ttl: u8,
    pub protocol: L4,
}

/// A probe as values: the destination as its octets, 4 for IPv4 and 16 for
/// IPv6.
pub struct ProbeView {
    pub dst_addr: Seq<u8>,
    pub src_port: u16,
    pub dst_port: u16,
    pub ttl: u8,
    pub protocol: L4,
}

impl View for Probe {
    type V = ProbeView;

    open spec fn view(&self) -> ProbeView {
        ProbeView {
            dst_addr: self.dst_addr.octets(),
            src_port: self.src_port,
            dst_port: self.dst_port,
            ttl: self.ttl,
            protocol: self.protocol,
        }
    }
}

pub const TAG_DST_ADDR: u8 = 1;

pub const TAG_SRC_PORT: u8 = 2;

pub const TAG_DST_PORT: u8 = 3;

pub const TAG_TTL: u8 = 4;

pub const TAG_PROTOCOL: u8 = 5;

pub const PROTOCOL_UDP: u8 = 1;

pub const PROTOCOL_ICMP: u8 = 2;

pub const PROTOCOL_ICMPV6: u8 = 3;

/// Reserved for TCP, which probes do not use.
pub const PROTOCOL_TCP: u8 = 4;

pub open spec fn protocol_tag(p: L4) -> u8 {
    match p {
        L4::UDP => PROTOCOL_UDP,
        L4::ICMP => PROTOCOL_ICMP,
        L4::ICMPv6 => PROTOCOL_ICMPV6,
    }
}

pub open spec fn protocol_of(t: u8) -> Result<L4, DecodeErrorKind> {
    if t == PROTOCOL_UDP {
        Ok(L4::UDP)
    } else if t == PROTOCOL_ICMP {
        Ok(L4::ICMP)
    } else if t == PROTOCOL_ICMPV6 {
        Ok(L4::ICMPv6)
    } else if t == PROTOCOL_TCP {
        Err(DecodeErrorKind::UnsupportedProtocol)
    } else {
        Err(DecodeErrorKind::UnknownProtocol(t))
    }
}

/// Whether 16 octets are an IPv4 address mapped into IPv6 (`::ffff:a.b.c.d`).
pub open spec fn is_v4_mapped(s: Seq<u8>) -> bool {
    &&& s.len() == 16
    &&& forall|i: int| 0 <= i < 10 ==> #[trigger] s[i] == 0
    &&& s[10] == 0xff
    &&& s[11] == 0xff
}

/// The 16-octet form of an address: IPv4 mapped into IPv6.
pub open spec fn mapped_octets(a: Seq<u8>) -> Seq<u8> {
    if a.len() == 4 {
        Seq::new(10, |i: int| 0u8) + seq![0xffu8, 0xffu8] + a
    } else {
        a
    }
}

/// The address that 16 octets stand for: IPv4 where they map one.
pub open spec fn address_of_octets(s: Seq<u8>) -> Seq<u8> {
    if is_v4_mapped(s) {
        s.subrange(12, 16)
    } else {
        s
    }
}

/// The fields of a probe's record, in the order they are written.
pub open spec fn probe_fields(p: ProbeView) -> Seq<(u8, Seq<u8>)> {
    seq![
        (TAG_DST_ADDR, mapped_octets(p.dst_addr)),
        (TAG_SRC_PORT, spec_u16_to_le_bytes(p.src_port)),
        (TAG_DST_PORT, spec_u16_to_le_bytes(p.dst_port)),
        (TAG_TTL, seq![p.ttl]),
        (TAG_PROTOCOL, seq![protocol_tag(p.protocol)]),
    ]
}

/// The record of a probe.
pub open spec fn encode_probe(p: ProbeView) -> Seq<u8> {
    frame(fields_bytes(probe_fields(p)))
}

/// The records of a sequence of probes, one after another.
pub open spec fn encode_probes(ps: Seq<ProbeView>) -> Seq<u8>
    decreases ps.len(),
{
    if ps.len() == 0 {
        Seq::empty()
    } else {
        encode_probe(ps[0]) + encode_probes(ps.drop_first())
    }
}

/// The probe that a record's fields describe.
pub open spec fn probe_of_fields(fs: Seq<(u8, Seq<u8>)>) -> Result<ProbeView, DecodeErrorKind> {
    match sized_field(fs, TAG_DST_ADDR, 16) {
        Err(e) => Err(e),
        Ok(a) => match u16_field(fs, TAG_SRC_PORT) {
            Err(e) => Err(e),
            Ok(sp) => match u16_field(fs, TAG_DST_PORT) {
                Err(e) => Err(e),
                Ok(dp) => match u8_field(fs, TAG_TTL) {
                    Err(e) => Err(e),
                    Ok(ttl) => match u8_field(fs, TAG_PROTOCOL) {
                        Err(e) => Err(e),
                        Ok(t) => match protocol_of(t) {
                            Err(e) => Err(e),
                            Ok(l4) => Ok(
                                ProbeView {
                                    dst_addr: address_of_octets(a),
                                    src_port: sp,
                                    dst_port: dp,
                                    ttl: ttl,
                                    protocol: l4,
                                },
                            ),
                        },
                    },
                },
            },
        },
    }
}

/// The probe that a record's body describes.
pub open spec fn probe_of_body(body: Seq<u8>) -> Result<ProbeView, DecodeErrorKind> {
    match parse_fields(body) {
        None => Err(DecodeErrorKind::MalformedFields),
        Some(fs) => probe_of_fields(fs),
    }
}

/// The probes of the records from position `pos` of a stream on, or the
/// first malformed record: its position and what is wrong with it.
pub open spec fn decode_probes_from(b: Seq<u8>, pos: int) -> Result<Seq<ProbeView>, (int, DecodeErrorKind)>
    decreases b.len() - pos,
{
    if pos < 0 || pos >= b.len() {
        Ok(Seq::empty())
    } else {
        match record_at(b, pos) {
            None => Err((pos, DecodeErrorKind::TruncatedRecord)),
            Some((body, next)) => match probe_of_body(body) {
                Err(k) => Err((pos, k)),
                Ok(p) => if next <= pos {
                    Ok(Seq::empty())
                } else {
                    match decode_probes_from(b, next) {
                        Ok(ps) => Ok(seq![p] + ps),
                        Err(e) => Err(e),
                    }
                },
            },
        }
    }
}

/// The probes of a stream of records.
pub open spec fn decode_probes(b: Seq<u8>) -> Result<Seq<ProbeView>, (int, DecodeErrorKind)> {
    decode_probes_from(b, 0)
}

/// The probe of the first record of a stream.
pub open spec fn decode_first_probe(b: Seq<u8>) -> Result<ProbeView, (int, DecodeErrorKind)> {
    match record_at(b, 0) {
        None => Err((0, DecodeErrorKind::TruncatedRecord)),
        Some((body, _)) => match probe_of_body(body) {
            Ok(p) => Ok(p),
            Err(k) => Err((0, k)),
        },
    }
}

/// Whether a probe reads back as itself: its destination has 4 or 16 octets,
/// and 16 octets are not an IPv4 address mapped into IPv6.
pub open spec fn probe_wf(p: ProbeView) -> bool {
    &&& (p.dst_addr.len() == 4 || p.dst_addr.len() == 16)
    &&& !is_v4_mapped(p.dst_addr)
}

pub fn serialize_ip_addr(ip: IpAddress) -> (r: Vec<u8>)
    ensures
        r@ == mapped_octets(ip.octets()),
{
    match ip {
        IpAddress::V4(a) => {
            let mut v: Vec<u8> = Vec::new();
            let mut i: usize = 0;
            while i < 10
                invariant
                    i <= 10,
                    v@ == Seq::new(i as nat, |j: int| 0u8),
                decreases 10 - i,
            {
                v.push(0u8);
                i = i + 1;
                assert(v@ =~= Seq::new(i as nat, |j: int| 0u8));
            }
            v.push(0xffu8);
            v.push(0xffu8);
            append_bytes(&mut v, &a);
            assert(v@ =~= mapped_octets(ip.octets()));
            v
        },
        IpAddress::V6(a) => {
            let mut v: Vec<u8> = Vec::new();
            append_bytes(&mut v, &a);
            assert(v@ =~= a@);
            v
        },
    }
}

/// The address that 16 octets stand for; IPv4 where they map one.
pub fn deserialize_ip_addr(data: &[u8]) -> (r: Option<IpAddress>)
    ensures
        r is Some <==> data@.len() == 16,
        r is Some ==> r->0.octets() == address_of_octets(data@),
{
    if data.len() != 16 {
        return None;
    }
    let mut mapped = data[10] == 0xff && data[11] == 0xff;
    let mut i: usize = 0;
    while i < 10
        invariant
            data@.len() == 16,
            i <= 10,
            mapped == (data@[10] == 0xff && data@[11] == 0xff && forall|j: int| 0 <= j < i ==> data@[j] == 0),
        decreases 10 - i,
    {
        if data[i] != 0 {
            mapped = false;
        }
        i = i + 1;
    }
    if mapped {
        let a: [u8; 4] = [data[12], data[13], data[14], data[15]];
        assert(a@ =~= data@.subrange(12, 16));
        Some(IpAddress::V4(a))
    } else {
        let a: [u8; 16] = [
            data[0], data[1], data[2], data[3], data[4], data[5], data[6], data[7],
            data[8], data[9], data[10], data[11], data[12], data[13], data[14], data[15],
        ];
        assert(a@ =~= data@);
        Some(IpAddress::V6(a))
    }
}

pub fn serialize_protocol(protocol: L4) -> (r: u8)
    ensures
        r == protocol_tag(protocol),
{
    match protocol {
        L4::UDP => PROTOCOL_UDP,
        L4::ICMP => PROTOCOL_ICMP,
        L4::ICMPv6 => PROTOCOL_ICMPV6,
    }
}

pub fn deserialize_protocol(t: u8) -> (r: Result<L4, DecodeErrorKind>)
    ensures
        r == protocol_of(t),
{
    if t == PROTOCOL_UDP {
        Ok(L4::UDP)
    } else if t == PROTOCOL_ICMP {
        Ok(L4::ICMP)
    } else if t == PROTOCOL_ICMPV6 {
        Ok(L4::ICMPv6)
    } else if t == PROTOCOL_TCP {
        Err(DecodeErrorKind::UnsupportedProtocol)
    } else {
        Err(DecodeErrorKind::UnknownProtocol(t))
    }
}

/// The record of a probe.
pub fn serialize_probe(probe: &Probe) -> (r: Vec<u8>)
    ensures
        r@ == encode_probe(probe@),
{
    proof {
        lemma_auto_spec_u16_to_from_le_bytes();
    }
    let ghost p = probe@;
    let mut body: Vec<u8> = Vec::new();
    let addr = serialize_ip_addr(probe.dst_addr);
    push_field(&mut body, TAG_DST_ADDR, addr.as_slice());
    let src = u16_to_le_bytes(probe.src_port);
    push_field(&mut body, TAG_SRC_PORT, src.as_slice());
    let dst = u16_to_le_bytes(probe.dst_port);
    push_field(&mut body, TAG_DST_PORT, dst.as_slice());
    let ttl = vec![probe.ttl];
    push_field(&mut body, TAG_TTL, ttl.as_slice());
    let proto = vec![serialize_protocol(probe.protocol)];
    push_field(&mut body, TAG_PROTOCOL, proto.as_slice());
    proof {
        let fs = probe_fields(p);
        reveal_with_fuel(fields_bytes, 6);
        assert(fs.drop_first().drop_first().drop_first().drop_first().drop_first() =~= Seq::<(u8, Seq<u8>)>::empty());
        assert(ttl@ =~= seq![probe.ttl]);
        assert(proto@ =~= seq![protocol_tag(p.protocol)]);
        assert(body@ =~= fields_bytes(fs));
    }
    let mut out: Vec<u8> = Vec::new();
    push_record(&mut out, body.as_slice());
    assert(out@ =~= encode_probe(p));
    out
}

/// The probe that a record's body describes.
pub fn decode_probe_body(body: &[u8]) -> (r: Result<Probe, DecodeErrorKind>)
    ensures
        match r {
            Ok(p) => probe_of_body(body@) == Ok::<ProbeView, DecodeErrorKind>(p@),
            Err(k) => probe_of_body(body@) == Err::<ProbeView, DecodeErrorKind>(k),
        },
{
    let spans = match read_fields(body) {
        None => return Err(DecodeErrorKind::MalformedFields),
        Some(s) => s,
    };
    let ghost fs = spans_view(body@, spans@);
    let a = match read_sized_field(body, &spans, TAG_DST_ADDR, 16) {
        Err(e) => return Err(e),
        Ok(a) => a,
    };
    let dst_addr = match deserialize_ip_addr(a) {
        Some(d) => d,
        None => return Err(DecodeErrorKind::BadFieldLength(TAG_DST_ADDR)),
    };
    let src_port = match read_u16_field(body, &spans, TAG_SRC_PORT) {
        Err(e) => return Err(e),
        Ok(v) => v,
    };
    let dst_port = match read_u16_field(body, &spans, TAG_DST_PORT) {
        Err(e) => return Err(e),
        Ok(v) => v,
    };
    let ttl = match read_u8_field(body, &spans, TAG_TTL) {
        Err(e) => return Err(e),
        Ok(v) => v,
    };
    let t = match read_u8_field(body, &spans, TAG_PROTOCOL) {
        Err(e) => return Err(e),
        Ok(v) => v,
    };
    let protocol = match deserialize_protocol(t) {
        Err(e) => return Err(e),
        Ok(l) => l,
    };
    Ok(Probe { dst_addr, src_port, dst_port, ttl, protocol })
}

/// The probe of the first record of `probe_bytes`; what follows it is not
/// read.
pub fn deserialize_probe(probe_bytes: Vec<u8>) -> (r: Result<Probe, DecodeError>)
    ensures
        match r {
            Ok(p) => decode_first_probe(probe_bytes@) == Ok::<ProbeView, (int, DecodeErrorKind)>(p@),
            Err(e) => decode_first_probe(probe_bytes@) == Err::<ProbeView, (int, DecodeErrorKind)>((e.offset as int, e.kind)),
        },
{
    let b = probe_bytes.as_slice();
    match read_record(b, 0) {
        None => Err(DecodeError { offset: 0, kind: DecodeErrorKind::TruncatedRecord }),
        Some((start, end)) => match decode_probe_body(&b[start..end]) {
            Ok(p) => Ok(p),
            Err(k) => Err(DecodeError { offset: 0, kind: k }),
        },
    }
}

/// The probes of a stream of records, in order; the first malformed record
/// fails the whole stream. An empty stream holds no probe.
pub fn deserialize_probes(probes_bytes: Vec<u8>) -> (r: Result<Vec<Probe>, DecodeError>)
    ensures
        match r {
            Ok(ps) => decode_probes(probes_bytes@) == Ok::<Seq<ProbeView>, (int, DecodeErrorKind)>(
                ps@.map_values(|p: Probe| p@),
            ),
            Err(e) => decode_probes(probes_bytes@) == Err::<Seq<ProbeView>, (int, DecodeErrorKind)>(
                (e.offset as int, e.kind),
            ),
        },
{
    let b = probes_bytes.as_slice();
    let mut out: Vec<Probe> = Vec::new();
    let mut pos: usize = 0;
    while pos < b.len()
        invariant
            pos <= b@.len(),
            b@ == probes_bytes@,
            decode_probes(b@) == match decode_probes_from(b@, pos as int) {
                Ok(ps) => Ok(out@.map_values(|p: Probe| p@) + ps),
                Err(e) => Err::<Seq<ProbeView>, (int, DecodeErrorKind)>(e),
            },
        decreases b@.len() - pos,
    {
        match read_record(b, pos) {
            None => {
                return Err(DecodeError { offset: pos, kind: DecodeErrorKind::TruncatedRecord });
            },
            Some((start, end)) => {
                match decode_probe_body(&b[start..end]) {
                    Err(k) => {
                        return Err(DecodeError { offset: pos, kind: k });
                    },
                    Ok(p) => {
                        let ghost old_out = out@;
                        out.push(p);
                        proof {
                            assert(out@.map_values(|q: Probe| q@) =~= old_out.map_values(|q: Probe| q@)
                                + seq![p@]);
                            match decode_probes_from(b@, end as int) {
                                Ok(ps) => {
                                    assert(old_out.map_values(|q: Probe| q@) + (seq![p@] + ps)
                                        =~= out@.map_values(|q: Probe| q@) + ps);
                                },
                                Err(e) => {},
                            }
                        }
                        pos = end;
                    },
                }
            },
        }
    }
    assert(out@.map_values(|p: Probe| p@) + Seq::<ProbeView>::empty() =~= out@.map_values(|p: Probe| p@));
    Ok(out)
}

/// The record body of a well-formed probe reads back as that probe.
pub proof fn lemma_probe_body_round_trip(p: ProbeView)
    requires
        probe_wf(p),
    ensures
        probe_of_body(fields_bytes(probe_fields(p))) == Ok::<ProbeView, DecodeErrorKind>(p),
        fields_bytes(probe_fields(p)).len() == 37,
{
    lemma_auto_spec_u16_to_from_le_bytes();
    reveal_with_fuel(fields_bytes, 6);
    let fs = probe_fields(p);
    let a = mapped_octets(p.dst_addr);
    assert(a.len() == 16);
    assert(fields_fit(fs));
    lemma_parse_fields_bytes(fs);
    assert(fs.drop_first().drop_first().drop_first().drop_first().drop_first() =~= Seq::<(u8, Seq<u8>)>::empty());
    assert(first_with_tag(fs, TAG_DST_ADDR, 0));
    lemma_first_with_tag_unique(fs, TAG_DST_ADDR, 0);
    assert(first_with_tag(fs, TAG_SRC_PORT, 1));
    lemma_first_with_tag_unique(fs, TAG_SRC_PORT, 1);
    assert(first_with_tag(fs, TAG_DST_PORT, 2));
    lemma_first_with_tag_unique(fs, TAG_DST_PORT, 2);
    assert(first_with_tag(fs, TAG_TTL, 3));
    lemma_first_with_tag_unique(fs, TAG_TTL, 3);
    assert(first_with_tag(fs, TAG_PROTOCOL, 4));
    lemma_first_with_tag_unique(fs, TAG_PROTOCOL, 4);
    if p.dst_addr.len() == 4 {
        assert(is_v4_mapped(a));
        assert(address_of_octets(a) =~= p.dst_addr);
    } else {
        assert(address_of_octets(a) == p.dst_addr);
    }
}

/// Decoding, from position `pos` on, a stream whose rest holds the records of
/// well-formed probes gives those probes.
proof fn lemma_decode_probes_from_encoded(b: Seq<u8>, pos: int, ps: Seq<ProbeView>)
    requires
        0 <= pos <= b.len(),
        b.subrange(pos, b.len() as int) == encode_probes(ps),
        forall|i: int| 0 <= i < ps.len() ==> probe_wf(#[trigger] ps[i]),
    ensures
        decode_probes_from(b, pos) == Ok::<Seq<ProbeView>, (int, DecodeErrorKind)>(ps),
    decreases ps.len(),
{
    if ps.len() == 0 {
        assert(b.subrange(pos, b.len() as int).len() == 0);
        assert(ps =~= Seq::<ProbeView>::empty());
    } else {
        lemma_auto_spec_u32_to_from_le_bytes();
        let body = fields_bytes(probe_fields(ps[0]));
        lemma_probe_body_round_trip(ps[0]);
        let rest = encode_probes(ps.drop_first());
        let n = body.len() as int;
        let enc = spec_u32_to_le_bytes(body.len() as u32);
        let s = b.subrange(pos, b.len() as int);
        assert(enc.len() == 4);
        assert(s =~= enc + body + rest);
        assert(b.len() == pos + 4 + n + rest.len());
        assert(b.subrange(pos, pos + 4) =~= enc);
        assert(s.subrange(4, 4 + n) =~= body);
        assert(b.subrange(pos + 4, pos + 4 + n) =~= s.subrange(4, 4 + n));
        assert(s.subrange(4 + n, s.len() as int) =~= rest);
        assert(b.subrange(pos + 4 + n, b.len() as int) =~= s.subrange(4 + n, s.len() as int));
        assert forall|i: int| 0 <= i < ps.drop_first().len() implies probe_wf(#[trigger] ps.drop_first()[i]) by {
            assert(ps.drop_first()[i] == ps[i + 1]);
        }
        lemma_decode_probes_from_encoded(b, pos + 4 + n, ps.drop_first());
        assert(seq![ps[0]] + ps.drop_first() =~= ps);
    }
}

/// Decoding the records of well-formed probes gives the probes back, in
/// order.
pub proof fn lemma_probes_round_trip(ps: Seq<ProbeView>)
    requires
        forall|i: int| 0 <= i < ps.len() ==> probe_wf(#[trigger] ps[i]),
    ensures
        decode_probes(encode_probes(ps)) == Ok::<Seq<ProbeView>, (int, DecodeErrorKind)>(ps),
{
    let b = encode_probes(ps);
    assert(b.subrange(0, b.len() as int) =~= b);
    lemma_decode_probes_from_encoded(b, 0, ps);
}

/// The record of a well-formed probe reads back as that probe.
pub proof fn lemma_probe_round_trip(p: ProbeView)
    requires
        probe_wf(p),
    ensures
        decode_first_probe(encode_probe(p)) == Ok::<ProbeView, (int, DecodeErrorKind)>(p),
{
    let body = fields_bytes(probe_fields(p));
    lemma_probe_body_round_trip(p);
    lemma_record_at_frame(body, Seq::empty());
    assert(encode_probe(p) =~= frame(body) + Seq::<u8>::empty());
}

} // verus!
