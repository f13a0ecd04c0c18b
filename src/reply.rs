//! Replies and their records.

use crate::wire::{
    append_bytes, fields_bytes, fields_fit, first_with_tag, frame, lemma_first_with_tag_unique,
    lemma_parse_fields_bytes, lemma_record_at_frame, parse_fields, push_field, push_record,
    read_fields, read_record, lemma_fields_bytes_step, read_sized_field, read_u16_field, read_u64_field, read_u8_field,
    record_at, sized_field, spans_view, u16_field, u64_field, u8_field, DecodeError,
    DecodeErrorKind, MAX_FIELD_LEN,
};
use vstd::bytes::*;
use vstd::prelude::*;
use vstd::utf8::encode_utf8;

verus! {

/// One MPLS label stack entry.
#[derive(Clone, Copy, Debug, PartialEq, Eq, Structural)]
pub struct MplsLabel {
    pub label: u32,
    pub experimental: u8,
    pub bottom_of_stack: bool,
    pub ttl: u8,
}

/// The most labels that one reply record carries.
pub const MAX_MPLS_LABELS: usize = 9362;

/// One captured reply, with the fields of the probe it quotes.
#[derive(Clone, Debug)]
pub struct Reply {
    /// Capture time, in nanoseconds since the agreed epoch.
    pub capture_timestamp: u64,
    /// Source of the reply, as 16 octets (IPv4 mapped into IPv6).
    pub reply_src_addr: [u8; 16],
    /// Destination of the reply, as 16 octets.
    pub reply_dst_addr: [u8; 16],
    pub reply_id: u16,
    pub reply_size: u16,
    pub reply_ttl: u8,
    pub reply_protocol: u8,
    pub reply_icmp_type: u8,
    pub reply_icmp_code: u8,
    /// The MPLS label stack found in the reply, outermost first.
    pub reply_mpls_labels: Vec<MplsLabel>,
    /// Source of the quoted probe, as 16 octets.
    pub probe_src_addr: [u8; 16],
    /// Destination of the quoted probe, as 16 octets.
    pub probe_dst_addr: [u8; 16],
    /// Identifier of the quoted probe: the checksum stamped on it when it was sent.
    pub probe_id: u16,
    pub probe_size: u16,
    pub probe_ttl: u8,
    pub probe_protocol: u8,
    pub probe_src_port: u16,
    pub probe_dst_port: u16,
    pub quoted_ttl: u8,
    /// Round-trip time, in tenths of milliseconds.
    pub rtt: u16,
}

/// A reply as values.
pub struct ReplyView {
    pub capture_timestamp: u64,
    pub reply_src_addr: Seq<u8>,
    pub reply_dst_addr: Seq<u8>,
    pub reply_id: u16,
    pub reply_size: u16,
    pub reply_ttl: u8,
    pub reply_protocol: u8,
    pub reply_icmp_type: u8,
    pub reply_icmp_code: u8,
    pub reply_mpls_labels: Seq<MplsLabel>,
    pub probe_src_addr: Seq<u8>,
    pub probe_dst_addr: Seq<u8>,
    pub probe_id: u16,
    pub probe_size: u16,
    pub probe_ttl: u8,
    pub probe_protocol: u8,
    pub probe_src_port: u16,
    pub probe_dst_port: u16,
    pub quoted_ttl: u8,
    pub rtt: u16,
}

impl View for Reply {
    type V = ReplyView;

    open spec fn view(&self) -> ReplyView {
        ReplyView {
            capture_timestamp: self.capture_timestamp,
            reply_src_addr: self.reply_src_addr@,
            reply_dst_addr: self.reply_dst_addr@,
            reply_id: self.reply_id,
            reply_size: self.reply_size,
            reply_ttl: self.reply_ttl,
            reply_protocol: self.reply_protocol,
            reply_icmp_type: self.reply_icmp_type,
            reply_icmp_code: self.reply_icmp_code,
            reply_mpls_labels: self.reply_mpls_labels@,
            probe_src_addr: self.probe_src_addr@,
            probe_dst_addr: self.probe_dst_addr@,
            probe_id: self.probe_id,
            probe_size: self.probe_size,
            probe_ttl: self.probe_ttl,
            probe_protocol: self.probe_protocol,
            probe_src_port: self.probe_src_port,
            probe_dst_port: self.probe_dst_port,
            quoted_ttl: self.quoted_ttl,
            rtt: self.rtt,
        }
    }
}

/// A reply record as read back: the id of the agent that captured it, as
/// bytes, and the reply.
#[derive(Clone, Debug)]
pub struct ReplyRecord {
    pub agent_id: Vec<u8>,
    pub reply: Reply,
}

pub const TAG_AGENT_ID: u8 = 1;


pub const TAG_CAPTURE_TIMESTAMP: u8 = 2;

pub const TAG_REPLY_SRC_ADDR: u8 = 3;

pub const TAG_REPLY_DST_ADDR: u8 = 4;

pub const TAG_REPLY_ID: u8 = 5;

pub const TAG_REPLY_SIZE: u8 = 6;

pub const TAG_REPLY_TTL: u8 = 7;

pub const TAG_REPLY_PROTOCOL: u8 = 8;

pub const TAG_REPLY_ICMP_TYPE: u8 = 9;

pub const TAG_REPLY_ICMP_CODE: u8 = 10;

pub const TAG_REPLY_MPLS_LABELS: u8 = 11;

pub const TAG_PROBE_SRC_ADDR: u8 = 12;

pub const TAG_PROBE_DST_ADDR: u8 = 13;

pub const TAG_PROBE_ID: u8 = 14;

pub const TAG_PROBE_SIZE: u8 = 15;

pub const TAG_PROBE_TTL: u8 = 16;

pub const TAG_PROBE_PROTOCOL: u8 = 17;

pub const TAG_PROBE_SRC_PORT: u8 = 18;

pub const TAG_PROBE_DST_PORT: u8 = 19;

pub const TAG_QUOTED_TTL: u8 = 20;

pub const TAG_RTT: u8 = 21;

/// The bytes of one label stack entry.
pub open spec fn label_bytes(l: MplsLabel) -> Seq<u8> {
    spec_u32_to_le_bytes(l.label) + seq![l.experimental, if l.bottom_of_stack { 1u8 } else { 0u8 }, l.ttl]
}

/// The bytes of a label stack, entry after entry.
pub open spec fn labels_bytes(ls: Seq<MplsLabel>) -> Seq<u8>
    decreases ls.len(),
{
    if ls.len() == 0 {
        Seq::empty()
    } else {
        label_bytes(ls[0]) + labels_bytes(ls.drop_first())
    }
}

/// The entry that 7 bytes hold.
pub open spec fn label_of(v: Seq<u8>) -> MplsLabel {
    MplsLabel {
        label: spec_u32_from_le_bytes(v.subrange(0, 4)),
        experimental: v[4],
        bottom_of_stack: v[5] != 0,
        ttl: v[6],
    }
}

/// The label stack that a field value holds, 7 bytes an entry.
pub open spec fn labels_of(v: Seq<u8>) -> Seq<MplsLabel>
    decreases v.len(),
{
    if v.len() < 7 {
        Seq::empty()
    } else {
        seq![label_of(v.subrange(0, 7))] + labels_of(v.subrange(7, v.len() as int))
    }
}

pub open spec fn mpls_field(fs: Seq<(u8, Seq<u8>)>, tag: u8) -> Result<Seq<MplsLabel>, DecodeErrorKind> {
    match crate::wire::lookup_field(fs, tag) {
        None => Err(DecodeErrorKind::MissingField(tag)),
        Some(v) => if v.len() % 7 == 0 {
            Ok(labels_of(v))
        } else {
            Err(DecodeErrorKind::BadFieldLength(tag))
        },
    }
}

pub open spec fn agent_field(fs: Seq<(u8, Seq<u8>)>, tag: u8) -> Result<Seq<u8>, DecodeErrorKind> {
    match crate::wire::lookup_field(fs, tag) {
        None => Err(DecodeErrorKind::MissingField(tag)),
        Some(v) => Ok(v),
    }
}

/// The fields of a reply's record, in the order they are written.
pub open spec fn reply_fields(agent_id: Seq<u8>, r: ReplyView) -> Seq<(u8, Seq<u8>)> {
    seq![
        (TAG_AGENT_ID, agent_id),
        (TAG_CAPTURE_TIMESTAMP, spec_u64_to_le_bytes(r.capture_timestamp)),
        (TAG_REPLY_SRC_ADDR, r.reply_src_addr),
        (TAG_REPLY_DST_ADDR, r.reply_dst_addr),
        (TAG_REPLY_ID, spec_u16_to_le_bytes(r.reply_id)),
        (TAG_REPLY_SIZE, spec_u16_to_le_bytes(r.reply_size)),
        (TAG_REPLY_TTL, seq![r.reply_ttl]),
        (TAG_REPLY_PROTOCOL, seq![r.reply_protocol]),
        (TAG_REPLY_ICMP_TYPE, seq![r.reply_icmp_type]),
        (TAG_REPLY_ICMP_CODE, seq![r.reply_icmp_code]),
        (TAG_REPLY_MPLS_LABELS, labels_bytes(r.reply_mpls_labels)),
        (TAG_PROBE_SRC_ADDR, r.probe_src_addr),
        (TAG_PROBE_DST_ADDR, r.probe_dst_addr),
        (TAG_PROBE_ID, spec_u16_to_le_bytes(r.probe_id)),
        (TAG_PROBE_SIZE, spec_u16_to_le_bytes(r.probe_size)),
        (TAG_PROBE_TTL, seq![r.probe_ttl]),
        (TAG_PROBE_PROTOCOL, seq![r.probe_protocol]),
        (TAG_PROBE_SRC_PORT, spec_u16_to_le_bytes(r.probe_src_port)),
        (TAG_PROBE_DST_PORT, spec_u16_to_le_bytes(r.probe_dst_port)),
        (TAG_QUOTED_TTL, seq![r.quoted_ttl]),
        (TAG_RTT, spec_u16_to_le_bytes(r.rtt)),
    ]
}

/// The record of a reply captured by the agent `agent_id` (as bytes).
pub open spec fn encode_reply(agent_id: Seq<u8>, r: ReplyView) -> Seq<u8> {
    frame(fields_bytes(reply_fields(agent_id, r)))
}

/// Whether a reply and its agent id fit a record.
pub open spec fn reply_wf(agent_id: Seq<u8>, r: ReplyView) -> bool {
    &&& agent_id.len() <= MAX_FIELD_LEN
    &&& r.reply_src_addr.len() == 16
    &&& r.reply_dst_addr.len() == 16
    &&& r.probe_src_addr.len() == 16
    &&& r.probe_dst_addr.len() == 16
    &&& r.reply_mpls_labels.len() <= MAX_MPLS_LABELS
}

/// The agent id and reply that a record's fields describe.
pub open spec fn reply_of_fields(fs: Seq<(u8, Seq<u8>)>) -> Result<(Seq<u8>, ReplyView), DecodeErrorKind> {
    match agent_field(fs, TAG_AGENT_ID) {
        Err(e) => Err(e),
        Ok(agent) => match u64_field(fs, TAG_CAPTURE_TIMESTAMP) {
            Err(e) => Err(e),
            Ok(v_capture_timestamp) => match sized_field(fs, TAG_REPLY_SRC_ADDR, 16) {
                Err(e) => Err(e),
                Ok(v_reply_src_addr) => match sized_field(fs, TAG_REPLY_DST_ADDR, 16) {
                    Err(e) => Err(e),
                    Ok(v_reply_dst_addr) => match u16_field(fs, TAG_REPLY_ID) {
                        Err(e) => Err(e),
                        Ok(v_reply_id) => match u16_field(fs, TAG_REPLY_SIZE) {
                            Err(e) => Err(e),
                            Ok(v_reply_size) => match u8_field(fs, TAG_REPLY_TTL) {
                                Err(e) => Err(e),
                                Ok(v_reply_ttl) => match u8_field(fs, TAG_REPLY_PROTOCOL) {
                                    Err(e) => Err(e),
                                    Ok(v_reply_protocol) => match u8_field(fs, TAG_REPLY_ICMP_TYPE) {
                                        Err(e) => Err(e),
                                        Ok(v_reply_icmp_type) => match u8_field(fs, TAG_REPLY_ICMP_CODE) {
                                            Err(e) => Err(e),
                                            Ok(v_reply_icmp_code) => match mpls_field(fs, TAG_REPLY_MPLS_LABELS) {
                                                Err(e) => Err(e),
                                                Ok(v_reply_mpls_labels) => match sized_field(fs, TAG_PROBE_SRC_ADDR, 16) {
                                                    Err(e) => Err(e),
                                                    Ok(v_probe_src_addr) => match sized_field(fs, TAG_PROBE_DST_ADDR, 16) {
                                                        Err(e) => Err(e),
                                                        Ok(v_probe_dst_addr) => match u16_field(fs, TAG_PROBE_ID) {
                                                            Err(e) => Err(e),
                                                            Ok(v_probe_id) => match u16_field(fs, TAG_PROBE_SIZE) {
                                                                Err(e) => Err(e),
                                                                Ok(v_probe_size) => match u8_field(fs, TAG_PROBE_TTL) {
                                                                    Err(e) => Err(e),
                                                                    Ok(v_probe_ttl) => match u8_field(fs, TAG_PROBE_PROTOCOL) {
                                                                        Err(e) => Err(e),
                                                                        Ok(v_probe_protocol) => match u16_field(fs, TAG_PROBE_SRC_PORT) {
                                                                            Err(e) => Err(e),
                                                                            Ok(v_probe_src_port) => match u16_field(fs, TAG_PROBE_DST_PORT) {
                                                                                Err(e) => Err(e),
                                                                                Ok(v_probe_dst_port) => match u8_field(fs, TAG_QUOTED_TTL) {
                                                                                    Err(e) => Err(e),
                                                                                    Ok(v_quoted_ttl) => match u16_field(fs, TAG_RTT) {
                                                                                        Err(e) => Err(e),
                                                                                        Ok(v_rtt) => Ok((agent, ReplyView {
                                                                                            capture_timestamp: v_capture_timestamp,
                                                                                            reply_src_addr: v_reply_src_addr,
                                                                                            reply_dst_addr: v_reply_dst_addr,
                                                                                            reply_id: v_reply_id,
                                                                                            reply_size: v_reply_size,
                                                                                            reply_ttl: v_reply_ttl,
                                                                                            reply_protocol: v_reply_protocol,
                                                                                            reply_icmp_type: v_reply_icmp_type,
                                                                                            reply_icmp_code: v_reply_icmp_code,
                                                                                            reply_mpls_labels: v_reply_mpls_labels,
                                                                                            probe_src_addr: v_probe_src_addr,
                                                                                            probe_dst_addr: v_probe_dst_addr,
                                                                                            probe_id: v_probe_id,
                                                                                            probe_size: v_probe_size,
                                                                                            probe_ttl: v_probe_ttl,
                                                                                            probe_protocol: v_probe_protocol,
                                                                                            probe_src_port: v_probe_src_port,
                                                                                            probe_dst_port: v_probe_dst_port,
                                                                                            quoted_ttl: v_quoted_ttl,
                                                                                            rtt: v_rtt,
                                                                                        })),
                                                                                    },
                                                                                },
                                                                            },
                                                                        },
                                                                    },
                                                                },
                                                            },
                                                        },
                                                    },
                                                },
                                            },
                                        },
                                    },
                                },
                            },
                        },
                    },
                },
            },
        },
    }
}

/// The agent id and reply that a record's body describes.
pub open spec fn reply_of_body(body: Seq<u8>) -> Result<(Seq<u8>, ReplyView), DecodeErrorKind> {
    match parse_fields(body) {
        None => Err(DecodeErrorKind::MalformedFields),
        Some(fs) => reply_of_fields(fs),
    }
}

/// The replies of the records from position `pos` of a stream on, or the
/// first malformed record: its position and what is wrong with it.
pub open spec fn decode_replies_from(b: Seq<u8>, pos: int) -> Result<Seq<(Seq<u8>, ReplyView)>, (int, DecodeErrorKind)>
    decreases b.len() - pos,
{
    if pos < 0 || pos >= b.len() {
        Ok(Seq::empty())
    } else {
        match record_at(b, pos) {
            None => Err((pos, DecodeErrorKind::TruncatedRecord)),
            Some((body, next)) => match reply_of_body(body) {
                Err(k) => Err((pos, k)),
                Ok(r) => if next <= pos {
                    Ok(Seq::empty())
                } else {
                    match decode_replies_from(b, next) {
                        Ok(rs) => Ok(seq![r] + rs),
                        Err(e) => Err(e),
                    }
                },
            },
        }
    }
}

/// The replies of a stream of records.
pub open spec fn decode_replies(b: Seq<u8>) -> Result<Seq<(Seq<u8>, ReplyView)>, (int, DecodeErrorKind)> {
    decode_replies_from(b, 0)
}

pub open spec fn record_view(r: ReplyRecord) -> (Seq<u8>, ReplyView) {
    (r.agent_id@, r.reply@)
}

/// The bytes of a label stack.
pub fn serialize_mpls_labels(labels: &Vec<MplsLabel>) -> (r: Vec<u8>)
    ensures
        r@ == labels_bytes(labels@),
{
    let mut out: Vec<u8> = Vec::new();
    let mut i: usize = 0;
    assert(labels@.subrange(0, labels@.len() as int) =~= labels@);
    assert(out@ + labels_bytes(labels@) =~= labels_bytes(labels@));
    while i < labels.len()
        invariant
            i <= labels@.len(),
            out@ + labels_bytes(labels@.subrange(i as int, labels@.len() as int)) == labels_bytes(labels@),
        decreases labels@.len() - i,
    {
        let l = labels[i];
        let ghost before = out@;
        let lb = u32_to_le_bytes(l.label);
        append_bytes(&mut out, lb.as_slice());
        out.push(l.experimental);
        out.push(if l.bottom_of_stack { 1u8 } else { 0u8 });
        out.push(l.ttl);
        proof {
            let rest = labels@.subrange(i as int, labels@.len() as int);
            assert(rest.drop_first() =~= labels@.subrange(i + 1, labels@.len() as int));
            assert(out@ =~= before + label_bytes(l));
            assert(before + labels_bytes(rest) =~= out@ + labels_bytes(rest.drop_first()));
        }
        i = i + 1;
    }
    assert(labels@.subrange(i as int, labels@.len() as int) =~= Seq::<MplsLabel>::empty());
    assert(out@ + Seq::<u8>::empty() =~= out@);
    out
}

/// The label stack that a field value holds; its length is a multiple of 7.
pub fn deserialize_mpls_labels(v: &[u8]) -> (r: Vec<MplsLabel>)
    requires
        v@.len() % 7 == 0,
    ensures
        r@ == labels_of(v@),
{
    let mut out: Vec<MplsLabel> = Vec::new();
    let mut pos: usize = 0;
    assert(v@.subrange(0, v@.len() as int) =~= v@);
    assert(out@ + labels_of(v@) =~= labels_of(v@));
    while pos < v.len()
        invariant
            pos <= v@.len(),
            pos % 7 == 0,
            v@.len() % 7 == 0,
            out@ + labels_of(v@.subrange(pos as int, v@.len() as int)) == labels_of(v@),
        decreases v@.len() - pos,
    {
        let ghost s = v@.subrange(pos as int, v@.len() as int);
        let label = u32_from_le_bytes(&v[pos..pos + 4]);
        let l = MplsLabel { label, experimental: v[pos + 4], bottom_of_stack: v[pos + 5] != 0, ttl: v[pos + 6] };
        let ghost before = out@;
        out.push(l);
        proof {
            assert(s.subrange(0, 7).subrange(0, 4) =~= v@.subrange(pos as int, pos + 4));
            assert(label_of(s.subrange(0, 7)) == l);
            assert(s.subrange(7, s.len() as int) =~= v@.subrange(pos + 7, v@.len() as int));
            assert(before + labels_of(s) =~= out@ + labels_of(v@.subrange(pos + 7, v@.len() as int)));
        }
        pos = pos + 7;
    }
    assert(v@.subrange(pos as int, v@.len() as int) =~= Seq::<u8>::empty());
    assert(out@ + Seq::<MplsLabel>::empty() =~= out@);
    out
}

/// The record of a reply captured by the agent `agent_id`.
pub fn serialize_reply(agent_id: String, reply: &Reply) -> (r: Vec<u8>)
    requires
        encode_utf8(agent_id@).len() <= MAX_FIELD_LEN,
        reply.reply_mpls_labels@.len() <= MAX_MPLS_LABELS,
    ensures
        r@ == encode_reply(encode_utf8(agent_id@), reply@),
{
    proof {
        lemma_auto_spec_u16_to_from_le_bytes();
        lemma_auto_spec_u64_to_from_le_bytes();
        lemma_labels_bytes_len(reply.reply_mpls_labels@);
    }
    let ghost rv = reply@;
    let ghost fs = reply_fields(encode_utf8(agent_id@), rv);
    let mut body: Vec<u8> = Vec::new();
    push_field(&mut body, TAG_AGENT_ID, agent_id.as_str().as_bytes());
    proof {
        lemma_fields_bytes_step(fs, 0);
    }

    let f = u64_to_le_bytes(reply.capture_timestamp);
    push_field(&mut body, TAG_CAPTURE_TIMESTAMP, f.as_slice());
    proof {
        lemma_fields_bytes_step(fs, 1);
    }
    push_field(&mut body, TAG_REPLY_SRC_ADDR, &reply.reply_src_addr);
    proof {
        lemma_fields_bytes_step(fs, 2);
    }
    push_field(&mut body, TAG_REPLY_DST_ADDR, &reply.reply_dst_addr);
    proof {
        lemma_fields_bytes_step(fs, 3);
    }
    let f = u16_to_le_bytes(reply.reply_id);
    push_field(&mut body, TAG_REPLY_ID, f.as_slice());
    proof {
        lemma_fields_bytes_step(fs, 4);
    }
    let f = u16_to_le_bytes(reply.reply_size);
    push_field(&mut body, TAG_REPLY_SIZE, f.as_slice());
    proof {
        lemma_fields_bytes_step(fs, 5);
    }
    let f = vec![reply.reply_ttl];
    push_field(&mut body, TAG_REPLY_TTL, f.as_slice());
    proof {
        assert(f@ =~= seq![reply.reply_ttl]);
        lemma_fields_bytes_step(fs, 6);
    }
    let f = vec![reply.reply_protocol];
    push_field(&mut body, TAG_REPLY_PROTOCOL, f.as_slice());
    proof {
        assert(f@ =~= seq![reply.reply_protocol]);
        lemma_fields_bytes_step(fs, 7);
    }
    let f = vec![reply.reply_icmp_type];
    push_field(&mut body, TAG_REPLY_ICMP_TYPE, f.as_slice());
    proof {
        assert(f@ =~= seq![reply.reply_icmp_type]);
        lemma_fields_bytes_step(fs, 8);
    }
    let f = vec![reply.reply_icmp_code];
    push_field(&mut body, TAG_REPLY_ICMP_CODE, f.as_slice());
    proof {
        assert(f@ =~= seq![reply.reply_icmp_code]);
        lemma_fields_bytes_step(fs, 9);
    }
    let f = serialize_mpls_labels(&reply.reply_mpls_labels);
    push_field(&mut body, TAG_REPLY_MPLS_LABELS, f.as_slice());
    proof {
        lemma_fields_bytes_step(fs, 10);
    }
    push_field(&mut body, TAG_PROBE_SRC_ADDR, &reply.probe_src_addr);
    proof {
        lemma_fields_bytes_step(fs, 11);
    }
    push_field(&mut body, TAG_PROBE_DST_ADDR, &reply.probe_dst_addr);
    proof {
        lemma_fields_bytes_step(fs, 12);
    }
    let f = u16_to_le_bytes(reply.probe_id);
    push_field(&mut body, TAG_PROBE_ID, f.as_slice());
    proof {
        lemma_fields_bytes_step(fs, 13);
    }
    let f = u16_to_le_bytes(reply.probe_size);
    push_field(&mut body, TAG_PROBE_SIZE, f.as_slice());
    proof {
        lemma_fields_bytes_step(fs, 14);
    }
    let f = vec![reply.probe_ttl];
    push_field(&mut body, TAG_PROBE_TTL, f.as_slice());
    proof {
        assert(f@ =~= seq![reply.probe_ttl]);
        lemma_fields_bytes_step(fs, 15);
    }
    let f = vec![reply.probe_protocol];
    push_field(&mut body, TAG_PROBE_PROTOCOL, f.as_slice());
    proof {
        assert(f@ =~= seq![reply.probe_protocol]);
        lemma_fields_bytes_step(fs, 16);
    }
    let f = u16_to_le_bytes(reply.probe_src_port);
    push_field(&mut body, TAG_PROBE_SRC_PORT, f.as_slice());
    proof {
        lemma_fields_bytes_step(fs, 17);
    }
    let f = u16_to_le_bytes(reply.probe_dst_port);
    push_field(&mut body, TAG_PROBE_DST_PORT, f.as_slice());
    proof {
        lemma_fields_bytes_step(fs, 18);
    }
    let f = vec![reply.quoted_ttl];
    push_field(&mut body, TAG_QUOTED_TTL, f.as_slice());
    proof {
        assert(f@ =~= seq![reply.quoted_ttl]);
        lemma_fields_bytes_step(fs, 19);
    }
    let f = u16_to_le_bytes(reply.rtt);
    push_field(&mut body, TAG_RTT, f.as_slice());
    proof {
        lemma_fields_bytes_step(fs, 20);
    }
    proof {
        assert(fs.subrange(0, 21) =~= fs);
    }
    let mut out: Vec<u8> = Vec::new();
    push_record(&mut out, body.as_slice());
    out
}

fn read_addr_field(b: &[u8], spans: &Vec<crate::wire::FieldSpan>, tag: u8) -> (r: Result<[u8; 16], DecodeErrorKind>)
    requires
        crate::wire::spans_within(b@, spans@),
    ensures
        match r {
            Ok(a) => sized_field(spans_view(b@, spans@), tag, 16) == Ok::<Seq<u8>, DecodeErrorKind>(a@),
            Err(e) => sized_field(spans_view(b@, spans@), tag, 16) == Err::<Seq<u8>, DecodeErrorKind>(e),
        },
{
    match read_sized_field(b, spans, tag, 16) {
        Err(e) => Err(e),
        Ok(d) => {
            let a: [u8; 16] = [
                d[0], d[1], d[2], d[3], d[4], d[5], d[6], d[7],
                d[8], d[9], d[10], d[11], d[12], d[13], d[14], d[15],
            ];
            assert(a@ =~= d@);
            Ok(a)
        },
    }
}

fn read_mpls_field(b: &[u8], spans: &Vec<crate::wire::FieldSpan>, tag: u8) -> (r: Result<Vec<MplsLabel>, DecodeErrorKind>)
    requires
        crate::wire::spans_within(b@, spans@),
    ensures
        match r {
            Ok(ls) => mpls_field(spans_view(b@, spans@), tag) == Ok::<Seq<MplsLabel>, DecodeErrorKind>(ls@),
            Err(e) => mpls_field(spans_view(b@, spans@), tag) == Err::<Seq<MplsLabel>, DecodeErrorKind>(e),
        },
{
    match crate::wire::find_field(b, spans, tag) {
        None => Err(DecodeErrorKind::MissingField(tag)),
        Some(sp) => if (sp.end - sp.start) % 7 == 0 {
            Ok(deserialize_mpls_labels(&b[sp.start..sp.end]))
        } else {
            Err(DecodeErrorKind::BadFieldLength(tag))
        },
    }
}

/// The agent id and reply that a record's body describes.
pub fn decode_reply_body(body: &[u8]) -> (r: Result<ReplyRecord, DecodeErrorKind>)
    ensures
        match r {
            Ok(rec) => reply_of_body(body@) == Ok::<(Seq<u8>, ReplyView), DecodeErrorKind>(record_view(rec)),
            Err(k) => reply_of_body(body@) == Err::<(Seq<u8>, ReplyView), DecodeErrorKind>(k),
        },
{
    let spans = match read_fields(body) {
        None => return Err(DecodeErrorKind::MalformedFields),
        Some(s) => s,
    };
    let agent_id = match crate::wire::find_field(body, &spans, TAG_AGENT_ID) {
        None => return Err(DecodeErrorKind::MissingField(TAG_AGENT_ID)),
        Some(sp) => vstd::slice::slice_to_vec(&body[sp.start..sp.end]),
    };
    let capture_timestamp = match read_u64_field(body, &spans, TAG_CAPTURE_TIMESTAMP) {
        Err(e) => return Err(e),
        Ok(v) => v,
    };
    let reply_src_addr = match read_addr_field(body, &spans, TAG_REPLY_SRC_ADDR) {
        Err(e) => return Err(e),
        Ok(v) => v,
    };
    let reply_dst_addr = match read_addr_field(body, &spans, TAG_REPLY_DST_ADDR) {
        Err(e) => return Err(e),
        Ok(v) => v,
    };
    let reply_id = match read_u16_field(body, &spans, TAG_REPLY_ID) {
        Err(e) => return Err(e),
        Ok(v) => v,
    };
    let reply_size = match read_u16_field(body, &spans, TAG_REPLY_SIZE) {
        Err(e) => return Err(e),
        Ok(v) => v,
    };
    let reply_ttl = match read_u8_field(body, &spans, TAG_REPLY_TTL) {
        Err(e) => return Err(e),
        Ok(v) => v,
    };
    let reply_protocol = match read_u8_field(body, &spans, TAG_REPLY_PROTOCOL) {
        Err(e) => return Err(e),
        Ok(v) => v,
    };
    let reply_icmp_type = match read_u8_field(body, &spans, TAG_REPLY_ICMP_TYPE) {
        Err(e) => return Err(e),
        Ok(v) => v,
    };
    let reply_icmp_code = match read_u8_field(body, &spans, TAG_REPLY_ICMP_CODE) {
        Err(e) => return Err(e),
        Ok(v) => v,
    };
    let reply_mpls_labels = match read_mpls_field(body, &spans, TAG_REPLY_MPLS_LABELS) {
        Err(e) => return Err(e),
        Ok(v) => v,
    };
    let probe_src_addr = match read_addr_field(body, &spans, TAG_PROBE_SRC_ADDR) {
        Err(e) => return Err(e),
        Ok(v) => v,
    };
    let probe_dst_addr = match read_addr_field(body, &spans, TAG_PROBE_DST_ADDR) {
        Err(e) => return Err(e),
        Ok(v) => v,
    };
    let probe_id = match read_u16_field(body, &spans, TAG_PROBE_ID) {
        Err(e) => return Err(e),
        Ok(v) => v,
    };
    let probe_size = match read_u16_field(body, &spans, TAG_PROBE_SIZE) {
        Err(e) => return Err(e),
        Ok(v) => v,
    };
    let probe_ttl = match read_u8_field(body, &spans, TAG_PROBE_TTL) {
        Err(e) => return Err(e),
        Ok(v) => v,
    };
    let probe_protocol = match read_u8_field(body, &spans, TAG_PROBE_PROTOCOL) {
        Err(e) => return Err(e),
        Ok(v) => v,
    };
    let probe_src_port = match read_u16_field(body, &spans, TAG_PROBE_SRC_PORT) {
        Err(e) => return Err(e),
        Ok(v) => v,
    };
    let probe_dst_port = match read_u16_field(body, &spans, TAG_PROBE_DST_PORT) {
        Err(e) => return Err(e),
        Ok(v) => v,
    };
    let quoted_ttl = match read_u8_field(body, &spans, TAG_QUOTED_TTL) {
        Err(e) => return Err(e),
        Ok(v) => v,
    };
    let rtt = match read_u16_field(body, &spans, TAG_RTT) {
        Err(e) => return Err(e),
        Ok(v) => v,
    };
    let reply = Reply {
        capture_timestamp,
        reply_src_addr,
        reply_dst_addr,
        reply_id,
        reply_size,
        reply_ttl,
        reply_protocol,
        reply_icmp_type,
        reply_icmp_code,
        reply_mpls_labels,
        probe_src_addr,
        probe_dst_addr,
        probe_id,
        probe_size,
        probe_ttl,
        probe_protocol,
        probe_src_port,
        probe_dst_port,
        quoted_ttl,
        rtt,
    };
    Ok(ReplyRecord { agent_id, reply })
}

/// The replies of a stream of records, in order; the first malformed record
/// fails the whole stream. An empty stream holds no reply.
pub fn deserialize_replies(bytes: &[u8]) -> (r: Result<Vec<ReplyRecord>, DecodeError>)
    ensures
        match r {
            Ok(rs) => decode_replies(bytes@) == Ok::<Seq<(Seq<u8>, ReplyView)>, (int, DecodeErrorKind)>(
                rs@.map_values(|x: ReplyRecord| record_view(x)),
            ),
            Err(e) => decode_replies(bytes@) == Err::<Seq<(Seq<u8>, ReplyView)>, (int, DecodeErrorKind)>(
                (e.offset as int, e.kind),
            ),
        },
{
    let b = bytes;
    let mut out: Vec<ReplyRecord> = Vec::new();
    let mut pos: usize = 0;
    while pos < b.len()
        invariant
            pos <= b@.len(),
            b@ == bytes@,
            decode_replies(b@) == match decode_replies_from(b@, pos as int) {
                Ok(rs) => Ok(out@.map_values(|x: ReplyRecord| record_view(x)) + rs),
                Err(e) => Err::<Seq<(Seq<u8>, ReplyView)>, (int, DecodeErrorKind)>(e),
            },
        decreases b@.len() - pos,
    {
        match read_record(b, pos) {
            None => {
                return Err(DecodeError { offset: pos, kind: DecodeErrorKind::TruncatedRecord });
            },
            Some((start, end)) => {
                match decode_reply_body(&b[start..end]) {
                    Err(k) => {
                        return Err(DecodeError { offset: pos, kind: k });
                    },
                    Ok(rec) => {
                        let ghost old_out = out@;
                        let ghost rv = record_view(rec);
                        out.push(rec);
                        proof {
                            assert(out@.map_values(|x: ReplyRecord| record_view(x)) =~= old_out.map_values(
                                |x: ReplyRecord| record_view(x),
                            ) + seq![rv]);
                            match decode_replies_from(b@, end as int) {
                                Ok(rs) => {
                                    assert(old_out.map_values(|x: ReplyRecord| record_view(x)) + (seq![rv] + rs)
                                        =~= out@.map_values(|x: ReplyRecord| record_view(x)) + rs);
                                },
                                Err(e) => {},
                            }
                        }
                        pos = end;
                    },
                }
            },
        }
    }
    assert(out@.map_values(|x: ReplyRecord| record_view(x)) + Seq::<(Seq<u8>, ReplyView)>::empty()
        =~= out@.map_values(|x: ReplyRecord| record_view(x)));
    Ok(out)
}

proof fn lemma_labels_bytes_len(ls: Seq<MplsLabel>)
    ensures
        labels_bytes(ls).len() == 7 * ls.len(),
    decreases ls.len(),
{
    lemma_auto_spec_u32_to_from_le_bytes();
    if ls.len() > 0 {
        lemma_labels_bytes_len(ls.drop_first());
    }
}

/// The bytes of a label stack read back as the stack.
pub proof fn lemma_labels_round_trip(ls: Seq<MplsLabel>)
    ensures
        labels_of(labels_bytes(ls)) == ls,
    decreases ls.len(),
{
    lemma_auto_spec_u32_to_from_le_bytes();
    lemma_labels_bytes_len(ls);
    if ls.len() == 0 {
        assert(ls =~= Seq::<MplsLabel>::empty());
    } else {
        let b = labels_bytes(ls);
        let l = ls[0];
        lemma_labels_round_trip(ls.drop_first());
        lemma_labels_bytes_len(ls.drop_first());
        assert(b.subrange(0, 7) =~= label_bytes(l));
        assert(label_bytes(l).subrange(0, 4) =~= spec_u32_to_le_bytes(l.label));
        assert(label_of(label_bytes(l)) == l);
        assert(b.subrange(7, b.len() as int) =~= labels_bytes(ls.drop_first()));
        assert(seq![l] + ls.drop_first() =~= ls);
    }
}

/// The tags of a reply's fields are 1, 2, ... in the order written.
proof fn lemma_reply_fields_tags(agent_id: Seq<u8>, r: ReplyView)
    ensures
        reply_fields(agent_id, r).len() == 21,
        forall|i: int| 0 <= i < 21 ==> #[trigger] reply_fields(agent_id, r)[i].0 == (i + 1) as u8,
{
    let fs = reply_fields(agent_id, r);
    assert forall|i: int| 0 <= i < 21 implies #[trigger] fs[i].0 == (i + 1) as u8 by {

        if i == 0 { assert(fs[0].0 == 1u8); }
        if i == 1 { assert(fs[1].0 == 2u8); }
        if i == 2 { assert(fs[2].0 == 3u8); }
        if i == 3 { assert(fs[3].0 == 4u8); }
        if i == 4 { assert(fs[4].0 == 5u8); }
        if i == 5 { assert(fs[5].0 == 6u8); }
        if i == 6 { assert(fs[6].0 == 7u8); }
        if i == 7 { assert(fs[7].0 == 8u8); }
        if i == 8 { assert(fs[8].0 == 9u8); }
        if i == 9 { assert(fs[9].0 == 10u8); }
        if i == 10 { assert(fs[10].0 == 11u8); }
        if i == 11 { assert(fs[11].0 == 12u8); }
        if i == 12 { assert(fs[12].0 == 13u8); }
        if i == 13 { assert(fs[13].0 == 14u8); }
        if i == 14 { assert(fs[14].0 == 15u8); }
        if i == 15 { assert(fs[15].0 == 16u8); }
        if i == 16 { assert(fs[16].0 == 17u8); }
        if i == 17 { assert(fs[17].0 == 18u8); }
        if i == 18 { assert(fs[18].0 == 19u8); }
        if i == 19 { assert(fs[19].0 == 20u8); }
        if i == 20 { assert(fs[20].0 == 21u8); }
    }
}

/// The record body of a reply reads back as the agent id and the reply.
#[verifier::rlimit(100)]
pub proof fn lemma_reply_body_round_trip(agent_id: Seq<u8>, r: ReplyView)
    requires
        reply_wf(agent_id, r),
    ensures
        reply_of_body(fields_bytes(reply_fields(agent_id, r)))
            == Ok::<(Seq<u8>, ReplyView), DecodeErrorKind>((agent_id, r)),
{
    lemma_auto_spec_u16_to_from_le_bytes();
    lemma_auto_spec_u64_to_from_le_bytes();
    lemma_labels_bytes_len(r.reply_mpls_labels);
    lemma_labels_round_trip(r.reply_mpls_labels);
    lemma_reply_fields_tags(agent_id, r);
    let fs = reply_fields(agent_id, r);
    assert(fields_fit(fs));
    lemma_parse_fields_bytes(fs);
    assert(first_with_tag(fs, TAG_AGENT_ID, 0));
    lemma_first_with_tag_unique(fs, TAG_AGENT_ID, 0);
    assert(agent_field(fs, TAG_AGENT_ID) == Ok::<Seq<u8>, DecodeErrorKind>(agent_id));
    assert(first_with_tag(fs, TAG_CAPTURE_TIMESTAMP, 1));
    lemma_first_with_tag_unique(fs, TAG_CAPTURE_TIMESTAMP, 1);
    assert(u64_field(fs, TAG_CAPTURE_TIMESTAMP) == Ok::<u64, DecodeErrorKind>(r.capture_timestamp));
    assert(first_with_tag(fs, TAG_REPLY_SRC_ADDR, 2));
    lemma_first_with_tag_unique(fs, TAG_REPLY_SRC_ADDR, 2);
    assert(sized_field(fs, TAG_REPLY_SRC_ADDR, 16) == Ok::<Seq<u8>, DecodeErrorKind>(r.reply_src_addr));
    assert(first_with_tag(fs, TAG_REPLY_DST_ADDR, 3));
    lemma_first_with_tag_unique(fs, TAG_REPLY_DST_ADDR, 3);
    assert(sized_field(fs, TAG_REPLY_DST_ADDR, 16) == Ok::<Seq<u8>, DecodeErrorKind>(r.reply_dst_addr));
    assert(first_with_tag(fs, TAG_REPLY_ID, 4));
    lemma_first_with_tag_unique(fs, TAG_REPLY_ID, 4);
    assert(u16_field(fs, TAG_REPLY_ID) == Ok::<u16, DecodeErrorKind>(r.reply_id));
    assert(first_with_tag(fs, TAG_REPLY_SIZE, 5));
    lemma_first_with_tag_unique(fs, TAG_REPLY_SIZE, 5);
    assert(u16_field(fs, TAG_REPLY_SIZE) == Ok::<u16, DecodeErrorKind>(r.reply_size));
    assert(first_with_tag(fs, TAG_REPLY_TTL, 6));
    lemma_first_with_tag_unique(fs, TAG_REPLY_TTL, 6);
    assert(u8_field(fs, TAG_REPLY_TTL) == Ok::<u8, DecodeErrorKind>(r.reply_ttl));
    assert(first_with_tag(fs, TAG_REPLY_PROTOCOL, 7));
    lemma_first_with_tag_unique(fs, TAG_REPLY_PROTOCOL, 7);
    assert(u8_field(fs, TAG_REPLY_PROTOCOL) == Ok::<u8, DecodeErrorKind>(r.reply_protocol));
    assert(first_with_tag(fs, TAG_REPLY_ICMP_TYPE, 8));
    lemma_first_with_tag_unique(fs, TAG_REPLY_ICMP_TYPE, 8);
    assert(u8_field(fs, TAG_REPLY_ICMP_TYPE) == Ok::<u8, DecodeErrorKind>(r.reply_icmp_type));
    assert(first_with_tag(fs, TAG_REPLY_ICMP_CODE, 9));
    lemma_first_with_tag_unique(fs, TAG_REPLY_ICMP_CODE, 9);
    assert(u8_field(fs, TAG_REPLY_ICMP_CODE) == Ok::<u8, DecodeErrorKind>(r.reply_icmp_code));
    assert(first_with_tag(fs, TAG_REPLY_MPLS_LABELS, 10));
    lemma_first_with_tag_unique(fs, TAG_REPLY_MPLS_LABELS, 10);
    assert(mpls_field(fs, TAG_REPLY_MPLS_LABELS) == Ok::<Seq<MplsLabel>, DecodeErrorKind>(r.reply_mpls_labels));
    assert(first_with_tag(fs, TAG_PROBE_SRC_ADDR, 11));
    lemma_first_with_tag_unique(fs, TAG_PROBE_SRC_ADDR, 11);
    assert(sized_field(fs, TAG_PROBE_SRC_ADDR, 16) == Ok::<Seq<u8>, DecodeErrorKind>(r.probe_src_addr));
    assert(first_with_tag(fs, TAG_PROBE_DST_ADDR, 12));
    lemma_first_with_tag_unique(fs, TAG_PROBE_DST_ADDR, 12);
    assert(sized_field(fs, TAG_PROBE_DST_ADDR, 16) == Ok::<Seq<u8>, DecodeErrorKind>(r.probe_dst_addr));
    assert(first_with_tag(fs, TAG_PROBE_ID, 13));
    lemma_first_with_tag_unique(fs, TAG_PROBE_ID, 13);
    assert(u16_field(fs, TAG_PROBE_ID) == Ok::<u16, DecodeErrorKind>(r.probe_id));
    assert(first_with_tag(fs, TAG_PROBE_SIZE, 14));
    lemma_first_with_tag_unique(fs, TAG_PROBE_SIZE, 14);
    assert(u16_field(fs, TAG_PROBE_SIZE) == Ok::<u16, DecodeErrorKind>(r.probe_size));
    assert(first_with_tag(fs, TAG_PROBE_TTL, 15));
    lemma_first_with_tag_unique(fs, TAG_PROBE_TTL, 15);
    assert(u8_field(fs, TAG_PROBE_TTL) == Ok::<u8, DecodeErrorKind>(r.probe_ttl));
    assert(first_with_tag(fs, TAG_PROBE_PROTOCOL, 16));
    lemma_first_with_tag_unique(fs, TAG_PROBE_PROTOCOL, 16);
    assert(u8_field(fs, TAG_PROBE_PROTOCOL) == Ok::<u8, DecodeErrorKind>(r.probe_protocol));
    assert(first_with_tag(fs, TAG_PROBE_SRC_PORT, 17));
    lemma_first_with_tag_unique(fs, TAG_PROBE_SRC_PORT, 17);
    assert(u16_field(fs, TAG_PROBE_SRC_PORT) == Ok::<u16, DecodeErrorKind>(r.probe_src_port));
    assert(first_with_tag(fs, TAG_PROBE_DST_PORT, 18));
    lemma_first_with_tag_unique(fs, TAG_PROBE_DST_PORT, 18);
    assert(u16_field(fs, TAG_PROBE_DST_PORT) == Ok::<u16, DecodeErrorKind>(r.probe_dst_port));
    assert(first_with_tag(fs, TAG_QUOTED_TTL, 19));
    lemma_first_with_tag_unique(fs, TAG_QUOTED_TTL, 19);
    assert(u8_field(fs, TAG_QUOTED_TTL) == Ok::<u8, DecodeErrorKind>(r.quoted_ttl));
    assert(first_with_tag(fs, TAG_RTT, 20));
    lemma_first_with_tag_unique(fs, TAG_RTT, 20);
    assert(u16_field(fs, TAG_RTT) == Ok::<u16, DecodeErrorKind>(r.rtt));
}

/// The records of a sequence of replies, one after another.
pub open spec fn encode_replies(rs: Seq<(Seq<u8>, ReplyView)>) -> Seq<u8>
    decreases rs.len(),
{
    if rs.len() == 0 {
        Seq::empty()
    } else {
        encode_reply(rs[0].0, rs[0].1) + encode_replies(rs.drop_first())
    }
}

proof fn lemma_reply_body_len(agent_id: Seq<u8>, r: ReplyView)
    requires
        reply_wf(agent_id, r),
    ensures
        fields_bytes(reply_fields(agent_id, r)).len() <= u32::MAX,
{
    lemma_auto_spec_u16_to_from_le_bytes();
    lemma_auto_spec_u64_to_from_le_bytes();
    lemma_labels_bytes_len(r.reply_mpls_labels);
    lemma_reply_fields_tags(agent_id, r);
    let fs = reply_fields(agent_id, r);
    assert(fields_fit(fs));
    crate::wire::lemma_fields_bytes_len(fs);
}

/// Decoding, from position `pos` on, a stream whose rest holds the records of
/// fitting replies gives those replies.
#[verifier::spinoff_prover]
#[verifier::rlimit(100)]
proof fn lemma_decode_replies_from_encoded(b: Seq<u8>, pos: int, rs: Seq<(Seq<u8>, ReplyView)>)
    requires
        0 <= pos <= b.len(),
        b.subrange(pos, b.len() as int) == encode_replies(rs),
        forall|i: int| 0 <= i < rs.len() ==> reply_wf(#[trigger] rs[i].0, rs[i].1),
    ensures
        decode_replies_from(b, pos) == Ok::<Seq<(Seq<u8>, ReplyView)>, (int, DecodeErrorKind)>(rs),
    decreases rs.len(),
{
    if rs.len() == 0 {
        assert(b.subrange(pos, b.len() as int).len() == 0);
        assert(rs =~= Seq::<(Seq<u8>, ReplyView)>::empty());
    } else {
        lemma_auto_spec_u32_to_from_le_bytes();
        assert(reply_wf(rs[0].0, rs[0].1));
        let body = fields_bytes(reply_fields(rs[0].0, rs[0].1));
        lemma_reply_body_round_trip(rs[0].0, rs[0].1);
        lemma_reply_body_len(rs[0].0, rs[0].1);
        let rest = encode_replies(rs.drop_first());
        let n = body.len() as int;
        let enc = spec_u32_to_le_bytes(body.len() as u32);
        let s = b.subrange(pos, b.len() as int);
        assert(enc.len() == 4);
        assert(s =~= enc + body + rest);
        assert(s.len() == b.len() - pos);
        assert((enc + body + rest).len() == 4 + n + rest.len());
        assert(b.len() == pos + 4 + n + rest.len());
        assert(b.subrange(pos, pos + 4) =~= enc);
        assert(s.subrange(4, 4 + n) =~= body);
        assert(b.subrange(pos + 4, pos + 4 + n) =~= s.subrange(4, 4 + n));
        assert(s.subrange(4 + n, s.len() as int) =~= rest);
        assert(b.subrange(pos + 4 + n, b.len() as int) =~= s.subrange(4 + n, s.len() as int));
        assert forall|i: int| 0 <= i < rs.drop_first().len() implies reply_wf(
            #[trigger] rs.drop_first()[i].0,
            rs.drop_first()[i].1,
        ) by {
            assert(rs.drop_first()[i] == rs[i + 1]);
        }
        lemma_decode_replies_from_encoded(b, pos + 4 + n, rs.drop_first());
        assert(seq![rs[0]] + rs.drop_first() =~= rs);
    }
}

/// Decoding the records of replies gives the agent ids and replies back, in
/// order.
pub proof fn lemma_replies_round_trip(rs: Seq<(Seq<u8>, ReplyView)>)
    requires
        forall|i: int| 0 <= i < rs.len() ==> reply_wf(#[trigger] rs[i].0, rs[i].1),
    ensures
        decode_replies(encode_replies(rs)) == Ok::<Seq<(Seq<u8>, ReplyView)>, (int, DecodeErrorKind)>(rs),
{
    let b = encode_replies(rs);
    assert(b.subrange(0, b.len() as int) =~= b);
    lemma_decode_replies_from_encoded(b, 0, rs);
}

} // verus!
