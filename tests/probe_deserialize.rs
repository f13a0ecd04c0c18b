//! The probe and reply codec.
use saimiris::net::IpAddress;
use saimiris::probe::{
    deserialize_ip_addr, deserialize_probe, deserialize_probes, deserialize_protocol, serialize_ip_addr,
    serialize_probe, serialize_protocol, Probe, L4,
};
use saimiris::reply::{deserialize_replies, serialize_reply, MplsLabel, Reply};
use saimiris::wire::{DecodeError, DecodeErrorKind};

#[test]
fn test_deserialize_probes_valid() {
    let probes = vec![0u8; 10];
    let _ = deserialize_probes(probes);
}

#[test]
fn test_deserialize_probes_empty() {
    let probes = vec![];
    let result = deserialize_probes(probes);
    assert!(result.is_ok());
    assert!(result.unwrap().is_empty());
}

fn sample_probes() -> Vec<Probe> {
    vec![
        Probe { dst_addr: IpAddress::V4([192, 0, 2, 1]), src_port: 24000, dst_port: 33434, ttl: 5, protocol: L4::UDP },
        Probe { dst_addr: IpAddress::V4([8, 8, 8, 8]), src_port: 1, dst_port: 2, ttl: 255, protocol: L4::ICMP },
        Probe {
            dst_addr: IpAddress::V6([0x20, 0x01, 0x0d, 0xb8, 0, 0, 0, 0, 0, 0, 0, 0, 0, 0, 0, 1]),
            src_port: 65535,
            dst_port: 0,
            ttl: 1,
            protocol: L4::ICMPv6,
        },
    ]
}

#[test]
fn probes_round_trip() {
    let probes = sample_probes();
    let mut bytes = Vec::new();
    for p in &probes {
        bytes.extend_from_slice(&serialize_probe(p));
    }
    assert_eq!(deserialize_probes(bytes).unwrap(), probes);
    for p in &probes {
        assert_eq!(deserialize_probe(serialize_probe(p)).unwrap(), *p);
    }
}

#[test]
fn probe_record_layout() {
    let p = sample_probes()[0];
    let b = serialize_probe(&p);
    assert_eq!(&b[0..4], &[37, 0, 0, 0]);
    assert_eq!(&b[4..7], &[1, 16, 0]);
    assert_eq!(&b[7..23], &[0, 0, 0, 0, 0, 0, 0, 0, 0, 0, 0xff, 0xff, 192, 0, 2, 1]);
    assert_eq!(&b[23..28], &[2, 2, 0, 0xc0, 0x5d]);
    assert_eq!(&b[28..33], &[3, 2, 0, 0x9a, 0x82]);
    assert_eq!(&b[33..37], &[4, 1, 0, 5]);
    assert_eq!(&b[37..41], &[5, 1, 0, 1]);
}

#[test]
fn addresses_and_protocols() {
    assert_eq!(serialize_ip_addr(IpAddress::V4([1, 2, 3, 4])), vec![0, 0, 0, 0, 0, 0, 0, 0, 0, 0, 0xff, 0xff, 1, 2, 3, 4]);
    assert_eq!(deserialize_ip_addr(&[0, 0, 0, 0, 0, 0, 0, 0, 0, 0, 0xff, 0xff, 1, 2, 3, 4]), Some(IpAddress::V4([1, 2, 3, 4])));
    assert_eq!(deserialize_ip_addr(&[0; 4]), None);
    assert_eq!(deserialize_ip_addr(&[0; 16]), Some(IpAddress::V6([0; 16])));
    assert_eq!(serialize_protocol(L4::UDP), 1);
    assert_eq!(deserialize_protocol(2), Ok(L4::ICMP));
    assert_eq!(deserialize_protocol(4), Err(DecodeErrorKind::UnsupportedProtocol));
    assert_eq!(deserialize_protocol(9), Err(DecodeErrorKind::UnknownProtocol(9)));
}

#[test]
fn unknown_fields_are_skipped_and_the_first_of_a_tag_wins() {
    let p = sample_probes()[0];
    let b = serialize_probe(&p);
    let mut body = vec![99u8, 3, 0, 7, 7, 7];
    body.extend_from_slice(&[4, 1, 0, 9]);
    body.extend_from_slice(&b[4..]);
    let mut rec = (body.len() as u32).to_le_bytes().to_vec();
    rec.extend_from_slice(&body);
    let got = deserialize_probes(rec).unwrap();
    assert_eq!(got.len(), 1);
    assert_eq!(got[0].ttl, 9);
    assert_eq!(got[0].src_port, 24000);
}

#[test]
fn the_first_malformed_record_is_reported_with_its_offset() {
    let probes = sample_probes();
    let mut bytes = serialize_probe(&probes[0]);
    let second = bytes.len();
    bytes.extend_from_slice(&[5, 0, 0, 0, 1, 2]);
    assert_eq!(
        deserialize_probes(bytes.clone()),
        Err(DecodeError { offset: second, kind: DecodeErrorKind::TruncatedRecord })
    );
    let mut tcp = serialize_probe(&probes[0]);
    let n = tcp.len();
    tcp[n - 1] = 4;
    assert_eq!(deserialize_probes(tcp), Err(DecodeError { offset: 0, kind: DecodeErrorKind::UnsupportedProtocol }));
    let mut cut = vec![3u8, 0, 0, 0, 1, 5, 0];
    assert_eq!(
        deserialize_probes(cut.clone()),
        Err(DecodeError { offset: 0, kind: DecodeErrorKind::MalformedFields })
    );
    cut = vec![3u8, 0, 0, 0, 9, 0, 0];
    assert_eq!(
        deserialize_probes(cut),
        Err(DecodeError { offset: 0, kind: DecodeErrorKind::MissingField(1) })
    );
    let bad_len = vec![4u8, 0, 0, 0, 1, 1, 0, 0];
    assert_eq!(
        deserialize_probes(bad_len),
        Err(DecodeError { offset: 0, kind: DecodeErrorKind::BadFieldLength(1) })
    );
    assert_eq!(deserialize_probe(vec![]), Err(DecodeError { offset: 0, kind: DecodeErrorKind::TruncatedRecord }));
}

fn sample_reply() -> Reply {
    Reply {
        capture_timestamp: 1_700_000_000_123_456_789,
        reply_src_addr: [0, 0, 0, 0, 0, 0, 0, 0, 0, 0, 0xff, 0xff, 10, 0, 0, 1],
        reply_dst_addr: [0, 0, 0, 0, 0, 0, 0, 0, 0, 0, 0xff, 0xff, 10, 0, 0, 2],
        reply_id: 11,
        reply_size: 56,
        reply_ttl: 250,
        reply_protocol: 1,
        reply_icmp_type: 11,
        reply_icmp_code: 0,
        reply_mpls_labels: vec![
            MplsLabel { label: 16001, experimental: 0, bottom_of_stack: false, ttl: 1 },
            MplsLabel { label: 24002, experimental: 5, bottom_of_stack: true, ttl: 255 },
        ],
        probe_src_addr: [0, 0, 0, 0, 0, 0, 0, 0, 0, 0, 0xff, 0xff, 10, 0, 0, 2],
        probe_dst_addr: [0, 0, 0, 0, 0, 0, 0, 0, 0, 0, 0xff, 0xff, 192, 0, 2, 1],
        probe_id: 4242,
        probe_size: 48,
        probe_ttl: 5,
        probe_protocol: 17,
        probe_src_port: 24000,
        probe_dst_port: 33434,
        quoted_ttl: 1,
        rtt: 123,
    }
}

#[test]
fn replies_round_trip() {
    let r = sample_reply();
    let mut bytes = serialize_reply("a1".to_string(), &r);
    let mut other = r.clone();
    other.reply_mpls_labels = vec![];
    other.rtt = 7;
    bytes.extend_from_slice(&serialize_reply("agent-two".to_string(), &other));
    let got = deserialize_replies(&bytes).unwrap();
    assert_eq!(got.len(), 2);
    assert_eq!(got[0].agent_id, b"a1".to_vec());
    assert_eq!(got[0].reply.capture_timestamp, r.capture_timestamp);
    assert_eq!(got[0].reply.reply_mpls_labels, r.reply_mpls_labels);
    assert_eq!(got[0].reply.probe_dst_addr, r.probe_dst_addr);
    assert_eq!(got[0].reply.probe_id, 4242);
    assert_eq!(got[0].reply.quoted_ttl, 1);
    assert_eq!(got[1].agent_id, b"agent-two".to_vec());
    assert!(got[1].reply.reply_mpls_labels.is_empty());
    assert_eq!(got[1].reply.rtt, 7);
    assert!(deserialize_replies(&[]).unwrap().is_empty());
}

#[test]
fn an_ipv6_address_that_maps_ipv4_reads_back_as_ipv4() {
    let mapped = Probe {
        dst_addr: IpAddress::V6([0, 0, 0, 0, 0, 0, 0, 0, 0, 0, 0xff, 0xff, 192, 0, 2, 1]),
        src_port: 1,
        dst_port: 2,
        ttl: 3,
        protocol: L4::UDP,
    };
    let back = deserialize_probe(serialize_probe(&mapped)).unwrap();
    assert_eq!(back.dst_addr, IpAddress::V4([192, 0, 2, 1]));
}
