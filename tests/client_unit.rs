//! Client utilities: CSV parsing and packing probes into messages.
use saimiris::client::handler::{read_probes_from_csv, CsvError};
use saimiris::client::producer::create_messages;
use saimiris::net::IpAddress;
use saimiris::probe::{deserialize_probes, serialize_probe, Probe, L4};

#[test]
fn test_read_probes_from_csv_valid() {
    let csv = "::1,1234,4321,64,ICMP\n";
    let result = read_probes_from_csv(csv.as_bytes());
    assert!(result.is_ok(), "CSV parse error: {:?}", result);
    let probes = result.unwrap();
    assert!(!probes.is_empty());
}

#[test]
fn test_read_probes_from_csv_empty() {
    let csv = "";
    let result = read_probes_from_csv(csv.as_bytes());
    assert!(result.is_ok());
    assert!(result.unwrap().is_empty());
}

#[test]
fn test_read_probes_from_csv_malformed() {
    let csv = "not,a,probe\n";
    let result = read_probes_from_csv(csv.as_bytes());
    assert!(result.is_err());
}

#[test]
fn test_create_messages_empty() {
    let probes: Vec<Probe> = vec![];
    let batches = create_messages(probes, 100);
    assert!(batches.is_empty());
}

#[test]
fn csv_fields_are_trimmed_and_read() {
    let csv = " 192.0.2.1 , 24000 , 33434 , 5 , udp \n2001:db8::1,1,2,3,IcmpV6\n";
    let probes = read_probes_from_csv(csv.as_bytes()).unwrap();
    assert_eq!(probes.len(), 2);
    assert_eq!(probes[0].dst_addr, IpAddress::V4([192, 0, 2, 1]));
    assert_eq!(probes[0].src_port, 24000);
    assert_eq!(probes[0].dst_port, 33434);
    assert_eq!(probes[0].ttl, 5);
    assert_eq!(probes[0].protocol, L4::UDP);
    assert_eq!(
        probes[1].dst_addr,
        IpAddress::V6([0x20, 0x01, 0x0d, 0xb8, 0, 0, 0, 0, 0, 0, 0, 0, 0, 0, 0, 1])
    );
    assert_eq!(probes[1].protocol, L4::ICMPv6);
}

#[test]
fn csv_errors_name_the_line_and_field() {
    assert_eq!(read_probes_from_csv(b"not,a,probe\n"), Err(CsvError::FieldCount(1)));
    assert_eq!(read_probes_from_csv(b"1.2.3.4,1,2,3,udp\n1.2.3.4,1,2,3,udp\nx\n"), Err(CsvError::Read));
    assert_eq!(read_probes_from_csv(b"nowhere,1,2,3,udp\n"), Err(CsvError::BadAddress(1)));
    assert_eq!(read_probes_from_csv(b"1.2.3.4,70000,2,3,udp\n"), Err(CsvError::BadSrcPort(1)));
    assert_eq!(read_probes_from_csv(b"1.2.3.4,1,x,3,udp\n"), Err(CsvError::BadDstPort(1)));
    assert_eq!(read_probes_from_csv(b"1.2.3.4,1,2,256,udp\n"), Err(CsvError::BadTtl(1)));
    assert_eq!(read_probes_from_csv(b"1.2.3.4,1,2,3,tcp\n"), Err(CsvError::BadProtocol(1)));
    assert_eq!(read_probes_from_csv(b"1.2.3.4,1,2,3,udp\n1.2.3.4,1\n"), Err(CsvError::Read));
}

fn probe(ttl: u8) -> Probe {
    Probe { dst_addr: IpAddress::V4([192, 0, 2, 1]), src_port: 24000, dst_port: 33434, ttl, protocol: L4::UDP }
}

#[test]
fn messages_hold_whole_records_within_the_bound() {
    let one = serialize_probe(&probe(1)).len();
    assert_eq!(one, 41);
    let probes: Vec<Probe> = (1..=5).map(probe).collect();
    let messages = create_messages(probes.clone(), 2 * one);
    assert_eq!(messages.len(), 3);
    assert_eq!(messages[0].len(), 2 * one);
    assert_eq!(messages[1].len(), 2 * one);
    assert_eq!(messages[2].len(), one);
    let mut all = Vec::new();
    for m in &messages {
        all.extend_from_slice(m);
    }
    let decoded = deserialize_probes(all).unwrap();
    assert_eq!(decoded.len(), 5);
    for (d, p) in decoded.iter().zip(probes.iter()) {
        assert_eq!(d.ttl, p.ttl);
    }
}

#[test]
fn a_record_larger_than_the_bound_closes_the_current_message() {
    let messages = create_messages(vec![probe(1)], 10);
    assert_eq!(messages.len(), 2);
    assert!(messages[0].is_empty());
    assert_eq!(messages[1].len(), 41);
}
