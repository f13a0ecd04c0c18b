//! End-to-end scenarios of the agent's decisions, from an inbound message to
//! the counters of the send loop and the messages of the reply producer.
use saimiris::agent::gateway::MeasurementInfo;
use saimiris::agent::handler::{route_message, DispatchOutcome, Header, TargetError};
use saimiris::agent::producer::{batch_expired, ReplyBatcher};
use saimiris::agent::sender::{MeasurementCounters, SendStatistics};
use saimiris::config::CaracatConfig;
use saimiris::net::IpAddress;
use saimiris::probe::{serialize_probe, Probe, L4};

fn udp_probe(ttl: u8) -> Probe {
    Probe { dst_addr: IpAddress::V4([192, 0, 2, 1]), src_port: 24000, dst_port: 33434, ttl, protocol: L4::UDP }
}

fn header(key: &str, value: &str) -> Header {
    Header { key: key.to_string(), value: Some(value.as_bytes().to_vec()) }
}

fn prefixed(id: u16, v4: Option<&str>, v6: Option<&str>) -> CaracatConfig {
    CaracatConfig {
        instance_id: id,
        src_ipv4_prefix: v4.map(|s| s.to_string()),
        src_ipv6_prefix: v6.map(|s| s.to_string()),
        ..Default::default()
    }
}

#[test]
fn single_instance_without_prefixes_dry_run() {
    let config = CaracatConfig {
        instance_id: 7,
        interface: "eth0".to_string(),
        probing_rate: 100,
        packets: 1,
        dry_run: true,
        ..Default::default()
    };
    let registry = vec![(7u16, "queue-7")];
    let payload = serialize_probe(&udp_probe(5));
    let outcome = route_message("a1", &vec![header("a1", "{}")], &payload, &registry, &[config.clone()]);
    let batch = match outcome {
        DispatchOutcome::Dispatch(q, b) => {
            assert_eq!(*q, "queue-7");
            b
        }
        other => panic!("unexpected {:?}", other),
    };
    assert_eq!(batch.source_ip, "");
    assert!(batch.measurement_info.is_none());
    assert_eq!(batch.probes, vec![udp_probe(5)]);

    let mut stats = SendStatistics::new();
    let to_send = stats.filter_batch(config.min_ttl, config.max_ttl, &batch.probes);
    let mut sent_in_batch = 0u64;
    for _probe in &to_send {
        for _ in 0..config.packets {
            stats.record_emission(&mut sent_in_batch, true, 100);
        }
    }
    assert_eq!(stats.sent, 1);
    assert_eq!(stats.read, 1);
    assert_eq!(stats.failed, 0);
}

#[test]
fn prefix_routing_ipv4() {
    let configs = vec![prefixed(1, Some("192.168.1.0/24"), None), prefixed(2, None, None)];
    let registry = vec![(1u16, "A"), (2u16, "B")];
    let payload = serialize_probe(&udp_probe(5));
    match route_message("a1", &vec![header("a1", r#"{"src_ip":"192.168.1.17"}"#)], &payload, &registry, &configs) {
        DispatchOutcome::Dispatch(q, b) => {
            assert_eq!(*q, "A");
            assert_eq!(b.source_ip, "192.168.1.17");
        }
        other => panic!("unexpected {:?}", other),
    }
}

#[test]
fn prefix_routing_ipv6() {
    let configs = vec![prefixed(1, None, Some("2001:db8::/32")), prefixed(2, None, None)];
    let registry = vec![(1u16, "A"), (2u16, "B")];
    let payload = serialize_probe(&udp_probe(5));
    match route_message("a1", &vec![header("a1", r#"{"src_ip":"2001:db8::1"}"#)], &payload, &registry, &configs) {
        DispatchOutcome::Dispatch(q, b) => {
            assert_eq!(*q, "A");
            assert_eq!(b.source_ip, "2001:db8::1");
        }
        other => panic!("unexpected {:?}", other),
    }
}

#[test]
fn prefix_miss_falls_back_to_the_default_instance() {
    let configs = vec![prefixed(1, Some("192.168.1.0/24"), None), prefixed(2, None, None)];
    let registry = vec![(1u16, "A"), (2u16, "B")];
    let payload = serialize_probe(&udp_probe(5));
    match route_message("a1", &vec![header("a1", r#"{"src_ip":"10.0.0.5"}"#)], &payload, &registry, &configs) {
        DispatchOutcome::Dispatch(q, b) => {
            assert_eq!(*q, "B");
            assert_eq!(b.source_ip, "");
        }
        other => panic!("unexpected {:?}", other),
    }
}

#[test]
fn prefix_miss_without_default_is_rejected() {
    let configs = vec![prefixed(1, Some("192.168.1.0/24"), None)];
    let registry = vec![(1u16, "A")];
    let payload = serialize_probe(&udp_probe(5));
    match route_message("a1", &vec![header("a1", r#"{"src_ip":"10.0.0.5"}"#)], &payload, &registry, &configs) {
        DispatchOutcome::Rejected(e) => assert_eq!(e, TargetError::SourceNotInAnyPrefix),
        other => panic!("unexpected {:?}", other),
    }
    match route_message("a1", &vec![header("a1", "{}")], &payload, &registry, &configs) {
        DispatchOutcome::Rejected(e) => assert_eq!(e, TargetError::NoDefaultInstance),
        other => panic!("unexpected {:?}", other),
    }
}

#[test]
fn messages_for_other_agents_are_dropped() {
    let configs = vec![prefixed(1, None, None)];
    let registry = vec![(1u16, "A")];
    let payload = serialize_probe(&udp_probe(5));
    assert!(matches!(
        route_message("a1", &vec![header("a2", "{}"), header("measurement_id", "m")], &payload, &registry, &configs),
        DispatchOutcome::NotForThisAgent
    ));
    assert!(matches!(route_message("a1", &vec![], &payload, &registry, &configs), DispatchOutcome::NotForThisAgent));
}

#[test]
fn undecodable_and_empty_payloads_are_dropped() {
    let configs = vec![prefixed(1, None, None)];
    let registry = vec![(1u16, "A")];
    let hs = vec![header("a1", "{}")];
    assert!(matches!(route_message("a1", &hs, &[1, 2], &registry, &configs), DispatchOutcome::Undecodable(_)));
    assert!(matches!(route_message("a1", &hs, &[], &registry, &configs), DispatchOutcome::NoProbes));
}

#[test]
fn header_metadata_is_read() {
    let configs = vec![prefixed(1, None, None)];
    let registry = vec![(1u16, "A")];
    let payload = serialize_probe(&udp_probe(5));
    let hs = vec![
        header("other", r#"{"src_ip":"1.2.3.4"}"#),
        header("a1", r#"{"measurement_id":"m-1","end_of_measurement":true}"#),
    ];
    match route_message("a1", &hs, &payload, &registry, &configs) {
        DispatchOutcome::Dispatch(_, b) => {
            let m = b.measurement_info.unwrap();
            assert_eq!(m.measurement_id, "m-1");
            assert!(m.end_of_measurement);
            assert_eq!(b.source_ip, "");
        }
        other => panic!("unexpected {:?}", other),
    }
    let partial = vec![header("a1", r#"{"measurement_id":"m-1"}"#)];
    match route_message("a1", &partial, &payload, &registry, &configs) {
        DispatchOutcome::Dispatch(_, b) => assert!(b.measurement_info.is_none()),
        other => panic!("unexpected {:?}", other),
    }
    let not_json = vec![Header { key: "a1".to_string(), value: Some(vec![0xff, 0xfe]) }];
    assert!(matches!(route_message("a1", &not_json, &payload, &registry, &configs), DispatchOutcome::Dispatch(_, _)));
}

#[test]
fn ttl_filtering() {
    let probes: Vec<Probe> = [1u8, 4, 10, 255].iter().map(|&t| udp_probe(t)).collect();
    let mut stats = SendStatistics::new();
    let to_send = stats.filter_batch(Some(4), Some(10), &probes);
    let mut sent_in_batch = 0u64;
    for _ in &to_send {
        stats.record_emission(&mut sent_in_batch, true, 100);
    }
    assert_eq!(stats.filtered_low_ttl, 1);
    assert_eq!(stats.filtered_high_ttl, 1);
    assert_eq!(stats.sent, 2);
    assert_eq!(stats.read, 4);
    assert_eq!(to_send.iter().map(|p| p.ttl).collect::<Vec<_>>(), vec![4, 10]);
}

#[test]
fn pacing_waits_after_every_batch_of_successful_sends() {
    let mut stats = SendStatistics::new();
    let mut sent_in_batch = 0u64;
    let mut waits = Vec::new();
    for ok in [true, true, false, true, true, true, false] {
        waits.push(stats.record_emission(&mut sent_in_batch, ok, 2));
    }
    assert_eq!(waits, vec![false, true, false, false, true, false, false]);
    assert_eq!(stats.sent, 5);
    assert_eq!(stats.failed, 2);
    assert_eq!(sent_in_batch, 5);
}

#[test]
fn reply_coalescing() {
    let mut batcher = ReplyBatcher::new(512);
    let mut messages: Vec<Vec<u8>> = Vec::new();
    for i in 0..10u8 {
        if let Some(m) = batcher.push(&[i; 100]) {
            messages.push(m);
        }
    }
    assert_eq!(messages.len(), 1);
    assert!(batch_expired(201, 200));
    assert!(!batch_expired(200, 200));
    if let Some(m) = batcher.flush() {
        messages.push(m);
    }
    assert_eq!(messages.len(), 2);
    assert_eq!(messages.iter().map(|m| m.len()).sum::<usize>(), 1000);
    assert!(messages.iter().all(|m| m.len() <= 512));
    assert_eq!(messages[0].len(), 500);
    assert_eq!(messages[1][0], 5);
    assert!(batcher.flush().is_none());
}

#[test]
fn an_oversized_reply_travels_alone() {
    let mut batcher = ReplyBatcher::new(10);
    assert!(batcher.push(&[1; 4]).is_none());
    assert_eq!(batcher.push(&[2; 20]), Some(vec![1; 4]));
    assert_eq!(batcher.push(&[3; 1]), Some(vec![2; 20]));
    assert_eq!(batcher.len(), 1);
}

#[test]
fn measurement_completion() {
    let mut counters = MeasurementCounters::new();
    let mut reports = Vec::new();
    for end in [false, false, true] {
        let info = MeasurementInfo { measurement_id: "M".to_string(), end_of_measurement: end };
        let r = counters.record_batch(&info, 10);
        reports.push((r.sent_probes, r.is_complete));
    }
    assert_eq!(reports, vec![(10, false), (20, false), (30, true)]);
    assert_eq!(counters.get("M"), None);
}

#[test]
fn header_members_of_the_wrong_kind_are_ignored() {
    let configs = vec![prefixed(1, None, None)];
    let registry = vec![(1u16, "A")];
    let payload = serialize_probe(&udp_probe(5));
    let hs = vec![header("a1", r#"{"src_ip":5,"measurement_id":"m","end_of_measurement":"yes"}"#)];
    match route_message("a1", &hs, &payload, &registry, &configs) {
        DispatchOutcome::Dispatch(_, b) => {
            assert_eq!(b.source_ip, "");
            assert!(b.measurement_info.is_none());
        }
        other => panic!("unexpected {:?}", other),
    }
}
