//! Measurement tracking from headers to the send loop's counts.
use std::collections::HashMap;

use saimiris::agent::gateway::MeasurementInfo;
use saimiris::agent::sender::{MeasurementCounters, ProbesWithSource};
use saimiris::config::parse_and_validate_client_args;
use saimiris::net::IpAddress;
use saimiris::probe::{Probe, L4};

#[test]
fn test_measurement_info_parsing() {
    let measurement_info = MeasurementInfo {
        measurement_id: "test-measurement-123".to_string(),
        end_of_measurement: false,
    };

    assert_eq!(measurement_info.measurement_id, "test-measurement-123");
    assert!(!measurement_info.end_of_measurement);
}

#[test]
fn test_probes_with_source_measurement_info() {
    let probes = vec![Probe {
        dst_addr: IpAddress::V4([1, 1, 1, 1]),
        src_port: 12345,
        dst_port: 80,
        ttl: 64,
        protocol: L4::UDP,
    }];

    let measurement_info = Some(MeasurementInfo {
        measurement_id: "test-measurement-456".to_string(),
        end_of_measurement: true,
    });

    let probes_with_source = ProbesWithSource {
        probes,
        source_ip: "192.168.1.1".to_string(),
        measurement_info: measurement_info.clone(),
    };

    assert_eq!(probes_with_source.probes.len(), 1);
    assert_eq!(probes_with_source.source_ip, "192.168.1.1");
    assert!(probes_with_source.measurement_info.is_some());

    let info = probes_with_source.measurement_info.unwrap();
    assert_eq!(info.measurement_id, "test-measurement-456");
    assert!(info.end_of_measurement);
}

#[test]
fn test_kafka_header_parsing() {
    let mut headers = HashMap::new();
    headers.insert("measurement_id".to_string(), "test-measurement-789".to_string());
    headers.insert("end_of_measurement".to_string(), "false".to_string());

    let measurement_info = if let Some(measurement_id) = headers.get("measurement_id") {
        let end_of_measurement = headers
            .get("end_of_measurement")
            .and_then(|s| s.parse::<bool>().ok())
            .unwrap_or(false);

        Some(MeasurementInfo { measurement_id: measurement_id.clone(), end_of_measurement })
    } else {
        None
    };

    assert!(measurement_info.is_some());
    let info = measurement_info.unwrap();
    assert_eq!(info.measurement_id, "test-measurement-789");
    assert!(!info.end_of_measurement);
}

#[test]
fn test_end_to_end_measurement_tracking() {
    let mut headers = HashMap::new();
    headers.insert("measurement_id".to_string(), "integration-test-001".to_string());
    headers.insert("end_of_measurement".to_string(), "true".to_string());

    let measurement_info = if let Some(measurement_id) = headers.get("measurement_id") {
        let end_of_measurement = headers
            .get("end_of_measurement")
            .and_then(|s| s.parse::<bool>().ok())
            .unwrap_or(false);

        Some(MeasurementInfo { measurement_id: measurement_id.clone(), end_of_measurement })
    } else {
        None
    };

    assert!(measurement_info.is_some());
    let info = measurement_info.unwrap();
    assert_eq!(info.measurement_id, "integration-test-001");
    assert!(info.end_of_measurement);

    let probes = vec![
        Probe { dst_addr: IpAddress::V4([8, 8, 8, 8]), src_port: 12345, dst_port: 53, ttl: 64, protocol: L4::UDP },
        Probe { dst_addr: IpAddress::V4([1, 1, 1, 1]), src_port: 12346, dst_port: 53, ttl: 32, protocol: L4::UDP },
        Probe {
            dst_addr: IpAddress::V4([208, 67, 222, 222]),
            src_port: 12347,
            dst_port: 53,
            ttl: 16,
            protocol: L4::UDP,
        },
    ];

    let probes_with_source = ProbesWithSource {
        probes,
        source_ip: "192.168.1.100".to_string(),
        measurement_info: Some(info.clone()),
    };

    assert_eq!(probes_with_source.probes.len(), 3);
    assert_eq!(probes_with_source.source_ip, "192.168.1.100");
    assert!(probes_with_source.measurement_info.is_some());

    let measurement_info = probes_with_source.measurement_info.unwrap();
    assert_eq!(measurement_info.measurement_id, "integration-test-001");
    assert!(measurement_info.end_of_measurement);

    assert_eq!(probes_with_source.probes[0].dst_addr, IpAddress::V4([8, 8, 8, 8]));
    assert_eq!(probes_with_source.probes[1].dst_addr, IpAddress::V4([1, 1, 1, 1]));
    assert_eq!(probes_with_source.probes[2].dst_addr, IpAddress::V4([208, 67, 222, 222]));
}

#[test]
fn test_measurement_tracking_state_management() {
    let mut counters = MeasurementCounters::new();
    let measurement_id = "state-test-001".to_string();
    let ongoing = MeasurementInfo { measurement_id: measurement_id.clone(), end_of_measurement: false };

    let first = counters.record_batch(&ongoing, 10);
    assert_eq!(first.sent_probes, 10);
    assert_eq!(counters.get(&measurement_id), Some(10));

    let second = counters.record_batch(&ongoing, 15);
    assert_eq!(second.sent_probes, 25);
    assert_eq!(counters.get(&measurement_id), Some(25));

    let total_sent = counters.get(&measurement_id).unwrap();
    assert_eq!(total_sent, 25);

    let done = MeasurementInfo { measurement_id: measurement_id.clone(), end_of_measurement: true };
    let last = counters.record_batch(&done, 0);
    assert_eq!(last.sent_probes, 25);
    assert!(last.is_complete);
    assert!(counters.get(&measurement_id).is_none());
}

#[test]
fn test_client_measurement_tracking_headers() {
    let agents = "agent1:192.168.1.1,agent2:[2001:db8::1]";
    let client_config = parse_and_validate_client_args(agents, None)
        .unwrap()
        .with_measurement_tracking(Some("test-measurement-123".to_string()));

    assert_eq!(client_config.measurement_infos.len(), 2);

    let agent1 = &client_config.measurement_infos[0];
    assert_eq!(agent1.name, "agent1");
    assert_eq!(agent1.src_ip, Some("192.168.1.1".to_string()));
    assert_eq!(agent1.measurement_id, Some("test-measurement-123".to_string()));

    let agent2 = &client_config.measurement_infos[1];
    assert_eq!(agent2.name, "agent2");
    assert_eq!(agent2.src_ip, Some("2001:db8::1".to_string()));
    assert_eq!(agent2.measurement_id, Some("test-measurement-123".to_string()));
}

#[test]
fn test_client_without_measurement_tracking() {
    let agents = "agent1:10.0.0.1";
    let client_config = parse_and_validate_client_args(agents, None).unwrap();

    assert_eq!(client_config.measurement_infos.len(), 1);

    let agent = &client_config.measurement_infos[0];
    assert_eq!(agent.name, "agent1");
    assert_eq!(agent.src_ip, Some("10.0.0.1".to_string()));
    assert_eq!(agent.measurement_id, None);
}

#[test]
fn counts_of_interleaved_measurements_stay_apart() {
    let mut counters = MeasurementCounters::new();
    let a = MeasurementInfo { measurement_id: "a".to_string(), end_of_measurement: false };
    let b = MeasurementInfo { measurement_id: "b".to_string(), end_of_measurement: false };
    counters.record_batch(&a, 3);
    counters.record_batch(&b, 4);
    counters.record_batch(&a, 5);
    assert_eq!(counters.get("a"), Some(8));
    assert_eq!(counters.get("b"), Some(4));
    let a_end = MeasurementInfo { measurement_id: "a".to_string(), end_of_measurement: true };
    assert_eq!(counters.record_batch(&a_end, 2).sent_probes, 10);
    assert_eq!(counters.get("a"), None);
    assert_eq!(counters.get("b"), Some(4));
    let c_end = MeasurementInfo { measurement_id: "c".to_string(), end_of_measurement: true };
    assert_eq!(counters.record_batch(&c_end, 6).sent_probes, 6);
    assert_eq!(counters.get("c"), None);
}
