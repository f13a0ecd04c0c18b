//! Settings and their defaults.
use saimiris::agent::handler::{interface_groups, registered_instances};
use saimiris::agent::sender::{choose_source, parse_rate_limiting_method, RateLimitingMethod, SourceChoice};
use saimiris::config::caracat::{default_caracat_batch_size, default_rate_limiting_method};
use saimiris::config::{normalize_instances, CaracatConfig, KafkaConfig, RawAgentConfig};
use saimiris::net::IpAddress;
use saimiris::utils::{generate_id, test_id};

#[test]
fn zero_settings_take_their_defaults() {
    let raw = CaracatConfig { interface: String::new(), ..Default::default() };
    let configs = normalize_instances(vec![raw], "eth9");
    let caracat = &configs[0];
    assert_eq!(caracat.batch_size, 100);
    assert_eq!(caracat.instance_id, 0);
    assert!(!caracat.dry_run);
    assert_eq!(caracat.min_ttl, None);
    assert_eq!(caracat.max_ttl, None);
    assert!(!caracat.integrity_check);
    assert_eq!(caracat.interface, "eth9");
    assert_eq!(caracat.src_ipv4_prefix, None);
    assert_eq!(caracat.src_ipv6_prefix, None);
    assert_eq!(caracat.packets, 1);
    assert_eq!(caracat.probing_rate, 100);
    assert_eq!(caracat.rate_limiting_method, "auto");
}

#[test]
fn no_instance_gives_one_default_instance() {
    let configs = normalize_instances(vec![], "lo");
    assert_eq!(configs.len(), 1);
    assert_eq!(configs[0].batch_size, default_caracat_batch_size());
    assert_eq!(configs[0].interface, "lo");
    assert_eq!(configs[0].rate_limiting_method, default_rate_limiting_method());
}

#[test]
fn set_values_are_kept() {
    let raw = CaracatConfig {
        batch_size: 7,
        instance_id: 3,
        interface: "eth1".to_string(),
        packets: 2,
        probing_rate: 50,
        rate_limiting_method: "sleep".to_string(),
        ..Default::default()
    };
    let c = &normalize_instances(vec![raw], "eth9")[0];
    assert_eq!((c.batch_size, c.instance_id, c.packets, c.probing_rate), (7, 3, 2, 50));
    assert_eq!(c.interface, "eth1");
    assert_eq!(c.rate_limiting_method, "sleep");
}

#[test]
fn bus_defaults() {
    let k = KafkaConfig::with_defaults();
    assert_eq!(k.message_max_bytes, 990000);
    assert_eq!(k.out_batch_wait_time, 1000);
    assert_eq!(k.out_batch_wait_interval, 100);
    assert_eq!(k.brokers, "localhost:9092");
    assert_eq!(k.auth_protocol, "PLAINTEXT");
    assert_eq!(k.in_topics, "saimiris-probes");
    assert_eq!(k.out_topic, "saimiris-replies");
    assert!(k.out_enable);
    assert_eq!(RawAgentConfig::default().metrics_address, "0.0.0.0:8080");
}

#[test]
fn rate_limiting_method_names() {
    assert_eq!(parse_rate_limiting_method("ACTIVE"), RateLimitingMethod::Active);
    assert_eq!(parse_rate_limiting_method("Sleep"), RateLimitingMethod::Sleep);
    assert_eq!(parse_rate_limiting_method("none"), RateLimitingMethod::Unlimited);
    assert_eq!(parse_rate_limiting_method("auto"), RateLimitingMethod::Auto);
    assert_eq!(parse_rate_limiting_method("bogus"), RateLimitingMethod::Auto);
}

#[test]
fn batch_sources() {
    assert!(matches!(choose_source(""), SourceChoice::Default));
    assert!(matches!(choose_source("10.0.0.9"), SourceChoice::Address(IpAddress::V4([10, 0, 0, 9]))));
    assert!(matches!(choose_source("nope"), SourceChoice::Invalid));
}

#[test]
fn registry_and_interfaces() {
    let configs = vec![
        CaracatConfig { instance_id: 1, interface: "eth0".to_string(), integrity_check: true, ..Default::default() },
        CaracatConfig { instance_id: 2, interface: "eth1".to_string(), ..Default::default() },
        CaracatConfig { instance_id: 1, interface: "eth0".to_string(), ..Default::default() },
        CaracatConfig { instance_id: 3, interface: "eth0".to_string(), ..Default::default() },
    ];
    assert_eq!(registered_instances(&configs), vec![true, true, false, true]);
    let groups = interface_groups(&configs);
    assert_eq!(groups.len(), 2);
    assert_eq!(groups[0].interface, "eth0");
    assert_eq!(groups[0].instance_ids, vec![1, 1, 3]);
    assert!(groups[0].integrity_check);
    assert_eq!(groups[1].interface, "eth1");
    assert_eq!(groups[1].instance_ids, vec![2]);
}

#[test]
fn ids() {
    let id = generate_id(None, None);
    assert_eq!(id.len(), 10);
    assert!(test_id(Some(id), None, None));
    let hex = generate_id(Some("0123456789abcdef"), Some(32));
    assert_eq!(hex.len(), 32);
    assert!(hex.chars().all(|c| c.is_ascii_hexdigit()));
    assert!(test_id(Some(hex), Some("0123456789abcdef"), Some(32)));
    assert!(!test_id(None, None, None));
    assert!(!test_id(Some("ABCDEFGHIJ".to_string()), None, None));
    assert!(!test_id(Some("abc".to_string()), None, None));
}
