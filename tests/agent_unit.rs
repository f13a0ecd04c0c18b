//! Selection of the send queue that takes a probe batch.
use saimiris::agent::handler::determine_target_sender;
use saimiris::agent::sender::ProbesWithSource;
use saimiris::config::CaracatConfig;
use tokio::sync::mpsc::channel;

#[test]
fn test_determine_target_sender_ip_in_prefix() {
    let (tx, _rx) = channel::<ProbesWithSource>(100);
    let map = vec![(0u16, tx.clone())];

    let caracat_configs = vec![CaracatConfig {
        instance_id: 0,
        src_ipv4_prefix: Some("192.168.1.0/24".to_string()),
        src_ipv6_prefix: None,
        ..Default::default()
    }];

    let result =
        determine_target_sender(&map, &caracat_configs, Some(&"192.168.1.100".to_string()));
    assert!(result.is_ok());
    let (sender_option, use_source_ip) = result.unwrap();
    assert!(sender_option.is_some());
    assert!(use_source_ip);
}

#[test]
fn test_determine_target_sender_ip_not_in_prefix() {
    let (tx, _rx) = channel::<ProbesWithSource>(100);
    let map = vec![(0u16, tx.clone())];

    let caracat_configs = vec![CaracatConfig {
        instance_id: 0,
        src_ipv4_prefix: Some("192.168.1.0/24".to_string()),
        src_ipv6_prefix: None,
        ..Default::default()
    }];

    let result = determine_target_sender(&map, &caracat_configs, Some(&"10.0.0.1".to_string()));
    assert!(result.is_err());
}

#[test]
fn test_determine_target_sender_no_ip_provided() {
    let (tx, _rx) = channel::<ProbesWithSource>(100);
    let map = vec![(0u16, tx.clone())];

    let caracat_configs = vec![CaracatConfig {
        instance_id: 0,
        src_ipv4_prefix: Some("192.168.1.0/24".to_string()),
        src_ipv6_prefix: None,
        ..Default::default()
    }];

    let result = determine_target_sender(&map, &caracat_configs, None);
    assert!(result.is_err());
}

#[test]
fn test_determine_target_sender_ipv6_in_prefix() {
    let (tx, _rx) = channel::<ProbesWithSource>(100);
    let map = vec![(0u16, tx.clone())];

    let caracat_configs = vec![CaracatConfig {
        instance_id: 0,
        src_ipv4_prefix: None,
        src_ipv6_prefix: Some("2001:db8::/32".to_string()),
        ..Default::default()
    }];

    let result = determine_target_sender(&map, &caracat_configs, Some(&"2001:db8::1".to_string()));
    assert!(result.is_ok());
    let (sender_option, use_source_ip) = result.unwrap();
    assert!(sender_option.is_some());
    assert!(use_source_ip);
}

#[test]
fn test_determine_target_sender_no_prefix() {
    let (tx, _rx) = channel::<ProbesWithSource>(100);
    let map = vec![(0u16, tx.clone())];

    let caracat_configs = vec![CaracatConfig {
        instance_id: 0,
        src_ipv4_prefix: None,
        src_ipv6_prefix: None,
        ..Default::default()
    }];

    let result = determine_target_sender(&map, &caracat_configs, None);
    assert!(result.is_ok());
    let (sender_option, use_source_ip) = result.unwrap();
    assert!(sender_option.is_some());
    assert!(!use_source_ip);
}

#[test]
fn test_determine_target_sender_mixed_configs() {
    let (tx_default, _rx_default) = channel::<ProbesWithSource>(100);
    let (tx_prefix, _rx_prefix) = channel::<ProbesWithSource>(100);
    let map = vec![(0u16, tx_default.clone()), (1u16, tx_prefix.clone())];

    let caracat_configs = vec![
        CaracatConfig {
            instance_id: 0,
            src_ipv4_prefix: None,
            src_ipv6_prefix: None,
            ..Default::default()
        },
        CaracatConfig {
            instance_id: 1,
            src_ipv4_prefix: Some("192.168.1.0/24".to_string()),
            src_ipv6_prefix: None,
            ..Default::default()
        },
    ];

    let result =
        determine_target_sender(&map, &caracat_configs, Some(&"192.168.1.100".to_string()));
    assert!(result.is_ok());
    let (sender_option, use_source_ip) = result.unwrap();
    assert!(sender_option.is_some());
    assert!(use_source_ip);

    let result = determine_target_sender(&map, &caracat_configs, Some(&"10.0.0.1".to_string()));
    assert!(result.is_ok());
    let (sender_option, use_source_ip) = result.unwrap();
    assert!(sender_option.is_some());
    assert!(!use_source_ip);

    let result = determine_target_sender(&map, &caracat_configs, None);
    assert!(result.is_ok());
    let (sender_option, use_source_ip) = result.unwrap();
    assert!(sender_option.is_some());
    assert!(!use_source_ip);
}

#[test]
fn test_determine_target_sender_only_prefix_no_default() {
    let (tx_prefix, _rx_prefix) = channel::<ProbesWithSource>(100);
    let map = vec![(0u16, tx_prefix.clone())];

    let caracat_configs = vec![CaracatConfig {
        instance_id: 0,
        src_ipv4_prefix: Some("192.168.1.0/24".to_string()),
        src_ipv6_prefix: None,
        ..Default::default()
    }];

    let result =
        determine_target_sender(&map, &caracat_configs, Some(&"192.168.1.100".to_string()));
    assert!(result.is_ok());
    let (sender_option, use_source_ip) = result.unwrap();
    assert!(sender_option.is_some());
    assert!(use_source_ip);

    let result = determine_target_sender(&map, &caracat_configs, Some(&"10.0.0.1".to_string()));
    assert!(result.is_err());

    let result = determine_target_sender(&map, &caracat_configs, None);
    assert!(result.is_err());
}

#[test]
fn selects_the_queue_of_the_matching_instance() {
    let map = vec![(0u16, "default"), (1u16, "prefixed")];
    let caracat_configs = vec![
        CaracatConfig { instance_id: 0, ..Default::default() },
        CaracatConfig {
            instance_id: 1,
            src_ipv4_prefix: Some("192.168.1.0/24".to_string()),
            ..Default::default()
        },
    ];
    let (s, keep) =
        determine_target_sender(&map, &caracat_configs, Some(&"192.168.1.100".to_string())).unwrap();
    assert_eq!(s, Some(&"prefixed"));
    assert!(keep);
    let (s, keep) = determine_target_sender(&map, &caracat_configs, None).unwrap();
    assert_eq!(s, Some(&"default"));
    assert!(!keep);
}

#[test]
fn first_instance_in_configuration_order_wins() {
    let map = vec![(3u16, "three"), (5u16, "five")];
    let caracat_configs = vec![
        CaracatConfig {
            instance_id: 5,
            src_ipv4_prefix: Some("10.0.0.0/8".to_string()),
            ..Default::default()
        },
        CaracatConfig {
            instance_id: 3,
            src_ipv4_prefix: Some("10.1.0.0/16".to_string()),
            ..Default::default()
        },
    ];
    let (s, keep) =
        determine_target_sender(&map, &caracat_configs, Some(&"10.1.2.3".to_string())).unwrap();
    assert_eq!(s, Some(&"five"));
    assert!(keep);
}
