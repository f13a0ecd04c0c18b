//! The client's agent list.
use saimiris::config::client::ClientArgsError;
use saimiris::config::parse_and_validate_client_args;

#[test]
fn test_new_format_agent_ip_pairs() {
    let result = parse_and_validate_client_args("agent1:192.168.1.1,agent2:10.0.0.1", None);

    assert!(result.is_ok());
    let config = result.unwrap();
    assert_eq!(config.measurement_infos.len(), 2);
    assert_eq!(config.measurement_infos[0].name, "agent1");
    assert_eq!(config.measurement_infos[0].src_ip, Some("192.168.1.1".to_string()));
    assert_eq!(config.measurement_infos[1].name, "agent2");
    assert_eq!(config.measurement_infos[1].src_ip, Some("10.0.0.1".to_string()));
}

#[test]
fn test_new_format_with_ipv6() {
    let result = parse_and_validate_client_args("agent1:[2001:db8::1],agent2:192.168.1.1", None);

    assert!(result.is_ok());
    let config = result.unwrap();
    assert_eq!(config.measurement_infos.len(), 2);
    assert_eq!(config.measurement_infos[0].src_ip, Some("2001:db8::1".to_string()));
    assert_eq!(config.measurement_infos[1].src_ip, Some("192.168.1.1".to_string()));
}

#[test]
fn test_invalid_ip_in_new_format() {
    let result = parse_and_validate_client_args("agent1:invalid_ip,agent2:192.168.1.1", None);

    assert!(result.is_err());
    assert!(result.unwrap_err().to_string().contains("Invalid IP address format"));
}

#[test]
fn test_malformed_agent_spec() {
    let result = parse_and_validate_client_args("agent1:192.168.1.1:extra,agent2:10.0.0.1", None);

    assert!(result.is_err());
    assert!(result.unwrap_err().to_string().contains("Invalid agent specification"));
}

#[test]
fn test_empty_agent_name() {
    let result = parse_and_validate_client_args(":192.168.1.1,agent2:10.0.0.1", None);

    assert!(result.is_err());
    assert!(result.unwrap_err().to_string().contains("Empty agent name"));
}

#[test]
fn test_empty_agents() {
    let result = parse_and_validate_client_args("", None);

    assert!(result.is_err());
    let err_msg = result.unwrap_err().to_string();
    assert!(err_msg.contains("At least one agent must be specified"));
}

#[test]
fn test_ipv6_without_brackets_error() {
    let result = parse_and_validate_client_args("agent1:2001:db8::1", None);

    assert!(result.is_err());
    assert!(result.unwrap_err().to_string().contains("Expected format"));
}

#[test]
fn test_ipv6_malformed_brackets() {
    let result = parse_and_validate_client_args("agent1:[2001:db8::1", None);

    assert!(result.is_err());
    assert!(result.unwrap_err().to_string().contains("IPv6 addresses must be enclosed in brackets"));
}

#[test]
fn test_mixed_ipv4_ipv6_new_format() {
    let result = parse_and_validate_client_args("agent1:192.168.1.1,agent2:[2001:db8::1],agent3:10.0.0.1", None);

    assert!(result.is_ok());
    let config = result.unwrap();
    assert_eq!(config.measurement_infos.len(), 3);
    assert_eq!(config.measurement_infos[0].src_ip, Some("192.168.1.1".to_string()));
    assert_eq!(config.measurement_infos[1].src_ip, Some("2001:db8::1".to_string()));
    assert_eq!(config.measurement_infos[2].src_ip, Some("10.0.0.1".to_string()));
}

#[test]
fn test_empty_ip_address() {
    let result = parse_and_validate_client_args("agent1:,agent2:192.168.1.1", None);

    assert!(result.is_err());
    assert!(result.unwrap_err().to_string().contains("Empty IP address"));
}

#[test]
fn test_missing_colon_separator() {
    let result = parse_and_validate_client_args("agent1192.168.1.1,agent2:10.0.0.1", None);

    assert!(result.is_err());
    assert!(result.unwrap_err().to_string().contains("Expected format"));
}

#[test]
fn test_single_agent() {
    let result = parse_and_validate_client_args("agent1:192.168.1.1", None);

    assert!(result.is_ok());
    let config = result.unwrap();
    assert_eq!(config.measurement_infos.len(), 1);
    assert_eq!(config.measurement_infos[0].name, "agent1");
    assert_eq!(config.measurement_infos[0].src_ip, Some("192.168.1.1".to_string()));
}

#[test]
fn test_whitespace_handling() {
    let result = parse_and_validate_client_args(" agent1 : 192.168.1.1 , agent2 : 10.0.0.1 ", None);

    assert!(result.is_ok());
    let config = result.unwrap();
    assert_eq!(config.measurement_infos.len(), 2);
    assert_eq!(config.measurement_infos[0].name, "agent1");
    assert_eq!(config.measurement_infos[0].src_ip, Some("192.168.1.1".to_string()));
    assert_eq!(config.measurement_infos[1].name, "agent2");
    assert_eq!(config.measurement_infos[1].src_ip, Some("10.0.0.1".to_string()));
}

#[test]
fn other_agent_list_errors() {
    assert_eq!(parse_and_validate_client_args("   ", None).unwrap_err(), ClientArgsError::NoAgents);
    assert_eq!(parse_and_validate_client_args("a:1.2.3.4,,b:1.2.3.5", None).unwrap_err(), ClientArgsError::EmptySpecification);
    assert_eq!(parse_and_validate_client_args("a]:[::1", None).unwrap_err(), ClientArgsError::UnclosedBracket);
    assert_eq!(parse_and_validate_client_args(":[::1]", None).unwrap_err(), ClientArgsError::EmptyName);
    assert_eq!(parse_and_validate_client_args("a:[]", None).unwrap_err(), ClientArgsError::EmptyAddress);
    assert_eq!(parse_and_validate_client_args("a:[zz]", None).unwrap_err(), ClientArgsError::InvalidAddress);
    let c = parse_and_validate_client_args("a::[::1]", Some(std::path::PathBuf::from("probes.csv"))).unwrap();
    assert_eq!(c.measurement_infos[0].name, "a");
    assert_eq!(c.measurement_infos[0].src_ip, Some("::1".to_string()));
    assert_eq!(c.probes_file, Some(std::path::PathBuf::from("probes.csv")));
}
