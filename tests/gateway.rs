//! What the agent reports to the gateway.
use saimiris::agent::gateway::{
    gateway_configs, gateway_urls, measurement_status_url, next_healthcheck_step, GatewayAgentConfig,
    HealthcheckAction, HealthcheckStep, HttpOutcome,
};
use saimiris::config::CaracatConfig;

#[test]
fn test_caracat_to_gateway_config_conversion() {
    let caracat_config = CaracatConfig {
        name: Some("test-config".to_string()),
        batch_size: 100,
        instance_id: 1,
        dry_run: false,
        min_ttl: Some(10),
        max_ttl: Some(255),
        integrity_check: true,
        interface: "eth0".to_string(),
        src_ipv4_prefix: Some("192.168.1.0/24".to_string()),
        src_ipv6_prefix: Some("2001:db8::/32".to_string()),
        packets: 1000,
        probing_rate: 100,
        rate_limiting_method: "None".to_string(),
    };

    let gateway_config: GatewayAgentConfig = (&caracat_config).into();

    assert_eq!(gateway_config.name, Some("test-config".to_string()));
    assert_eq!(gateway_config.batch_size, 100);
    assert_eq!(gateway_config.instance_id, 1);
    assert_eq!(gateway_config.dry_run, false);
    assert_eq!(gateway_config.min_ttl, Some(10));
    assert_eq!(gateway_config.max_ttl, Some(255));
    assert_eq!(gateway_config.integrity_check, true);
    assert_eq!(gateway_config.interface, "eth0".to_string());
    assert_eq!(gateway_config.src_ipv4_prefix, Some("192.168.1.0/24".to_string()));
    assert_eq!(gateway_config.src_ipv6_prefix, Some("2001:db8::/32".to_string()));
    assert_eq!(gateway_config.packets, 1000);
    assert_eq!(gateway_config.probing_rate, 100);
    assert_eq!(gateway_config.rate_limiting_method, "None".to_string());

    let all = gateway_configs(&[caracat_config]);
    assert_eq!(all.len(), 1);
    assert_eq!(all[0].interface, "eth0");
}

#[test]
fn gateway_endpoints() {
    let urls = gateway_urls("http://gw:8080//", "a1");
    assert_eq!(urls.agent, "http://gw:8080/agent-api/agent/a1");
    assert_eq!(urls.register, "http://gw:8080/agent-api/agent/register");
    assert_eq!(urls.config, "http://gw:8080/agent-api/agent/a1/config");
    assert_eq!(urls.health, "http://gw:8080/agent-api/agent/a1/health");
    assert_eq!(
        measurement_status_url("http://gw", "a1", "m-9"),
        "http://gw/agent-api/agent/a1/measurement/m-9/status"
    );
}

#[test]
fn healthcheck_round() {
    assert_eq!(next_healthcheck_step(HealthcheckStep::CheckAgent, HttpOutcome::Status(200)), HealthcheckAction::Request(HealthcheckStep::SendConfig));
    assert_eq!(next_healthcheck_step(HealthcheckStep::CheckAgent, HttpOutcome::Status(404)), HealthcheckAction::Request(HealthcheckStep::Register));
    assert_eq!(next_healthcheck_step(HealthcheckStep::CheckAgent, HttpOutcome::Status(500)), HealthcheckAction::Request(HealthcheckStep::Register));
    assert_eq!(next_healthcheck_step(HealthcheckStep::CheckAgent, HttpOutcome::NetworkError), HealthcheckAction::WaitNextRound);
    assert_eq!(next_healthcheck_step(HealthcheckStep::Register, HttpOutcome::Status(201)), HealthcheckAction::Request(HealthcheckStep::SendConfig));
    assert_eq!(next_healthcheck_step(HealthcheckStep::Register, HttpOutcome::Status(409)), HealthcheckAction::Request(HealthcheckStep::SendConfig));
    assert_eq!(next_healthcheck_step(HealthcheckStep::Register, HttpOutcome::Status(403)), HealthcheckAction::WaitNextRound);
    assert_eq!(next_healthcheck_step(HealthcheckStep::SendConfig, HttpOutcome::Status(500)), HealthcheckAction::Request(HealthcheckStep::SendHealth));
    assert_eq!(next_healthcheck_step(HealthcheckStep::SendConfig, HttpOutcome::NetworkError), HealthcheckAction::WaitNextRound);
    assert_eq!(next_healthcheck_step(HealthcheckStep::SendHealth, HttpOutcome::Status(200)), HealthcheckAction::WaitNextRound);
}
