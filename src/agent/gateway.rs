//! What the agent tells the gateway: the progress of measurements, its
//! instance configurations, and the addresses of the gateway's endpoints.

use crate::config::CaracatConfig;
use crate::text::copy_opt_string;
use vstd::prelude::*;
use vstd::string::StringExecFns;

verus! {

/// Measurement tracking carried by a probe batch.
#[derive(Clone, Debug)]
pub struct MeasurementInfo {
    pub measurement_id: String,
    pub end_of_measurement: bool,
}

impl MeasurementInfo {
    /// A field-by-field copy.
    pub fn copy(&self) -> (r: MeasurementInfo)
        ensures
            r == *self,
    {
        MeasurementInfo { measurement_id: self.measurement_id.clone(), end_of_measurement: self.end_of_measurement }
    }
}

/// A progress report on one measurement.
#[derive(Clone, Debug)]
pub struct MeasurementStatusUpdate {
    pub sent_probes: u64,
    pub is_complete: bool,
}

/// An instance configuration as the gateway knows it.
#[derive(Clone, Debug)]
pub struct GatewayAgentConfig {
    pub name: Option<String>,
    pub batch_size: u64,
    pub instance_id: u16,
    pub dry_run: bool,
    pub min_ttl: Option<u8>,
    pub max_ttl: Option<u8>,
    pub integrity_check: bool,
    pub interface: String,
    pub src_ipv4_prefix: Option<String>,
    pub src_ipv6_prefix: Option<String>,
    pub packets: u64,
    pub probing_rate: u64,
    pub rate_limiting_method: String,
}

impl GatewayAgentConfig {
    /// Whether `self` reports the instance configuration `c` field for field.
    pub open spec fn reports(self, c: CaracatConfig) -> bool {
        &&& self.name == c.name
        &&& self.batch_size == c.batch_size
        &&& self.instance_id == c.instance_id
        &&& self.dry_run == c.dry_run
        &&& self.min_ttl == c.min_ttl
        &&& self.max_ttl == c.max_ttl
        &&& self.integrity_check == c.integrity_check
        &&& self.interface == c.interface
        &&& self.src_ipv4_prefix == c.src_ipv4_prefix
        &&& self.src_ipv6_prefix == c.src_ipv6_prefix
        &&& self.packets == c.packets
        &&& self.probing_rate == c.probing_rate
        &&& self.rate_limiting_method == c.rate_limiting_method
    }
}

impl<'a> From<&'a CaracatConfig> for GatewayAgentConfig {
    fn from(config: &'a CaracatConfig) -> (r: Self) {
        GatewayAgentConfig {
            name: copy_opt_string(&config.name),
            batch_size: config.batch_size,
            instance_id: config.instance_id,
            dry_run: config.dry_run,
            min_ttl: config.min_ttl,
            max_ttl: config.max_ttl,
            integrity_check: config.integrity_check,
            interface: config.interface.clone(),
            src_ipv4_prefix: copy_opt_string(&config.src_ipv4_prefix),
            src_ipv6_prefix: copy_opt_string(&config.src_ipv6_prefix),
            packets: config.packets,
            probing_rate: config.probing_rate,
            rate_limiting_method: config.rate_limiting_method.clone(),
        }
    }
}

impl<'a> vstd::std_specs::convert::FromSpecImpl<&'a CaracatConfig> for GatewayAgentConfig {
    open spec fn obeys_from_spec() -> bool {
        true
    }

    open spec fn from_spec(c: &'a CaracatConfig) -> Self {
        GatewayAgentConfig {
            name: c.name,
            batch_size: c.batch_size,
            instance_id: c.instance_id,
            dry_run: c.dry_run,
            min_ttl: c.min_ttl,
            max_ttl: c.max_ttl,
            integrity_check: c.integrity_check,
            interface: c.interface,
            src_ipv4_prefix: c.src_ipv4_prefix,
            src_ipv6_prefix: c.src_ipv6_prefix,
            packets: c.packets,
            probing_rate: c.probing_rate,
            rate_limiting_method: c.rate_limiting_method,
        }
    }
}

/// The configurations the gateway is told about, one per instance.
pub fn gateway_configs(configs: &[CaracatConfig]) -> (r: Vec<GatewayAgentConfig>)
    ensures
        r@.len() == configs@.len(),
        forall|i: int| 0 <= i < r@.len() ==> (#[trigger] r@[i]).reports(configs@[i]),
{
    let mut out: Vec<GatewayAgentConfig> = Vec::new();
    let mut i: usize = 0;
    while i < configs.len()
        invariant
            i <= configs@.len(),
            out@.len() == i,
            forall|j: int| 0 <= j < i ==> (#[trigger] out@[j]).reports(configs@[j]),
        decreases configs@.len() - i,
    {
        let c = &configs[i];
        out.push(GatewayAgentConfig {
            name: copy_opt_string(&c.name),
            batch_size: c.batch_size,
            instance_id: c.instance_id,
            dry_run: c.dry_run,
            min_ttl: c.min_ttl,
            max_ttl: c.max_ttl,
            integrity_check: c.integrity_check,
            interface: c.interface.clone(),
            src_ipv4_prefix: copy_opt_string(&c.src_ipv4_prefix),
            src_ipv6_prefix: copy_opt_string(&c.src_ipv6_prefix),
            packets: c.packets,
            probing_rate: c.probing_rate,
            rate_limiting_method: c.rate_limiting_method.clone(),
        });
        i = i + 1;
    }
    out
}

/// A text without its trailing slashes.
pub open spec fn trim_trailing_slashes(s: Seq<char>) -> Seq<char>
    decreases s.len(),
{
    if s.len() > 0 && s.last() == '/' {
        trim_trailing_slashes(s.drop_last())
    } else {
        s
    }
}

/// The gateway's base address without trailing slashes.
pub fn base_url(gateway_url: &str) -> (r: String)
    ensures
        r@ == trim_trailing_slashes(gateway_url@),
{
    let mut end = gateway_url.unicode_len();
    proof {
        assert(gateway_url@.subrange(0, gateway_url@.len() as int) =~= gateway_url@);
    }
    while end > 0 && gateway_url.get_char(end - 1) == '/'
        invariant
            end <= gateway_url@.len(),
            trim_trailing_slashes(gateway_url@) == trim_trailing_slashes(gateway_url@.subrange(0, end as int)),
        decreases end,
    {
        assert(gateway_url@.subrange(0, end as int).drop_last() =~= gateway_url@.subrange(0, end - 1));
        end = end - 1;
    }
    proof {
        assert(gateway_url@.subrange(0, gateway_url@.len() as int) =~= gateway_url@);
    }
    gateway_url.substring_char(0, end).to_owned()
}

/// The endpoints of the gateway that the agent calls.
#[derive(Clone, Debug)]
pub struct GatewayUrls {
    pub agent: String,
    pub register: String,
    pub config: String,
    pub health: String,
}

/// The endpoints of the gateway at `gateway_url` for the agent `agent_id`.
pub fn gateway_urls(gateway_url: &str, agent_id: &str) -> (r: GatewayUrls)
    ensures
        r.agent@ == trim_trailing_slashes(gateway_url@) + "/agent-api/agent/"@ + agent_id@,
        r.register@ == trim_trailing_slashes(gateway_url@) + "/agent-api/agent/register"@,
        r.config@ == trim_trailing_slashes(gateway_url@) + "/agent-api/agent/"@ + agent_id@ + "/config"@,
        r.health@ == trim_trailing_slashes(gateway_url@) + "/agent-api/agent/"@ + agent_id@ + "/health"@,
{
    let base = base_url(gateway_url);
    let mut agent = base.clone();
    agent.append("/agent-api/agent/");
    agent.append(agent_id);
    let mut register = base.clone();
    register.append("/agent-api/agent/register");
    let mut config = agent.clone();
    config.append("/config");
    let mut health = agent.clone();
    health.append("/health");
    GatewayUrls { agent, register, config, health }
}

/// The endpoint that takes progress reports on measurement `measurement_id`.
pub fn measurement_status_url(gateway_url: &str, agent_id: &str, measurement_id: &str) -> (r: String)
    ensures
        r@ == trim_trailing_slashes(gateway_url@) + "/agent-api/agent/"@ + agent_id@ + "/measurement/"@
            + measurement_id@ + "/status"@,
{
    let mut url = base_url(gateway_url);
    url.append("/agent-api/agent/");
    url.append(agent_id);
    url.append("/measurement/");
    url.append(measurement_id);
    url.append("/status");
    url
}

/// The requests of one round of the gateway client.
#[derive(Clone, Copy, Debug, PartialEq, Eq, Structural)]
pub enum HealthcheckStep {
    /// Ask whether the gateway knows the agent.
    CheckAgent,
    /// Register the agent.
    Register,
    /// Send the instance configurations.
    SendConfig,
    /// Report the agent healthy.
    SendHealth,
}

/// How a request to the gateway ended.
#[derive(Clone, Copy, Debug, PartialEq, Eq, Structural)]
pub enum HttpOutcome {
    /// The gateway answered with this status code.
    Status(u16),
    /// The gateway could not be reached.
    NetworkError,
}

/// What the gateway client does next.
#[derive(Clone, Copy, Debug, PartialEq, Eq, Structural)]
pub enum HealthcheckAction {
    /// Make this request now.
    Request(HealthcheckStep),
    /// End the round: wait for the next one, which starts with `CheckAgent`.
    WaitNextRound,
}

pub open spec fn is_success(code: u16) -> bool {
    200 <= code < 300
}

pub const HTTP_NOT_FOUND: u16 = 404;

pub const HTTP_CONFLICT: u16 = 409;

pub open spec fn next_step_spec(step: HealthcheckStep, outcome: HttpOutcome) -> HealthcheckAction {
    match (step, outcome) {
        (_, HttpOutcome::NetworkError) => HealthcheckAction::WaitNextRound,
        (HealthcheckStep::CheckAgent, HttpOutcome::Status(c)) => if is_success(c) {
            HealthcheckAction::Request(HealthcheckStep::SendConfig)
        } else {
            HealthcheckAction::Request(HealthcheckStep::Register)
        },
        (HealthcheckStep::Register, HttpOutcome::Status(c)) => if is_success(c) || c == HTTP_CONFLICT {
            HealthcheckAction::Request(HealthcheckStep::SendConfig)
        } else {
            HealthcheckAction::WaitNextRound
        },
        (HealthcheckStep::SendConfig, HttpOutcome::Status(_)) => HealthcheckAction::Request(HealthcheckStep::SendHealth),
        (HealthcheckStep::SendHealth, HttpOutcome::Status(_)) => HealthcheckAction::WaitNextRound,
    }
}

/// The gateway client's next move after `step` ended with `outcome`: an
/// unreachable gateway ends the round; an agent the gateway does not know
/// (404, or any other failure) is registered; a registration that fails
/// (other than 409, already registered) ends the round; the configuration is
/// sent whatever its answer, then the health report, which ends the round.
pub fn next_healthcheck_step(step: HealthcheckStep, outcome: HttpOutcome) -> (r: HealthcheckAction)
    ensures
        r == next_step_spec(step, outcome),
{
    match outcome {
        HttpOutcome::NetworkError => HealthcheckAction::WaitNextRound,
        HttpOutcome::Status(c) => {
            let ok = 200 <= c && c < 300;
            match step {
                HealthcheckStep::CheckAgent => if ok {
                    HealthcheckAction::Request(HealthcheckStep::SendConfig)
                } else {
                    HealthcheckAction::Request(HealthcheckStep::Register)
                },
                HealthcheckStep::Register => if ok || c == HTTP_CONFLICT {
                    HealthcheckAction::Request(HealthcheckStep::SendConfig)
                } else {
                    HealthcheckAction::WaitNextRound
                },
                HealthcheckStep::SendConfig => HealthcheckAction::Request(HealthcheckStep::SendHealth),
                HealthcheckStep::SendHealth => HealthcheckAction::WaitNextRound,
            }
        },
    }
}

} // verus!
