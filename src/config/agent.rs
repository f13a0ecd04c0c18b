//! Identity of the agent.

use vstd::prelude::*;

verus! {

pub const DEFAULT_AGENT_METRICS_ADDRESS: &'static str = "0.0.0.0:8080";

/// The agent section as configured: its id, and the metrics endpoint address
/// before it is resolved.
#[derive(Clone, Debug)]
pub struct RawAgentConfig {
    pub id: String,
    pub metrics_address: String,
}

pub fn default_agent_metrics_address() -> (r: String)
    ensures
        r@ == DEFAULT_AGENT_METRICS_ADDRESS@,
{
    DEFAULT_AGENT_METRICS_ADDRESS.to_owned()
}

impl Default for RawAgentConfig {
    fn default() -> (r: Self)
        ensures
            r.id@.len() == 0,
            r.metrics_address@ == DEFAULT_AGENT_METRICS_ADDRESS@,
    {
        RawAgentConfig { id: String::new(), metrics_address: default_agent_metrics_address() }
    }
}

} // verus!
