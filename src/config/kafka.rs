//! Settings of the message bus.

use vstd::prelude::*;

verus! {

pub const DEFAULT_KAFKA_BROKERS: &'static str = "localhost:9092";

pub const DEFAULT_KAFKA_AUTH_PROTOCOL: &'static str = "PLAINTEXT";

pub const DEFAULT_KAFKA_AUTH_SASL_USERNAME: &'static str = "saimiris";

pub const DEFAULT_KAFKA_AUTH_SASL_PASSWORD: &'static str = "saimiris";

pub const DEFAULT_KAFKA_AUTH_SASL_MECHANISM: &'static str = "SCRAM-SHA-512";

pub const DEFAULT_KAFKA_MESSAGE_MAX_BYTES: usize = 990_000;

pub const DEFAULT_KAFKA_IN_TOPICS: &'static str = "saimiris-probes";

pub const DEFAULT_KAFKA_IN_GROUP_ID: &'static str = "saimiris-agent";

pub const DEFAULT_KAFKA_OUT_TOPIC: &'static str = "saimiris-replies";

pub const DEFAULT_KAFKA_OUT_BATCH_WAIT_TIME: u64 = 1000;

pub const DEFAULT_KAFKA_OUT_BATCH_WAIT_INTERVAL: u64 = 100;

/// Settings of the message bus: brokers, authentication, topics, and how
/// replies are batched into outbound messages.
#[derive(Clone, Debug)]
pub struct KafkaConfig {
    pub brokers: String,
    pub auth_protocol: String,
    pub auth_sasl_username: String,
    pub auth_sasl_password: String,
    pub auth_sasl_mechanism: String,
    pub message_max_bytes: usize,
    pub in_topics: String,
    pub in_group_id: String,
    pub out_enable: bool,
    pub out_topic: String,
    pub out_batch_wait_time: u64,
    pub out_batch_wait_interval: u64,
}

pub fn default_kafka_brokers() -> (r: String)
    ensures
        r@ == DEFAULT_KAFKA_BROKERS@,
{
    DEFAULT_KAFKA_BROKERS.to_owned()
}

pub fn default_kafka_auth_protocol() -> (r: String)
    ensures
        r@ == DEFAULT_KAFKA_AUTH_PROTOCOL@,
{
    DEFAULT_KAFKA_AUTH_PROTOCOL.to_owned()
}

pub fn default_kafka_auth_sasl_username() -> (r: String)
    ensures
        r@ == DEFAULT_KAFKA_AUTH_SASL_USERNAME@,
{
    DEFAULT_KAFKA_AUTH_SASL_USERNAME.to_owned()
}

pub fn default_kafka_auth_sasl_password() -> (r: String)
    ensures
        r@ == DEFAULT_KAFKA_AUTH_SASL_PASSWORD@,
{
    DEFAULT_KAFKA_AUTH_SASL_PASSWORD.to_owned()
}

pub fn default_kafka_auth_sasl_mechanism() -> (r: String)
    ensures
        r@ == DEFAULT_KAFKA_AUTH_SASL_MECHANISM@,
{
    DEFAULT_KAFKA_AUTH_SASL_MECHANISM.to_owned()
}

pub fn default_kafka_message_max_bytes() -> (r: usize)
    ensures
        r == DEFAULT_KAFKA_MESSAGE_MAX_BYTES,
{
    DEFAULT_KAFKA_MESSAGE_MAX_BYTES
}

pub fn default_kafka_in_topics() -> (r: String)
    ensures
        r@ == DEFAULT_KAFKA_IN_TOPICS@,
{
    DEFAULT_KAFKA_IN_TOPICS.to_owned()
}

pub fn default_kafka_in_group_id() -> (r: String)
    ensures
        r@ == DEFAULT_KAFKA_IN_GROUP_ID@,
{
    DEFAULT_KAFKA_IN_GROUP_ID.to_owned()
}

pub fn default_kafka_out_enable() -> (r: bool)
    ensures
        r,
{
    true
}

pub fn default_kafka_out_topic() -> (r: String)
    ensures
        r@ == DEFAULT_KAFKA_OUT_TOPIC@,
{
    DEFAULT_KAFKA_OUT_TOPIC.to_owned()
}

pub fn default_kafka_out_batch_wait_time() -> (r: u64)
    ensures
        r == DEFAULT_KAFKA_OUT_BATCH_WAIT_TIME,
{
    DEFAULT_KAFKA_OUT_BATCH_WAIT_TIME
}

pub fn default_kafka_out_batch_wait_interval() -> (r: u64)
    ensures
        r == DEFAULT_KAFKA_OUT_BATCH_WAIT_INTERVAL,
{
    DEFAULT_KAFKA_OUT_BATCH_WAIT_INTERVAL
}

impl KafkaConfig {
    /// Whether every setting is at its documented default.
    pub open spec fn is_defaults(self) -> bool {
        &&& self.brokers@ == DEFAULT_KAFKA_BROKERS@
        &&& self.auth_protocol@ == DEFAULT_KAFKA_AUTH_PROTOCOL@
        &&& self.auth_sasl_username@ == DEFAULT_KAFKA_AUTH_SASL_USERNAME@
        &&& self.auth_sasl_password@ == DEFAULT_KAFKA_AUTH_SASL_PASSWORD@
        &&& self.auth_sasl_mechanism@ == DEFAULT_KAFKA_AUTH_SASL_MECHANISM@
        &&& self.message_max_bytes == DEFAULT_KAFKA_MESSAGE_MAX_BYTES
        &&& self.in_topics@ == DEFAULT_KAFKA_IN_TOPICS@
        &&& self.in_group_id@ == DEFAULT_KAFKA_IN_GROUP_ID@
        &&& self.out_enable
        &&& self.out_topic@ == DEFAULT_KAFKA_OUT_TOPIC@
        &&& self.out_batch_wait_time == DEFAULT_KAFKA_OUT_BATCH_WAIT_TIME
        &&& self.out_batch_wait_interval == DEFAULT_KAFKA_OUT_BATCH_WAIT_INTERVAL
    }

    /// The settings that a configuration without a bus section gets.
    pub fn with_defaults() -> (r: KafkaConfig)
        ensures
            r.is_defaults(),
    {
        KafkaConfig {
            brokers: default_kafka_brokers(),
            auth_protocol: default_kafka_auth_protocol(),
            auth_sasl_username: default_kafka_auth_sasl_username(),
            auth_sasl_password: default_kafka_auth_sasl_password(),
            auth_sasl_mechanism: default_kafka_auth_sasl_mechanism(),
            message_max_bytes: default_kafka_message_max_bytes(),
            in_topics: default_kafka_in_topics(),
            in_group_id: default_kafka_in_group_id(),
            out_enable: default_kafka_out_enable(),
            out_topic: default_kafka_out_topic(),
            out_batch_wait_time: default_kafka_out_batch_wait_time(),
            out_batch_wait_interval: default_kafka_out_batch_wait_interval(),
        }
    }
}

impl Default for KafkaConfig {
    /// Every field at its zero value, as the bare type has it; a configuration
    /// read from a file gets `with_defaults` for what it leaves out.
    fn default() -> (r: Self)
        ensures
            r.brokers@.len() == 0,
            r.auth_protocol@.len() == 0,
            r.auth_sasl_username@.len() == 0,
            r.auth_sasl_password@.len() == 0,
            r.auth_sasl_mechanism@.len() == 0,
            r.message_max_bytes == 0,
            r.in_topics@.len() == 0,
            r.in_group_id@.len() == 0,
            !r.out_enable,
            r.out_topic@.len() == 0,
            r.out_batch_wait_time == 0,
            r.out_batch_wait_interval == 0,
    {
        KafkaConfig {
            brokers: String::new(),
            auth_protocol: String::new(),
            auth_sasl_username: String::new(),
            auth_sasl_password: String::new(),
            auth_sasl_mechanism: String::new(),
            message_max_bytes: 0,
            in_topics: String::new(),
            in_group_id: String::new(),
            out_enable: false,
            out_topic: String::new(),
            out_batch_wait_time: 0,
            out_batch_wait_interval: 0,
        }
    }
}

} // verus!
