//! Verified core of a distributed active-measurement agent: the probe and
//! reply codec, the dispatcher that routes probe batches to probing
//! instances, the decisions of the send and receive loops, and the batching
//! of replies into size-bounded messages.

pub mod agent;
pub mod auth;
pub mod client;
pub mod config;
pub mod counters;
pub mod net;
pub mod probe;
pub mod reply;
pub mod text;
pub mod utils;
pub mod wire;
