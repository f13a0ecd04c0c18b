//! The agent runtime: the dispatcher, the send and receive loops, the reply
//! producer and the gateway client.

pub mod gateway;
pub mod handler;
pub mod producer;
pub mod receiver;
pub mod sender;
