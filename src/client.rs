//! The client tool: probes read from CSV, packed into messages for agents.

pub mod handler;
pub mod producer;
