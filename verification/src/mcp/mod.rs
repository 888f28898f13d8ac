//! The Model Context Protocol: configuration, JSON-RPC messages, framing,
//! the host that drives the servers, and the servers themselves.

pub mod config;
pub mod framing;
pub mod host;
pub mod memory;
pub mod rpc;
pub mod servers;
