//! A command-line assistant for Gemini models with tool servers that speak the
//! Model Context Protocol (MCP): the verified core.
//!
//! Everything that decides, parses, frames or formats lives here with a
//! contract; reading files, talking to processes and to the network is left to
//! the binary in `app/`.

pub mod auto_memory;
pub mod chat;
pub mod cli;
pub mod clock;
pub mod config;
pub mod history;
pub mod json;
pub mod mcp;
pub mod memory_broker;
pub mod model;
pub mod reply;
pub mod text;
pub mod utils;
