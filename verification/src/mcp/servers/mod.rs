//! The tool servers that the assistant launches: memory stores, the file
//! system server and the command server.

pub mod memory;
pub mod memory_records;
pub mod memory_store;
pub mod protocol;
pub mod filesystem;
pub mod command;
