//! The command line of the assistant.

use vstd::prelude::*;

verus! {

/// What the command line asks for.
pub struct Args {
    /// The prompt to send.
    pub prompt: Option<String>,
    /// Ask for the Linux command that does the prompt.
    pub command_help: bool,
    /// Set and save the API key.
    pub set_api_key: Option<String>,
    /// Set and save the system prompt.
    pub set_system_prompt: Option<String>,
    /// Show the configuration.
    pub show_config: bool,
    /// Keep the conversation history.
    pub enable_history: bool,
    /// Do not keep the conversation history.
    pub disable_history: bool,
    /// Start a new conversation.
    pub new_chat: bool,
    /// Use the memory broker.
    pub enable_memory_broker: bool,
    /// Do not use the memory broker.
    pub disable_memory_broker: bool,
    /// Store memories automatically.
    pub enable_auto_memory: bool,
    /// Do not store memories automatically.
    pub disable_auto_memory: bool,
    /// Run as the file system server.
    pub filesystem_mcp: bool,
    /// Run as the command server.
    pub command_mcp: bool,
    /// Run as the memory server.
    pub memory_mcp: bool,
    /// Run as the memory-store server.
    pub memory_store_mcp: bool,
    /// Chat interactively.
    pub interactive: bool,
    /// A job for the model to work through on its own.
    pub task: Option<String>,
    /// Ask the model to report its progress on a task.
    pub progress_reporting: bool,
    /// Let the model continue on its own in the interactive chat.
    pub auto_continue: bool,
    /// How many turns in a row the model may take on its own.
    pub max_consecutive_turns: u32,
}

} // verus!
