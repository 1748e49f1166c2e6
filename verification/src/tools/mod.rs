//! The agent tools that start, follow, message and stop background sub-agents.
pub mod await_subagent_tool;
pub mod cancel_subagent_tool;
pub mod list_subagents_tool;
pub mod message_subagent_tool;
pub mod spawn_agent_background_tool;
pub mod subagents;
