//! The tool that lists the background sub-agents.
use vstd::prelude::*;
use vstd::string::*;

use crate::json::{content_of, result_content};
use crate::tools::subagents::{SubagentSummary, ToolKind};

verus! {

/// List the background sub-agents you have spawned, with their current status.
///
/// Use this to monitor sub-agents started with `spawn_agent_background`. Each
/// entry reports its `session_id`, `label`, and `status` (one of `running`,
/// `completed`, `failed`, `cancelled`). Completed sub-agents include their final
/// `output`; failed ones include an `error`.
#[derive(Debug)]
pub struct ListSubagentsToolInput {}

#[derive(Debug, PartialEq, Eq)]
pub struct ListSubagentsToolOutput {
    pub subagents: Vec<SubagentSummary>,
}

impl ListSubagentsToolOutput {
    /// The text that the model gets to see of an output that was serialized with this
    /// result.
    pub fn content(serialized: Result<String, String>) -> (content: String)
        ensures
            match serialized {
                Ok(text) => content@ == text@,
                Err(message) => content@ == content_of(Err(message@), "list_subagents"@),
            },
    {
        result_content(serialized, "list_subagents")
    }
}

/// Tool that lists the parent thread's background sub-agents.
pub struct ListSubagentsTool<E> {
    pub environment: E,
}

impl<E> ListSubagentsTool<E> {
    pub fn new(environment: E) -> (tool: ListSubagentsTool<E>)
        ensures
            tool.environment == environment,
    {
        ListSubagentsTool { environment }
    }

    /// The name that the model calls the tool by.
    pub fn name() -> (name: &'static str)
        ensures
            name@ == "list_subagents"@,
    {
        "list_subagents"
    }

    pub fn kind() -> (kind: ToolKind)
        ensures
            kind == ToolKind::Other,
    {
        ToolKind::Other
    }

    pub fn initial_title(&self) -> (title: String)
        ensures
            title@ == "Listing background sub-agents"@,
    {
        "Listing background sub-agents".to_owned()
    }

    /// The output for the sub-agents that the environment lists: all of them, in the
    /// environment's order. The tool never fails.
    pub fn run(&self, subagents: Vec<SubagentSummary>) -> (output: Result<
        ListSubagentsToolOutput,
        ListSubagentsToolOutput,
    >)
        ensures
            output == Ok::<ListSubagentsToolOutput, ListSubagentsToolOutput>(
                (ListSubagentsToolOutput { subagents }),
            ),
    {
        Ok(ListSubagentsToolOutput { subagents })
    }
}

} // verus!
