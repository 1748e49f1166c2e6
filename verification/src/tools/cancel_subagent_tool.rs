//! The tool that cancels a background sub-agent.
use vstd::prelude::*;
use vstd::string::*;

use crate::json::{
    content_of, json_text, members_view, result_content, serialize, JsonDoc, JsonDocView,
    JsonField, JsonFieldView,
};
use crate::tools::subagents::{
    text_field, LanguageModelToolResultContent, SessionId, SubagentSummary, ToolKind,
};

verus! {

/// Cancel a running background sub-agent that you started with
/// `spawn_agent_background`.
///
/// Pass the `session_id` returned by `spawn_agent_background` (or reported by
/// `list_subagents`). The sub-agent's in-flight work is stopped and its status
/// becomes `cancelled`. Cancelling an already-finished sub-agent is a no-op.
#[derive(Debug)]
pub struct CancelSubagentToolInput {
    /// The session ID of the background sub-agent to cancel.
    pub session_id: SessionId,
}

#[derive(Debug, PartialEq, Eq)]
pub enum CancelSubagentToolOutput {
    Cancelled { session_id: SessionId, status: String, message: String },
    Error { error: String },
}

impl CancelSubagentToolOutput {
    /// The JSON object that the output is shown as.
    pub open spec fn object(self) -> Seq<(Seq<char>, JsonFieldView)> {
        match self {
            CancelSubagentToolOutput::Cancelled { session_id, status, message } => seq![
                ("session_id"@, JsonFieldView::Text(session_id@)),
                ("status"@, JsonFieldView::Text(status@)),
                ("message"@, JsonFieldView::Text(message@)),
            ],
            CancelSubagentToolOutput::Error { error } => seq![
                ("error"@, JsonFieldView::Text(error@)),
            ],
        }
    }

    /// The JSON object that the output is shown as.
    pub fn to_json(&self) -> (doc: JsonDoc)
        ensures
            doc@ == JsonDocView::Object(self.object()),
    {
        let mut members: Vec<(String, JsonField)> = Vec::new();
        match self {
            CancelSubagentToolOutput::Cancelled { session_id, status, message } => {
                members.push(text_field("session_id", &session_id.id));
                members.push(text_field("status", status));
                members.push(text_field("message", message));
            },
            CancelSubagentToolOutput::Error { error } => {
                members.push(text_field("error", error));
            },
        }
        assert(members_view(members@) =~= self.object());
        JsonDoc::Object(members)
    }

    /// The text that the model gets to see.
    pub open spec fn content(self) -> Seq<char> {
        content_of(json_text(JsonDocView::Object(self.object())), "cancel_subagent"@)
    }
}

impl From<CancelSubagentToolOutput> for LanguageModelToolResultContent {
    fn from(output: CancelSubagentToolOutput) -> (content: LanguageModelToolResultContent)
        ensures
            content@ == output.content(),
    {
        LanguageModelToolResultContent {
            text: result_content(serialize(&output.to_json()), "cancel_subagent"),
        }
    }
}

impl vstd::std_specs::convert::FromSpecImpl<CancelSubagentToolOutput> for LanguageModelToolResultContent {
    open spec fn obeys_from_spec() -> bool {
        false
    }

    open spec fn from_spec(output: CancelSubagentToolOutput) -> LanguageModelToolResultContent {
        arbitrary()
    }
}

/// Tool that cancels a background sub-agent.
pub struct CancelSubagentTool<E> {
    pub environment: E,
}

impl<E> CancelSubagentTool<E> {
    pub fn new(environment: E) -> (tool: CancelSubagentTool<E>)
        ensures
            tool.environment == environment,
    {
        CancelSubagentTool { environment }
    }

    /// The name that the model calls the tool by.
    pub fn name() -> (name: &'static str)
        ensures
            name@ == "cancel_subagent"@,
    {
        "cancel_subagent"
    }

    pub fn kind() -> (kind: ToolKind)
        ensures
            kind == ToolKind::Other,
    {
        ToolKind::Other
    }

    pub fn initial_title(&self) -> (title: String)
        ensures
            title@ == "Cancelling background sub-agent"@,
    {
        "Cancelling background sub-agent".to_owned()
    }

    /// The session to cancel, from the input that was received or the reason why none
    /// was.
    pub fn run(&self, input: Result<CancelSubagentToolInput, String>) -> (session: Result<
        SessionId,
        CancelSubagentToolOutput,
    >)
        ensures
            session == match input {
                Ok(input) => Ok::<SessionId, CancelSubagentToolOutput>(input.session_id),
                Err(error) => Err::<SessionId, CancelSubagentToolOutput>(
                    CancelSubagentToolOutput::Error { error },
                ),
            },
    {
        match input {
            Ok(input) => Ok(input.session_id),
            Err(error) => Err(CancelSubagentToolOutput::Error { error }),
        }
    }

    /// The output, once the environment was asked to cancel the session: it answers
    /// with what the sub-agent then reports, or with the reason why it could not.
    pub fn after_cancel(
        &self,
        session_id: &SessionId,
        cancelled: Result<SubagentSummary, String>,
    ) -> (output: Result<CancelSubagentToolOutput, CancelSubagentToolOutput>)
        ensures
            match cancelled {
                Ok(summary) => output matches Ok(
                    CancelSubagentToolOutput::Cancelled { session_id: shown, status, message },
                ) && shown == summary.session_id && status == summary.status && message@
                    == "Cancelled background sub-agent "@ + session_id@ + "."@,
                Err(error) => output == Err::<CancelSubagentToolOutput, CancelSubagentToolOutput>(
                    CancelSubagentToolOutput::Error { error },
                ),
            },
    {
        match cancelled {
            Ok(summary) => {
                let mut message = "Cancelled background sub-agent ".to_owned();
                message.append(session_id.id.as_str());
                message.append(".");
                Ok(
                    CancelSubagentToolOutput::Cancelled {
                        session_id: summary.session_id,
                        status: summary.status,
                        message,
                    },
                )
            },
            Err(error) => Err(CancelSubagentToolOutput::Error { error }),
        }
    }
}

// What the model gets to see.

/// An output is shown with every field it has and nothing else, each under its own name.
pub proof fn law_output_shows_each_field(
    session_id: SessionId,
    status: String,
    message: String,
    error: String,
)
    ensures
        ({
            let shown = (CancelSubagentToolOutput::Cancelled {
                session_id,
                status,
                message,
            }).object();
            &&& shown.len() == 3
            &&& shown[0] == ("session_id"@, JsonFieldView::Text(session_id.id@))
            &&& shown[1] == ("status"@, JsonFieldView::Text(status@))
            &&& shown[2] == ("message"@, JsonFieldView::Text(message@))
        }),
        ({
            let shown = (CancelSubagentToolOutput::Error { error }).object();
            &&& shown.len() == 1
            &&& shown[0] == ("error"@, JsonFieldView::Text(error@))
        }),
{
}

/// Outputs that are shown alike are alike, with the same content in every field.
pub proof fn law_shown_alike_is_alike(a: CancelSubagentToolOutput, b: CancelSubagentToolOutput)
    requires
        a.object() == b.object(),
    ensures
        match a {
            CancelSubagentToolOutput::Cancelled { session_id, status, message } => b matches
                CancelSubagentToolOutput::Cancelled {
                    session_id: other_id,
                    status: other_status,
                    message: other_message,
                } && session_id.id@ == other_id.id@ && status@ == other_status@ && message@
                == other_message@,
            CancelSubagentToolOutput::Error { error } => b matches CancelSubagentToolOutput::Error {
                error: other_error,
            } && error@ == other_error@,
        },
{
    let (shown, other) = (a.object(), b.object());
    assert(shown.len() == other.len());
    assert(shown[0] == other[0]);
    assert(shown.len() > 1 ==> shown[1] == other[1]);
    assert(shown.len() > 2 ==> shown[2] == other[2]);
}

/// The model gets to see the JSON text of the output, or the reason why there is none.
pub proof fn law_cancel_content(
    output: CancelSubagentToolOutput,
    text: Seq<char>,
    message: Seq<char>,
)
    ensures
        json_text(JsonDocView::Object(output.object())) == Ok::<Seq<char>, Seq<char>>(text)
            ==> output.content() == text,
        json_text(JsonDocView::Object(output.object())) == Err::<Seq<char>, Seq<char>>(message)
            ==> output.content() == "Failed to serialize cancel_subagent output: "@ + message,
{
    reveal_strlit("Failed to serialize ");
    reveal_strlit("cancel_subagent");
    reveal_strlit(" output: ");
    reveal_strlit("Failed to serialize cancel_subagent output: ");
    assert("Failed to serialize "@ + "cancel_subagent"@ + " output: "@
        =~= "Failed to serialize cancel_subagent output: "@);
}

} // verus!
