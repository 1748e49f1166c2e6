//! The tool that sends a follow-up message to a background sub-agent.
use vstd::prelude::*;
use vstd::string::*;

use crate::json::{
    content_of, json_text, members_view, result_content, serialize, JsonDoc, JsonDocView,
    JsonField, JsonFieldView,
};
use crate::tools::subagents::{
    text_field, LanguageModelToolResultContent, SessionId, SubagentMessageResult, ToolKind,
};

verus! {

/// Send a follow-up message to a background sub-agent.
///
/// Pass the `session_id` from `spawn_agent_background` (or `list_subagents`).
/// - If the sub-agent is still running, your message is queued and delivered as a
///   follow-up turn once its current turn finishes.
/// - If the sub-agent has finished, it is resumed with your message (it keeps its
///   prior context, so you can send a short, direct instruction).
///
/// This does not wait for the sub-agent to act on the message; use `list_subagents`
/// to check on it afterwards.
#[derive(Debug)]
pub struct MessageSubagentToolInput {
    /// The session ID of the background sub-agent to message.
    pub session_id: SessionId,
    /// The message to deliver to the sub-agent.
    pub message: String,
}

#[derive(Debug, PartialEq, Eq)]
pub enum MessageSubagentToolOutput {
    Delivered { session_id: SessionId, status: String, message: String },
    Error { error: String },
}

impl MessageSubagentToolOutput {
    /// The JSON object that the output is shown as.
    pub open spec fn object(self) -> Seq<(Seq<char>, JsonFieldView)> {
        match self {
            MessageSubagentToolOutput::Delivered { session_id, status, message } => seq![
                ("session_id"@, JsonFieldView::Text(session_id@)),
                ("status"@, JsonFieldView::Text(status@)),
                ("message"@, JsonFieldView::Text(message@)),
            ],
            MessageSubagentToolOutput::Error { error } => seq![
                ("error"@, JsonFieldView::Text(error@)),
            ],
        }
    }

    /// The JSON object that the output is shown as.
    pub fn to_json(&self) -> (doc: JsonDoc)
        ensures
            doc@ == JsonDocView::Object(self.object()),
    {
        let mut members: Vec<(String, JsonField)> = Vec::new();
        match self {
            MessageSubagentToolOutput::Delivered { session_id, status, message } => {
                members.push(text_field("session_id", &session_id.id));
                members.push(text_field("status", status));
                members.push(text_field("message", message));
            },
            MessageSubagentToolOutput::Error { error } => {
                members.push(text_field("error", error));
            },
        }
        assert(members_view(members@) =~= self.object());
        JsonDoc::Object(members)
    }

    /// The text that the model gets to see.
    pub open spec fn content(self) -> Seq<char> {
        content_of(json_text(JsonDocView::Object(self.object())), "message_subagent"@)
    }
}

impl From<MessageSubagentToolOutput> for LanguageModelToolResultContent {
    fn from(output: MessageSubagentToolOutput) -> (content: LanguageModelToolResultContent)
        ensures
            content@ == output.content(),
    {
        LanguageModelToolResultContent {
            text: result_content(serialize(&output.to_json()), "message_subagent"),
        }
    }
}

impl vstd::std_specs::convert::FromSpecImpl<MessageSubagentToolOutput> for LanguageModelToolResultContent {
    open spec fn obeys_from_spec() -> bool {
        false
    }

    open spec fn from_spec(output: MessageSubagentToolOutput) -> LanguageModelToolResultContent {
        arbitrary()
    }
}

/// What the caller is told of a message that was delivered.
pub open spec fn delivery_note(session: Seq<char>, result: SubagentMessageResult) -> Seq<char> {
    match result {
        SubagentMessageResult::Queued => "Queued your message for background sub-agent "@ + session
            + "; it will be delivered after its current turn."@,
        SubagentMessageResult::Resumed => "Resumed background sub-agent "@ + session
            + " with your message."@,
    }
}

/// How a message reached a sub-agent, with the label that the environment gives this.
#[derive(Debug)]
pub struct Delivery {
    pub result: SubagentMessageResult,
    pub label: String,
}

/// Tool that delivers a follow-up message to a background sub-agent.
pub struct MessageSubagentTool<E> {
    pub environment: E,
}

impl<E> MessageSubagentTool<E> {
    pub fn new(environment: E) -> (tool: MessageSubagentTool<E>)
        ensures
            tool.environment == environment,
    {
        MessageSubagentTool { environment }
    }

    /// The name that the model calls the tool by.
    pub fn name() -> (name: &'static str)
        ensures
            name@ == "message_subagent"@,
    {
        "message_subagent"
    }

    pub fn kind() -> (kind: ToolKind)
        ensures
            kind == ToolKind::Other,
    {
        ToolKind::Other
    }

    pub fn initial_title(&self) -> (title: String)
        ensures
            title@ == "Messaging background sub-agent"@,
    {
        "Messaging background sub-agent".to_owned()
    }

    /// The session and the message to hand to the environment, from the input that was
    /// received or the reason why none was.
    pub fn run(&self, input: Result<MessageSubagentToolInput, String>) -> (request: Result<
        (SessionId, String),
        MessageSubagentToolOutput,
    >)
        ensures
            request == match input {
                Ok(input) => Ok::<(SessionId, String), MessageSubagentToolOutput>(
                    (input.session_id, input.message),
                ),
                Err(error) => Err::<(SessionId, String), MessageSubagentToolOutput>(
                    MessageSubagentToolOutput::Error { error },
                ),
            },
    {
        match input {
            Ok(input) => Ok((input.session_id, input.message)),
            Err(error) => Err(MessageSubagentToolOutput::Error { error }),
        }
    }

    /// The output, once the environment has said how it delivered the message, or why
    /// it could not.
    pub fn after_message(
        &self,
        session_id: SessionId,
        delivered: Result<Delivery, String>,
    ) -> (output: Result<MessageSubagentToolOutput, MessageSubagentToolOutput>)
        ensures
            match delivered {
                Ok(delivery) => output matches Ok(
                    MessageSubagentToolOutput::Delivered { session_id: shown, status, message },
                ) && shown == session_id && status == delivery.label && message@ == delivery_note(
                    session_id@,
                    delivery.result,
                ),
                Err(error) => output == Err::<MessageSubagentToolOutput, MessageSubagentToolOutput>(
                    MessageSubagentToolOutput::Error { error },
                ),
            },
    {
        match delivered {
            Ok(delivery) => {
                let message = match delivery.result {
                    SubagentMessageResult::Queued => {
                        let mut message = "Queued your message for background sub-agent ".to_owned();
                        message.append(session_id.id.as_str());
                        message.append("; it will be delivered after its current turn.");
                        message
                    },
                    SubagentMessageResult::Resumed => {
                        let mut message = "Resumed background sub-agent ".to_owned();
                        message.append(session_id.id.as_str());
                        message.append(" with your message.");
                        message
                    },
                };
                Ok(
                    MessageSubagentToolOutput::Delivered {
                        session_id,
                        status: delivery.label,
                        message,
                    },
                )
            },
            Err(error) => Err(MessageSubagentToolOutput::Error { error }),
        }
    }
}

// What the model gets to see.

/// An output is shown with every field it has and nothing else, each under its own name.
pub proof fn law_output_shows_each_field(
    session_id: SessionId,
    status: String,
    message: String,
    error: String,
)
    ensures
        ({
            let shown = (MessageSubagentToolOutput::Delivered {
                session_id,
                status,
                message,
            }).object();
            &&& shown.len() == 3
            &&& shown[0] == ("session_id"@, JsonFieldView::Text(session_id.id@))
            &&& shown[1] == ("status"@, JsonFieldView::Text(status@))
            &&& shown[2] == ("message"@, JsonFieldView::Text(message@))
        }),
        ({
            let shown = (MessageSubagentToolOutput::Error { error }).object();
            &&& shown.len() == 1
            &&& shown[0] == ("error"@, JsonFieldView::Text(error@))
        }),
{
}

/// Outputs that are shown alike are alike, with the same content in every field.
pub proof fn law_shown_alike_is_alike(a: MessageSubagentToolOutput, b: MessageSubagentToolOutput)
    requires
        a.object() == b.object(),
    ensures
        match a {
            MessageSubagentToolOutput::Delivered { session_id, status, message } => b matches
                MessageSubagentToolOutput::Delivered {
                    session_id: other_id,
                    status: other_status,
                    message: other_message,
                } && session_id.id@ == other_id.id@ && status@ == other_status@ && message@
                == other_message@,
            MessageSubagentToolOutput::Error { error } => b matches MessageSubagentToolOutput::Error {
                error: other_error,
            } && error@ == other_error@,
        },
{
    let (shown, other) = (a.object(), b.object());
    assert(shown.len() == other.len());
    assert(shown[0] == other[0]);
    assert(shown.len() > 1 ==> shown[1] == other[1]);
    assert(shown.len() > 2 ==> shown[2] == other[2]);
}

/// A note on a delivery names the session and tells a message that waits from one that
/// started a turn.
pub proof fn law_delivery_note_names_session(session: Seq<char>, other: Seq<char>)
    ensures
        delivery_note(session, SubagentMessageResult::Queued).take(45)
            == "Queued your message for background sub-agent "@,
        delivery_note(session, SubagentMessageResult::Queued).subrange(45, 45int + session.len())
            == session,
        delivery_note(session, SubagentMessageResult::Queued).skip(45int + session.len())
            == "; it will be delivered after its current turn."@,
        delivery_note(session, SubagentMessageResult::Resumed).take(29)
            == "Resumed background sub-agent "@,
        delivery_note(session, SubagentMessageResult::Resumed).subrange(29, 29int + session.len())
            == session,
        delivery_note(session, SubagentMessageResult::Resumed).skip(29int + session.len())
            == " with your message."@,
        delivery_note(session, SubagentMessageResult::Queued) != delivery_note(
            other,
            SubagentMessageResult::Resumed,
        ),
{
    reveal_strlit("Queued your message for background sub-agent ");
    reveal_strlit("; it will be delivered after its current turn.");
    reveal_strlit("Resumed background sub-agent ");
    reveal_strlit(" with your message.");
    let queued = delivery_note(session, SubagentMessageResult::Queued);
    assert(queued.take(45) =~= "Queued your message for background sub-agent "@);
    assert(queued.subrange(45, 45int + session.len()) =~= session);
    assert(queued.skip(45int + session.len()) =~= "; it will be delivered after its current turn."@);
    let resumed = delivery_note(session, SubagentMessageResult::Resumed);
    assert(resumed.take(29) =~= "Resumed background sub-agent "@);
    assert(resumed.subrange(29, 29int + session.len()) =~= session);
    assert(resumed.skip(29int + session.len()) =~= " with your message."@);
    assert(queued[0] == 'Q');
    assert(delivery_note(other, SubagentMessageResult::Resumed)[0] == 'R');
}

/// The model gets to see the JSON text of the output, or the reason why there is none.
pub proof fn law_message_content(
    output: MessageSubagentToolOutput,
    text: Seq<char>,
    message: Seq<char>,
)
    ensures
        json_text(JsonDocView::Object(output.object())) == Ok::<Seq<char>, Seq<char>>(text)
            ==> output.content() == text,
        json_text(JsonDocView::Object(output.object())) == Err::<Seq<char>, Seq<char>>(message)
            ==> output.content() == "Failed to serialize message_subagent output: "@ + message,
{
    reveal_strlit("Failed to serialize ");
    reveal_strlit("message_subagent");
    reveal_strlit(" output: ");
    reveal_strlit("Failed to serialize message_subagent output: ");
    assert("Failed to serialize "@ + "message_subagent"@ + " output: "@
        =~= "Failed to serialize message_subagent output: "@);
}

} // verus!
