//! The tool that spawns a sub-agent in the background.
use vstd::prelude::*;
use vstd::string::*;

use crate::json::{
    content_of, json_text, json_texts, members_view, result_content, serialize, text_member,
    JsonDoc, JsonDocView, JsonField, JsonFieldView,
};
use crate::text::{decimal, decimal_text};
use crate::tools::subagents::{
    count_running, optional_field, running_count, text_field, LanguageModelToolResultContent,
    SessionId, SubagentSessionInfo, SubagentSummary, ToolKind,
};

verus! {

/// Spawn a sub-agent that runs in the background.
///
/// Unlike `spawn_agent`, this returns immediately with a `session_id` instead of
/// waiting for the sub-agent to finish. The sub-agent keeps working while you
/// continue with other work or talk to the user.
///
/// ### When to use this
/// - You want to fan out one or more long-running, well-scoped subtasks and keep
///   making progress (or stay responsive to the user) instead of blocking.
/// - The subtasks are independent and can run concurrently. For code-edit subtasks,
///   give each sub-agent a disjoint set of files to avoid conflicts.
///
/// ### Designing delegated subtasks
/// - A sub-agent does not see your conversation history. Put all relevant context
///   (file paths, requirements, constraints) in the message.
/// - Subtasks must be concrete, well-defined, and self-contained.
///
/// ### Getting results back
/// - This tool does NOT return the sub-agent's answer. It returns a `session_id`.
/// - Results are NOT delivered to you automatically. To act on a sub-agent's
///   work you must explicitly check on it: use `list_subagents` to monitor
///   progress and read completed output, or `await_subagent` to block until a
///   specific sub-agent finishes and return its result.
/// - Staying responsive to the user does not require collecting results
///   immediately: you can spawn, keep talking to the user, and collect later.
#[derive(Debug)]
pub struct SpawnAgentBackgroundToolInput {
    /// Short label displayed in the UI while the agent runs (e.g., "Researching alternatives")
    pub label: String,
    /// The prompt for the agent, with the full context needed for the task. For
    /// follow-ups (with session_id), you can rely on the agent already having the
    /// previous message.
    pub message: String,
    /// Session ID of an existing agent session to continue in the background
    /// instead of creating a new one.
    pub session_id: Option<SessionId>,
}

#[derive(Debug, PartialEq, Eq)]
pub enum SpawnAgentBackgroundToolOutput {
    Started {
        session_id: SessionId,
        status: String,
        message: String,
        session_info: SubagentSessionInfo,
    },
    Error { session_id: Option<SessionId>, error: String },
}

/// The content of an optional session id.
pub open spec fn optional_session(session_id: Option<SessionId>) -> Option<Seq<char>> {
    match session_id {
        Some(id) => Some(id@),
        None => None,
    }
}

impl SpawnAgentBackgroundToolOutput {
    /// The JSON object that the output is shown as. The session info is not shown.
    pub open spec fn object(self) -> Seq<(Seq<char>, JsonFieldView)> {
        match self {
            SpawnAgentBackgroundToolOutput::Started { session_id, status, message, .. } => seq![
                ("session_id"@, JsonFieldView::Text(session_id@)),
                ("status"@, JsonFieldView::Text(status@)),
                ("message"@, JsonFieldView::Text(message@)),
            ],
            SpawnAgentBackgroundToolOutput::Error { session_id, error } => seq![
                ("session_id"@, optional_field(optional_session(session_id))),
                ("error"@, JsonFieldView::Text(error@)),
            ],
        }
    }

    /// The JSON object that the output is shown as.
    pub fn to_json(&self) -> (doc: JsonDoc)
        ensures
            doc@ == JsonDocView::Object(self.object()),
    {
        let mut members: Vec<(String, JsonField)> = Vec::new();
        match self {
            SpawnAgentBackgroundToolOutput::Started { session_id, status, message, .. } => {
                members.push(text_field("session_id", &session_id.id));
                members.push(text_field("status", status));
                members.push(text_field("message", message));
            },
            SpawnAgentBackgroundToolOutput::Error { session_id, error } => {
                match session_id {
                    Some(id) => {
                        members.push(text_field("session_id", &id.id));
                    },
                    None => {
                        members.push(("session_id".to_owned(), JsonField::Null));
                    },
                }
                members.push(text_field("error", error));
            },
        }
        assert(members_view(members@) =~= self.object());
        JsonDoc::Object(members)
    }

    /// The text that the model gets to see.
    pub open spec fn content(self) -> Seq<char> {
        content_of(json_text(JsonDocView::Object(self.object())), "spawn_agent_background"@)
    }
}

impl From<SpawnAgentBackgroundToolOutput> for LanguageModelToolResultContent {
    fn from(output: SpawnAgentBackgroundToolOutput) -> (content: LanguageModelToolResultContent)
        ensures
            content@ == output.content(),
    {
        LanguageModelToolResultContent {
            text: result_content(serialize(&output.to_json()), "spawn_agent_background"),
        }
    }
}

impl vstd::std_specs::convert::FromSpecImpl<SpawnAgentBackgroundToolOutput> for LanguageModelToolResultContent {
    open spec fn obeys_from_spec() -> bool {
        false
    }

    open spec fn from_spec(output: SpawnAgentBackgroundToolOutput) -> LanguageModelToolResultContent {
        arbitrary()
    }
}

/// Which sub-agent to run.
#[derive(Debug, PartialEq, Eq)]
pub enum SpawnTarget {
    /// The one that already has this session.
    Resume(SessionId),
    /// A new one with this label.
    Create(String),
}

/// A spawn that was admitted.
#[derive(Debug, PartialEq, Eq)]
pub struct SpawnRequest {
    pub target: SpawnTarget,
    pub label: String,
    pub message: String,
}

/// What a tool call shows again after a restart.
#[derive(Debug, PartialEq, Eq)]
pub struct SpawnReplay {
    pub content: String,
    /// The sub-agent to announce and whose session goes into the metadata.
    pub session_info: Option<SubagentSessionInfo>,
}

/// Whether one more sub-agent may start while `running` run. A limit of 0 is none.
pub open spec fn admits(max_concurrent: nat, running: nat) -> bool {
    max_concurrent == 0 || running < max_concurrent
}

/// Why no more sub-agents may start.
pub open spec fn refusal(running: nat, max_concurrent: nat) -> Seq<char> {
    "Cannot start another background sub-agent: "@ + decimal(running)
        + " are already running (limit "@ + decimal(max_concurrent)
        + "). Wait for one to finish or cancel one with cancel_subagent."@
}

/// What the caller is told of a sub-agent that was started.
pub open spec fn started_note(session: Seq<char>) -> Seq<char> {
    "Started background sub-agent (session "@ + session
        + "). It is running now; use list_subagents to monitor it and collect its result later."@
}

/// Whether the output reports that the sub-agent with this session was started.
pub open spec fn reports_start(
    output: SpawnAgentBackgroundToolOutput,
    started: SubagentSessionInfo,
) -> bool {
    output matches SpawnAgentBackgroundToolOutput::Started {
        session_id,
        status,
        message,
        session_info,
    } && session_id == started.session_id && status@ == "running"@ && message@ == started_note(
        started.session_id@,
    ) && session_info == started
}

/// What a tool call with this output shows again after a restart.
pub open spec fn replay_of(output: SpawnAgentBackgroundToolOutput) -> SpawnReplay {
    match output {
        SpawnAgentBackgroundToolOutput::Started { message, session_info, .. } => SpawnReplay {
            content: message,
            session_info: Some(session_info),
        },
        SpawnAgentBackgroundToolOutput::Error { error, .. } => SpawnReplay {
            content: error,
            session_info: None,
        },
    }
}

/// The title of a tool call whose input is not complete, from the label that it has so
/// far.
pub fn title_from_label(label: Option<String>) -> (title: String)
    ensures
        title@ == match label {
            Some(label) => label@,
            None => "Spawning background agent"@,
        },
{
    match label {
        Some(label) => label,
        None => "Spawning background agent".to_owned(),
    }
}

/// Tool that spawns a sub-agent thread to work on a task in the background.
pub struct SpawnAgentBackgroundTool<E> {
    pub environment: E,
}

impl<E> SpawnAgentBackgroundTool<E> {
    pub fn new(environment: E) -> (tool: SpawnAgentBackgroundTool<E>)
        ensures
            tool.environment == environment,
    {
        SpawnAgentBackgroundTool { environment }
    }

    /// The name that the model calls the tool by.
    pub fn name() -> (name: &'static str)
        ensures
            name@ == "spawn_agent_background"@,
    {
        "spawn_agent_background"
    }

    pub fn kind() -> (kind: ToolKind)
        ensures
            kind == ToolKind::Other,
    {
        ToolKind::Other
    }

    /// The label of the input. Of an input that could not be read as one, the member
    /// `label` where that is a text.
    pub fn initial_title(
        &self,
        input: Result<SpawnAgentBackgroundToolInput, serde_json::Value>,
    ) -> (title: String)
        ensures
            title@ == match input {
                Ok(input) => input.label@,
                Err(value) => if json_texts(value).contains_key("label"@) {
                    json_texts(value)["label"@]
                } else {
                    "Spawning background agent"@
                },
            },
    {
        match input {
            Ok(input) => input.label,
            Err(value) => title_from_label(text_member(&value, "label")),
        }
    }

    /// Decides on the input that was received, or the reason why none was, with the
    /// limit on running sub-agents and the sub-agents there are.
    pub fn run(
        &self,
        input: Result<SpawnAgentBackgroundToolInput, String>,
        max_concurrent: usize,
        subagents: &Vec<SubagentSummary>,
    ) -> (request: Result<SpawnRequest, SpawnAgentBackgroundToolOutput>)
        ensures
            match input {
                Err(reason) => request == Err::<SpawnRequest, SpawnAgentBackgroundToolOutput>(
                    SpawnAgentBackgroundToolOutput::Error { session_id: None, error: reason },
                ),
                Ok(input) => if admits(max_concurrent as nat, running_count(subagents@)) {
                    request matches Ok(request) && request.label == input.label && request.message
                        == input.message && request.target == match input.session_id {
                        Some(session_id) => SpawnTarget::Resume(session_id),
                        None => SpawnTarget::Create(input.label),
                    }
                } else {
                    request matches Err(
                        SpawnAgentBackgroundToolOutput::Error { session_id, error },
                    ) && session_id is None && error@ == refusal(
                        running_count(subagents@),
                        max_concurrent as nat,
                    )
                },
            },
    {
        let input = match input {
            Ok(input) => input,
            Err(error) => return Err(
                SpawnAgentBackgroundToolOutput::Error { session_id: None, error },
            ),
        };
        let running: usize = count_running(subagents);
        if max_concurrent > 0 && running >= max_concurrent {
            let mut error = "Cannot start another background sub-agent: ".to_owned();
            error.append(decimal_text(running as u64).as_str());
            error.append(" are already running (limit ");
            error.append(decimal_text(max_concurrent as u64).as_str());
            error.append("). Wait for one to finish or cancel one with cancel_subagent.");
            return Err(SpawnAgentBackgroundToolOutput::Error { session_id: None, error });
        }
        let label = input.label.clone();
        let target = match input.session_id {
            Some(session_id) => SpawnTarget::Resume(session_id),
            None => SpawnTarget::Create(label),
        };
        Ok(SpawnRequest { target, label: input.label, message: input.message })
    }

    /// What to announce of the sub-agent, once the environment has resumed or created
    /// it, with the number of entries that its session has by then, or has said why it
    /// could not.
    pub fn after_create(&self, subagent: Result<(SessionId, usize), String>) -> (info: Result<
        SubagentSessionInfo,
        SpawnAgentBackgroundToolOutput,
    >)
        ensures
            info == match subagent {
                Ok((session_id, entries)) => Ok::<
                    SubagentSessionInfo,
                    SpawnAgentBackgroundToolOutput,
                >(
                    SubagentSessionInfo {
                        session_id,
                        message_start_index: entries,
                        message_end_index: None,
                    },
                ),
                Err(error) => Err::<SubagentSessionInfo, SpawnAgentBackgroundToolOutput>(
                    SpawnAgentBackgroundToolOutput::Error { session_id: None, error },
                ),
            },
    {
        match subagent {
            Ok((session_id, entries)) => Ok(
                SubagentSessionInfo {
                    session_id,
                    message_start_index: entries,
                    message_end_index: None,
                },
            ),
            Err(error) => Err(SpawnAgentBackgroundToolOutput::Error { session_id: None, error }),
        }
    }

    /// The output, once the sub-agent was set to work in the background or could not
    /// be. The message of a `Started` output is what the tool call then shows.
    pub fn after_spawn(
        &self,
        session_info: SubagentSessionInfo,
        spawned: Result<(), String>,
    ) -> (output: Result<SpawnAgentBackgroundToolOutput, SpawnAgentBackgroundToolOutput>)
        ensures
            match spawned {
                Ok(_) => output matches Ok(output) && reports_start(output, session_info),
                Err(error) => output == Err::<
                    SpawnAgentBackgroundToolOutput,
                    SpawnAgentBackgroundToolOutput,
                >(
                    SpawnAgentBackgroundToolOutput::Error {
                        session_id: Some(session_info.session_id),
                        error,
                    },
                ),
            },
    {
        match spawned {
            Ok(_) => {
                let mut message = "Started background sub-agent (session ".to_owned();
                message.append(session_info.session_id.id.as_str());
                message.append(
                    "). It is running now; use list_subagents to monitor it and collect its result later.",
                );
                Ok(
                    SpawnAgentBackgroundToolOutput::Started {
                        session_id: session_info.session_id.clone(),
                        status: "running".to_owned(),
                        message,
                        session_info,
                    },
                )
            },
            Err(error) => Err(
                SpawnAgentBackgroundToolOutput::Error {
                    session_id: Some(session_info.session_id),
                    error,
                },
            ),
        }
    }

    /// What a tool call with this output shows again after a restart. A started
    /// sub-agent is announced anew so that its session is loaded again.
    pub fn replay(&self, output: SpawnAgentBackgroundToolOutput) -> (replay: SpawnReplay)
        ensures
            replay == replay_of(output),
    {
        match output {
            SpawnAgentBackgroundToolOutput::Started { message, session_info, .. } => SpawnReplay {
                content: message,
                session_info: Some(session_info),
            },
            SpawnAgentBackgroundToolOutput::Error { error, .. } => SpawnReplay {
                content: error,
                session_info: None,
            },
        }
    }
}

/// With a limit, an admitted sub-agent is at most the last one that fits: the number
/// of running ones stays within the limit. Without a limit every one is admitted.
pub proof fn law_running_stays_within_limit(
    max_concurrent: nat,
    subagents: Seq<SubagentSummary>,
    started: SubagentSummary,
)
    ensures
        max_concurrent > 0 && admits(max_concurrent, running_count(subagents)) ==> running_count(
            subagents.push(started),
        ) <= max_concurrent,
        max_concurrent == 0 ==> admits(max_concurrent, running_count(subagents)),
{
    assert(subagents.push(started).drop_last() =~= subagents);
}

/// A restart shows of a started sub-agent what its start showed: the same note and the
/// same session, which is announced anew.
pub proof fn law_replay_repeats_start(
    output: SpawnAgentBackgroundToolOutput,
    started: SubagentSessionInfo,
)
    requires
        reports_start(output, started),
    ensures
        replay_of(output).content@ == started_note(started.session_id@),
        replay_of(output).session_info == Some(started),
{
}

/// The names of the members of a JSON object, in order.
pub open spec fn member_names(object: Seq<(Seq<char>, JsonFieldView)>) -> Seq<Seq<char>> {
    object.map_values(|member: (Seq<char>, JsonFieldView)| member.0)
}

/// The model never sees the session info: what it is shown of a started sub-agent has
/// the session, the status and the message as members and no others, and two outputs
/// that differ in nothing but the session info are shown alike.
pub proof fn law_session_info_is_not_shown(
    session_id: SessionId,
    status: String,
    message: String,
    session_info: SubagentSessionInfo,
    other_info: SubagentSessionInfo,
)
    ensures
        ({
            let a = SpawnAgentBackgroundToolOutput::Started {
                session_id,
                status,
                message,
                session_info,
            };
            let b = SpawnAgentBackgroundToolOutput::Started {
                session_id,
                status,
                message,
                session_info: other_info,
            };
            &&& a.content() == b.content()
            &&& a.object() == b.object()
            &&& member_names(a.object()) == seq!["session_id"@, "status"@, "message"@]
        }),
{
    let a = SpawnAgentBackgroundToolOutput::Started { session_id, status, message, session_info };
    assert(member_names(a.object()) =~= seq!["session_id"@, "status"@, "message"@]);
}

// What the model gets to see.

/// An output is shown with its session, status and message, or with its session and
/// error, and nothing else. The session of an error is null only where it has none.
pub proof fn law_output_shows_each_field(
    session_id: SessionId,
    status: String,
    message: String,
    session_info: SubagentSessionInfo,
    failed_id: Option<SessionId>,
    error: String,
)
    ensures
        ({
            let shown = (SpawnAgentBackgroundToolOutput::Started {
                session_id,
                status,
                message,
                session_info,
            }).object();
            &&& shown.len() == 3
            &&& shown[0] == ("session_id"@, JsonFieldView::Text(session_id.id@))
            &&& shown[1] == ("status"@, JsonFieldView::Text(status@))
            &&& shown[2] == ("message"@, JsonFieldView::Text(message@))
        }),
        ({
            let shown = (SpawnAgentBackgroundToolOutput::Error {
                session_id: failed_id,
                error,
            }).object();
            &&& shown.len() == 2
            &&& shown[0].0 == "session_id"@
            &&& failed_id is Some ==> shown[0].1 == JsonFieldView::Text(failed_id->0.id@)
            &&& failed_id is None ==> shown[0].1 == JsonFieldView::Null
            &&& shown[1] == ("error"@, JsonFieldView::Text(error@))
        }),
{
}

/// Outputs that are shown alike are alike in all that the model may see.
pub proof fn law_shown_alike_is_alike(
    a: SpawnAgentBackgroundToolOutput,
    b: SpawnAgentBackgroundToolOutput,
)
    requires
        a.object() == b.object(),
    ensures
        match a {
            SpawnAgentBackgroundToolOutput::Started { session_id, status, message, .. } => b matches
                SpawnAgentBackgroundToolOutput::Started {
                    session_id: other_id,
                    status: other_status,
                    message: other_message,
                    ..
                } && session_id.id@ == other_id.id@ && status@ == other_status@ && message@
                == other_message@,
            SpawnAgentBackgroundToolOutput::Error { session_id, error } => b matches
                SpawnAgentBackgroundToolOutput::Error {
                    session_id: other_id,
                    error: other_error,
                } && (session_id is Some <==> other_id is Some) && (session_id is Some
                ==> session_id->0.id@ == other_id->0.id@) && error@ == other_error@,
        },
{
    let (shown, other) = (a.object(), b.object());
    assert(shown.len() == other.len());
    assert(shown[0] == other[0]);
    assert(shown[1] == other[1]);
    assert(shown.len() > 2 ==> shown[2] == other[2]);
}

/// A limit is reached exactly when as many sub-agents run as it says, and a limit of
/// zero is never reached.
pub proof fn law_limit_is_exact(max_concurrent: nat, running: nat)
    ensures
        admits(0, running),
        max_concurrent > 0 ==> admits(max_concurrent, (max_concurrent - 1) as nat) && !admits(
            max_concurrent,
            max_concurrent,
        ),
        max_concurrent > 0 && running < max_concurrent ==> admits(max_concurrent, running),
        max_concurrent > 0 && running >= max_concurrent ==> !admits(max_concurrent, running),
{
}

/// A refusal names how many sub-agents run, and the limit.
pub proof fn law_refusal_names_the_numbers(running: nat, max_concurrent: nat)
    ensures
        ({
            let text = refusal(running, max_concurrent);
            let first = 43int + decimal(running).len();
            let second = first + 28 + decimal(max_concurrent).len();
            &&& text.take(43) == "Cannot start another background sub-agent: "@
            &&& text.subrange(43, first) == decimal(running)
            &&& text.subrange(first, first + 28) == " are already running (limit "@
            &&& text.subrange(first + 28, second) == decimal(max_concurrent)
            &&& text.skip(second)
                == "). Wait for one to finish or cancel one with cancel_subagent."@
        }),
{
    reveal_strlit("Cannot start another background sub-agent: ");
    reveal_strlit(" are already running (limit ");
    let text = refusal(running, max_concurrent);
    let first = 43int + decimal(running).len();
    let second = first + 28 + decimal(max_concurrent).len();
    assert(text.take(43) =~= "Cannot start another background sub-agent: "@);
    assert(text.subrange(43, first) =~= decimal(running));
    assert(text.subrange(first, first + 28) =~= " are already running (limit "@);
    assert(text.subrange(first + 28, second) =~= decimal(max_concurrent));
    assert(text.skip(second)
        =~= "). Wait for one to finish or cancel one with cancel_subagent."@);
}

/// The note on a start names the session.
pub proof fn law_started_note_names_session(session: Seq<char>)
    ensures
        started_note(session).take(38) == "Started background sub-agent (session "@,
        started_note(session).subrange(38, 38int + session.len()) == session,
        started_note(session).skip(38int + session.len())
            == "). It is running now; use list_subagents to monitor it and collect its result later."@,
{
    reveal_strlit("Started background sub-agent (session ");
    let text = started_note(session);
    assert(text.take(38) =~= "Started background sub-agent (session "@);
    assert(text.subrange(38, 38int + session.len()) =~= session);
    assert(text.skip(38int + session.len())
        =~= "). It is running now; use list_subagents to monitor it and collect its result later."@);
}

/// A report of a start has the session that was started, as running, and all that is
/// known of it. A restart shows the message of a started sub-agent and announces it, and
/// of an error it shows the error and announces nothing.
pub proof fn law_start_and_replay_keep_everything(
    session_id: SessionId,
    status: String,
    message: String,
    session_info: SubagentSessionInfo,
    started: SubagentSessionInfo,
    failed_id: Option<SessionId>,
    error: String,
)
    ensures
        ({
            let output = SpawnAgentBackgroundToolOutput::Started {
                session_id,
                status,
                message,
                session_info,
            };
            &&& reports_start(output, started) ==> session_id == started.session_id && status@
                == "running"@ && session_info == started
            &&& replay_of(output).content == message
            &&& replay_of(output).session_info == Some(session_info)
        }),
        ({
            let output = SpawnAgentBackgroundToolOutput::Error { session_id: failed_id, error };
            &&& !reports_start(output, started)
            &&& replay_of(output).content == error
            &&& replay_of(output).session_info is None
        }),
{
}

/// The model gets to see the JSON text of the output, or the reason why there is none.
pub proof fn law_spawn_content(
    output: SpawnAgentBackgroundToolOutput,
    text: Seq<char>,
    message: Seq<char>,
)
    ensures
        json_text(JsonDocView::Object(output.object())) == Ok::<Seq<char>, Seq<char>>(text)
            ==> output.content() == text,
        json_text(JsonDocView::Object(output.object())) == Err::<Seq<char>, Seq<char>>(message)
            ==> output.content() == "Failed to serialize spawn_agent_background output: "@ + message,
{
    reveal_strlit("Failed to serialize ");
    reveal_strlit("spawn_agent_background");
    reveal_strlit(" output: ");
    reveal_strlit("Failed to serialize spawn_agent_background output: ");
    assert("Failed to serialize "@ + "spawn_agent_background"@ + " output: "@
        =~= "Failed to serialize spawn_agent_background output: "@);
}

} // verus!
