//! The tool that waits for a background sub-agent.
use vstd::prelude::*;
use vstd::string::*;

use crate::json::{
    content_of, json_text, members_view, result_content, serialize, JsonDoc, JsonDocView,
    JsonField, JsonFieldView,
};
use crate::text::optional_text;
use crate::tools::subagents::{
    copied, find_subagent, first_with, is_running, law_first_with_session, optional_field,
    optional_text_field, runs, text_field, LanguageModelToolResultContent, SessionId,
    SubagentSummary, ToolKind,
};

verus! {

/// How long to wait between two looks at a sub-agent, in milliseconds.
pub const POLL_INTERVAL_MILLIS: u64 = 200;

/// How long to wait for a sub-agent where nothing else is asked for, in seconds.
pub const DEFAULT_TIMEOUT_SECONDS: u64 = 300;

/// Wait for a background sub-agent to finish, then return its result.
///
/// Pass the `session_id` from `spawn_agent_background`. This blocks until the
/// sub-agent reaches a terminal state (completed/failed/cancelled) or the optional
/// timeout elapses, then returns its final `output` (or `error`). Use this when you
/// need a background sub-agent's result before continuing; use `list_subagents` if
/// you only want a non-blocking status check.
#[derive(Debug)]
pub struct AwaitSubagentToolInput {
    /// The session ID of the background sub-agent to wait for.
    pub session_id: SessionId,
    /// Maximum time to wait, in seconds (default 300). On timeout the sub-agent
    /// keeps running and its current status is returned.
    pub timeout_seconds: Option<u64>,
}

#[derive(Debug, PartialEq, Eq)]
pub enum AwaitSubagentToolOutput {
    Finished {
        session_id: SessionId,
        status: String,
        output: Option<String>,
        error: Option<String>,
    },
    TimedOut { session_id: SessionId, status: String },
    Error { error: String },
}

impl AwaitSubagentToolOutput {
    /// The JSON object that the output is shown as.
    pub open spec fn object(self) -> Seq<(Seq<char>, JsonFieldView)> {
        match self {
            AwaitSubagentToolOutput::Finished { session_id, status, output, error } => seq![
                ("session_id"@, JsonFieldView::Text(session_id@)),
                ("status"@, JsonFieldView::Text(status@)),
                ("output"@, optional_field(optional_text(output))),
                ("error"@, optional_field(optional_text(error))),
            ],
            AwaitSubagentToolOutput::TimedOut { session_id, status } => seq![
                ("session_id"@, JsonFieldView::Text(session_id@)),
                ("status"@, JsonFieldView::Text(status@)),
                ("timed_out"@, JsonFieldView::Bool(true)),
            ],
            AwaitSubagentToolOutput::Error { error } => seq![
                ("error"@, JsonFieldView::Text(error@)),
            ],
        }
    }

    /// The JSON object that the output is shown as.
    pub fn to_json(&self) -> (doc: JsonDoc)
        ensures
            doc@ == JsonDocView::Object(self.object()),
    {
        let mut members: Vec<(String, JsonField)> = Vec::new();
        match self {
            AwaitSubagentToolOutput::Finished { session_id, status, output, error } => {
                members.push(text_field("session_id", &session_id.id));
                members.push(text_field("status", status));
                members.push(optional_text_field("output", output));
                members.push(optional_text_field("error", error));
            },
            AwaitSubagentToolOutput::TimedOut { session_id, status } => {
                members.push(text_field("session_id", &session_id.id));
                members.push(text_field("status", status));
                members.push(("timed_out".to_owned(), JsonField::Bool(true)));
            },
            AwaitSubagentToolOutput::Error { error } => {
                members.push(text_field("error", error));
            },
        }
        assert(members_view(members@) =~= self.object());
        JsonDoc::Object(members)
    }

    /// The text that the model gets to see.
    pub open spec fn content(self) -> Seq<char> {
        content_of(json_text(JsonDocView::Object(self.object())), "await_subagent"@)
    }
}

impl From<AwaitSubagentToolOutput> for LanguageModelToolResultContent {
    fn from(output: AwaitSubagentToolOutput) -> (content: LanguageModelToolResultContent)
        ensures
            content@ == output.content(),
    {
        LanguageModelToolResultContent {
            text: result_content(serialize(&output.to_json()), "await_subagent"),
        }
    }
}

impl vstd::std_specs::convert::FromSpecImpl<AwaitSubagentToolOutput> for LanguageModelToolResultContent {
    open spec fn obeys_from_spec() -> bool {
        false
    }

    open spec fn from_spec(output: AwaitSubagentToolOutput) -> LanguageModelToolResultContent {
        arbitrary()
    }
}

/// Tool that waits for a background sub-agent to finish.
pub struct AwaitSubagentTool<E> {
    pub environment: E,
}

/// A wait that is under way.
#[derive(Debug)]
pub struct AwaitRun {
    pub session_id: SessionId,
    pub timeout_seconds: u64,
}

/// What follows a look at the sub-agents.
#[derive(Debug)]
pub enum AwaitStep {
    /// The wait is over with this result.
    Done(Result<AwaitSubagentToolOutput, AwaitSubagentToolOutput>),
    /// Look again after [`POLL_INTERVAL_MILLIS`].
    Wait,
}

/// What a look at the sub-agents shows of the one that is waited for.
pub enum AwaitVerdict {
    /// There is no such sub-agent.
    Missing,
    /// It is not running any more.
    Finished(SubagentSummary),
    /// It is running, and the time is up.
    TimedOut(SubagentSummary),
    /// It is running, and there is time left.
    Wait,
}

impl AwaitRun {
    /// What a look at the sub-agents shows, `elapsed_seconds` into the wait.
    pub open spec fn verdict(
        self,
        subagents: Seq<SubagentSummary>,
        elapsed_seconds: u64,
    ) -> AwaitVerdict {
        match first_with(subagents, self.session_id@) {
            None => AwaitVerdict::Missing,
            Some(subagent) => if !is_running(subagent) {
                AwaitVerdict::Finished(subagent)
            } else if elapsed_seconds >= self.timeout_seconds {
                AwaitVerdict::TimedOut(subagent)
            } else {
                AwaitVerdict::Wait
            },
        }
    }

    /// Decides how the wait goes on, given the sub-agents as they are now and the whole
    /// seconds that have passed since it began.
    pub fn poll(&self, subagents: &Vec<SubagentSummary>, elapsed_seconds: u64) -> (step: AwaitStep)
        ensures
            match self.verdict(subagents@, elapsed_seconds) {
                AwaitVerdict::Missing => step matches AwaitStep::Done(
                    Err(AwaitSubagentToolOutput::Error { error }),
                ) && error@ == "No background sub-agent with session id "@ + self.session_id@,
                AwaitVerdict::Finished(subagent) => step == AwaitStep::Done(
                    Ok(
                        AwaitSubagentToolOutput::Finished {
                            session_id: self.session_id,
                            status: subagent.status,
                            output: subagent.output,
                            error: subagent.error,
                        },
                    ),
                ),
                AwaitVerdict::TimedOut(subagent) => step == AwaitStep::Done(
                    Ok(
                        AwaitSubagentToolOutput::TimedOut {
                            session_id: self.session_id,
                            status: subagent.status,
                        },
                    ),
                ),
                AwaitVerdict::Wait => step == AwaitStep::Wait,
            },
    {
        let at = match find_subagent(subagents, &self.session_id) {
            Some(at) => at,
            None => {
                let mut error = "No background sub-agent with session id ".to_owned();
                error.append(self.session_id.id.as_str());
                return AwaitStep::Done(Err(AwaitSubagentToolOutput::Error { error }));
            },
        };
        let subagent = &subagents[at];
        if !runs(subagent) {
            AwaitStep::Done(
                Ok(
                    AwaitSubagentToolOutput::Finished {
                        session_id: self.session_id.clone(),
                        status: subagent.status.clone(),
                        output: copied(&subagent.output),
                        error: copied(&subagent.error),
                    },
                ),
            )
        } else if elapsed_seconds >= self.timeout_seconds {
            AwaitStep::Done(
                Ok(
                    AwaitSubagentToolOutput::TimedOut {
                        session_id: self.session_id.clone(),
                        status: subagent.status.clone(),
                    },
                ),
            )
        } else {
            AwaitStep::Wait
        }
    }
}

impl<E> AwaitSubagentTool<E> {
    pub fn new(environment: E) -> (tool: AwaitSubagentTool<E>)
        ensures
            tool.environment == environment,
    {
        AwaitSubagentTool { environment }
    }

    /// The name that the model calls the tool by.
    pub fn name() -> (name: &'static str)
        ensures
            name@ == "await_subagent"@,
    {
        "await_subagent"
    }

    pub fn kind() -> (kind: ToolKind)
        ensures
            kind == ToolKind::Other,
    {
        ToolKind::Other
    }

    pub fn initial_title(&self) -> (title: String)
        ensures
            title@ == "Waiting for background sub-agent"@,
    {
        "Waiting for background sub-agent".to_owned()
    }

    /// Begins a wait with the input that was received, or the reason why none was.
    pub fn run(&self, input: Result<AwaitSubagentToolInput, String>) -> (started: Result<
        AwaitRun,
        AwaitSubagentToolOutput,
    >)
        ensures
            match input {
                Ok(input) => started == Ok::<AwaitRun, AwaitSubagentToolOutput>(
                    AwaitRun {
                        session_id: input.session_id,
                        timeout_seconds: match input.timeout_seconds {
                            Some(seconds) => seconds,
                            None => DEFAULT_TIMEOUT_SECONDS,
                        },
                    },
                ),
                Err(error) => started == Err::<AwaitRun, AwaitSubagentToolOutput>(
                    AwaitSubagentToolOutput::Error { error },
                ),
            },
    {
        match input {
            Ok(input) => Ok(
                AwaitRun {
                    session_id: input.session_id,
                    timeout_seconds: match input.timeout_seconds {
                        Some(seconds) => seconds,
                        None => DEFAULT_TIMEOUT_SECONDS,
                    },
                },
            ),
            Err(error) => Err(AwaitSubagentToolOutput::Error { error }),
        }
    }
}

/// A wait ends by its timeout at the latest, and a sub-agent that timed out is still
/// running: the status returned for it is `running`.
pub proof fn law_wait_ends_by_timeout(
    run: AwaitRun,
    subagents: Seq<SubagentSummary>,
    elapsed_seconds: u64,
)
    ensures
        elapsed_seconds >= run.timeout_seconds ==> !(run.verdict(subagents, elapsed_seconds)
            is Wait),
        run.verdict(subagents, elapsed_seconds) matches AwaitVerdict::TimedOut(subagent)
            ==> is_running(subagent) && subagent.session_id@ == run.session_id@
            && elapsed_seconds >= run.timeout_seconds,
{
    lemma_first_with_has_session(subagents, run.session_id@);
}

/// A finished sub-agent is reported with its result at the next look, however much
/// time has passed.
pub proof fn law_finished_is_reported(
    run: AwaitRun,
    subagents: Seq<SubagentSummary>,
    elapsed_seconds: u64,
    later_seconds: u64,
)
    requires
        run.verdict(subagents, elapsed_seconds) is Finished,
    ensures
        run.verdict(subagents, later_seconds) == run.verdict(subagents, elapsed_seconds),
{
}

/// How a wait ends that looks at the sub-agents again and again, given what it saw and
/// the seconds that had passed at each look: at the first look that decides, if any.
pub open spec fn awaited(run: AwaitRun, looks: Seq<(Seq<SubagentSummary>, u64)>) -> AwaitVerdict
    decreases looks.len(),
{
    if looks.len() == 0 {
        AwaitVerdict::Wait
    } else {
        match run.verdict(looks[0].0, looks[0].1) {
            AwaitVerdict::Wait => awaited(run, looks.skip(1)),
            decided => decided,
        }
    }
}

/// A wait is over at the first look at which the sub-agent is gone or not running any
/// more or the time is up, and it ends as that look shows.
pub proof fn law_wait_ends_at_first_decision(
    run: AwaitRun,
    looks: Seq<(Seq<SubagentSummary>, u64)>,
    at: int,
)
    requires
        0 <= at < looks.len(),
        forall|i: int|
            0 <= i < at ==> run.verdict((#[trigger] looks[i]).0, looks[i].1) is Wait,
        looks[at].1 >= run.timeout_seconds || !(run.verdict(looks[at].0, looks[at].1) is Wait),
    ensures
        !(awaited(run, looks) is Wait),
        awaited(run, looks) == run.verdict(looks[at].0, looks[at].1),
    decreases at,
{
    if at > 0 {
        assert(run.verdict(looks[0].0, looks[0].1) is Wait);
        assert forall|i: int| 0 <= i < at - 1 implies run.verdict(
            (#[trigger] looks.skip(1)[i]).0,
            looks.skip(1)[i].1,
        ) is Wait by {
            assert(run.verdict(looks[i + 1].0, looks[i + 1].1) is Wait);
        }
        law_wait_ends_at_first_decision(run, looks.skip(1), at - 1);
    }
}

proof fn lemma_first_with_has_session(subagents: Seq<SubagentSummary>, session: Seq<char>)
    ensures
        first_with(subagents, session) matches Some(subagent) ==> subagent.session_id@ == session,
    decreases subagents.len(),
{
    if subagents.len() > 0 && subagents[0].session_id@ != session {
        lemma_first_with_has_session(subagents.skip(1), session);
    }
}

// What the model gets to see.

/// A finished output is shown with its session, status, output and error and nothing
/// else. Each member holds the value of its field: the text where there is one, and null
/// only where there is none.
pub proof fn law_finished_shows_each_field(
    session_id: SessionId,
    status: String,
    output: Option<String>,
    error: Option<String>,
)
    ensures
        ({
            let shown = (AwaitSubagentToolOutput::Finished {
                session_id,
                status,
                output,
                error,
            }).object();
            &&& shown.len() == 4
            &&& shown[0] == ("session_id"@, JsonFieldView::Text(session_id.id@))
            &&& shown[1] == ("status"@, JsonFieldView::Text(status@))
            &&& shown[2].0 == "output"@
            &&& output is Some ==> shown[2].1 == JsonFieldView::Text(output->0@)
            &&& output is None ==> shown[2].1 == JsonFieldView::Null
            &&& shown[3].0 == "error"@
            &&& error is Some ==> shown[3].1 == JsonFieldView::Text(error->0@)
            &&& error is None ==> shown[3].1 == JsonFieldView::Null
        }),
{
}

/// An output that timed out is shown with its session and status and that it timed out,
/// and an error with what went wrong.
pub proof fn law_other_outputs_show_each_field(
    session_id: SessionId,
    status: String,
    error: String,
)
    ensures
        ({
            let shown = (AwaitSubagentToolOutput::TimedOut { session_id, status }).object();
            &&& shown.len() == 3
            &&& shown[0] == ("session_id"@, JsonFieldView::Text(session_id.id@))
            &&& shown[1] == ("status"@, JsonFieldView::Text(status@))
            &&& shown[2] == ("timed_out"@, JsonFieldView::Bool(true))
        }),
        ({
            let shown = (AwaitSubagentToolOutput::Error { error }).object();
            &&& shown.len() == 1
            &&& shown[0] == ("error"@, JsonFieldView::Text(error@))
        }),
{
}

/// Outputs that are shown alike are alike: both finished, both timed out or both errors,
/// and with the same content in every field.
pub proof fn law_shown_alike_is_alike(a: AwaitSubagentToolOutput, b: AwaitSubagentToolOutput)
    requires
        a.object() == b.object(),
    ensures
        match a {
            AwaitSubagentToolOutput::Finished { session_id, status, output, error } => b matches
                AwaitSubagentToolOutput::Finished {
                    session_id: other_id,
                    status: other_status,
                    output: other_output,
                    error: other_error,
                } && session_id.id@ == other_id.id@ && status@ == other_status@ && (output is Some
                <==> other_output is Some) && (output is Some ==> output->0@ == other_output->0@)
                && (error is Some <==> other_error is Some) && (error is Some ==> error->0@
                == other_error->0@),
            AwaitSubagentToolOutput::TimedOut { session_id, status } => b matches
                AwaitSubagentToolOutput::TimedOut {
                    session_id: other_id,
                    status: other_status,
                } && session_id.id@ == other_id.id@ && status@ == other_status@,
            AwaitSubagentToolOutput::Error { error } => b matches AwaitSubagentToolOutput::Error {
                error: other_error,
            } && error@ == other_error@,
        },
{
    let (shown, other) = (a.object(), b.object());
    assert(shown.len() == other.len());
    assert(shown[0] == other[0]);
    assert(shown.len() > 1 ==> shown[1] == other[1]);
    assert(shown.len() > 2 ==> shown[2] == other[2]);
    assert(shown.len() > 3 ==> shown[3] == other[3]);
}

/// A look at the sub-agents goes by the first one with the session that is waited for:
/// it is finished unless its status is `running`, and while it runs the time decides.
/// Where there is none, it is missing.
pub proof fn law_look_goes_by_the_first_match(
    run: AwaitRun,
    subagents: Seq<SubagentSummary>,
    elapsed_seconds: u64,
    at: int,
)
    requires
        0 <= at <= subagents.len(),
        forall|j: int|
            0 <= j < at ==> (#[trigger] subagents[j]).session_id.id@ != run.session_id.id@,
        at < subagents.len() ==> subagents[at].session_id.id@ == run.session_id.id@,
    ensures
        at == subagents.len() <==> run.verdict(subagents, elapsed_seconds) is Missing,
        at < subagents.len() && subagents[at].status@ != "running"@ ==> run.verdict(
            subagents,
            elapsed_seconds,
        ) == AwaitVerdict::Finished(subagents[at]),
        at < subagents.len() && subagents[at].status@ == "running"@ && elapsed_seconds
            >= run.timeout_seconds ==> run.verdict(subagents, elapsed_seconds)
            == AwaitVerdict::TimedOut(subagents[at]),
        at < subagents.len() && subagents[at].status@ == "running"@ && elapsed_seconds
            < run.timeout_seconds ==> run.verdict(subagents, elapsed_seconds)
            == AwaitVerdict::Wait,
{
    law_first_with_session(subagents, run.session_id@, at);
}

/// The model gets to see the JSON text of the output, or the reason why there is none.
pub proof fn law_await_content(output: AwaitSubagentToolOutput, text: Seq<char>, message: Seq<char>)
    ensures
        json_text(JsonDocView::Object(output.object())) == Ok::<Seq<char>, Seq<char>>(text)
            ==> output.content() == text,
        json_text(JsonDocView::Object(output.object())) == Err::<Seq<char>, Seq<char>>(message)
            ==> output.content() == "Failed to serialize await_subagent output: "@ + message,
{
    reveal_strlit("Failed to serialize ");
    reveal_strlit("await_subagent");
    reveal_strlit(" output: ");
    reveal_strlit("Failed to serialize await_subagent output: ");
    assert("Failed to serialize "@ + "await_subagent"@ + " output: "@
        =~= "Failed to serialize await_subagent output: "@);
}

} // verus!
