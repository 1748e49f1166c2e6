//! Background sub-agents as the tools see them.
use vstd::prelude::*;

use crate::json::{JsonField, JsonFieldView};
use crate::text::same_text;

verus! {

/// Identifies an agent session.
#[derive(Debug, PartialEq, Eq, Hash)]
pub struct SessionId {
    pub id: String,
}

impl View for SessionId {
    type V = Seq<char>;

    open spec fn view(&self) -> Seq<char> {
        self.id@
    }
}

impl Clone for SessionId {
    fn clone(&self) -> (copy: SessionId)
        ensures
            copy == *self,
    {
        SessionId { id: self.id.clone() }
    }
}

impl SessionId {
    pub fn new(id: String) -> (session_id: SessionId)
        ensures
            session_id@ == id@,
    {
        SessionId { id }
    }
}

/// What a background sub-agent reports of itself. `status` is one of `running`,
/// `completed`, `failed` and `cancelled`; completed ones have an `output`, failed ones
/// an `error`.
#[derive(Debug, PartialEq, Eq)]
pub struct SubagentSummary {
    pub session_id: SessionId,
    pub label: String,
    pub status: String,
    pub output: Option<String>,
    pub error: Option<String>,
}

/// The part of a sub-agent's session that a tool call shows.
#[derive(Debug, PartialEq, Eq)]
pub struct SubagentSessionInfo {
    pub session_id: SessionId,
    pub message_start_index: usize,
    pub message_end_index: Option<usize>,
}

/// How a follow-up message reached a sub-agent.
#[derive(Clone, Copy, Debug, PartialEq, Eq, Structural)]
pub enum SubagentMessageResult {
    /// It waits for the current turn to end.
    Queued,
    /// It started a new turn.
    Resumed,
}

/// The category of a tool, as the agent client protocol has it. Clients go by it when
/// they show a tool call.
#[derive(Clone, Copy, Debug, PartialEq, Eq, Structural)]
pub enum ToolKind {
    /// Reads files or data.
    Read,
    /// Changes files or content.
    Edit,
    /// Removes files or data.
    Delete,
    /// Moves or renames files.
    Move,
    /// Searches for information.
    Search,
    /// Runs commands or code.
    Execute,
    /// Reasons or plans.
    Think,
    /// Retrieves data from outside.
    Fetch,
    /// Switches the mode of the session.
    SwitchMode,
    /// Anything else.
    Other,
}

/// What the model gets to see of the output of a tool.
#[derive(Debug, PartialEq, Eq)]
pub struct LanguageModelToolResultContent {
    pub text: String,
}

impl View for LanguageModelToolResultContent {
    type V = Seq<char>;

    open spec fn view(&self) -> Seq<char> {
        self.text@
    }
}

/// Whether the sub-agent is running.
pub open spec fn is_running(subagent: SubagentSummary) -> bool {
    subagent.status@ == "running"@
}

/// How many of the sub-agents are running.
pub open spec fn running_count(subagents: Seq<SubagentSummary>) -> nat
    decreases subagents.len(),
{
    if subagents.len() == 0 {
        0
    } else {
        running_count(subagents.drop_last()) + if is_running(subagents.last()) {
            1nat
        } else {
            0nat
        }
    }
}

/// The first sub-agent with this session.
pub open spec fn first_with(
    subagents: Seq<SubagentSummary>,
    session: Seq<char>,
) -> Option<SubagentSummary>
    decreases subagents.len(),
{
    if subagents.len() == 0 {
        None
    } else if subagents[0].session_id@ == session {
        Some(subagents[0])
    } else {
        first_with(subagents.skip(1), session)
    }
}

proof fn lemma_first_with(subagents: Seq<SubagentSummary>, session: Seq<char>, at: int)
    requires
        0 <= at <= subagents.len(),
        forall|j: int| 0 <= j < at ==> (#[trigger] subagents[j]).session_id@ != session,
    ensures
        at < subagents.len() && subagents[at].session_id@ == session ==> first_with(
            subagents,
            session,
        ) == Some(subagents[at]),
        at == subagents.len() ==> first_with(subagents, session) is None,
    decreases subagents.len(),
{
    if at > 0 {
        assert(subagents[0].session_id@ != session);
        assert forall|j: int| 0 <= j < at - 1 implies (
        #[trigger] subagents.skip(1)[j]).session_id@ != session by {
            assert(subagents[j + 1].session_id@ != session);
        }
        lemma_first_with(subagents.skip(1), session, at - 1);
    }
}

/// Where the first sub-agent with this session stands.
pub fn find_subagent(subagents: &Vec<SubagentSummary>, session_id: &SessionId) -> (found: Option<
    usize,
>)
    ensures
        match found {
            Some(i) => i < subagents@.len() && first_with(subagents@, session_id@) == Some(
                subagents@[i as int],
            ),
            None => first_with(subagents@, session_id@) is None,
        },
{
    let mut i: usize = 0;
    while i < subagents.len()
        invariant
            i <= subagents@.len(),
            forall|j: int|
                0 <= j < i ==> (#[trigger] subagents@[j]).session_id@ != session_id@,
        decreases subagents@.len() - i,
    {
        if subagents[i].session_id.id == session_id.id {
            proof {
                lemma_first_with(subagents@, session_id@, i as int);
            }
            return Some(i);
        }
        i = i + 1;
    }
    proof {
        lemma_first_with(subagents@, session_id@, i as int);
    }
    None
}

/// Whether the sub-agent is running.
pub fn runs(subagent: &SubagentSummary) -> (running: bool)
    ensures
        running == is_running(*subagent),
{
    same_text(subagent.status.as_str(), "running")
}

/// How many of the sub-agents are running.
pub fn count_running(subagents: &Vec<SubagentSummary>) -> (count: usize)
    ensures
        count == running_count(subagents@),
{
    let mut count: usize = 0;
    let mut i: usize = 0;
    assert(subagents@.take(0) =~= Seq::<SubagentSummary>::empty());
    while i < subagents.len()
        invariant
            i <= subagents@.len(),
            count <= i,
            count == running_count(subagents@.take(i as int)),
        decreases subagents@.len() - i,
    {
        proof {
            assert(subagents@.take(i + 1).drop_last() =~= subagents@.take(i as int));
            assert(subagents@.take(i + 1).last() == subagents@[i as int]);
        }
        if runs(&subagents[i]) {
            count = count + 1;
        }
        i = i + 1;
    }
    assert(subagents@.take(i as int) =~= subagents@);
    count
}

/// A copy of an optional text.
pub fn copied(text: &Option<String>) -> (copy: Option<String>)
    ensures
        copy == *text,
{
    match text {
        Some(inner) => Some(inner.clone()),
        None => None,
    }
}

/// A text as a JSON member, or null where there is none.
pub open spec fn optional_field(text: Option<Seq<char>>) -> JsonFieldView {
    match text {
        Some(inner) => JsonFieldView::Text(inner),
        None => JsonFieldView::Null,
    }
}

/// A text member.
pub fn text_field(name: &str, text: &String) -> (member: (String, JsonField))
    ensures
        member.0@ == name@,
        member.1@ == JsonFieldView::Text(text@),
{
    (name.to_owned(), JsonField::Text(text.clone()))
}

/// A text member, or null where there is no text.
pub fn optional_text_field(name: &str, text: &Option<String>) -> (member: (String, JsonField))
    ensures
        member.0@ == name@,
        member.1@ == optional_field(crate::text::optional_text(*text)),
{
    match text {
        Some(inner) => (name.to_owned(), JsonField::Text(inner.clone())),
        None => (name.to_owned(), JsonField::Null),
    }
}

/// The sub-agent that is found for a session is the first one that has it, and none is
/// found only where none has it.
pub proof fn law_first_with_session(subagents: Seq<SubagentSummary>, session: Seq<char>, at: int)
    requires
        0 <= at <= subagents.len(),
        forall|j: int| 0 <= j < at ==> (#[trigger] subagents[j]).session_id.id@ != session,
        at < subagents.len() ==> subagents[at].session_id.id@ == session,
    ensures
        first_with(subagents, session) == if at < subagents.len() {
            Some(subagents[at])
        } else {
            None
        },
{
    lemma_first_with(subagents, session, at);
}

/// The running sub-agents are counted: all those whose status is `running`, and no
/// others.
pub proof fn law_running_are_counted(subagents: Seq<SubagentSummary>)
    ensures
        running_count(subagents) == subagents.filter(
            |subagent: SubagentSummary| subagent.status@ == "running"@,
        ).len(),
    decreases subagents.len(),
{
    reveal(Seq::filter);
    if subagents.len() > 0 {
        law_running_are_counted(subagents.drop_last());
    }
}

/// A session id is its text, and what the model gets to see is the text of the result.
pub proof fn law_texts_are_seen(
    session_id: SessionId,
    content: LanguageModelToolResultContent,
)
    ensures
        session_id@ == session_id.id@,
        content@ == content.text@,
{
}

} // verus!
