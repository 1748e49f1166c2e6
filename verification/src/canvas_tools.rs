//! The agent tools that create, open, list and check canvases.
use vstd::prelude::*;
use vstd::string::*;

use crate::canvas_files::{
    blank, canvas_file_name, file_name, is_blank, law_file_name_is_one_component, slug, starter,
    starter_canvas,
};
use crate::canvas_registry::{
    is_live, live, not_open, not_open_text, opens_as, CanvasInstance, CanvasParams,
    CanvasRegistry,
};
use crate::json::{
    json_text, json_texts, members_view, serialize, text_object, texts_map, texts_view, JsonDoc,
    JsonDocView, JsonField, JsonFieldView,
};
use crate::surface::{
    entries_of, law_record_lists, loaded_sessions, record_session_surface, recorded, sessions_in,
    PersistedSession, SessionKey, SessionSurfaces, SurfaceEntryView, SurfaceId,
};
use crate::text::{
    decimal, decimal_text, join, joined, law_joined_parts, optional_text, texts,
};
use crate::tools::subagents::{SessionId, ToolKind};

verus! {

/// The kind of surface that a canvas is.
pub const CANVAS_KIND: &'static str = "canvas";

/// How long a check for errors waits for a pending reload, in milliseconds.
pub const ERRORS_DELAY_MILLIS: u64 = 900;

/// The workspace that the user is in, so that tools can open canvases there.
pub struct ActiveWorkspace<W> {
    pub current: Option<W>,
}

impl<W> ActiveWorkspace<W> {
    /// No workspace yet.
    pub fn new() -> (active: ActiveWorkspace<W>)
        ensures
            active.current is None,
    {
        ActiveWorkspace { current: None }
    }

    /// Remembers the workspace that was opened last.
    pub fn set_active_workspace(&mut self, workspace: W)
        ensures
            final(self).current == Some(workspace),
    {
        self.current = Some(workspace);
    }

    /// The workspace that the user is in.
    pub fn active_workspace(&self) -> (workspace: Option<&W>)
        ensures
            match workspace {
                Some(found) => self.current == Some(*found),
                None => self.current is None,
            },
    {
        match &self.current {
            Some(workspace) => Some(workspace),
            None => None,
        }
    }

    /// The workspace to make the canvas directory known to.
    pub fn ensure_canvas_worktree(&self) -> (workspace: Result<&W, String>)
        ensures
            match workspace {
                Ok(found) => self.current == Some(*found),
                Err(message) => self.current is None && message@ == "no active workspace"@,
            },
    {
        match &self.current {
            Some(workspace) => Ok(workspace),
            None => Err("no active workspace".to_owned()),
        }
    }

    /// The workspace to open a canvas in, and the parameters to open it with.
    pub fn open_canvas_surface(&self, title: &str, path: &str) -> (request: Result<
        (&W, serde_json::Value),
        String,
    >)
        ensures
            match request {
                Ok((workspace, params)) => self.current == Some(*workspace) && json_texts(params)
                    == canvas_texts(title@, path@),
                Err(message) => self.current is None && message@
                    == "no active workspace to open a canvas in"@,
            },
    {
        match &self.current {
            Some(workspace) => Ok((workspace, canvas_params(title, path))),
            None => Err("no active workspace to open a canvas in".to_owned()),
        }
    }
}

/// What a canvas is opened with: its title and its file.
pub open spec fn canvas_texts(title: Seq<char>, path: Seq<char>) -> Map<Seq<char>, Seq<char>> {
    Map::empty().insert("title"@, title).insert("path"@, path)
}

/// The parameters that open the canvas with this title and file.
pub fn canvas_params(title: &str, path: &str) -> (params: serde_json::Value)
    ensures
        json_texts(params) == canvas_texts(title@, path@),
{
    let mut members: Vec<(String, String)> = Vec::new();
    members.push(("title".to_owned(), title.to_owned()));
    members.push(("path".to_owned(), path.to_owned()));
    proof {
        let all = texts_view(members@);
        assert(all.drop_last().drop_last() =~= Seq::<(Seq<char>, Seq<char>)>::empty());
        reveal_with_fuel(texts_map, 3);
    }
    text_object(members)
}

/// A canvas file to write before the canvas is opened.
pub struct CanvasFile {
    pub title: String,
    /// The name in the directory of the canvases.
    pub name: String,
    pub content: String,
    /// Whether a file of that name is left as it is.
    pub keep_existing: bool,
}

/// What a [`CanvasFile`] holds.
pub struct CanvasFileView {
    pub title: Seq<char>,
    pub name: Seq<char>,
    pub content: Seq<char>,
    pub keep_existing: bool,
}

impl View for CanvasFile {
    type V = CanvasFileView;

    open spec fn view(&self) -> CanvasFileView {
        CanvasFileView {
            title: self.title@,
            name: self.name@,
            content: self.content@,
            keep_existing: self.keep_existing,
        }
    }
}

/// The file of a canvas that is created with this content.
pub open spec fn created_file(title: Seq<char>, content: Seq<char>) -> CanvasFileView {
    CanvasFileView { title, name: file_name(title), content, keep_existing: false }
}

/// The file of a canvas that is opened: a starter, where there is no such file.
pub open spec fn opened_file(title: Seq<char>) -> CanvasFileView {
    CanvasFileView { title, name: file_name(title), content: starter(title), keep_existing: true }
}

impl CanvasFile {
    /// Whether the file has to be written, given whether one of that name exists.
    pub fn needs_write(&self, exists: bool) -> (needed: bool)
        ensures
            needed == !(self.keep_existing && exists),
    {
        !(self.keep_existing && exists)
    }
}

/// What is said of a file that could not be written.
pub open spec fn write_failure(path: Seq<char>, error: Seq<char>) -> Seq<char> {
    "failed to write "@ + path + ": "@ + error
}

/// The outcome of writing the file at `path`.
pub fn after_write(path: &str, written: Result<(), String>) -> (outcome: Result<(), String>)
    ensures
        match written {
            Ok(_) => outcome is Ok,
            Err(error) => outcome matches Err(message) && message@ == write_failure(path@, error@),
        },
{
    match written {
        Ok(_) => Ok(()),
        Err(error) => {
            let mut message = "failed to write ".to_owned();
            message.append(path);
            message.append(": ");
            message.append(error.as_str());
            Err(message)
        },
    }
}

/// The sessions after a canvas has been recorded with parameters that open it again.
pub open spec fn canvas_recorded(
    before: Option<SessionSurfaces<serde_json::Value>>,
    on_disk: Seq<PersistedSession<serde_json::Value>>,
    after: Option<SessionSurfaces<serde_json::Value>>,
    session: Seq<char>,
    title: Seq<char>,
    path: Seq<char>,
    id: u64,
) -> bool {
    let sessions = loaded_sessions(before, on_disk);
    exists|params: serde_json::Value|
        #[trigger] json_texts(params) == canvas_texts(title, path) && sessions_in(after)
            == sessions.insert(
            session,
            recorded(entries_of(sessions, session), "canvas"@, title, params, SurfaceId(id)),
        )
}

/// Records a canvas with the conversation that opened it.
pub fn record_canvas(
    session_id: &SessionId,
    title: &str,
    path: &str,
    id: u64,
    store: &mut Option<SessionSurfaces<serde_json::Value>>,
    on_disk: Vec<PersistedSession<serde_json::Value>>,
)
    requires
        *old(store) is Some ==> (*old(store))->0.wf(),
    ensures
        *final(store) is Some,
        (*final(store))->0.wf(),
        (*final(store))->0.loaded,
        canvas_recorded(
            *old(store),
            on_disk@,
            *final(store),
            session_id@,
            title@,
            path@,
            id,
        ),
{
    let params = canvas_params(title, path);
    let ghost kept = params;
    record_session_surface(
        store,
        on_disk,
        SessionKey::new(session_id.id.clone()),
        CANVAS_KIND,
        title.to_owned(),
        params,
        SurfaceId(id),
    );
    assert(json_texts(kept) == canvas_texts(title@, path@));
}

/// What `create_canvas` is called with.
pub struct CreateCanvasToolInput {
    /// Short title shown on the canvas tab. Also identifies the canvas: a later
    /// `create_canvas` or `canvas_open` with the same title targets the same file.
    pub title: String,
    /// The full canvas source: exactly one top-level `function Canvas() { ... }`
    /// returning the UI (no `import`/`export`, no TypeScript type annotations).
    pub content: String,
}

/// Creates a canvas and opens it already populated, so that it never flashes empty.
pub struct CreateCanvasTool {
    /// The session that owns this tool instance, so the created canvas can be
    /// associated with (and reopened from) the conversation.
    pub session_id: SessionId,
}

/// What is said of a canvas that was created.
pub open spec fn created_note(title: Seq<char>, path: Seq<char>, id: u64) -> Seq<char> {
    "Created and opened canvas \""@ + title + "\" (id "@ + decimal(id as nat) + ") at `"@ + path
        + "`, rendering your content. Call `canvas_errors` with id "@ + decimal(id as nat)
        + " to confirm it rendered without errors; fix any reported errors by editing the file with `edit_file` (it hot-reloads)."@
}

impl CreateCanvasTool {
    pub fn new(session_id: SessionId) -> (tool: CreateCanvasTool)
        ensures
            tool.session_id == session_id,
    {
        CreateCanvasTool { session_id }
    }

    /// The name that the model calls the tool by.
    pub fn name() -> (name: &'static str)
        ensures
            name@ == "create_canvas"@,
    {
        "create_canvas"
    }

    pub fn kind() -> (kind: ToolKind)
        ensures
            kind == ToolKind::Other,
    {
        ToolKind::Other
    }

    pub fn initial_title(&self, input: Result<CreateCanvasToolInput, serde_json::Value>) -> (title:
        String)
        ensures
            title@ == match input {
                Ok(input) => "Create canvas: "@ + input.title@,
                Err(_) => "Create canvas"@,
            },
    {
        match input {
            Ok(input) => {
                let mut title = "Create canvas: ".to_owned();
                title.append(input.title.as_str());
                title
            },
            Err(_) => "Create canvas".to_owned(),
        }
    }

    /// The file to write, from the input that was received or the reason why none was.
    /// It is written before the canvas is opened, so that the canvas is populated from
    /// the first frame.
    pub fn run(&self, input: Result<CreateCanvasToolInput, String>) -> (file: Result<
        CanvasFile,
        String,
    >)
        ensures
            match input {
                Err(reason) => file == Err::<CanvasFile, String>(reason),
                Ok(input) => if blank(input.content@) {
                    file matches Err(message) && message@
                        == "create_canvas requires non-empty `content` defining `function Canvas() { ... }`"@
                } else {
                    file matches Ok(file) && file@ == created_file(input.title@, input.content@)
                },
            },
    {
        let input = match input {
            Ok(input) => input,
            Err(reason) => return Err(reason),
        };
        if is_blank(input.content.as_str()) {
            return Err(
                "create_canvas requires non-empty `content` defining `function Canvas() { ... }`".to_owned(),
            );
        }
        let name = canvas_file_name(input.title.as_str());
        Ok(CanvasFile { title: input.title, name, content: input.content, keep_existing: false })
    }

    /// Which canvas has to show its new content, once it was opened or focused: an
    /// already open one does not load the file by itself.
    pub fn reload_target<'a>(
        &self,
        id: u64,
        already_open: bool,
        canvases: &'a CanvasRegistry,
    ) -> (target: Option<&'a CanvasInstance>)
        ensures
            match target {
                Some(instance) => already_open && is_live(canvases.instances@, id) && *instance
                    == canvases.instances@[id],
                None => !already_open || !is_live(canvases.instances@, id),
            },
    {
        if already_open {
            canvases.canvas_by_id(id)
        } else {
            None
        }
    }

    /// Records the canvas `id` that was opened for the file at `path`, and says so.
    pub fn after_open(
        &self,
        title: &str,
        path: &str,
        id: u64,
        store: &mut Option<SessionSurfaces<serde_json::Value>>,
        on_disk: Vec<PersistedSession<serde_json::Value>>,
    ) -> (message: String)
        requires
            *old(store) is Some ==> (*old(store))->0.wf(),
        ensures
            *final(store) is Some,
            (*final(store))->0.wf(),
            (*final(store))->0.loaded,
            canvas_recorded(
                *old(store),
                on_disk@,
                *final(store),
                self.session_id@,
                title@,
                path@,
                id,
            ),
            message@ == created_note(title@, path@, id),
    {
        record_canvas(&self.session_id, title, path, id, store, on_disk);
        let number = decimal_text(id);
        let mut message = "Created and opened canvas \"".to_owned();
        message.append(title);
        message.append("\" (id ");
        message.append(number.as_str());
        message.append(") at `");
        message.append(path);
        message.append("`, rendering your content. Call `canvas_errors` with id ");
        message.append(number.as_str());
        message.append(
            " to confirm it rendered without errors; fix any reported errors by editing the file with `edit_file` (it hot-reloads).",
        );
        message
    }
}

/// What `canvas_open` is called with.
pub struct CanvasOpenToolInput {
    /// Short title shown on the canvas tab. Also identifies the canvas: opening the
    /// same title reopens the same file.
    pub title: String,
}

/// Reopens an existing canvas by its title, focusing its tab if it is already open.
pub struct CanvasOpenTool {
    /// The session that owns this tool instance, recorded so the created canvas can be
    /// associated with (and reopened from) the conversation.
    pub session_id: SessionId,
}

/// What is said of a canvas that was opened.
pub open spec fn opened_note(title: Seq<char>, path: Seq<char>, id: u64) -> Seq<char> {
    "Opened canvas \""@ + title + "\" (id "@ + decimal(id as nat) + "). It is the file `"@ + path
        + "` — author it by editing that file directly with `edit_file` (it hot-reloads on save). Lint your edits with `diagnostics`, then call `canvas_errors` with id "@
        + decimal(id as nat) + " to confirm it renders without errors."@
}

impl CanvasOpenTool {
    pub fn new(session_id: SessionId) -> (tool: CanvasOpenTool)
        ensures
            tool.session_id == session_id,
    {
        CanvasOpenTool { session_id }
    }

    /// The name that the model calls the tool by.
    pub fn name() -> (name: &'static str)
        ensures
            name@ == "canvas_open"@,
    {
        "canvas_open"
    }

    pub fn kind() -> (kind: ToolKind)
        ensures
            kind == ToolKind::Other,
    {
        ToolKind::Other
    }

    pub fn initial_title(&self, input: Result<CanvasOpenToolInput, serde_json::Value>) -> (title:
        String)
        ensures
            title@ == match input {
                Ok(input) => "Open canvas: "@ + input.title@,
                Err(_) => "Open canvas"@,
            },
    {
        match input {
            Ok(input) => {
                let mut title = "Open canvas: ".to_owned();
                title.append(input.title.as_str());
                title
            },
            Err(_) => "Open canvas".to_owned(),
        }
    }

    /// The file to open, from the input that was received or the reason why none was.
    /// Its content is a starter, for a canvas that does not exist yet.
    pub fn run(&self, input: Result<CanvasOpenToolInput, String>) -> (file: Result<
        CanvasFile,
        String,
    >)
        ensures
            match input {
                Err(reason) => file == Err::<CanvasFile, String>(reason),
                Ok(input) => file matches Ok(file) && file@ == opened_file(input.title@),
            },
    {
        match input {
            Ok(input) => {
                let name = canvas_file_name(input.title.as_str());
                let content = starter_canvas(input.title.as_str());
                Ok(CanvasFile { title: input.title, name, content, keep_existing: true })
            },
            Err(reason) => Err(reason),
        }
    }

    /// Records the canvas `id` that was opened for the file at `path`, and says so.
    pub fn after_open(
        &self,
        title: &str,
        path: &str,
        id: u64,
        store: &mut Option<SessionSurfaces<serde_json::Value>>,
        on_disk: Vec<PersistedSession<serde_json::Value>>,
    ) -> (message: String)
        requires
            *old(store) is Some ==> (*old(store))->0.wf(),
        ensures
            *final(store) is Some,
            (*final(store))->0.wf(),
            (*final(store))->0.loaded,
            canvas_recorded(
                *old(store),
                on_disk@,
                *final(store),
                self.session_id@,
                title@,
                path@,
                id,
            ),
            message@ == opened_note(title@, path@, id),
    {
        record_canvas(&self.session_id, title, path, id, store, on_disk);
        let number = decimal_text(id);
        let mut message = "Opened canvas \"".to_owned();
        message.append(title);
        message.append("\" (id ");
        message.append(number.as_str());
        message.append("). It is the file `");
        message.append(path);
        message.append(
            "` — author it by editing that file directly with `edit_file` (it hot-reloads on save). Lint your edits with `diagnostics`, then call `canvas_errors` with id ",
        );
        message.append(number.as_str());
        message.append(" to confirm it renders without errors.");
        message
    }
}

/// What `canvas_list` is called with.
pub struct CanvasListToolInput {}

/// Lists the open canvases so the agent can decide which one to focus.
pub struct CanvasListTool {}

/// An open canvas in the list.
pub open spec fn canvas_row(canvas: (u64, Seq<char>)) -> Seq<(Seq<char>, JsonFieldView)> {
    seq![("id"@, JsonFieldView::Number(canvas.0)), ("title"@, JsonFieldView::Text(canvas.1))]
}

/// The open canvases as a list.
pub open spec fn canvas_rows(canvases: Seq<(u64, Seq<char>)>) -> JsonDocView {
    JsonDocView::List(canvases.map_values(|canvas: (u64, Seq<char>)| canvas_row(canvas)))
}

impl CanvasListTool {
    /// The name that the model calls the tool by.
    pub fn name() -> (name: &'static str)
        ensures
            name@ == "canvas_list"@,
    {
        "canvas_list"
    }

    pub fn kind() -> (kind: ToolKind)
        ensures
            kind == ToolKind::Other,
    {
        ToolKind::Other
    }

    pub fn initial_title(&self) -> (title: String)
        ensures
            title@ == "List canvases"@,
    {
        "List canvases".to_owned()
    }

    /// The open canvases as a JSON document, with `id` and `title` for each.
    pub fn rows(&self, canvases: &CanvasRegistry) -> (doc: JsonDoc)
        ensures
            doc@ == canvas_rows(live(canvases.instances@)),
    {
        let open = canvases.live_canvases();
        let ghost all = live(canvases.instances@);
        let ghost target = all.map_values(|canvas: (u64, Seq<char>)| canvas_row(canvas));
        let mut rows: Vec<Vec<(String, JsonField)>> = Vec::new();
        let mut i: usize = 0;
        while i < open.len()
            invariant
                i <= open@.len(),
                all == open@.map_values(|canvas: (u64, String)| (canvas.0, canvas.1@)),
                target == all.map_values(|canvas: (u64, Seq<char>)| canvas_row(canvas)),
                rows@.len() == i,
                forall|j: int| 0 <= j < i ==> members_view((#[trigger] rows@[j])@) == target[j],
            decreases open@.len() - i,
        {
            let mut row: Vec<(String, JsonField)> = Vec::new();
            row.push(("id".to_owned(), JsonField::Number(open[i].0)));
            row.push(("title".to_owned(), JsonField::Text(open[i].1.clone())));
            assert(members_view(row@) =~= canvas_row(all[i as int]));
            rows.push(row);
            i = i + 1;
        }
        assert(rows@.map_values(|row: Vec<(String, JsonField)>| members_view(row@)) =~= target);
        JsonDoc::List(rows)
    }

    /// The text of the list, or the reason why there was no input or the list could
    /// not be serialized.
    pub fn run(
        &self,
        input: Result<CanvasListToolInput, String>,
        canvases: &CanvasRegistry,
    ) -> (output: Result<String, String>)
        ensures
            match input {
                Err(reason) => output == Err::<String, String>(reason),
                Ok(_) => match output {
                    Ok(text) => json_text(canvas_rows(live(canvases.instances@))) == Ok::<
                        Seq<char>,
                        Seq<char>,
                    >(text@),
                    Err(message) => json_text(canvas_rows(live(canvases.instances@))) == Err::<
                        Seq<char>,
                        Seq<char>,
                    >(message@),
                },
            },
    {
        match input {
            Ok(_) => serialize(&self.rows(canvases)),
            Err(reason) => Err(reason),
        }
    }
}

/// What `canvas_errors` is called with.
pub struct CanvasErrorsToolInput {
    /// The id of the canvas to check (from `canvas_open` or `canvas_list`).
    pub id: u64,
}

/// Reports the errors of a canvas, so that the agent can see that a canvas it created
/// or edited actually renders.
pub struct CanvasErrorsTool {}

/// What is said of the errors of a canvas.
pub open spec fn errors_note(id: u64, errors: Seq<Seq<char>>) -> Seq<char> {
    if errors.len() == 0 {
        "Canvas "@ + decimal(id as nat) + " rendered with no errors."@
    } else {
        "Canvas "@ + decimal(id as nat) + " reported "@ + decimal(errors.len()) + " error(s):\n"@
            + joined(errors, "\n"@)
    }
}

impl CanvasErrorsTool {
    /// The name that the model calls the tool by.
    pub fn name() -> (name: &'static str)
        ensures
            name@ == "canvas_errors"@,
    {
        "canvas_errors"
    }

    pub fn kind() -> (kind: ToolKind)
        ensures
            kind == ToolKind::Other,
    {
        ToolKind::Other
    }

    pub fn initial_title(&self, input: Result<CanvasErrorsToolInput, serde_json::Value>) -> (title:
        String)
        ensures
            title@ == match input {
                Ok(input) => "Check canvas "@ + decimal(input.id as nat) + " for errors"@,
                Err(_) => "Check canvas for errors"@,
            },
    {
        match input {
            Ok(input) => {
                let mut title = "Check canvas ".to_owned();
                title.append(decimal_text(input.id).as_str());
                title.append(" for errors");
                title
            },
            Err(_) => "Check canvas for errors".to_owned(),
        }
    }

    /// The canvas to check after [`ERRORS_DELAY_MILLIS`], from the input that was
    /// received or the reason why none was.
    pub fn run(&self, input: Result<CanvasErrorsToolInput, String>) -> (id: Result<u64, String>)
        ensures
            id == match input {
                Ok(input) => Ok::<u64, String>(input.id),
                Err(reason) => Err::<u64, String>(reason),
            },
    {
        match input {
            Ok(input) => Ok(input.id),
            Err(reason) => Err(reason),
        }
    }

    /// The report on the canvas `id`, given the errors of its last rendering where it
    /// is open.
    pub fn report(&self, id: u64, errors: Option<Vec<String>>) -> (output: Result<String, String>)
        ensures
            match errors {
                None => output matches Err(message) && message@ == not_open(id),
                Some(errors) => output matches Ok(text) && text@ == errors_note(
                    id,
                    texts(errors@),
                ),
            },
    {
        let errors = match errors {
            Some(errors) => errors,
            None => return Err(not_open_text(id)),
        };
        let mut text = "Canvas ".to_owned();
        text.append(decimal_text(id).as_str());
        if errors.len() == 0 {
            text.append(" rendered with no errors.");
        } else {
            text.append(" reported ");
            text.append(decimal_text(errors.len() as u64).as_str());
            text.append(" error(s):\n");
            text.append(join(&errors, "\n").as_str());
        }
        Ok(text)
    }
}

/// A title identifies a canvas: one that is created and one that is opened have the same
/// file exactly when their titles have the same slug, so under the same title they do.
pub proof fn law_title_identifies_file(created: Seq<char>, content: Seq<char>, opened: Seq<char>)
    ensures
        created_file(created, content).name == opened_file(opened).name <==> slug(created) == slug(
            opened,
        ),
        created == opened ==> created_file(created, content).name == opened_file(opened).name,
{
    law_file_name_is_one_component(created, opened);
}

/// The text member of a JSON object, where it has one of that name.
pub open spec fn member_of(value: serde_json::Value, name: Seq<char>) -> Option<Seq<char>> {
    if json_texts(value).contains_key(name) {
        Some(json_texts(value)[name])
    } else {
        None
    }
}

/// Parameters that were recorded for a canvas open the same canvas again: read member
/// by member, they give its title and its file.
pub proof fn law_recorded_canvas_reopens(
    value: serde_json::Value,
    params: CanvasParams,
    title: Seq<char>,
    path: Seq<char>,
)
    requires
        json_texts(value) == canvas_texts(title, path),
        optional_text(params.title) == member_of(value, "title"@),
        optional_text(params.path) == member_of(value, "path"@),
    ensures
        opens_as(params) == Some((title, path)),
{
    reveal_strlit("title");
    reveal_strlit("path");
    assert("title"@.len() != "path"@.len());
}

// What is said of canvases, and what is kept of them.

/// A report on errors says that there are none exactly when there are none. Otherwise it
/// names how many there are, and ends in all of them, in order and one on each line.
pub proof fn law_report_lists_every_error(id: u64, errors: Seq<Seq<char>>)
    ensures
        errors.len() == 0 ==> errors_note(id, errors) == "Canvas "@ + decimal(id as nat)
            + " rendered with no errors."@,
        errors.len() > 0 ==> errors_note(id, errors) != "Canvas "@ + decimal(id as nat)
            + " rendered with no errors."@,
        errors.len() > 0 ==> {
            let text = errors_note(id, errors);
            let named = 17int + decimal(id as nat).len();
            let listed = named + decimal(errors.len()).len() + 11;
            &&& text.take(7) == "Canvas "@
            &&& text.subrange(7, 7int + decimal(id as nat).len()) == decimal(id as nat)
            &&& text.subrange(7int + decimal(id as nat).len(), named) == " reported "@
            &&& text.subrange(named, named + decimal(errors.len()).len()) == decimal(errors.len())
            &&& text.subrange(named + decimal(errors.len()).len(), listed) == " error(s):\n"@
            &&& text.skip(listed) == joined(errors, "\n"@)
        },
{
    reveal_strlit("Canvas ");
    reveal_strlit(" reported ");
    reveal_strlit(" error(s):\n");
    reveal_strlit(" rendered with no errors.");
    let text = errors_note(id, errors);
    let digits = decimal(id as nat);
    let count = decimal(errors.len());
    if errors.len() > 0 {
        let named = 17int + digits.len();
        let listed = named + count.len() + 11;
        assert(text.take(7) =~= "Canvas "@);
        assert(text.subrange(7, 7int + digits.len()) =~= digits);
        assert(text.subrange(7int + digits.len(), named) =~= " reported "@);
        assert(text.subrange(named, named + count.len()) =~= count);
        assert(text.subrange(named + count.len(), listed) =~= " error(s):\n"@);
        assert(text.skip(listed) =~= joined(errors, "\n"@));
        let none = "Canvas "@ + digits + " rendered with no errors."@;
        assert(text[10int + digits.len()] == 'p');
        assert(none[10int + digits.len()] == 'n');
    }
}

/// One more error is one more line at the end of the report: where a report has errors,
/// what it lists of those before stays, followed by a line break and the new one.
pub proof fn law_report_grows_by_a_line(id: u64, errors: Seq<Seq<char>>, next: Seq<char>)
    ensures
        ({
            let text = errors_note(id, errors.push(next));
            let listed = 28int + decimal(id as nat).len() + decimal(errors.len() + 1).len();
            if errors.len() == 0 {
                text.skip(listed) == next
            } else {
                text.skip(listed) == errors_note(id, errors).skip(
                    28int + decimal(id as nat).len() + decimal(errors.len()).len(),
                ) + seq!['\n'] + next
            }
        }),
{
    reveal_strlit("\n");
    law_report_lists_every_error(id, errors.push(next));
    law_report_lists_every_error(id, errors);
    assert(errors.push(next) =~= errors + seq![next]);
    law_joined_parts(errors, seq![next], "\n"@);
    law_joined_parts(seq![next], seq![next], "\n"@);
    assert("\n"@ =~= seq!['\n']);
}

/// A canvas that is created has the title and the content it was given, and its file is
/// written even where there is one. One that is opened has its title, and its file is
/// left as it is where there is one. Either file is called as the slug of the title.
pub proof fn law_file_has_what_was_given(title: Seq<char>, content: Seq<char>)
    ensures
        created_file(title, content).title == title,
        created_file(title, content).content == content,
        !created_file(title, content).keep_existing,
        created_file(title, content).name == slug(title) + ".canvas.tsx"@,
        opened_file(title).title == title,
        opened_file(title).content == starter(title),
        opened_file(title).keep_existing,
        opened_file(title).name == slug(title) + ".canvas.tsx"@,
{
}

/// What a file holds is what its fields hold.
pub proof fn law_file_is_seen(file: CanvasFile)
    ensures
        file@.title == file.title@,
        file@.name == file.name@,
        file@.content == file.content@,
        file@.keep_existing == file.keep_existing,
{
}

/// A failure to write names the file and ends in what went wrong.
pub proof fn law_write_failure_names_file(path: Seq<char>, error: Seq<char>)
    ensures
        write_failure(path, error).take(16) == "failed to write "@,
        write_failure(path, error).subrange(16, 16int + path.len()) == path,
        write_failure(path, error).subrange(16int + path.len(), 18int + path.len()) == ": "@,
        write_failure(path, error).skip(18int + path.len()) == error,
{
    reveal_strlit("failed to write ");
    reveal_strlit(": ");
    let text = write_failure(path, error);
    assert(text.take(16) =~= "failed to write "@);
    assert(text.subrange(16, 16int + path.len()) =~= path);
    assert(text.subrange(16int + path.len(), 18int + path.len()) =~= ": "@);
    assert(text.skip(18int + path.len()) =~= error);
}

/// The note on a canvas that was created names its title, its id and its file.
pub proof fn law_created_note_names_canvas(title: Seq<char>, path: Seq<char>, id: u64)
    ensures
        ({
            let text = created_note(title, path, id);
            let digits = decimal(id as nat);
            let titled = 27int + title.len();
            let numbered = titled + 6 + digits.len();
            let placed = numbered + 6 + path.len();
            &&& text.take(27) == "Created and opened canvas \""@
            &&& text.subrange(27, titled) == title
            &&& text.subrange(titled, titled + 6) == "\" (id "@
            &&& text.subrange(titled + 6, numbered) == digits
            &&& text.subrange(numbered, numbered + 6) == ") at `"@
            &&& text.subrange(numbered + 6, placed) == path
            &&& text.subrange(placed + 56, placed + 56 + digits.len()) == digits
        }),
{
    reveal_strlit("Created and opened canvas \"");
    reveal_strlit("\" (id ");
    reveal_strlit(") at `");
    reveal_strlit("`, rendering your content. Call `canvas_errors` with id ");
    let text = created_note(title, path, id);
    let digits = decimal(id as nat);
    let titled = 27int + title.len();
    let numbered = titled + 6 + digits.len();
    let placed = numbered + 6 + path.len();
    assert(text.take(27) =~= "Created and opened canvas \""@);
    assert(text.subrange(27, titled) =~= title);
    assert(text.subrange(titled, titled + 6) =~= "\" (id "@);
    assert(text.subrange(titled + 6, numbered) =~= digits);
    assert(text.subrange(numbered, numbered + 6) =~= ") at `"@);
    assert(text.subrange(numbered + 6, placed) =~= path);
    assert(text.subrange(placed + 56, placed + 56 + digits.len()) =~= digits);
}

/// The note on a canvas that was opened names its title, its id and its file.
pub proof fn law_opened_note_names_canvas(title: Seq<char>, path: Seq<char>, id: u64)
    ensures
        ({
            let text = opened_note(title, path, id);
            let digits = decimal(id as nat);
            let titled = 15int + title.len();
            let numbered = titled + 6 + digits.len();
            let placed = numbered + 19 + path.len();
            &&& text.take(15) == "Opened canvas \""@
            &&& text.subrange(15, titled) == title
            &&& text.subrange(titled, titled + 6) == "\" (id "@
            &&& text.subrange(titled + 6, numbered) == digits
            &&& text.subrange(numbered, numbered + 19) == "). It is the file `"@
            &&& text.subrange(numbered + 19, placed) == path
            &&& text.subrange(
                text.len() - 38 - digits.len(),
                text.len() - 38,
            ) == digits
        }),
{
    reveal_strlit("Opened canvas \"");
    reveal_strlit("\" (id ");
    reveal_strlit("). It is the file `");
    reveal_strlit(" to confirm it renders without errors.");
    let text = opened_note(title, path, id);
    let digits = decimal(id as nat);
    let titled = 15int + title.len();
    let numbered = titled + 6 + digits.len();
    let placed = numbered + 19 + path.len();
    assert(text.take(15) =~= "Opened canvas \""@);
    assert(text.subrange(15, titled) =~= title);
    assert(text.subrange(titled, titled + 6) =~= "\" (id "@);
    assert(text.subrange(titled + 6, numbered) =~= digits);
    assert(text.subrange(numbered, numbered + 19) =~= "). It is the file `"@);
    assert(text.subrange(numbered + 19, placed) =~= path);
    assert(text.subrange(text.len() - 38 - digits.len(), text.len() - 38) =~= digits);
}

/// The list of canvases has a row for each, in order, with its id and its title and
/// nothing else. Lists that are shown alike are alike.
pub proof fn law_list_shows_each_canvas(
    canvases: Seq<(u64, Seq<char>)>,
    others: Seq<(u64, Seq<char>)>,
)
    ensures
        canvas_rows(canvases) matches JsonDocView::List(rows) && rows.len() == canvases.len()
            && forall|i: int|
            0 <= i < canvases.len() ==> (#[trigger] rows[i]).len() == 2 && rows[i][0] == (
                "id"@,
                JsonFieldView::Number(canvases[i].0),
            ) && rows[i][1] == ("title"@, JsonFieldView::Text(canvases[i].1)),
        canvas_rows(canvases) == canvas_rows(others) ==> canvases == others,
{
    if canvas_rows(canvases) == canvas_rows(others) {
        let rows = canvas_rows(canvases)->List_0;
        let same = canvas_rows(others)->List_0;
        assert(rows == same);
        assert(rows.len() == canvases.len() && same.len() == others.len());
        assert forall|i: int| 0 <= i < canvases.len() implies canvases[i] == others[i] by {
            assert(rows[i] == same[i]);
            assert(rows[i][0].1 == same[i][0].1);
            assert(rows[i][1].1 == same[i][1].1);
        }
        assert(canvases =~= others);
    }
}

/// A canvas is opened with its title and its file and nothing else.
pub proof fn law_canvas_opens_with_title_and_file(title: Seq<char>, path: Seq<char>)
    ensures
        canvas_texts(title, path).dom() == set!["title"@, "path"@],
        canvas_texts(title, path)["title"@] == title,
        canvas_texts(title, path)["path"@] == path,
{
    reveal_strlit("title");
    reveal_strlit("path");
    assert("title"@.len() != "path"@.len());
    assert(canvas_texts(title, path).dom() =~= set!["title"@, "path"@]);
}

/// Recording a canvas lists it, live, with its session, and changes no other session.
/// What was listed before keeps its place, kind and title, and surfaces that are no
/// canvas of this title keep everything.
pub proof fn law_canvas_is_listed_with_its_session(
    before: Option<SessionSurfaces<serde_json::Value>>,
    on_disk: Seq<PersistedSession<serde_json::Value>>,
    after: Option<SessionSurfaces<serde_json::Value>>,
    session: Seq<char>,
    title: Seq<char>,
    path: Seq<char>,
    id: u64,
)
    requires
        canvas_recorded(before, on_disk, after, session, title, path, id),
    ensures
        ({
            let sessions = loaded_sessions(before, on_disk);
            let listed = entries_of(sessions, session);
            let now = sessions_in(after);
            &&& now.dom() == sessions.dom().insert(session)
            &&& forall|other: Seq<char>|
                sessions.contains_key(other) && other != session ==> #[trigger] now[other]
                    == sessions[other]
            &&& listed.len() <= now[session].len() <= listed.len() + 1
            &&& forall|i: int|
                0 <= i < listed.len() ==> (#[trigger] now[session][i]).kind == listed[i].kind
                    && now[session][i].title == listed[i].title
            &&& forall|i: int|
                0 <= i < listed.len() && !(listed[i].kind == "canvas"@ && listed[i].title == title)
                    ==> #[trigger] now[session][i] == listed[i]
            &&& exists|i: int|
                0 <= i < now[session].len() && (#[trigger] now[session][i]).kind == "canvas"@
                    && now[session][i].title == title && now[session][i].live_id == Some(
                    SurfaceId(id),
                ) && json_texts(now[session][i].params) == canvas_texts(title, path)
        }),
{
    let sessions = loaded_sessions(before, on_disk);
    let listed = entries_of(sessions, session);
    let now = sessions_in(after);
    let params = choose|params: serde_json::Value|
        #[trigger] json_texts(params) == canvas_texts(title, path) && now == sessions.insert(
            session,
            recorded(listed, "canvas"@, title, params, SurfaceId(id)),
        );
    law_record_lists(listed, "canvas"@, title, params, SurfaceId(id));
    assert(now.dom() =~= sessions.dom().insert(session));
    let entry = SurfaceEntryView {
        kind: "canvas"@,
        title,
        params,
        live_id: Some(SurfaceId(id)),
    };
    let at = choose|i: int| 0 <= i < now[session].len() && now[session][i] == entry;
    assert(now[session][at] == entry);
}

} // verus!
