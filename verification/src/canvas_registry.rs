//! The canvases that are open: which ids, titles, files and windows they have, and
//! what opening, updating, focusing and closing one comes down to.
use std::collections::HashMap;

use vstd::prelude::*;
use vstd::string::*;

use crate::file_paths::{FilePath, PathComponentView};
use crate::text::{decimal, decimal_text};

verus! {

broadcast use vstd::std_specs::hash::group_hash_axioms;

/// A registered canvas. `open` is false once its tab is gone, until it is released.
pub struct CanvasInstance {
    pub title: String,
    pub path: FilePath,
    pub window: u64,
    pub open: bool,
}

/// The registered canvases by their ids.
pub struct CanvasRegistry {
    /// The id of the next canvas.
    pub next_id: u64,
    /// The canvas that was focused last, while it is registered.
    pub last_focused: Option<u64>,
    pub instances: HashMap<u64, CanvasInstance>,
}

/// How a window's surface is composed.
#[derive(Clone, Copy, Debug, PartialEq, Eq, Structural)]
pub enum WindowBackground {
    /// Web views show through the holes punched for them.
    Transparent,
    Opaque,
}

/// What to do for a canvas that is asked for by its file.
#[derive(Clone, Copy, Debug, PartialEq, Eq, Structural)]
pub enum OpenPlan {
    /// Focus the open canvas with this id.
    Focus(u64),
    /// Open a new tab.
    Open,
}

/// What a canvas is opened or updated with.
pub struct CanvasParams {
    pub title: Option<String>,
    pub path: Option<String>,
    pub content: Option<String>,
}

/// Whether a canvas with this id is open.
pub open spec fn is_live(instances: Map<u64, CanvasInstance>, id: u64) -> bool {
    instances.contains_key(id) && instances[id].open
}

/// Whether an open canvas with this id shows the file whose path has these components.
pub open spec fn shows_path(
    instances: Map<u64, CanvasInstance>,
    id: u64,
    path: Seq<PathComponentView>,
) -> bool {
    is_live(instances, id) && instances[id].path@.components == path
}

/// Whether an open canvas lives in `window`.
pub open spec fn hosts_canvas(instances: Map<u64, CanvasInstance>, window: u64) -> bool {
    exists|id: u64| #[trigger] is_live(instances, id) && instances[id].window == window
}

/// The ids and titles of the open canvases with an id below `bound`, by rising id.
pub open spec fn live_below(instances: Map<u64, CanvasInstance>, bound: nat) -> Seq<
    (u64, Seq<char>),
>
    decreases bound,
{
    if bound == 0 {
        Seq::empty()
    } else {
        let before = live_below(instances, (bound - 1) as nat);
        let id = (bound - 1) as u64;
        if is_live(instances, id) {
            before.push((id, instances[id].title@))
        } else {
            before
        }
    }
}

/// The ids and titles of the open canvases, by rising id.
pub open spec fn live(instances: Map<u64, CanvasInstance>) -> Seq<(u64, Seq<char>)> {
    live_below(instances, u64::MAX as nat + 1)
}

/// The canvases once the tab of the one with this id is gone.
pub open spec fn closed(instances: Map<u64, CanvasInstance>, id: u64) -> Map<u64, CanvasInstance> {
    if instances.contains_key(id) {
        instances.insert(id, CanvasInstance { open: false, ..instances[id] })
    } else {
        instances
    }
}

/// The appearance of a window: transparent while it hosts an open canvas.
pub open spec fn background(
    instances: Map<u64, CanvasInstance>,
    window: u64,
) -> WindowBackground {
    if hosts_canvas(instances, window) {
        WindowBackground::Transparent
    } else {
        WindowBackground::Opaque
    }
}

/// The complaint that no canvas with this id is open.
pub open spec fn not_open(id: u64) -> Seq<char> {
    "no open canvas with id "@ + decimal(id as nat)
}

impl CanvasRegistry {
    /// Every id lies below the next one.
    pub open spec fn wf(self) -> bool {
        forall|id: u64| #[trigger] self.instances@.contains_key(id) ==> id < self.next_id
    }

    /// A registry without canvases.
    pub fn new() -> (registry: CanvasRegistry)
        ensures
            registry.wf(),
            registry.next_id == 0,
            registry.last_focused is None,
            registry.instances@ == Map::<u64, CanvasInstance>::empty(),
    {
        CanvasRegistry { next_id: 0, last_focused: None, instances: HashMap::new() }
    }

    /// Registers a canvas that was just opened and gives it an id that no canvas had
    /// before.
    pub fn register_canvas(&mut self, title: String, path: FilePath, window: u64) -> (id: u64)
        requires
            old(self).wf(),
            old(self).next_id < u64::MAX,
        ensures
            final(self).wf(),
            id == old(self).next_id,
            final(self).next_id == id + 1,
            final(self).last_focused == old(self).last_focused,
            final(self).instances@ == old(self).instances@.insert(
                id,
                CanvasInstance { title, path, window, open: true },
            ),
    {
        let id: u64 = self.next_id;
        self.next_id = self.next_id + 1;
        self.instances.insert(id, CanvasInstance { title, path, window, open: true });
        id
    }

    /// Takes note that the tab of a canvas is gone.
    pub fn close_canvas(&mut self, id: u64)
        requires
            old(self).wf(),
        ensures
            final(self).wf(),
            final(self).next_id == old(self).next_id,
            final(self).last_focused == old(self).last_focused,
            final(self).instances@ == closed(old(self).instances@, id),
    {
        match self.instances.remove(&id) {
            Some(instance) => {
                self.instances.insert(
                    id,
                    CanvasInstance {
                        title: instance.title,
                        path: instance.path,
                        window: instance.window,
                        open: false,
                    },
                );
                assert(self.instances@ =~= closed(old(self).instances@, id));
            },
            None => {
                assert(self.instances@ =~= old(self).instances@);
            },
        }
    }

    /// Drops a canvas whose tab was closed. It is not the focused one any more.
    pub fn release_canvas(&mut self, id: u64)
        requires
            old(self).wf(),
        ensures
            final(self).wf(),
            final(self).next_id == old(self).next_id,
            final(self).last_focused == if old(self).last_focused == Some(id) {
                None
            } else {
                old(self).last_focused
            },
            final(self).instances@ == old(self).instances@.remove(id),
    {
        self.instances.remove(&id);
        match self.last_focused {
            Some(focused) => {
                if focused == id {
                    self.last_focused = None;
                }
            },
            None => {},
        }
    }

    /// The open canvas with this id.
    pub fn canvas_by_id(&self, id: u64) -> (found: Option<&CanvasInstance>)
        ensures
            match found {
                Some(instance) => is_live(self.instances@, id) && *instance
                    == self.instances@[id],
                None => !is_live(self.instances@, id),
            },
    {
        match self.instances.get(&id) {
            Some(instance) => {
                if instance.open {
                    Some(instance)
                } else {
                    None
                }
            },
            None => None,
        }
    }

    /// The ids of the registered canvases, in no particular order.
    fn ids(&self) -> (ids: Vec<u64>)
        ensures
            forall|id: u64| #[trigger] ids@.contains(id) <==> self.instances@.contains_key(id),
    {
        let mut ids: Vec<u64> = Vec::new();
        let keys = self.instances.keys();
        let ghost all = vstd::std_specs::hash::into_iter_keys(keys);
        assert(all.to_set() == self.instances@.dom());
        for id in it: keys
            invariant
                it.seq().unref() == all,
                ids@ == all.take(it.index() as int),
        {
            ids.push(*id);
        }
        assert(all.take(all.len() as int) =~= all);
        assert(ids@.to_set() =~= self.instances@.dom());
        assert forall|id: u64| #[trigger] ids@.contains(id) <==> self.instances@.contains_key(
            id,
        ) by {
            assert(ids@.to_set().contains(id) <==> ids@.contains(id));
        }
        ids
    }

    /// The open canvases as id and title, in the order of their ids.
    pub fn live_canvases(&self) -> (canvases: Vec<(u64, String)>)
        ensures
            canvases@.map_values(|canvas: (u64, String)| (canvas.0, canvas.1@)) == live(
                self.instances@,
            ),
    {
        let ids = self.ids();
        let mut canvases: Vec<(u64, String)> = Vec::new();
        let mut i: usize = 0;
        while i < ids.len()
            invariant
                i <= ids@.len(),
                forall|id: u64| #[trigger] ids@.contains(id) <==> self.instances@.contains_key(id),
                by_id(canvases@),
                forall|canvas: (u64, String)| #[trigger]
                    canvases@.contains(canvas) ==> is_live(self.instances@, canvas.0)
                        && canvas.1@ == self.instances@[canvas.0].title@,
                forall|j: int|
                    0 <= j < i && is_live(self.instances@, #[trigger] ids@[j]) ==> lists(
                        canvases@,
                        ids@[j],
                    ),
            decreases ids@.len() - i,
        {
            let id: u64 = ids[i];
            match self.canvas_by_id(id) {
                Some(instance) => {
                    insert_by_id(&mut canvases, id, instance.title.clone());
                },
                None => {},
            }
            i = i + 1;
        }
        proof {
            let listed = canvases@.map_values(|canvas: (u64, String)| (canvas.0, canvas.1@));
            lemma_live_below(self.instances@, u64::MAX as nat + 1);
            lemma_listed(canvases@, ids@, self.instances@);
            lemma_same_list(listed, live(self.instances@));
        }
        canvases
    }

    /// Whether `window` hosts at least one open canvas.
    pub fn window_has_live_canvas(&self, window: u64) -> (hosts: bool)
        ensures
            hosts == hosts_canvas(self.instances@, window),
    {
        let ids = self.ids();
        let mut i: usize = 0;
        while i < ids.len()
            invariant
                i <= ids@.len(),
                forall|id: u64| #[trigger] ids@.contains(id) <==> self.instances@.contains_key(id),
                forall|j: int|
                    0 <= j < i ==> !(is_live(self.instances@, #[trigger] ids@[j])
                        && self.instances@[ids@[j]].window == window),
            decreases ids@.len() - i,
        {
            match self.canvas_by_id(ids[i]) {
                Some(instance) => {
                    if instance.window == window {
                        return true;
                    }
                },
                None => {},
            }
            i = i + 1;
        }
        assert forall|id: u64| #[trigger] is_live(self.instances@, id) implies self.instances@[id].window
            != window by {
            assert(ids@.contains(id));
        }
        false
    }

    /// How `window` has to be composed: transparent while it hosts an open canvas,
    /// opaque otherwise.
    pub fn window_background(&self, window: u64) -> (appearance: WindowBackground)
        ensures
            appearance == background(self.instances@, window),
    {
        if self.window_has_live_canvas(window) {
            WindowBackground::Transparent
        } else {
            WindowBackground::Opaque
        }
    }

    /// The id of an open canvas that shows the file at `path`, if there is one. Where
    /// several show it, this is any of them.
    pub fn live_canvas_id_for_path(&self, path: &FilePath) -> (found: Option<u64>)
        ensures
            match found {
                Some(id) => shows_path(self.instances@, id, path@.components),
                None => forall|id: u64| !shows_path(self.instances@, id, path@.components),
            },
    {
        let ids = self.ids();
        let mut i: usize = 0;
        while i < ids.len()
            invariant
                i <= ids@.len(),
                forall|id: u64| #[trigger] ids@.contains(id) <==> self.instances@.contains_key(id),
                forall|j: int|
                    0 <= j < i ==> !shows_path(self.instances@, #[trigger] ids@[j], path@.components),
            decreases ids@.len() - i,
        {
            let id: u64 = ids[i];
            match self.canvas_by_id(id) {
                Some(instance) => {
                    if instance.path.same_file(path) {
                        return Some(id);
                    }
                },
                None => {},
            }
            i = i + 1;
        }
        assert forall|id: u64| !shows_path(self.instances@, id, path@.components) by {
            if self.instances@.contains_key(id) {
                assert(ids@.contains(id));
            }
        }
        None
    }

    /// Opens a canvas, or focuses the tab that shows `path` already.
    pub fn open_or_focus_canvas(&self, path: &FilePath) -> (plan: OpenPlan)
        ensures
            match plan {
                OpenPlan::Focus(id) => shows_path(self.instances@, id, path@.components),
                OpenPlan::Open => forall|id: u64| !shows_path(self.instances@, id, path@.components),
            },
    {
        match self.live_canvas_id_for_path(path) {
            Some(id) => OpenPlan::Focus(id),
            None => OpenPlan::Open,
        }
    }

    /// The file to write and what to write to it, for an update of the canvas `id`.
    pub fn update_target(&self, id: u64, params: CanvasParams) -> (target: Result<
        (String, String),
        String,
    >)
        ensures
            match target {
                Ok((path, content)) => params.content == Some(content) && is_live(
                    self.instances@,
                    id,
                ) && path@ == self.instances@[id].path@.text,
                Err(message) => if params.content is None {
                    message@ == "canvas update requires `content`"@
                } else {
                    !is_live(self.instances@, id) && message@ == not_open(id)
                },
            },
            target is Ok <==> params.content is Some && is_live(self.instances@, id),
    {
        let content = match params.content {
            Some(content) => content,
            None => {
                return Err("canvas update requires `content`".to_owned());
            },
        };
        match self.canvas_by_id(id) {
            Some(instance) => Ok((instance.path.text.clone(), content)),
            None => Err(not_open_text(id)),
        }
    }

    /// Takes note of whether the tab of the canvas `id` could be activated. An
    /// activated canvas is the focused one.
    pub fn note_activation(&mut self, id: u64, activated: bool)
        ensures
            *final(self) == (CanvasRegistry {
                last_focused: if activated {
                    Some(id)
                } else {
                    old(self).last_focused
                },
                ..*old(self)
            }),
    {
        if activated {
            self.last_focused = Some(id);
        }
    }

    /// Whether the canvas `id` can be brought to the foreground, given whether there is
    /// an active workspace.
    pub fn focus_target(&self, id: u64, has_workspace: bool) -> (target: Result<
        &CanvasInstance,
        String,
    >)
        ensures
            match target {
                Ok(instance) => has_workspace && is_live(self.instances@, id) && *instance
                    == self.instances@[id],
                Err(message) => if !is_live(self.instances@, id) {
                    message@ == not_open(id)
                } else {
                    !has_workspace && message@ == "no active workspace to focus a canvas in"@
                },
            },
            target is Ok <==> has_workspace && is_live(self.instances@, id),
    {
        match self.canvas_by_id(id) {
            Some(instance) => {
                if has_workspace {
                    Ok(instance)
                } else {
                    Err("no active workspace to focus a canvas in".to_owned())
                }
            },
            None => Err(not_open_text(id)),
        }
    }

    /// Finishes a request to bring the canvas `id` to the foreground, given whether its
    /// tab could be activated.
    pub fn focus_canvas(&mut self, id: u64, activated: bool) -> (result: Result<(), String>)
        ensures
            *final(self) == (CanvasRegistry {
                last_focused: if activated {
                    Some(id)
                } else {
                    old(self).last_focused
                },
                ..*old(self)
            }),
            match result {
                Ok(()) => activated,
                Err(message) => !activated && message@ == "canvas "@ + decimal(id as nat)
                    + " is not in the active workspace"@,
            },
    {
        self.note_activation(id, activated);
        if activated {
            Ok(())
        } else {
            let mut message = "canvas ".to_owned();
            message.append(decimal_text(id).as_str());
            message.append(" is not in the active workspace");
            Err(message)
        }
    }
}

/// The complaint that no canvas with this id is open.
pub fn not_open_text(id: u64) -> (message: String)
    ensures
        message@ == not_open(id),
{
    let mut message = "no open canvas with id ".to_owned();
    message.append(decimal_text(id).as_str());
    message
}

/// The title and the file of a canvas that is opened with these parameters. The title
/// is `Canvas` where none is given; the file is required.
pub open spec fn opens_as(params: CanvasParams) -> Option<(Seq<char>, Seq<char>)> {
    match params.path {
        Some(path) => Some(
            (
                match params.title {
                    Some(title) => title@,
                    None => "Canvas"@,
                },
                path@,
            ),
        ),
        None => None,
    }
}

/// The title and the file of a canvas to open.
pub fn open_target(params: CanvasParams) -> (target: Result<(String, String), String>)
    ensures
        match target {
            Ok((title, path)) => opens_as(params) == Some((title@, path@)),
            Err(message) => opens_as(params) is None && message@
                == "canvas open requires a file `path`"@,
        },
{
    let title = match params.title {
        Some(title) => title,
        None => "Canvas".to_owned(),
    };
    match params.path {
        Some(path) => Ok((title, path)),
        None => Err("canvas open requires a file `path`".to_owned()),
    }
}

/// Whether ids rise along the list.
pub open spec fn by_id<T>(canvases: Seq<(u64, T)>) -> bool {
    forall|i: int, j: int|
        0 <= i < j < canvases.len() ==> (#[trigger] canvases[i]).0 < (#[trigger] canvases[j]).0
}

/// Whether a canvas with this id is in the list.
spec fn lists<T>(canvases: Seq<(u64, T)>, id: u64) -> bool {
    exists|i: int| 0 <= i < canvases.len() && (#[trigger] canvases[i]).0 == id
}

/// Puts a canvas at its place in the list, unless it is there.
fn insert_by_id(canvases: &mut Vec<(u64, String)>, id: u64, title: String)
    requires
        by_id(old(canvases)@),
    ensures
        by_id(final(canvases)@),
        lists(final(canvases)@, id),
        forall|other: u64| #[trigger]
            lists(old(canvases)@, other) ==> lists(final(canvases)@, other),
        forall|canvas: (u64, String)| #[trigger]
            final(canvases)@.contains(canvas) ==> old(canvases)@.contains(canvas) || canvas == (
                id,
                title,
            ),
{
    let mut at: usize = 0;
    while at < canvases.len() && canvases[at].0 < id
        invariant
            at <= canvases@.len(),
            canvases@ == old(canvases)@,
            forall|j: int| 0 <= j < at ==> (#[trigger] canvases@[j]).0 < id,
        decreases canvases@.len() - at,
    {
        at = at + 1;
    }
    if at < canvases.len() && canvases[at].0 == id {
        assert(lists(canvases@, id));
        return ;
    }
    canvases.insert(at, (id, title));
    proof {
        let before = old(canvases)@;
        let after = canvases@;
        assert(after =~= before.insert(at as int, (id, title)));
        assert(after[at as int].0 == id);
        assert forall|other: u64| #[trigger] lists(before, other) implies lists(after, other) by {
            let k = choose|k: int| 0 <= k < before.len() && (#[trigger] before[k]).0 == other;
            if k < at {
                assert(after[k] == before[k]);
            } else {
                assert(after[k + 1] == before[k]);
            }
        }
        assert forall|canvas: (u64, String)| #[trigger] after.contains(canvas) implies before.contains(
            canvas,
        ) || canvas == (id, title) by {
            let k = choose|k: int| 0 <= k < after.len() && after[k] == canvas;
            if k < at {
                assert(before[k] == canvas);
            } else if k > at {
                assert(before[k - 1] == canvas);
            }
        }
    }
}

/// What the list of open canvases with ids below `bound` holds.
proof fn lemma_live_below(instances: Map<u64, CanvasInstance>, bound: nat)
    requires
        bound <= u64::MAX + 1,
    ensures
        by_id(live_below(instances, bound)),
        forall|i: int|
            0 <= i < live_below(instances, bound).len() ==> (#[trigger] live_below(
                instances,
                bound,
            )[i]).0 < bound,
        forall|canvas: (u64, Seq<char>)| #[trigger]
            live_below(instances, bound).contains(canvas) <==> canvas.0 < bound && is_live(
                instances,
                canvas.0,
            ) && canvas.1 == instances[canvas.0].title@,
    decreases bound,
{
    let list = live_below(instances, bound);
    if bound > 0 {
        lemma_live_below(instances, (bound - 1) as nat);
        let before = live_below(instances, (bound - 1) as nat);
        let id = (bound - 1) as u64;
        assert forall|canvas: (u64, Seq<char>)| #[trigger] list.contains(canvas) <==> canvas.0
            < bound && is_live(instances, canvas.0) && canvas.1
            == instances[canvas.0].title@ by {
            if list.contains(canvas) {
                let k = choose|k: int| 0 <= k < list.len() && list[k] == canvas;
                if k < before.len() {
                    assert(before[k] == canvas);
                    assert(before.contains(canvas));
                }
            }
            if canvas.0 < bound && is_live(instances, canvas.0) && canvas.1
                == instances[canvas.0].title@ {
                if canvas.0 < bound - 1 {
                    assert(before.contains(canvas));
                    let k = choose|k: int| 0 <= k < before.len() && before[k] == canvas;
                    assert(list[k] == canvas);
                } else {
                    assert(canvas.0 == id);
                    assert(list[list.len() - 1] == canvas);
                }
            }
        }
    }
}

/// What a list holds that was made from the ids of all canvases.
proof fn lemma_listed(
    canvases: Seq<(u64, String)>,
    ids: Seq<u64>,
    instances: Map<u64, CanvasInstance>,
)
    requires
        by_id(canvases),
        forall|id: u64| #[trigger] ids.contains(id) <==> instances.contains_key(id),
        forall|canvas: (u64, String)| #[trigger]
            canvases.contains(canvas) ==> is_live(instances, canvas.0) && canvas.1@
                == instances[canvas.0].title@,
        forall|j: int|
            0 <= j < ids.len() && is_live(instances, #[trigger] ids[j]) ==> lists(
                canvases,
                ids[j],
            ),
    ensures
        ({
            let listed = canvases.map_values(|canvas: (u64, String)| (canvas.0, canvas.1@));
            &&& by_id(listed)
            &&& forall|canvas: (u64, Seq<char>)| #[trigger]
                listed.contains(canvas) <==> is_live(instances, canvas.0) && canvas.1
                    == instances[canvas.0].title@
        }),
{
    let listed = canvases.map_values(|canvas: (u64, String)| (canvas.0, canvas.1@));
    assert forall|i: int, j: int| 0 <= i < j < listed.len() implies (#[trigger] listed[i]).0 < (
    #[trigger] listed[j]).0 by {
        assert(canvases[i].0 < canvases[j].0);
    }
    assert forall|canvas: (u64, Seq<char>)| #[trigger] listed.contains(canvas) <==> is_live(
        instances,
        canvas.0,
    ) && canvas.1 == instances[canvas.0].title@ by {
        if listed.contains(canvas) {
            let k = choose|k: int| 0 <= k < listed.len() && listed[k] == canvas;
            assert(canvases.contains(canvases[k]));
        }
        if is_live(instances, canvas.0) && canvas.1 == instances[canvas.0].title@ {
            assert(ids.contains(canvas.0));
            let j = choose|j: int| 0 <= j < ids.len() && ids[j] == canvas.0;
            assert(lists(canvases, ids[j]));
            let k = choose|k: int|
                0 <= k < canvases.len() && (#[trigger] canvases[k]).0 == canvas.0;
            assert(canvases.contains(canvases[k]));
            assert(listed[k] == canvas);
        }
    }
}

/// Two lists by rising id that hold the same canvases are the same.
proof fn lemma_same_list<T>(a: Seq<(u64, T)>, b: Seq<(u64, T)>)
    requires
        by_id(a),
        by_id(b),
        forall|canvas: (u64, T)| #[trigger] a.contains(canvas) <==> b.contains(canvas),
    ensures
        a == b,
    decreases a.len(),
{
    if a.len() == 0 {
        if b.len() > 0 {
            assert(b.contains(b[0]));
            assert(a.contains(b[0]));
        }
        assert(a =~= b);
    } else {
        assert(a.contains(a.last()));
        assert(b.contains(a.last()));
        assert(b.contains(b.last()));
        assert(a.contains(b.last()));
        let in_b = choose|k: int| 0 <= k < b.len() && b[k] == a.last();
        let in_a = choose|k: int| 0 <= k < a.len() && a[k] == b.last();
        assert(a.last() == b.last()) by {
            if in_b < b.len() - 1 && in_a < a.len() - 1 {
                assert(b[in_b].0 < b[b.len() - 1].0);
                assert(a[in_a].0 < a[a.len() - 1].0);
            }
        }
        let shorter_a = a.drop_last();
        let shorter_b = b.drop_last();
        assert forall|canvas: (u64, T)| #[trigger] shorter_a.contains(canvas)
            <==> shorter_b.contains(canvas) by {
            lemma_drop_last_contains(a, canvas);
            lemma_drop_last_contains(b, canvas);
            assert(a.contains(canvas) <==> b.contains(canvas));
        }
        lemma_same_list(shorter_a, shorter_b);
        assert(a =~= shorter_a.push(a.last()));
        assert(b =~= shorter_b.push(b.last()));
    }
}

proof fn lemma_drop_last_contains<T>(list: Seq<(u64, T)>, canvas: (u64, T))
    requires
        by_id(list),
        list.len() > 0,
    ensures
        list.drop_last().contains(canvas) <==> list.contains(canvas) && canvas != list.last(),
{
    if list.drop_last().contains(canvas) {
        let k = choose|k: int| 0 <= k < list.drop_last().len() && list.drop_last()[k] == canvas;
        assert(list[k] == canvas);
        assert(list[k].0 < list[list.len() - 1].0);
    }
    if list.contains(canvas) && canvas != list.last() {
        let k = choose|k: int| 0 <= k < list.len() && list[k] == canvas;
        assert(list.drop_last()[k] == canvas);
    }
}

// Laws of the registry.

/// The list of open canvases is sorted by id, without repetition, and holds exactly the
/// canvases that are open, each with its title.
pub proof fn law_live_is_sorted_and_complete(registry: CanvasRegistry)
    ensures
        by_id(live(registry.instances@)),
        forall|canvas: (u64, Seq<char>)| #[trigger]
            live(registry.instances@).contains(canvas) <==> is_live(
                registry.instances@,
                canvas.0,
            ) && canvas.1 == registry.instances@[canvas.0].title@,
{
    lemma_live_below(registry.instances@, u64::MAX as nat + 1);
}

/// Registering a canvas opens that one and no other, under an id that was not open.
pub proof fn law_register_opens_only_that(
    registry: CanvasRegistry,
    registered: CanvasInstance,
    other: u64,
)
    requires
        registry.wf(),
        registered.open,
    ensures
        !is_live(registry.instances@, registry.next_id),
        is_live(registry.instances@.insert(registry.next_id, registered), registry.next_id),
        other != registry.next_id ==> (is_live(
            registry.instances@.insert(registry.next_id, registered),
            other,
        ) <==> is_live(registry.instances@, other)),
{
}

/// Closing or releasing a canvas closes that one and no other.
pub proof fn law_release_closes_only_that(
    instances: Map<u64, CanvasInstance>,
    released: u64,
    other: u64,
)
    ensures
        !is_live(closed(instances, released), released),
        !is_live(instances.remove(released), released),
        other != released ==> (is_live(closed(instances, released), other) <==> is_live(
            instances,
            other,
        )),
        other != released ==> (is_live(instances.remove(released), other) <==> is_live(
            instances,
            other,
        )),
{
}

/// A window goes back to opaque exactly when the canvas released was the last open
/// one that it hosted.
pub proof fn law_last_release_restores_opaque(
    instances: Map<u64, CanvasInstance>,
    released: u64,
    window: u64,
)
    ensures
        background(instances.remove(released), window) == WindowBackground::Opaque <==> forall|
            id: u64,
        | #[trigger]
            is_live(instances, id) && instances[id].window == window ==> id == released,
{
    let left = instances.remove(released);
    if hosts_canvas(left, window) {
        let id = choose|id: u64| #[trigger] is_live(left, id) && left[id].window == window;
        assert(is_live(instances, id) && instances[id].window == window && id != released);
    } else {
        assert forall|id: u64| #[trigger]
            is_live(instances, id) && instances[id].window == window implies id == released by {
            if id != released {
                assert(is_live(left, id));
            }
        }
    }
}

/// Whether no two open canvases show the same file.
pub open spec fn one_tab_per_path(instances: Map<u64, CanvasInstance>) -> bool {
    forall|a: u64, b: u64| #[trigger]
        is_live(instances, a) && #[trigger] is_live(instances, b)
            && instances[a].path@.components == instances[b].path@.components ==> a == b
}

/// A canvas that is opened only where none shows its file, as `open_or_focus_canvas`
/// decides, never makes a second tab for a file.
pub proof fn law_no_duplicate_tabs(
    instances: Map<u64, CanvasInstance>,
    id: u64,
    opened: CanvasInstance,
)
    requires
        one_tab_per_path(instances),
        !instances.contains_key(id),
        forall|shown: u64| !shows_path(instances, shown, opened.path@.components),
    ensures
        one_tab_per_path(instances.insert(id, opened)),
{
    let grown = instances.insert(id, opened);
    assert forall|a: u64, b: u64| #[trigger]
        is_live(grown, a) && #[trigger] is_live(grown, b) && grown[a].path@.components
            == grown[b].path@.components implies a == b by {
        if a != id {
            assert(is_live(instances, a));
            assert(!shows_path(instances, a, opened.path@.components));
        }
        if b != id {
            assert(is_live(instances, b));
            assert(!shows_path(instances, b, opened.path@.components));
        }
    }
}

/// The list of open canvases rises strictly by id, and every row is an open canvas under
/// its own id and title; no open canvas is left out.
pub proof fn law_live_rows(instances: Map<u64, CanvasInstance>, id: u64)
    ensures
        forall|i: int, j: int|
            0 <= i < j < live(instances).len() ==> (#[trigger] live(instances)[i]).0 < (
            #[trigger] live(instances)[j]).0,
        forall|i: int|
            0 <= i < live(instances).len() ==> instances.contains_key(
                (#[trigger] live(instances)[i]).0,
            ) && instances[live(instances)[i].0].open && live(instances)[i].1
                == instances[live(instances)[i].0].title@,
        instances.contains_key(id) && instances[id].open ==> exists|i: int|
            0 <= i < live(instances).len() && #[trigger] live(instances)[i] == (
                id,
                instances[id].title@,
            ),
{
    lemma_live_below(instances, u64::MAX as nat + 1);
    let list = live(instances);
    assert forall|i: int| 0 <= i < list.len() implies instances.contains_key(
        (#[trigger] list[i]).0,
    ) && instances[list[i].0].open && list[i].1 == instances[list[i].0].title@ by {
        assert(list.contains(list[i]));
    }
    if instances.contains_key(id) && instances[id].open {
        assert(is_live(instances, id));
        assert(list.contains((id, instances[id].title@)));
    }
}

/// A canvas is found by its id while it is registered and open, and by a file while it
/// is open and shows that very file.
pub proof fn law_open_canvas_is_found(
    instances: Map<u64, CanvasInstance>,
    id: u64,
    path: Seq<PathComponentView>,
)
    ensures
        is_live(instances, id) <==> instances.contains_key(id) && instances[id].open,
        shows_path(instances, id, path) <==> instances.contains_key(id) && instances[id].open
            && instances[id].path@.components == path,
{
}

/// The tab of a canvas that is gone takes nothing with it: the canvas stays registered
/// with its title, file and window until it is released, and every other canvas stays as
/// it is.
pub proof fn law_closing_keeps_the_rest(instances: Map<u64, CanvasInstance>, id: u64, other: u64)
    ensures
        closed(instances, id).dom() == instances.dom(),
        instances.contains_key(id) ==> !closed(instances, id)[id].open && closed(
            instances,
            id,
        )[id].title == instances[id].title && closed(instances, id)[id].path
            == instances[id].path && closed(instances, id)[id].window == instances[id].window,
        other != id && instances.contains_key(other) ==> closed(instances, id)[other]
            == instances[other],
{
    assert(closed(instances, id).dom() =~= instances.dom());
}

/// A window is transparent exactly while an open canvas lives in it: opening one makes
/// its window transparent and no other, and a window without canvases is opaque.
pub proof fn law_window_follows_its_canvases(
    instances: Map<u64, CanvasInstance>,
    id: u64,
    opened: CanvasInstance,
    window: u64,
)
    requires
        opened.open,
        !instances.contains_key(id),
    ensures
        background(instances.insert(id, opened), opened.window) == WindowBackground::Transparent,
        window != opened.window ==> background(instances.insert(id, opened), window)
            == background(instances, window),
        (forall|other: u64| #[trigger]
            instances.contains_key(other) && instances[other].open ==> instances[other].window
                != window) <==> background(instances, window) == WindowBackground::Opaque,
{
    let grown = instances.insert(id, opened);
    assert(is_live(grown, id));
    if window != opened.window {
        if hosts_canvas(instances, window) {
            let host = choose|host: u64| #[trigger]
                is_live(instances, host) && instances[host].window == window;
            assert(is_live(grown, host) && grown[host].window == window);
        }
        if hosts_canvas(grown, window) {
            let host = choose|host: u64| #[trigger]
                is_live(grown, host) && grown[host].window == window;
            assert(is_live(instances, host) && instances[host].window == window);
        }
    }
    if hosts_canvas(instances, window) {
        let host = choose|host: u64| #[trigger]
            is_live(instances, host) && instances[host].window == window;
        assert(instances.contains_key(host));
    } else {
        assert forall|other: u64| #[trigger]
            instances.contains_key(other) && instances[other].open implies instances[other].window
            != window by {
            assert(is_live(instances, other));
        }
    }
}

/// The complaint about a canvas that is not open ends in its id.
pub proof fn law_complaint_names_canvas(id: u64)
    ensures
        not_open(id).take(23) == "no open canvas with id "@,
        not_open(id).skip(23) == decimal(id as nat),
{
    reveal_strlit("no open canvas with id ");
    let text = not_open(id);
    assert(text.take(23) =~= "no open canvas with id "@);
    assert(text.skip(23) =~= decimal(id as nat));
}

/// A canvas opens with the file and the title it is given. Without a file it does not,
/// and without a title it is called `Canvas`.
pub proof fn law_canvas_opens_as_asked(params: CanvasParams)
    ensures
        match opens_as(params) {
            Some((title, path)) => {
                &&& params.path is Some
                &&& path == params.path->0@
                &&& params.title is Some ==> title == params.title->0@
                &&& params.title is None ==> title == "Canvas"@
            },
            None => params.path is None,
        },
{
}

} // verus!
