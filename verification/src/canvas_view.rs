//! What a canvas tab shows and how it reacts: its page, its modes, the file it
//! follows and the part of the window it leaves to the web view.
use vstd::prelude::*;
use vstd::string::*;

use crate::canvas_document::{canvas_document, document};
use crate::text::same_text;

verus! {

/// What the canvas tab is currently showing.
#[derive(Clone, Copy, Debug, PartialEq, Eq, Structural)]
pub enum CanvasMode {
    /// The rendered canvas.
    Rendered,
    /// The `.canvas.tsx` source that produced it, for inspection.
    Code,
}

/// What fills the tab.
#[derive(Clone, Copy, Debug, PartialEq, Eq, Structural)]
pub enum CanvasContent {
    /// A hole in the window that the web view shows through.
    WebView,
    /// The read-only editor over the source.
    Editor,
    /// A note that the source is still being opened.
    LoadingSource,
}

/// What has to happen for a switch of modes.
#[derive(Clone, Copy, Debug, PartialEq, Eq, Structural)]
pub struct ModeChange {
    /// Whether the web view is hidden and no mouse events pass through to it.
    pub hide_webview: bool,
    /// Whether the source has to be opened in an editor.
    pub load_editor: bool,
    /// Whether the tab is drawn again.
    pub notify: bool,
}

/// A canvas tab.
pub struct CanvasView {
    pub title: String,
    /// The file that holds the source.
    pub path: String,
    /// The window that the tab lives in.
    pub window: u64,
    pub mode: CanvasMode,
    /// Whether the editor for the source has been created.
    pub has_code_editor: bool,
    /// The page that the web view loads.
    pub document: String,
    /// The host theme that the page was last built with.
    pub theme_json: String,
    /// The errors of the last rendering, as the page reported them.
    pub errors: Vec<String>,
}

impl CanvasView {
    /// A new tab for the file at `path`, which holds `content`, or could not be read.
    pub fn new(
        title: String,
        path: String,
        window: u64,
        content: Option<String>,
        theme_json: String,
    ) -> (view: CanvasView)
        ensures
            view.title == title,
            view.path == path,
            view.window == window,
            view.mode == CanvasMode::Rendered,
            !view.has_code_editor,
            view.theme_json == theme_json,
            view.errors@.len() == 0,
            view.document@ == document(
                title@,
                match content {
                    Some(source) => source@,
                    None => Seq::empty(),
                },
                theme_json@,
            ),
    {
        let source = match content {
            Some(source) => source,
            None => String::new(),
        };
        let page = canvas_document(title.as_str(), source.as_str(), theme_json.as_str());
        CanvasView {
            title,
            path,
            window,
            mode: CanvasMode::Rendered,
            has_code_editor: false,
            document: page,
            theme_json,
            errors: Vec::new(),
        }
    }

    /// Shows new source: the page is built again, and the web view has to load it.
    pub fn set_content(&mut self, content: &str)
        ensures
            final(self).document@ == document(old(self).title@, content@, old(self).theme_json@),
            *final(self) == (CanvasView { document: final(self).document, ..*old(self) }),
    {
        self.document = canvas_document(
            self.title.as_str(),
            content,
            self.theme_json.as_str(),
        );
    }

    /// The errors of the last rendering. None means that it rendered cleanly.
    pub fn render_errors(&self) -> (errors: Vec<String>)
        ensures
            errors@ == self.errors@,
    {
        let errors = self.errors.clone();
        assert(errors@ =~= self.errors@);
        errors
    }

    /// Takes in a report of the page: the errors of its last rendering. A report that
    /// could not be read changes nothing.
    pub fn report_errors(&mut self, report: Option<Vec<String>>)
        ensures
            *final(self) == (CanvasView {
                errors: match report {
                    Some(errors) => errors,
                    None => old(self).errors,
                },
                ..*old(self)
            }),
    {
        match report {
            Some(errors) => {
                self.errors = errors;
            },
            None => {},
        }
    }

    /// Switches between the rendered canvas and its source. Nothing happens when the
    /// tab is in that mode already. In code mode the web view is hidden, and the
    /// editor is created the first time.
    pub fn set_mode(&mut self, mode: CanvasMode) -> (change: ModeChange)
        ensures
            *final(self) == (CanvasView { mode, ..*old(self) }),
            change.notify == (old(self).mode != mode),
            change.hide_webview == (old(self).mode != mode && mode == CanvasMode::Code),
            change.load_editor == (old(self).mode != mode && mode == CanvasMode::Code && !old(
                self,
            ).has_code_editor),
    {
        if self.mode == mode {
            return ModeChange { hide_webview: false, load_editor: false, notify: false };
        }
        self.mode = mode;
        ModeChange {
            hide_webview: mode == CanvasMode::Code,
            load_editor: mode == CanvasMode::Code && !self.has_code_editor,
            notify: true,
        }
    }

    /// Takes note of whether the source could be opened in an editor.
    pub fn install_code_editor(&mut self, opened: bool)
        ensures
            *final(self) == (CanvasView {
                has_code_editor: old(self).has_code_editor || opened,
                ..*old(self)
            }),
    {
        if opened {
            self.has_code_editor = true;
        }
    }

    /// Follows the host theme. Returns whether it changed, in which case the source
    /// has to be shown again with [`CanvasView::set_content`].
    pub fn refresh_theme(&mut self, theme_json: String) -> (changed: bool)
        ensures
            changed == (old(self).theme_json@ != theme_json@),
            *final(self) == (CanvasView {
                theme_json: if changed {
                    theme_json
                } else {
                    old(self).theme_json
                },
                ..*old(self)
            }),
    {
        if self.theme_json == theme_json {
            return false;
        }
        self.theme_json = theme_json;
        true
    }

    /// What fills the tab.
    pub fn content(&self) -> (content: CanvasContent)
        ensures
            content == match self.mode {
                CanvasMode::Rendered => CanvasContent::WebView,
                CanvasMode::Code => if self.has_code_editor {
                    CanvasContent::Editor
                } else {
                    CanvasContent::LoadingSource
                },
            },
    {
        match self.mode {
            CanvasMode::Rendered => CanvasContent::WebView,
            CanvasMode::Code => if self.has_code_editor {
                CanvasContent::Editor
            } else {
                CanvasContent::LoadingSource
            },
        }
    }

    /// The button of the mode toggle that is selected.
    pub fn selected_index(&self) -> (index: usize)
        ensures
            index == match self.mode {
                CanvasMode::Rendered => 0int,
                CanvasMode::Code => 1int,
            },
    {
        match self.mode {
            CanvasMode::Rendered => 0,
            CanvasMode::Code => 1,
        }
    }
}

/// How long to wait between two looks at the file of a canvas, in milliseconds.
pub const WATCH_INTERVAL_MILLIS: u64 = 600;

/// When a file was last modified, relative to the start of the Unix epoch.
#[derive(Clone, Copy, Debug, PartialEq, Eq, Structural)]
pub struct FileStamp {
    pub before_epoch: bool,
    pub seconds: u64,
    pub nanos: u32,
}

/// Follows a file by the time it was last modified.
#[derive(Clone, Copy, Debug, PartialEq, Eq, Structural)]
pub struct FileWatch {
    pub last: Option<FileStamp>,
}

impl FileWatch {
    /// Starts to follow a file that currently has this stamp, or none.
    pub fn new(current: Option<FileStamp>) -> (watch: FileWatch)
        ensures
            watch.last == current,
    {
        FileWatch { last: current }
    }

    /// Takes note of the current stamp. Returns whether it differs from the one seen
    /// last, in which case the file has to be read and shown again.
    pub fn observe(&mut self, current: Option<FileStamp>) -> (changed: bool)
        ensures
            changed == (old(self).last != current),
            final(self).last == current,
    {
        let changed = match (self.last, current) {
            (Some(last), Some(now)) => last != now,
            (None, None) => false,
            _ => true,
        };
        self.last = current;
        changed
    }
}

/// What follows once a changed file was read.
#[derive(Clone, Copy, Debug, PartialEq, Eq, Structural)]
pub enum WatchStep {
    /// Show nothing and go on.
    Keep,
    /// Show what was read and go on.
    Show,
    /// Go on no longer: the tab is gone.
    Stop,
}

/// What follows once a changed file was read, given whether that succeeded and whether
/// the tab is still open. A file that cannot be read now may be readable later.
pub fn after_read(readable: bool, tab_open: bool) -> (step: WatchStep)
    ensures
        step == if !readable {
            WatchStep::Keep
        } else if !tab_open {
            WatchStep::Stop
        } else {
            WatchStep::Show
        },
{
    if !readable {
        WatchStep::Keep
    } else if !tab_open {
        WatchStep::Stop
    } else {
        WatchStep::Show
    }
}

/// What the web view asks the host for.
#[derive(Clone, Copy, Debug, PartialEq, Eq, Structural)]
pub enum CanvasAsset {
    /// The bundled SDK.
    Sdk,
    /// The bundled Tailwind engine.
    Tailwind,
    /// The bundled Babel.
    Babel,
    /// The page itself.
    Page,
}

/// What is served under a path: one of the bundled scripts, or else the page.
pub open spec fn asset_at(path: Seq<char>) -> CanvasAsset {
    if path == "/sdk.js"@ {
        CanvasAsset::Sdk
    } else if path == "/tailwind.js"@ {
        CanvasAsset::Tailwind
    } else if path == "/babel.js"@ {
        CanvasAsset::Babel
    } else {
        CanvasAsset::Page
    }
}

/// What is served to the web view under `path`.
pub fn canvas_asset(path: &str) -> (asset: CanvasAsset)
    ensures
        asset == asset_at(path@),
{
    if same_text(path, "/sdk.js") {
        CanvasAsset::Sdk
    } else if same_text(path, "/tailwind.js") {
        CanvasAsset::Tailwind
    } else if same_text(path, "/babel.js") {
        CanvasAsset::Babel
    } else {
        CanvasAsset::Page
    }
}

/// The content type that an asset is served with.
pub fn content_type(asset: CanvasAsset) -> (kind: &'static str)
    ensures
        kind@ == if asset == CanvasAsset::Page {
            "text/html"@
        } else {
            "text/javascript"@
        },
{
    match asset {
        CanvasAsset::Page => "text/html",
        _ => "text/javascript",
    }
}

/// The width of the region at the top right that is kept for the mode toggle, in
/// logical pixels.
pub const TOGGLE_REGION_WIDTH: u16 = 200;

/// The height of the region that is kept for the mode toggle, in logical pixels.
pub const TOGGLE_REGION_HEIGHT: u16 = 56;

/// A rectangle by its edges, in coordinates of which only the order matters. The
/// left and top edges belong to it, the right and bottom ones do not.
#[derive(Clone, Copy, Debug, PartialEq, Eq, Structural)]
pub struct Edges {
    pub left: i64,
    pub top: i64,
    pub right: i64,
    pub bottom: i64,
}

pub open spec fn larger(a: i64, b: i64) -> i64 {
    if a < b {
        b
    } else {
        a
    }
}

pub open spec fn smaller(a: i64, b: i64) -> i64 {
    if a < b {
        a
    } else {
        b
    }
}

impl Edges {
    /// Whether the point lies in the rectangle.
    pub open spec fn holds(self, x: int, y: int) -> bool {
        self.left <= x < self.right && self.top <= y < self.bottom
    }

    /// Whether no point lies in the rectangle.
    pub open spec fn empty(self) -> bool {
        self.right <= self.left || self.bottom <= self.top
    }

    /// The part that the two rectangles share.
    pub open spec fn shared(self, other: Edges) -> Edges {
        Edges {
            left: larger(other.left, self.left),
            top: larger(other.top, self.top),
            right: smaller(other.right, self.right),
            bottom: smaller(other.bottom, self.bottom),
        }
    }
}

/// The band, where there is one.
pub open spec fn band(wanted: bool, rect: Edges) -> Seq<Edges> {
    if wanted {
        seq![rect]
    } else {
        Seq::empty()
    }
}

/// `content` without `exclude`: the bands above, below, left and right of the part
/// that they share, or `content` itself where they share nothing.
pub open spec fn passthrough(content: Edges, exclude: Option<Edges>) -> Seq<Edges> {
    match exclude {
        None => seq![content],
        Some(exclude) => {
            let hole = content.shared(exclude);
            if hole.empty() {
                seq![content]
            } else {
                band(hole.top > content.top, Edges { bottom: hole.top, ..content }) + band(
                    hole.bottom < content.bottom,
                    Edges { top: hole.bottom, ..content },
                ) + band(
                    hole.left > content.left,
                    Edges {
                        left: content.left,
                        top: hole.top,
                        right: hole.left,
                        bottom: hole.bottom,
                    },
                ) + band(
                    hole.right < content.right,
                    Edges {
                        left: hole.right,
                        top: hole.top,
                        right: content.right,
                        bottom: hole.bottom,
                    },
                )
            }
        },
    }
}

fn max_of(a: i64, b: i64) -> (result: i64)
    ensures
        result == larger(a, b),
{
    if a < b {
        b
    } else {
        a
    }
}

fn min_of(a: i64, b: i64) -> (result: i64)
    ensures
        result == smaller(a, b),
{
    if a < b {
        a
    } else {
        b
    }
}

/// The rectangles that pass mouse events through to the web view: `content` minus
/// `exclude`, the region of the mode toggle, in up to four bands that do not
/// overlap.
pub fn passthrough_rects(content: Edges, exclude: Option<Edges>) -> (rects: Vec<Edges>)
    ensures
        rects@ == passthrough(content, exclude),
        rects@.len() <= 4,
{
    let mut rects: Vec<Edges> = Vec::new();
    let exclude = match exclude {
        Some(exclude) => exclude,
        None => {
            rects.push(content);
            assert(rects@ =~= seq![content]);
            return rects;
        },
    };
    let left: i64 = max_of(exclude.left, content.left);
    let top: i64 = max_of(exclude.top, content.top);
    let right: i64 = min_of(exclude.right, content.right);
    let bottom: i64 = min_of(exclude.bottom, content.bottom);
    if right <= left || bottom <= top {
        rects.push(content);
        assert(rects@ =~= seq![content]);
        return rects;
    }
    if top > content.top {
        rects.push(
            Edges { left: content.left, top: content.top, right: content.right, bottom: top },
        );
    }
    if bottom < content.bottom {
        rects.push(
            Edges {
                left: content.left,
                top: bottom,
                right: content.right,
                bottom: content.bottom,
            },
        );
    }
    if left > content.left {
        rects.push(Edges { left: content.left, top, right: left, bottom });
    }
    if right < content.right {
        rects.push(Edges { left: right, top, right: content.right, bottom });
    }
    assert(rects@ =~= passthrough(content, Some(exclude)));
    rects
}

/// The passthrough rectangles cover exactly the content without the excluded
/// region.
pub proof fn law_passthrough_covers(content: Edges, exclude: Option<Edges>, x: int, y: int)
    ensures
        (exists|i: int|
            0 <= i < passthrough(content, exclude).len() && (#[trigger] passthrough(
                content,
                exclude,
            )[i]).holds(x, y)) <==> content.holds(x, y) && !(exclude is Some
            && exclude->0.holds(x, y)),
{
    let rects = passthrough(content, exclude);
    if exclude is None || content.shared(exclude->0).empty() {
        assert(rects[0] == content);
    } else {
        let hole = content.shared(exclude->0);
        let above = band(hole.top > content.top, Edges { bottom: hole.top, ..content });
        let below = band(
            hole.bottom < content.bottom,
            Edges { top: hole.bottom, ..content },
        );
        let before = band(
            hole.left > content.left,
            Edges { left: content.left, top: hole.top, right: hole.left, bottom: hole.bottom },
        );
        let behind = band(
            hole.right < content.right,
            Edges { left: hole.right, top: hole.top, right: content.right, bottom: hole.bottom },
        );
        assert(rects == above + below + before + behind);
        let second = above.len() as int;
        let third = second + below.len();
        let fourth = third + before.len();
        if content.holds(x, y) && !exclude->0.holds(x, y) {
            if y < hole.top {
                assert(rects[0] == above[0]);
            } else if y >= hole.bottom {
                assert(rects[second] == below[0]);
            } else if x < hole.left {
                assert(rects[third] == before[0]);
            } else {
                assert(rects[fourth] == behind[0]);
            }
        }
    }
}

/// No point lies in two passthrough rectangles, and there are at most four.
pub proof fn law_passthrough_disjoint(
    content: Edges,
    exclude: Option<Edges>,
    i: int,
    j: int,
    x: int,
    y: int,
)
    requires
        0 <= i < j < passthrough(content, exclude).len(),
    ensures
        passthrough(content, exclude).len() <= 4,
        !(passthrough(content, exclude)[i].holds(x, y) && passthrough(content, exclude)[j].holds(
            x,
            y,
        )),
{
}

/// Mouse events pass through exactly at the points of the content that are outside of
/// the excluded region, edge by edge: the left and top edges belong to a rectangle, the
/// right and bottom ones do not.
pub proof fn law_passthrough_points(content: Edges, exclude: Option<Edges>, x: int, y: int)
    ensures
        (exists|i: int|
            0 <= i < passthrough(content, exclude).len() && (#[trigger] passthrough(
                content,
                exclude,
            )[i]).left <= x < passthrough(content, exclude)[i].right && passthrough(
                content,
                exclude,
            )[i].top <= y < passthrough(content, exclude)[i].bottom) <==> content.left <= x
            < content.right && content.top <= y < content.bottom && !(exclude is Some
            && exclude->0.left <= x < exclude->0.right && exclude->0.top <= y
            < exclude->0.bottom),
{
    law_passthrough_covers(content, exclude, x, y);
    let rects = passthrough(content, exclude);
    if content.holds(x, y) && !(exclude is Some && exclude->0.holds(x, y)) {
        let i = choose|i: int| 0 <= i < rects.len() && (#[trigger] rects[i]).holds(x, y);
        assert(rects[i].left <= x < rects[i].right && rects[i].top <= y < rects[i].bottom);
    } else {
        assert forall|i: int| 0 <= i < rects.len() implies !((#[trigger] rects[i]).left <= x
            < rects[i].right && rects[i].top <= y < rects[i].bottom) by {
            assert(!rects[i].holds(x, y));
        }
    }
}

/// The content passes as a whole where nothing of it is excluded. Otherwise it passes in
/// bands: those above and below the excluded part are as wide as the content and come
/// first, and those beside it are as high as that part.
pub proof fn law_passthrough_bands(content: Edges, exclude: Edges, i: int)
    ensures
        passthrough(content, None) == seq![content],
        exclude.right <= content.left || content.right <= exclude.left || exclude.bottom
            <= content.top || content.bottom <= exclude.top ==> passthrough(content, Some(exclude))
            == seq![content],
        ({
            let rects = passthrough(content, Some(exclude));
            content.left < content.right && content.top < content.bottom && exclude.left
                < content.right && content.left < exclude.right && exclude.top < content.bottom
                && content.top < exclude.bottom && exclude.left < exclude.right && exclude.top
                < exclude.bottom && 0 <= i < rects.len() ==> {
                ||| rects[i].left == content.left && rects[i].right == content.right
                    && rects[i].top == content.top && rects[i].bottom == exclude.top && i == 0
                ||| rects[i].left == content.left && rects[i].right == content.right
                    && rects[i].top == exclude.bottom && rects[i].bottom == content.bottom && i <= 1
                ||| rects[i].left == content.left && rects[i].right == exclude.left && (
                rects[i].top == exclude.top || rects[i].top == content.top) && (rects[i].bottom
                    == exclude.bottom || rects[i].bottom == content.bottom) && i <= 2
                ||| rects[i].left == exclude.right && rects[i].right == content.right && (
                rects[i].top == exclude.top || rects[i].top == content.top) && (rects[i].bottom
                    == exclude.bottom || rects[i].bottom == content.bottom) && i == rects.len() - 1
            }
        }),
{
}

/// The bundled scripts are served under their own paths, and the page under every other.
pub proof fn law_assets_by_path(path: Seq<char>)
    ensures
        asset_at(path) == CanvasAsset::Sdk <==> path == "/sdk.js"@,
        asset_at(path) == CanvasAsset::Tailwind <==> path == "/tailwind.js"@,
        asset_at(path) == CanvasAsset::Babel <==> path == "/babel.js"@,
        asset_at(path) == CanvasAsset::Page <==> path != "/sdk.js"@ && path != "/tailwind.js"@
            && path != "/babel.js"@,
{
    reveal_strlit("/sdk.js");
    reveal_strlit("/tailwind.js");
    reveal_strlit("/babel.js");
    assert("/sdk.js"@.len() == 7 && "/tailwind.js"@.len() == 12 && "/babel.js"@.len() == 9);
}

} // verus!
