use agent_workbench::canvas_document::{
    canvas_document, canvas_theme_json, css_color, escape_for_script, hsl_triplet,
    subtle_surface_shift, HostTheme, ThemeColor,
};
use agent_workbench::canvas_files::{
    canvas_file_name, canvases_dir, is_blank, scaffold_canvas_project, slugify, starter_canvas, ScaffoldStep,
};
use agent_workbench::canvas_registry::{
    not_open_text, open_target, CanvasParams, CanvasRegistry, OpenPlan, WindowBackground,
};
use agent_workbench::canvas_shell::CANVAS_SHELL;
use agent_workbench::canvas_tools::{
    after_write, canvas_params, record_canvas, ActiveWorkspace, CanvasErrorsTool,
    CanvasErrorsToolInput, CanvasListTool, CanvasListToolInput, CanvasOpenTool,
    CanvasOpenToolInput, CreateCanvasTool, CreateCanvasToolInput, CANVAS_KIND,
    ERRORS_DELAY_MILLIS,
};
use agent_workbench::canvas_view::{
    after_read, canvas_asset, content_type, passthrough_rects, CanvasAsset, CanvasContent, CanvasMode,
    CanvasView, Edges, FileStamp, FileWatch, ModeChange, TOGGLE_REGION_HEIGHT,
    TOGGLE_REGION_WIDTH, WATCH_INTERVAL_MILLIS, WatchStep,
};
use agent_workbench::file_paths::{FilePath, PathComponent};
use agent_workbench::surface::{surfaces_path, SurfaceId};
use agent_workbench::text::{decimal_text, join, replace, same_text};
use agent_workbench::tools::subagents::{SessionId, ToolKind};

// Texts.

#[test]
fn numbers_in_decimal() {
    for n in [0u64, 7, 10, 99, 100, 1_000_000, u64::MAX] {
        assert_eq!(decimal_text(n), n.to_string());
    }
}

#[test]
fn replacing_goes_from_the_left() {
    assert_eq!(replace("aaaa", "aa", "b"), "bb");
    assert_eq!(replace("aaa", "aa", "b"), "ba");
    assert_eq!(replace("abc", "x", "y"), "abc");
    assert_eq!(replace("", "x", "y"), "");
    assert_eq!(replace("xéx", "x", "xx"), "xxéxx");
    assert_eq!(replace("</script></script", "</script>", ""), "</script");
}

#[test]
fn joining_puts_the_separator_between() {
    assert_eq!(join(&Vec::new(), "-"), "");
    assert_eq!(join(&vec!["a".to_string()], "-"), "a");
    assert_eq!(
        join(&vec!["a".to_string(), "".to_string(), "b".to_string()], "-"),
        "a--b"
    );
}

#[test]
fn texts_compare_by_content() {
    assert!(same_text("ab", "ab"));
    assert!(!same_text("ab", "abc"));
    assert!(!same_text("ab", "aB"));
}

// Files.

#[test]
fn slugs() {
    assert_eq!(slugify("My Report"), "my-report");
    assert_eq!(slugify("  Q3 -- Results!  "), "q3-results");
    assert_eq!(slugify("ABC123"), "abc123");
    assert_eq!(slugify("caf\u{e9} life"), "caf-life");
    assert_eq!(slugify("\u{4f60}\u{597d}"), "canvas");
    assert_eq!(slugify(""), "canvas");
    assert_eq!(slugify("---"), "canvas");
    assert_eq!(slugify("../../etc/passwd"), "etc-passwd");
    assert_eq!(slugify(&slugify("A  b--C")), "a-b-c");
    assert_eq!(slugify("\u{a0}x\u{2003}"), "x");
}

#[test]
fn file_names() {
    assert_eq!(canvas_file_name("My Report"), "my-report.canvas.tsx");
    assert_eq!(canvas_file_name("!"), "canvas.canvas.tsx");
}

#[test]
fn starters() {
    assert_eq!(
        starter_canvas("A {b} c"),
        "function Canvas() {\n  return (\n    <Page>\n      <h1>A b c</h1>\n      <p>Edit this file to build the canvas.</p>\n    </Page>\n  );\n}\n"
    );
}

#[test]
fn blank_texts() {
    assert!(is_blank(""));
    assert!(is_blank(" \t\r\n\u{a0}\u{2003}"));
    assert!(!is_blank(" x "));
    for code in 0..=0x10ffffu32 {
        if let Some(c) = char::from_u32(code) {
            let text = c.to_string();
            assert_eq!(is_blank(&text), text.trim().is_empty(), "{code:x}");
        }
    }
}

fn scaffold(outcomes: &[bool]) -> Vec<ScaffoldStep> {
    let mut step = scaffold_canvas_project();
    let mut steps = vec![step];
    for outcome in outcomes {
        step = step.next(*outcome);
        steps.push(step);
    }
    steps
}

#[test]
fn scaffold_steps() {
    let all = vec![
        ScaffoldStep::CreateDir,
        ScaffoldStep::WriteTsconfig,
        ScaffoldStep::WriteTypes,
        ScaffoldStep::CreateSettingsDir,
        ScaffoldStep::WriteSettings,
        ScaffoldStep::Done,
    ];
    assert_eq!(scaffold(&[true; 5]), all);
    // A file that cannot be written does not keep the rest from being set up.
    assert_eq!(scaffold(&[true, false, false, true, false]), all);
    assert_eq!(scaffold(&[false]), vec![ScaffoldStep::CreateDir, ScaffoldStep::Done]);
    assert_eq!(scaffold(&[true, true, true, false])[4], ScaffoldStep::Done);
    assert_eq!(ScaffoldStep::Done.next(true), ScaffoldStep::Done);
}

#[test]
fn scaffold_targets() {
    let none: Vec<&str> = Vec::new();
    assert_eq!(ScaffoldStep::CreateDir.target(), none);
    assert_eq!(ScaffoldStep::WriteTsconfig.target(), vec!["tsconfig.json"]);
    assert_eq!(ScaffoldStep::WriteTypes.target(), vec!["canvas.d.ts"]);
    assert_eq!(ScaffoldStep::CreateSettingsDir.target(), vec![".zed"]);
    assert_eq!(ScaffoldStep::WriteSettings.target(), vec![".zed", "settings.json"]);
    assert_eq!(ScaffoldStep::Done.target(), none);
}

#[test]
fn scaffold_contents() {
    assert!(ScaffoldStep::CreateDir.content().is_none());
    assert!(ScaffoldStep::CreateSettingsDir.content().is_none());
    assert!(ScaffoldStep::Done.content().is_none());
    let tsconfig = ScaffoldStep::WriteTsconfig.content().unwrap();
    let parsed: serde_json::Value = serde_json::from_str(tsconfig).unwrap();
    assert_eq!(parsed["compilerOptions"]["jsx"], "react");
    let settings = ScaffoldStep::WriteSettings.content().unwrap();
    let parsed: serde_json::Value = serde_json::from_str(settings).unwrap();
    assert_eq!(parsed["languages"]["TSX"]["language_servers"][0], "!eslint");
    let types = ScaffoldStep::WriteTypes.content().unwrap();
    assert!(types.contains("function useHostTheme(): HostTheme;"));
    assert!(types.ends_with("}\n"));
}

#[test]
fn scaffold_keeps_what_may_have_been_edited() {
    assert!(ScaffoldStep::CreateDir.is_needed(true));
    assert!(!ScaffoldStep::WriteTsconfig.is_needed(true));
    assert!(ScaffoldStep::WriteTsconfig.is_needed(false));
    assert!(ScaffoldStep::WriteTypes.is_needed(true));
    assert!(ScaffoldStep::CreateSettingsDir.is_needed(true));
    assert!(!ScaffoldStep::WriteSettings.is_needed(true));
    assert!(ScaffoldStep::WriteSettings.is_needed(false));
    assert!(!ScaffoldStep::Done.is_needed(false));
}

#[test]
fn scaffold_complaints() {
    assert_eq!(
        ScaffoldStep::CreateDir.complaint("/c", "denied"),
        "canvas: failed to create /c: denied"
    );
    assert_eq!(
        ScaffoldStep::WriteTsconfig.complaint("/c/tsconfig.json", "denied"),
        "canvas: failed to write tsconfig.json: denied"
    );
    assert_eq!(
        ScaffoldStep::WriteTypes.complaint("", "denied"),
        "canvas: failed to write canvas.d.ts: denied"
    );
    assert_eq!(
        ScaffoldStep::CreateSettingsDir.complaint("/c/.zed", "denied"),
        "canvas: failed to create /c/.zed: denied"
    );
    assert_eq!(
        ScaffoldStep::WriteSettings.complaint("", "denied"),
        "canvas: failed to write .zed/settings.json: denied"
    );
    assert_eq!(ScaffoldStep::Done.complaint("p", "e"), "");
}

// Paths.

fn path(text: &str) -> FilePath {
    FilePath::new(text.to_string())
}

fn same_path(a: &str, b: &str) -> bool {
    path(a).same_file(&path(b))
}

#[test]
fn paths_keep_their_spelling() {
    let parts = path("/a//../.b/");
    assert_eq!(parts.text, "/a//../.b/");
    assert_eq!(parts.components.len(), 4);
    assert!(matches!(parts.components[0], PathComponent::RootDir));
    assert!(matches!(&parts.components[1], PathComponent::Normal(name) if name == "a"));
    assert!(matches!(parts.components[2], PathComponent::ParentDir));
    assert!(matches!(&parts.components[3], PathComponent::Normal(name) if name == ".b"));
    assert!(matches!(path("./x").components[0], PathComponent::CurDir));
    assert!(path("").components.is_empty());
}

#[test]
fn paths_of_other_platforms_are_given_by_their_components() {
    let drive = |spelled: &str| FilePath {
        text: spelled.to_string(),
        components: vec![
            PathComponent::Prefix("Disk(67)".to_string()),
            PathComponent::RootDir,
            PathComponent::Normal("x".to_string()),
        ],
    };
    let mut registry = CanvasRegistry::new();
    let id = registry.register_canvas("X".to_string(), drive("c:\\x"), 1);
    assert_eq!(registry.live_canvas_id_for_path(&drive("C:/x")), Some(id));
    assert_eq!(registry.live_canvas_id_for_path(&path("/x")), None);
    let other = FilePath {
        text: "D:/x".to_string(),
        components: vec![
            PathComponent::Prefix("Disk(68)".to_string()),
            PathComponent::RootDir,
            PathComponent::Normal("x".to_string()),
        ],
    };
    assert_eq!(registry.live_canvas_id_for_path(&other), None);
}

#[test]
fn places_on_disk() {
    assert_eq!(canvases_dir(), vec![".agents", "canvases"]);
    assert_eq!(surfaces_path(), vec!["surfaces.json"]);
}

#[test]
fn paths_are_compared_by_components() {
    assert!(same_path("/c//x", "/c/x"));
    assert!(same_path("/c/x/", "/c/x"));
    assert!(same_path("/c/./x/.", "/c/x"));
    assert!(same_path("/./c", "/c"));
    assert!(same_path("", ""));
    assert!(!same_path("./c", "c"));
    assert!(!same_path("/c", "c"));
    assert!(!same_path("/c/../c", "/c"));
    assert!(!same_path("/C", "/c"));
    assert!(!same_path("", "."));
    assert!(!same_path("/c/x", "/cx"));
    assert!(!same_path("/c/..", "/c/."));
}

#[test]
fn paths_are_compared_as_std_does() {
    let letters = ['/', '.', 'a'];
    let mut paths = vec![String::new()];
    let mut from = 0;
    for _ in 0..5 {
        let until = paths.len();
        for at in from..until {
            for letter in letters {
                paths.push(format!("{}{}", paths[at], letter));
            }
        }
        from = until;
    }
    for a in &paths {
        for b in &paths {
            let wanted = std::path::Path::new(a) == std::path::Path::new(b);
            assert_eq!(same_path(a, b), wanted, "{a:?} {b:?}");
        }
    }
}

// Pages.

#[test]
fn pages_hold_title_theme_and_body() {
    let page = canvas_document("A <b> title", "function Canvas() {}", "{\"kind\":\"dark\"}");
    assert!(page.contains("<title>A &lt;b&gt; title</title>"));
    assert!(page.contains("{\"kind\":\"dark\"}"));
    assert!(page.contains("function Canvas() {}"));
    assert!(!page.contains("CANVAS_TITLE_PLACEHOLDER"));
    assert!(!page.contains("\"CANVAS_THEME_PLACEHOLDER\""));
    assert!(!page.contains("// CANVAS_BODY_PLACEHOLDER"));
    let by_hand = CANVAS_SHELL
        .replace("CANVAS_TITLE_PLACEHOLDER", "A &lt;b&gt; title")
        .replace("\"CANVAS_THEME_PLACEHOLDER\"", "{\"kind\":\"dark\"}")
        .replace("// CANVAS_BODY_PLACEHOLDER", "function Canvas() {}");
    assert_eq!(page, by_hand);
}

#[test]
fn bodies_cannot_close_the_script() {
    let page = canvas_document("t", "const s = \"</script></script>\";", "{}");
    assert!(page.contains("const s = \"<\\/script><\\/script>\";"));
    let plain = canvas_document("t", "const s = 0;", "{}");
    assert_eq!(page.matches("</script>").count(), plain.matches("</script>").count());
}

#[test]
fn nothing_filled_in_closes_a_script() {
    let ends = CANVAS_SHELL.matches("</script>").count();
    let titles = ["", "</script>", "<b>", "script>", "CANVAS_TITLE_PLACEHOLDER"];
    let themes = ["", "{}", "/script>", "script>", "\"CANVAS_THEME_PLACEHOLDER\""];
    let bodies = ["", "</script>", "<</script>/script>", "</scr", "// CANVAS_BODY_PLACEHOLDER"];
    for title in titles {
        for theme in themes {
            for body in bodies {
                let page = canvas_document(title, body, theme);
                assert_eq!(page.matches("</script>").count(), ends, "{title} {theme} {body}");
            }
        }
    }
}

fn color(name: &str) -> ThemeColor {
    ThemeColor { css: format!("css {name}"), hsl: format!("hsl {name}") }
}

fn theme(is_light: bool, name: &str) -> HostTheme {
    HostTheme {
        is_light,
        name: name.to_string(),
        background: color("background"),
        elevated_surface_background: color("elevated"),
        panel_background: color("panel"),
        element_background: color("element"),
        border: color("border"),
        text: color("text"),
        text_muted: color("muted"),
        text_accent: color("accent"),
        error: color("error"),
        warning: color("warning"),
        success: color("success"),
        info: color("info"),
        subtle_surface: "subtle".to_string(),
        chart_1: "c1".to_string(),
        chart_2: "c2".to_string(),
        chart_3: "c3".to_string(),
        chart_4: "c4".to_string(),
        chart_5: "c5".to_string(),
    }
}

#[test]
fn themes_as_json() {
    let json = canvas_theme_json(&theme(false, "One <Dark>"));
    assert!(!json.contains('<'));
    assert!(json.starts_with("{\"kind\":\"dark\",\"name\":\"One \\u003cDark>\",\"colors\":{\"background\":\"css background\",\"surface\":\"css elevated\""));
    let parsed: serde_json::Value = serde_json::from_str(&json).unwrap();
    assert_eq!(parsed["name"], "One <Dark>");
    let colors = parsed["colors"].as_object().unwrap();
    assert_eq!(colors.len(), 12);
    assert_eq!(colors["textMuted"], "css muted");
    assert_eq!(colors["accent"], "css accent");
    let vars = parsed["vars"].as_object().unwrap();
    assert_eq!(vars.len(), 24);
    assert_eq!(vars["background"], "hsl background");
    assert_eq!(vars["primary"], "hsl accent");
    assert_eq!(vars["accent"], "subtle");
    assert_eq!(vars["muted"], "subtle");
    assert_eq!(vars["destructive-foreground"], "hsl background");
    assert_eq!(vars["input"], "hsl border");
    assert_eq!(vars["chart-1"], "c1");
    assert_eq!(vars["chart-5"], "c5");
    assert!(canvas_theme_json(&theme(true, "x")).starts_with("{\"kind\":\"light\""));
}

#[test]
fn colors_as_texts() {
    assert_eq!(css_color(0, 128, 255, "0.500"), "rgba(0, 128, 255, 0.500)");
    assert_eq!(hsl_triplet("220", "13", "18"), "220 13% 18%");
    assert_eq!(subtle_surface_shift(true), -6);
    assert_eq!(subtle_surface_shift(false), 10);
    assert_eq!(escape_for_script("a<b<"), "a\\u003cb\\u003c");
}

// Views.

fn view() -> CanvasView {
    CanvasView::new(
        "T".to_string(),
        "/c/t.canvas.tsx".to_string(),
        1,
        Some("body".to_string()),
        "{}".to_string(),
    )
}

#[test]
fn views_start_rendered() {
    let view = view();
    assert_eq!(view.document, canvas_document("T", "body", "{}"));
    assert_eq!(view.mode, CanvasMode::Rendered);
    assert_eq!(view.content(), CanvasContent::WebView);
    assert_eq!(view.selected_index(), 0);
    assert!(view.render_errors().is_empty());
    let unreadable =
        CanvasView::new("T".to_string(), "/gone".to_string(), 1, None, "{}".to_string());
    assert_eq!(unreadable.document, canvas_document("T", "", "{}"));
}

#[test]
fn views_switch_modes() {
    let mut view = view();
    let nothing = ModeChange { hide_webview: false, load_editor: false, notify: false };
    assert_eq!(view.set_mode(CanvasMode::Rendered), nothing);
    assert_eq!(
        view.set_mode(CanvasMode::Code),
        ModeChange { hide_webview: true, load_editor: true, notify: true }
    );
    assert_eq!(view.content(), CanvasContent::LoadingSource);
    assert_eq!(view.selected_index(), 1);
    assert_eq!(view.set_mode(CanvasMode::Code), nothing);
    view.install_code_editor(false);
    assert_eq!(view.content(), CanvasContent::LoadingSource);
    view.install_code_editor(true);
    assert_eq!(view.content(), CanvasContent::Editor);
    assert_eq!(
        view.set_mode(CanvasMode::Rendered),
        ModeChange { hide_webview: false, load_editor: false, notify: true }
    );
    assert_eq!(
        view.set_mode(CanvasMode::Code),
        ModeChange { hide_webview: true, load_editor: false, notify: true }
    );
}

#[test]
fn views_follow_content_theme_and_reports() {
    let mut view = view();
    view.set_content("other");
    assert_eq!(view.document, canvas_document("T", "other", "{}"));
    assert!(!view.refresh_theme("{}".to_string()));
    assert!(view.refresh_theme("{\"kind\":\"light\"}".to_string()));
    assert_eq!(view.document, canvas_document("T", "other", "{}"));
    view.set_content("other");
    assert_eq!(view.document, canvas_document("T", "other", "{\"kind\":\"light\"}"));
    view.report_errors(Some(vec!["e".to_string()]));
    view.report_errors(None);
    assert_eq!(view.render_errors(), vec!["e".to_string()]);
    view.report_errors(Some(Vec::new()));
    assert!(view.render_errors().is_empty());
}

#[test]
fn files_are_followed_by_their_stamps() {
    assert_eq!(WATCH_INTERVAL_MILLIS, 600);
    let stamp = |seconds| Some(FileStamp { before_epoch: false, seconds, nanos: 0 });
    let mut watch = FileWatch::new(stamp(1));
    assert!(!watch.observe(stamp(1)));
    assert!(watch.observe(stamp(2)));
    assert!(!watch.observe(stamp(2)));
    assert!(watch.observe(None));
    assert!(!watch.observe(None));
    // An older stamp is a change too.
    assert!(watch.observe(stamp(1)));
}

#[test]
fn a_changed_file_is_shown_while_its_tab_is_open() {
    assert_eq!(after_read(true, true), WatchStep::Show);
    assert_eq!(after_read(true, false), WatchStep::Stop);
    assert_eq!(after_read(false, true), WatchStep::Keep);
    assert_eq!(after_read(false, false), WatchStep::Keep);
}

#[test]
fn assets_by_path() {
    assert_eq!(canvas_asset("/sdk.js"), CanvasAsset::Sdk);
    assert_eq!(canvas_asset("/tailwind.js"), CanvasAsset::Tailwind);
    assert_eq!(canvas_asset("/babel.js"), CanvasAsset::Babel);
    assert_eq!(canvas_asset("/"), CanvasAsset::Page);
    assert_eq!(canvas_asset("/sdk.js.map"), CanvasAsset::Page);
    assert_eq!(content_type(CanvasAsset::Page), "text/html");
    assert_eq!(content_type(CanvasAsset::Sdk), "text/javascript");
    assert_eq!(content_type(CanvasAsset::Tailwind), "text/javascript");
    assert_eq!(content_type(CanvasAsset::Babel), "text/javascript");
}

fn edges(left: i64, top: i64, right: i64, bottom: i64) -> Edges {
    Edges { left, top, right, bottom }
}

#[test]
fn passthrough_leaves_the_toggle_out() {
    assert_eq!((TOGGLE_REGION_WIDTH, TOGGLE_REGION_HEIGHT), (200, 56));
    let content = edges(0, 0, 1000, 500);
    assert_eq!(passthrough_rects(content, None), vec![content]);
    // At the top right there is nothing above and nothing to the right.
    assert_eq!(
        passthrough_rects(content, Some(edges(800, 0, 1000, 56))),
        vec![edges(0, 56, 1000, 500), edges(0, 0, 800, 56)]
    );
    // In the middle there are four bands: above, below, left, right.
    assert_eq!(
        passthrough_rects(content, Some(edges(400, 100, 600, 200))),
        vec![
            edges(0, 0, 1000, 100),
            edges(0, 200, 1000, 500),
            edges(0, 100, 400, 200),
            edges(600, 100, 1000, 200),
        ]
    );
    // A region outside, or one that only touches, excludes nothing.
    assert_eq!(passthrough_rects(content, Some(edges(1000, 0, 1200, 56))), vec![content]);
    assert_eq!(passthrough_rects(content, Some(edges(-50, -50, 0, 0))), vec![content]);
    // One that covers everything leaves nothing.
    assert!(passthrough_rects(content, Some(edges(-1, -1, 1001, 501))).is_empty());
}

#[test]
fn passthrough_covers_and_does_not_overlap() {
    let content = edges(2, 1, 9, 7);
    for left in 0..11i64 {
        for right in left..11i64 {
            let exclude = edges(left, 3, right, 5);
            let rects = passthrough_rects(content, Some(exclude));
            assert!(rects.len() <= 4);
            let inside = |r: &Edges, x: i64, y: i64| {
                r.left <= x && x < r.right && r.top <= y && y < r.bottom
            };
            for x in 0..11i64 {
                for y in 0..9i64 {
                    let count = rects.iter().filter(|r| inside(r, x, y)).count();
                    let wanted = inside(&content, x, y) && !inside(&exclude, x, y);
                    assert_eq!(count, usize::from(wanted));
                }
            }
        }
    }
}

// The registry.

fn registry() -> CanvasRegistry {
    let mut registry = CanvasRegistry::new();
    assert_eq!(registry.register_canvas("A".to_string(), path("/a"), 1), 0);
    assert_eq!(registry.register_canvas("B".to_string(), path("/b"), 1), 1);
    assert_eq!(registry.register_canvas("C".to_string(), path("/c"), 2), 2);
    registry
}

#[test]
fn canvases_are_found_by_id_and_path() {
    let mut registry = registry();
    assert_eq!(registry.canvas_by_id(1).unwrap().title, "B");
    assert!(registry.canvas_by_id(7).is_none());
    assert_eq!(registry.live_canvas_id_for_path(&path("/c")), Some(2));
    assert_eq!(registry.live_canvas_id_for_path(&path("/d")), None);
    assert_eq!(registry.open_or_focus_canvas(&path("/b")), OpenPlan::Focus(1));
    assert_eq!(registry.open_or_focus_canvas(&path("/d")), OpenPlan::Open);
    registry.close_canvas(1);
    assert!(registry.canvas_by_id(1).is_none());
    assert_eq!(registry.open_or_focus_canvas(&path("/b")), OpenPlan::Open);
    assert_eq!(registry.register_canvas("B".to_string(), path("/b"), 1), 3);
    assert_eq!(registry.open_or_focus_canvas(&path("/b")), OpenPlan::Focus(3));
}

#[test]
fn another_spelling_of_a_path_finds_the_same_tab() {
    let mut registry = CanvasRegistry::new();
    let id = registry.register_canvas("X".to_string(), path("/c//x"), 1);
    assert_eq!(registry.live_canvas_id_for_path(&path("/c/x")), Some(id));
    assert_eq!(registry.open_or_focus_canvas(&path("/c/x/")), OpenPlan::Focus(id));
    assert_eq!(registry.open_or_focus_canvas(&path("/c/y")), OpenPlan::Open);
    // An update goes to the file as it was opened.
    assert_eq!(
        registry.update_target(id, params(None, None, Some("new"))),
        Ok(("/c//x".to_string(), "new".to_string()))
    );
}

#[test]
fn ids_are_never_used_again() {
    let mut registry = registry();
    registry.release_canvas(2);
    assert_eq!(registry.register_canvas("D".to_string(), path("/d"), 1), 3);
    assert!(registry.canvas_by_id(2).is_none());
}

#[test]
fn open_canvases_are_listed_by_id() {
    let mut registry = registry();
    let list = |registry: &CanvasRegistry| registry.live_canvases();
    assert_eq!(
        list(&registry),
        vec![(0, "A".to_string()), (1, "B".to_string()), (2, "C".to_string())]
    );
    registry.close_canvas(0);
    assert_eq!(list(&registry), vec![(1, "B".to_string()), (2, "C".to_string())]);
    registry.release_canvas(0);
    registry.release_canvas(9);
    assert_eq!(list(&registry), vec![(1, "B".to_string()), (2, "C".to_string())]);
}

#[test]
fn many_canvases_are_listed_by_id() {
    let mut registry = CanvasRegistry::new();
    for n in 0..40u64 {
        registry.register_canvas(format!("T{n}"), path(&format!("/{n}")), 1);
    }
    for n in [3u64, 17, 39] {
        registry.close_canvas(n);
    }
    registry.release_canvas(20);
    let wanted: Vec<(u64, String)> = (0..40u64)
        .filter(|n| ![3, 17, 20, 39].contains(n))
        .map(|n| (n, format!("T{n}")))
        .collect();
    assert_eq!(registry.live_canvases(), wanted);
}

#[test]
fn windows_are_transparent_while_they_host_a_canvas() {
    let mut registry = registry();
    assert!(registry.window_has_live_canvas(1));
    assert_eq!(registry.window_background(1), WindowBackground::Transparent);
    assert_eq!(registry.window_background(3), WindowBackground::Opaque);
    registry.release_canvas(0);
    assert_eq!(registry.window_background(1), WindowBackground::Transparent);
    registry.release_canvas(1);
    assert_eq!(registry.window_background(1), WindowBackground::Opaque);
    assert_eq!(registry.window_background(2), WindowBackground::Transparent);
    registry.close_canvas(2);
    assert_eq!(registry.window_background(2), WindowBackground::Opaque);
}

#[test]
fn focusing_is_remembered_until_release() {
    let mut registry = registry();
    assert_eq!(registry.focus_target(1, true).ok().unwrap().path.text, "/b");
    assert_eq!(
        registry.focus_target(1, false).err().unwrap(),
        "no active workspace to focus a canvas in"
    );
    assert_eq!(registry.focus_target(8, false).err().unwrap(), "no open canvas with id 8");
    assert_eq!(registry.focus_canvas(1, true), Ok(()));
    assert_eq!(registry.last_focused, Some(1));
    assert_eq!(
        registry.focus_canvas(2, false),
        Err("canvas 2 is not in the active workspace".to_string())
    );
    assert_eq!(registry.last_focused, Some(1));
    registry.note_activation(2, true);
    assert_eq!(registry.last_focused, Some(2));
    registry.release_canvas(1);
    assert_eq!(registry.last_focused, Some(2));
    registry.release_canvas(2);
    assert_eq!(registry.last_focused, None);
}

fn params(title: Option<&str>, path: Option<&str>, content: Option<&str>) -> CanvasParams {
    CanvasParams {
        title: title.map(str::to_string),
        path: path.map(str::to_string),
        content: content.map(str::to_string),
    }
}

#[test]
fn opening_requires_a_path() {
    assert_eq!(
        open_target(params(Some("T"), Some("/t"), None)),
        Ok(("T".to_string(), "/t".to_string()))
    );
    assert_eq!(
        open_target(params(None, Some("/t"), None)),
        Ok(("Canvas".to_string(), "/t".to_string()))
    );
    assert_eq!(
        open_target(params(Some("T"), None, None)),
        Err("canvas open requires a file `path`".to_string())
    );
}

#[test]
fn updating_requires_content_and_an_open_canvas() {
    let registry = registry();
    assert_eq!(
        registry.update_target(1, params(None, None, Some("new"))),
        Ok(("/b".to_string(), "new".to_string()))
    );
    assert_eq!(
        registry.update_target(9, params(None, None, None)),
        Err("canvas update requires `content`".to_string())
    );
    assert_eq!(
        registry.update_target(9, params(None, None, Some("new"))),
        Err("no open canvas with id 9".to_string())
    );
    assert_eq!(not_open_text(12), "no open canvas with id 12");
}

// The tools.

#[test]
fn active_workspaces() {
    let mut active: ActiveWorkspace<&str> = ActiveWorkspace::new();
    assert_eq!(active.active_workspace(), None);
    assert_eq!(active.ensure_canvas_worktree(), Err("no active workspace".to_string()));
    assert_eq!(
        active.open_canvas_surface("T", "/t").unwrap_err(),
        "no active workspace to open a canvas in"
    );
    active.set_active_workspace("first");
    active.set_active_workspace("second");
    assert_eq!(active.active_workspace(), Some(&"second"));
    assert_eq!(active.ensure_canvas_worktree(), Ok(&"second"));
    let (workspace, params) = active.open_canvas_surface("T", "/t").unwrap();
    assert_eq!(*workspace, "second");
    assert_eq!(params.to_string(), "{\"title\":\"T\",\"path\":\"/t\"}");
}

#[test]
fn canvas_parameters_hold_title_and_path() {
    let value = canvas_params("A \"b\"", "/p/q");
    let object = value.as_object().unwrap();
    assert_eq!(object.len(), 2);
    assert_eq!(object["title"], "A \"b\"");
    assert_eq!(object["path"], "/p/q");
    // Read member by member they open the same canvas.
    let read = |name: &str| value.get(name).and_then(|v| v.as_str()).map(str::to_string);
    let params = CanvasParams { title: read("title"), path: read("path"), content: None };
    assert_eq!(open_target(params), Ok(("A \"b\"".to_string(), "/p/q".to_string())));
}

#[test]
fn tool_names_and_titles() {
    assert_eq!(CANVAS_KIND, "canvas");
    let create = CreateCanvasTool::new(SessionId::new("s".to_string()));
    assert_eq!(create.session_id, SessionId::new("s".to_string()));
    assert_eq!(CreateCanvasTool::name(), "create_canvas");
    assert_eq!(CreateCanvasTool::kind(), ToolKind::Other);
    let input = CreateCanvasToolInput { title: "T".to_string(), content: "c".to_string() };
    assert_eq!(create.initial_title(Ok(input)), "Create canvas: T");
    assert_eq!(create.initial_title(Err(serde_json::Value::Null)), "Create canvas");

    let open = CanvasOpenTool::new(SessionId::new("s".to_string()));
    assert_eq!(CanvasOpenTool::name(), "canvas_open");
    assert_eq!(CanvasOpenTool::kind(), ToolKind::Other);
    let input = CanvasOpenToolInput { title: "T".to_string() };
    assert_eq!(open.initial_title(Ok(input)), "Open canvas: T");
    assert_eq!(open.initial_title(Err(serde_json::Value::Null)), "Open canvas");

    assert_eq!(CanvasListTool::name(), "canvas_list");
    assert_eq!(CanvasListTool::kind(), ToolKind::Other);
    assert_eq!(CanvasListTool {}.initial_title(), "List canvases");

    let errors = CanvasErrorsTool {};
    assert_eq!(CanvasErrorsTool::name(), "canvas_errors");
    assert_eq!(CanvasErrorsTool::kind(), ToolKind::Other);
    assert_eq!(
        errors.initial_title(Ok(CanvasErrorsToolInput { id: 31 })),
        "Check canvas 31 for errors"
    );
    assert_eq!(errors.initial_title(Err(serde_json::Value::Null)), "Check canvas for errors");
    assert_eq!(ERRORS_DELAY_MILLIS, 900);
}

#[test]
fn creating_requires_content() {
    let tool = CreateCanvasTool::new(SessionId::new("s".to_string()));
    let input = |content: &str| {
        Ok(CreateCanvasToolInput { title: "My Report".to_string(), content: content.to_string() })
    };
    for empty in ["", " \n\t"] {
        assert_eq!(
            tool.run(input(empty)).err().unwrap(),
            "create_canvas requires non-empty `content` defining `function Canvas() { ... }`"
        );
    }
    assert_eq!(tool.run(Err("no input".to_string())).err().unwrap(), "no input");
    let file = tool.run(input(" function Canvas() {} ")).ok().unwrap();
    assert_eq!(file.title, "My Report");
    assert_eq!(file.name, "my-report.canvas.tsx");
    assert_eq!(file.content, " function Canvas() {} ");
    assert!(file.needs_write(true));
    assert!(file.needs_write(false));
}

#[test]
fn opening_keeps_an_existing_file() {
    let tool = CanvasOpenTool::new(SessionId::new("s".to_string()));
    let file = tool
        .run(Ok(CanvasOpenToolInput { title: "My  report!".to_string() }))
        .ok()
        .unwrap();
    assert_eq!(file.name, "my-report.canvas.tsx");
    assert_eq!(file.content, starter_canvas("My  report!"));
    assert!(!file.needs_write(true));
    assert!(file.needs_write(false));
    assert_eq!(tool.run(Err("no input".to_string())).err().unwrap(), "no input");
}

#[test]
fn write_failures_name_the_file() {
    assert_eq!(after_write("/c/x", Ok(())), Ok(()));
    assert_eq!(
        after_write("/c/x", Err("disk full".to_string())),
        Err("failed to write /c/x: disk full".to_string())
    );
}

#[test]
fn creating_records_and_reports() {
    let tool = CreateCanvasTool::new(SessionId::new("s".to_string()));
    let mut store = None;
    let message = tool.after_open("T", "/c/t.canvas.tsx", 3, &mut store, Vec::new());
    assert_eq!(
        message,
        "Created and opened canvas \"T\" (id 3) at `/c/t.canvas.tsx`, rendering your content. Call `canvas_errors` with id 3 to confirm it rendered without errors; fix any reported errors by editing the file with `edit_file` (it hot-reloads)."
    );
    let sessions = &store.as_ref().unwrap().sessions;
    assert_eq!(sessions.len(), 1);
    assert_eq!(sessions[0].session.as_str(), "s");
    let entry = &sessions[0].entries[0];
    assert_eq!((entry.kind.as_str(), entry.title.as_str()), ("canvas", "T"));
    assert_eq!(entry.params.to_string(), "{\"title\":\"T\",\"path\":\"/c/t.canvas.tsx\"}");
    assert_eq!(entry.live_id, Some(SurfaceId(3)));
}

#[test]
fn opening_records_and_reports() {
    let tool = CanvasOpenTool::new(SessionId::new("s".to_string()));
    let mut store = None;
    record_canvas(
        &SessionId::new("s".to_string()),
        "T",
        "/c/t.canvas.tsx",
        3,
        &mut store,
        Vec::new(),
    );
    let message = tool.after_open("T", "/c/t.canvas.tsx", 14, &mut store, Vec::new());
    assert_eq!(
        message,
        "Opened canvas \"T\" (id 14). It is the file `/c/t.canvas.tsx` \u{2014} author it by editing that file directly with `edit_file` (it hot-reloads on save). Lint your edits with `diagnostics`, then call `canvas_errors` with id 14 to confirm it renders without errors."
    );
    let entries = &store.as_ref().unwrap().sessions[0].entries;
    assert_eq!(entries.len(), 1);
    assert_eq!(entries[0].live_id, Some(SurfaceId(14)));
}

#[test]
fn only_an_open_canvas_is_reloaded() {
    let tool = CreateCanvasTool::new(SessionId::new("s".to_string()));
    let registry = registry();
    assert_eq!(tool.reload_target(1, true, &registry).unwrap().title, "B");
    assert!(tool.reload_target(1, false, &registry).is_none());
    assert!(tool.reload_target(9, true, &registry).is_none());
}

#[test]
fn listing_canvases() {
    let tool = CanvasListTool {};
    assert_eq!(
        tool.run(Ok(CanvasListToolInput {}), &registry()),
        Ok("[{\"id\":0,\"title\":\"A\"},{\"id\":1,\"title\":\"B\"},{\"id\":2,\"title\":\"C\"}]"
            .to_string())
    );
    assert_eq!(
        tool.run(Ok(CanvasListToolInput {}), &CanvasRegistry::new()),
        Ok("[]".to_string())
    );
    assert_eq!(
        tool.run(Err("no input".to_string()), &registry()),
        Err("no input".to_string())
    );
}

#[test]
fn reporting_errors() {
    let tool = CanvasErrorsTool {};
    assert_eq!(tool.run(Ok(CanvasErrorsToolInput { id: 3 })), Ok(3));
    assert_eq!(tool.run(Err("no input".to_string())), Err("no input".to_string()));
    assert_eq!(tool.report(3, None), Err("no open canvas with id 3".to_string()));
    assert_eq!(
        tool.report(3, Some(Vec::new())),
        Ok("Canvas 3 rendered with no errors.".to_string())
    );
    assert_eq!(
        tool.report(3, Some(vec!["one".to_string(), "two".to_string()])),
        Ok("Canvas 3 reported 2 error(s):\none\ntwo".to_string())
    );
}
