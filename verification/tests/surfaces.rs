use agent_workbench::surface::{
    after_focus, focus_surface, load_persisted, needs_load, open_surface, record_session_surface,
    register_surface_provider, session_surfaces, update_surface, FocusStep, PersistedSession,
    PersistedSurface, SessionKey, SessionSurfaces, SurfaceError, SurfaceId, SurfaceProvider,
    SurfaceRegistry,
};

/// Writes down what it is asked for. `live` is the one instance that can be focused.
struct Recorder {
    kind: &'static str,
    tag: u8,
}

#[derive(Default)]
struct Host {
    log: Vec<String>,
    next: u64,
    live: Option<u64>,
    focus_fails: bool,
}

impl SurfaceProvider<String, Host> for Recorder {
    fn kind(&self) -> &str {
        self.kind
    }

    fn open(&self, params: &String, host: &mut Host) -> Result<SurfaceId, SurfaceError> {
        if params == "bad" {
            return Err(SurfaceError::Provider { message: "cannot open".to_string() });
        }
        host.log.push(format!("open {} {}", self.tag, params));
        host.next += 1;
        Ok(SurfaceId(host.next))
    }

    fn update(&self, id: SurfaceId, params: &String, host: &mut Host) -> Result<(), SurfaceError> {
        host.log.push(format!("update {} {}", id.0, params));
        Ok(())
    }

    fn focus(&self, id: SurfaceId, host: &mut Host) -> Result<bool, SurfaceError> {
        if host.focus_fails {
            return Err(SurfaceError::Provider { message: "cannot focus".to_string() });
        }
        host.log.push(format!("focus {}", id.0));
        Ok(host.live == Some(id.0))
    }
}

/// Cannot bring instances to the foreground.
struct Plain;

impl SurfaceProvider<String, Host> for Plain {
    fn kind(&self) -> &str {
        "plain"
    }

    fn open(&self, _params: &String, _host: &mut Host) -> Result<SurfaceId, SurfaceError> {
        Ok(SurfaceId(9))
    }

    fn update(&self, _: SurfaceId, _: &String, _: &mut Host) -> Result<(), SurfaceError> {
        Ok(())
    }

    fn focus(&self, _: SurfaceId, _: &mut Host) -> Result<bool, SurfaceError> {
        Ok(false)
    }
}

fn key(name: &str) -> SessionKey {
    SessionKey::from(name)
}

fn registry() -> SurfaceRegistry<Recorder> {
    let mut registry = SurfaceRegistry::new();
    register_surface_provider::<String, Host, Recorder>(
        &mut registry,
        Recorder { kind: "canvas", tag: 1 },
    );
    registry
}

fn record(store: &mut Option<SessionSurfaces<String>>, session: &str, title: &str, id: u64) {
    record_session_surface(
        store,
        Vec::new(),
        key(session),
        "canvas",
        title.to_string(),
        format!("params of {title}"),
        SurfaceId(id),
    );
}

fn titles(store: &Option<SessionSurfaces<String>>, session: &str) -> Vec<(usize, String, String)> {
    session_surfaces(&key(session), store)
        .into_iter()
        .map(|info| (info.index, info.kind, info.title))
        .collect()
}

fn entry(index: usize, title: &str) -> (usize, String, String) {
    (index, "canvas".to_string(), title.to_string())
}

#[test]
fn session_keys() {
    assert_eq!(SessionKey::new("s".to_string()), SessionKey::from("s"));
    assert_eq!(SessionKey::from("s".to_string()).as_str(), "s");
    assert_ne!(SessionKey::from("s"), SessionKey::from("t"));
}

#[test]
fn opening_and_updating_go_to_the_provider() {
    let registry = registry();
    let mut host = Host::default();
    let id = open_surface("canvas", &"p".to_string(), &registry, &mut host).unwrap();
    assert_eq!(id, SurfaceId(1));
    update_surface("canvas", id, &"q".to_string(), &registry, &mut host).unwrap();
    assert_eq!(host.log, vec!["open 1 p".to_string(), "update 1 q".to_string()]);
    let error = open_surface("canvas", &"bad".to_string(), &registry, &mut host).unwrap_err();
    assert_eq!(error.message(), "cannot open");
}

#[test]
fn unknown_kinds_are_refused() {
    let registry = registry();
    let mut host = Host::default();
    let error = open_surface("map", &"p".to_string(), &registry, &mut host).unwrap_err();
    assert!(matches!(&error, SurfaceError::NoProvider { kind } if kind == "map"));
    assert_eq!(error.message(), "no surface provider registered for kind \"map\"");
    let error =
        update_surface("a\"b", SurfaceId(1), &"p".to_string(), &registry, &mut host).unwrap_err();
    assert_eq!(error.message(), "no surface provider registered for kind \"a\\\"b\"");
    assert!(host.log.is_empty());
    let empty: SurfaceRegistry<Recorder> = SurfaceRegistry::new();
    assert!(open_surface("canvas", &"p".to_string(), &empty, &mut host).is_err());
}

#[test]
fn a_second_provider_replaces_the_first() {
    let mut registry = registry();
    register_surface_provider::<String, Host, Recorder>(
        &mut registry,
        Recorder { kind: "map", tag: 2 },
    );
    register_surface_provider::<String, Host, Recorder>(
        &mut registry,
        Recorder { kind: "canvas", tag: 3 },
    );
    let mut host = Host::default();
    open_surface("canvas", &"p".to_string(), &registry, &mut host).unwrap();
    open_surface("map", &"q".to_string(), &registry, &mut host).unwrap();
    assert_eq!(host.log, vec!["open 3 p".to_string(), "open 2 q".to_string()]);
}

#[test]
fn recording_lists_in_creation_order() {
    let mut store = None;
    assert!(session_surfaces(&key("s"), &store).is_empty());
    record(&mut store, "s", "one", 1);
    record(&mut store, "s", "two", 2);
    record(&mut store, "t", "three", 3);
    assert_eq!(titles(&store, "s"), vec![entry(0, "one"), entry(1, "two")]);
    assert_eq!(titles(&store, "t"), vec![entry(0, "three")]);
    assert!(titles(&store, "u").is_empty());
}

#[test]
fn recording_again_updates_in_place() {
    let mut store = None;
    record(&mut store, "s", "one", 1);
    record(&mut store, "s", "two", 2);
    record_session_surface(
        &mut store,
        Vec::new(),
        key("s"),
        "canvas",
        "one".to_string(),
        "new params".to_string(),
        SurfaceId(7),
    );
    assert_eq!(titles(&store, "s"), vec![entry(0, "one"), entry(1, "two")]);
    let first = &store.as_ref().unwrap().sessions[0].entries[0];
    assert_eq!(first.params, "new params");
    assert_eq!(first.live_id, Some(SurfaceId(7)));
    // Another kind under the same title is another surface.
    record_session_surface(
        &mut store,
        Vec::new(),
        key("s"),
        "map",
        "one".to_string(),
        "p".to_string(),
        SurfaceId(8),
    );
    assert_eq!(titles(&store, "s").len(), 3);
}

fn on_disk() -> Vec<PersistedSession<String>> {
    vec![
        PersistedSession {
            session: "s".to_string(),
            surfaces: vec![
                PersistedSurface {
                    kind: "canvas".to_string(),
                    title: "one".to_string(),
                    params: "params of one".to_string(),
                },
                PersistedSurface {
                    kind: "canvas".to_string(),
                    title: "two".to_string(),
                    params: "params of two".to_string(),
                },
            ],
        },
        PersistedSession { session: "t".to_string(), surfaces: Vec::new() },
    ]
}

#[test]
fn loading_happens_once() {
    let mut store = None;
    assert!(needs_load(&store));
    load_persisted(&mut store, on_disk());
    assert!(!needs_load(&store));
    assert_eq!(titles(&store, "s"), vec![entry(0, "one"), entry(1, "two")]);
    assert!(store.as_ref().unwrap().sessions[0].entries.iter().all(|e| e.live_id.is_none()));
    load_persisted(&mut store, Vec::new());
    assert_eq!(titles(&store, "s").len(), 2);
    let mut fresh: Option<SessionSurfaces<String>> = Some(SessionSurfaces::new());
    assert!(needs_load(&fresh));
    load_persisted(&mut fresh, on_disk());
    assert_eq!(titles(&fresh, "s").len(), 2);
}

#[test]
fn recording_loads_first() {
    let mut store = None;
    record_session_surface(
        &mut store,
        on_disk(),
        key("s"),
        "canvas",
        "two".to_string(),
        "changed".to_string(),
        SurfaceId(4),
    );
    assert_eq!(titles(&store, "s"), vec![entry(0, "one"), entry(1, "two")]);
    let entries = &store.as_ref().unwrap().sessions[0].entries;
    assert_eq!(entries[0].live_id, None);
    assert_eq!(entries[1].live_id, Some(SurfaceId(4)));
    assert_eq!(entries[1].params, "changed");
}

#[test]
fn what_is_written_comes_back() {
    let mut store = None;
    record(&mut store, "s", "one", 1);
    record(&mut store, "s", "two", 2);
    record(&mut store, "t", "three", 3);
    let written: Vec<PersistedSession<String>> = store
        .as_ref()
        .unwrap()
        .write_persisted()
        .into_iter()
        .map(|session| PersistedSession {
            session: session.session.to_string(),
            surfaces: session
                .surfaces
                .into_iter()
                .map(|surface| PersistedSurface {
                    kind: surface.kind.to_string(),
                    title: surface.title.to_string(),
                    params: surface.params.clone(),
                })
                .collect(),
        })
        .collect();
    assert_eq!(written.len(), 2);
    let mut restarted = None;
    load_persisted(&mut restarted, written);
    assert_eq!(titles(&restarted, "s"), titles(&store, "s"));
    assert_eq!(titles(&restarted, "t"), titles(&store, "t"));
    let entries = &restarted.as_ref().unwrap().sessions[0].entries;
    assert_eq!(entries[1].params, "params of two");
    assert_eq!(entries[1].live_id, None);
}

#[test]
fn focusing_a_live_surface_shows_it() {
    let mut store = None;
    record(&mut store, "s", "one", 5);
    let mut host = Host { live: Some(5), ..Host::default() };
    focus_surface(&key("s"), 0, &mut store, &registry(), &mut host).unwrap();
    assert_eq!(host.log, vec!["focus 5".to_string()]);
    assert_eq!(store.unwrap().sessions[0].entries[0].live_id, Some(SurfaceId(5)));
}

#[test]
fn focusing_a_closed_surface_reopens_it() {
    let mut store = None;
    record(&mut store, "s", "one", 5);
    let mut host = Host { next: 10, ..Host::default() };
    focus_surface(&key("s"), 0, &mut store, &registry(), &mut host).unwrap();
    assert_eq!(host.log, vec!["focus 5".to_string(), "open 1 params of one".to_string()]);
    assert_eq!(store.unwrap().sessions[0].entries[0].live_id, Some(SurfaceId(11)));
}

#[test]
fn focusing_a_restored_surface_opens_it() {
    let mut store = None;
    load_persisted(&mut store, on_disk());
    let mut host = Host::default();
    focus_surface(&key("s"), 1, &mut store, &registry(), &mut host).unwrap();
    assert_eq!(host.log, vec!["open 1 params of two".to_string()]);
    let entries = &store.as_ref().unwrap().sessions[0].entries;
    assert_eq!(entries[0].live_id, None);
    assert_eq!(entries[1].live_id, Some(SurfaceId(1)));
}

#[test]
fn focusing_without_an_own_focus_opens() {
    let mut plain = SurfaceRegistry::new();
    register_surface_provider::<String, Host, Plain>(&mut plain, Plain);
    let mut store = None;
    record_session_surface(
        &mut store,
        Vec::new(),
        key("s"),
        "plain",
        "one".to_string(),
        "p".to_string(),
        SurfaceId(3),
    );
    let mut host = Host::default();
    focus_surface(&key("s"), 0, &mut store, &plain, &mut host).unwrap();
    assert_eq!(store.unwrap().sessions[0].entries[0].live_id, Some(SurfaceId(9)));
}

#[test]
fn focusing_reports_what_is_missing() {
    let mut host = Host::default();
    let mut store: Option<SessionSurfaces<String>> = None;
    let error = focus_surface(&key("s"), 0, &mut store, &registry(), &mut host).unwrap_err();
    assert!(matches!(error, SurfaceError::NothingRecorded));
    assert_eq!(error.message(), "no surfaces recorded");

    record(&mut store, "s", "one", 5);
    let error = focus_surface(&key("s"), 12, &mut store, &registry(), &mut host).unwrap_err();
    assert_eq!(error.message(), "no surface at index 12");
    let error = focus_surface(&key("t"), 0, &mut store, &registry(), &mut host).unwrap_err();
    assert_eq!(error.message(), "no surface at index 0");

    let empty: SurfaceRegistry<Recorder> = SurfaceRegistry::new();
    let error = focus_surface(&key("s"), 0, &mut store, &empty, &mut host).unwrap_err();
    assert_eq!(error.message(), "no surface provider registered for kind \"canvas\"");
    assert!(host.log.is_empty());
}

#[test]
fn a_failed_reopening_changes_no_entry() {
    let mut store = None;
    record_session_surface(
        &mut store,
        Vec::new(),
        key("s"),
        "canvas",
        "one".to_string(),
        "bad".to_string(),
        SurfaceId(5),
    );
    let mut host = Host::default();
    let error = focus_surface(&key("s"), 0, &mut store, &registry(), &mut host).unwrap_err();
    assert_eq!(error.message(), "cannot open");
    assert_eq!(host.log, vec!["focus 5".to_string()]);
    assert_eq!(store.unwrap().sessions[0].entries[0].live_id, Some(SurfaceId(5)));
}

#[test]
fn focusing_stops_when_the_provider_fails() {
    let mut store = None;
    record(&mut store, "s", "one", 5);
    let mut host = Host { focus_fails: true, ..Host::default() };
    let error = focus_surface(&key("s"), 0, &mut store, &registry(), &mut host).unwrap_err();
    assert_eq!(error.message(), "cannot focus");
    assert!(host.log.is_empty());
    assert_eq!(store.unwrap().sessions[0].entries[0].live_id, Some(SurfaceId(5)));
}

#[test]
fn a_focus_attempt_shows_fails_or_opens() {
    assert!(matches!(after_focus(Ok(true)), FocusStep::Shown));
    assert!(matches!(after_focus(Ok(false)), FocusStep::Open));
    assert!(matches!(
        after_focus(Err(SurfaceError::NothingRecorded)),
        FocusStep::Failed(SurfaceError::NothingRecorded)
    ));
}
