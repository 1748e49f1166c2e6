//! A small registry for "surfaces": modular, addressable pane contents that
//! something else (a user action, an agent tool, ...) can open and update by a
//! stable string `kind`, and a record of which conversation created which.
//!
//! A provider knows how to open a pane of its kind and to update an open one.
//! Callers open and update surfaces without knowing the concrete view type. What a
//! surface is opened with (`P`) and where it is opened (`H`) is up to the host.
use vstd::prelude::*;
use vstd::string::*;

use crate::text::{debug_text, decimal, decimal_text, quoted, same_text};

verus! {

/// Identifies an open surface instance. Scoped to the provider that created it
/// (unique per `kind`, not globally).
#[derive(Clone, Copy, Debug, PartialEq, Eq, Hash, Structural)]
pub struct SurfaceId(pub u64);

/// An opaque key associating surfaces with the conversation that created them (in
/// practice an agent session id).
#[derive(Clone, Debug, PartialEq, Eq, Hash)]
pub struct SessionKey {
    key: String,
}

impl View for SessionKey {
    type V = Seq<char>;

    closed spec fn view(&self) -> Seq<char> {
        self.key@
    }
}

impl SessionKey {
    pub fn new(key: String) -> (session: SessionKey)
        ensures
            session@ == key@,
    {
        SessionKey { key }
    }

    pub fn as_str(&self) -> (key: &str)
        ensures
            key@ == self@,
    {
        self.key.as_str()
    }
}

impl From<&str> for SessionKey {
    fn from(value: &str) -> (session: SessionKey)
        ensures
            session@ == value@,
    {
        SessionKey { key: value.to_owned() }
    }
}

impl vstd::std_specs::convert::FromSpecImpl<&str> for SessionKey {
    open spec fn obeys_from_spec() -> bool {
        false
    }

    open spec fn from_spec(value: &str) -> SessionKey {
        arbitrary()
    }
}

impl From<String> for SessionKey {
    fn from(value: String) -> (session: SessionKey)
        ensures
            session@ == value@,
    {
        SessionKey { key: value }
    }
}

impl vstd::std_specs::convert::FromSpecImpl<String> for SessionKey {
    open spec fn obeys_from_spec() -> bool {
        true
    }

    closed spec fn from_spec(value: String) -> SessionKey {
        SessionKey { key: value }
    }
}

/// Why a surface could not be opened, updated or focused.
#[derive(Debug)]
pub enum SurfaceError {
    /// Nobody registered for this kind.
    NoProvider { kind: String },
    /// No conversation has recorded a surface.
    NothingRecorded,
    /// The conversation has no surface with this index.
    NoSurface { index: usize },
    /// The provider failed.
    Provider { message: String },
}

impl SurfaceError {
    /// What the error says.
    pub open spec fn text(self) -> Seq<char> {
        match self {
            SurfaceError::NoProvider { kind } => "no surface provider registered for kind "@
                + debug_text(kind@),
            SurfaceError::NothingRecorded => "no surfaces recorded"@,
            SurfaceError::NoSurface { index } => "no surface at index "@ + decimal(index as nat),
            SurfaceError::Provider { message } => message@,
        }
    }

    /// What the error says.
    pub fn message(&self) -> (message: String)
        ensures
            message@ == self.text(),
    {
        match self {
            SurfaceError::NoProvider { kind } => {
                let mut message = "no surface provider registered for kind ".to_owned();
                message.append(quoted(kind.as_str()).as_str());
                message
            },
            SurfaceError::NothingRecorded => "no surfaces recorded".to_owned(),
            SurfaceError::NoSurface { index } => {
                let mut message = "no surface at index ".to_owned();
                message.append(decimal_text(*index as u64).as_str());
                message
            },
            SurfaceError::Provider { message } => message.clone(),
        }
    }
}

/// Opens and updates one kind of surface (e.g. a web canvas).
///
/// What an implementation does to the host is its own. It may say so in the relations,
/// which the callers below pass on; by themselves they leave everything open.
pub trait SurfaceProvider<P, H> {
    /// The kind of surface. It is the provider's own and stays the same.
    closed spec fn kind_of(&self) -> Seq<char> {
        arbitrary()
    }

    /// How opening may turn out.
    open spec fn opens(
        &self,
        params: P,
        before: H,
        after: H,
        outcome: Result<SurfaceId, SurfaceError>,
    ) -> bool {
        true
    }

    /// How updating may turn out.
    open spec fn updates(
        &self,
        id: SurfaceId,
        params: P,
        before: H,
        after: H,
        outcome: Result<(), SurfaceError>,
    ) -> bool {
        true
    }

    /// How focusing may turn out.
    open spec fn focuses(
        &self,
        id: SurfaceId,
        before: H,
        after: H,
        outcome: Result<bool, SurfaceError>,
    ) -> bool {
        true
    }

    /// Stable identifier for this kind of surface, e.g. `"canvas"`.
    fn kind(&self) -> (kind: &str)
        ensures
            kind@ == self.kind_of(),
    ;

    /// Opens a new instance of this surface, returning an id that can later be passed
    /// to [`SurfaceProvider::update`].
    fn open(&self, params: &P, host: &mut H) -> (outcome: Result<SurfaceId, SurfaceError>)
        ensures
            self.opens(*params, *old(host), *final(host), outcome),
    ;

    /// Updates an existing instance with new `params`.
    fn update(&self, id: SurfaceId, params: &P, host: &mut H) -> (outcome: Result<
        (),
        SurfaceError,
    >)
        ensures
            self.updates(id, *params, *old(host), *final(host), outcome),
    ;

    /// Brings an already-open instance to the foreground, returning whether it was
    /// still live. A provider that cannot bring instances to the foreground returns
    /// `false`, meaning "no live instance", so the caller falls back to
    /// [`SurfaceProvider::open`].
    fn focus(&self, id: SurfaceId, host: &mut H) -> (outcome: Result<bool, SurfaceError>)
        ensures
            self.focuses(id, *old(host), *final(host), outcome),
    ;
}

/// The registered providers, one for each kind.
pub struct SurfaceRegistry<V> {
    pub providers: Vec<(String, V)>,
}

/// A list of keys and values as a map. A key listed twice counts as listed last.
pub open spec fn keyed<T>(list: Seq<(Seq<char>, T)>) -> Map<Seq<char>, T>
    decreases list.len(),
{
    if list.len() == 0 {
        Map::empty()
    } else {
        keyed(list.drop_last()).insert(list.last().0, list.last().1)
    }
}

/// No key is listed twice.
pub open spec fn distinct_keys<T>(list: Seq<(Seq<char>, T)>) -> bool {
    forall|i: int, j: int|
        0 <= i < j < list.len() ==> (#[trigger] list[i]).0 != (#[trigger] list[j]).0
}

proof fn lemma_keyed_lacks<T>(list: Seq<(Seq<char>, T)>, key: Seq<char>)
    requires
        forall|j: int| 0 <= j < list.len() ==> (#[trigger] list[j]).0 != key,
    ensures
        !keyed(list).contains_key(key),
    decreases list.len(),
{
    if list.len() > 0 {
        assert(list[list.len() - 1].0 != key);
        assert forall|j: int| 0 <= j < list.drop_last().len() implies (
        #[trigger] list.drop_last()[j]).0 != key by {
            assert(list[j].0 != key);
        }
        lemma_keyed_lacks(list.drop_last(), key);
    }
}

proof fn lemma_keyed_at<T>(list: Seq<(Seq<char>, T)>, at: int)
    requires
        0 <= at < list.len(),
        distinct_keys(list),
    ensures
        keyed(list).contains_key(list[at].0),
        keyed(list)[list[at].0] == list[at].1,
    decreases list.len(),
{
    if at < list.len() - 1 {
        lemma_keyed_at(list.drop_last(), at);
        assert(list[at].0 != list[list.len() - 1].0);
    }
}

proof fn lemma_keyed_push<T>(list: Seq<(Seq<char>, T)>, key: Seq<char>, value: T)
    ensures
        keyed(list.push((key, value))) == keyed(list).insert(key, value),
        distinct_keys(list) && (forall|j: int| 0 <= j < list.len() ==> (#[trigger] list[j]).0
            != key) ==> distinct_keys(list.push((key, value))),
{
    assert(list.push((key, value)).drop_last() =~= list);
}

proof fn lemma_keyed_update<T>(list: Seq<(Seq<char>, T)>, at: int, value: T)
    requires
        0 <= at < list.len(),
        distinct_keys(list),
    ensures
        distinct_keys(list.update(at, (list[at].0, value))),
        keyed(list.update(at, (list[at].0, value))) == keyed(list).insert(list[at].0, value),
    decreases list.len(),
{
    let updated = list.update(at, (list[at].0, value));
    assert forall|i: int, j: int| 0 <= i < j < updated.len() implies (#[trigger] updated[i]).0 != (
    #[trigger] updated[j]).0 by {
        assert(list[i].0 != list[j].0);
    }
    if at == list.len() - 1 {
        assert(updated.drop_last() =~= list.drop_last());
    } else {
        lemma_keyed_update(list.drop_last(), at, value);
        assert(updated.drop_last() =~= list.drop_last().update(at, (list[at].0, value)));
        assert(list[at].0 != list[list.len() - 1].0);
    }
    assert(keyed(updated) =~= keyed(list).insert(list[at].0, value));
}

/// The providers with the content of their kinds.
pub open spec fn provider_list<V>(providers: Seq<(String, V)>) -> Seq<(Seq<char>, V)> {
    providers.map_values(|provider: (String, V)| (provider.0@, provider.1))
}

impl<V> View for SurfaceRegistry<V> {
    type V = Map<Seq<char>, V>;

    open spec fn view(&self) -> Map<Seq<char>, V> {
        keyed(provider_list(self.providers@))
    }
}

impl<V> SurfaceRegistry<V> {
    /// No kind occurs twice.
    pub open spec fn wf(self) -> bool {
        distinct_keys(provider_list(self.providers@))
    }

    /// A registry without providers.
    pub fn new() -> (registry: SurfaceRegistry<V>)
        ensures
            registry.wf(),
            registry@ == Map::<Seq<char>, V>::empty(),
    {
        SurfaceRegistry { providers: Vec::new() }
    }

    /// Where the provider for `kind` stands.
    fn position(&self, kind: &str) -> (found: Option<usize>)
        requires
            self.wf(),
        ensures
            match found {
                Some(i) => i < self.providers@.len() && self.providers@[i as int].0@ == kind@
                    && self@.contains_key(kind@) && self@[kind@] == self.providers@[i as int].1,
                None => !self@.contains_key(kind@) && forall|j: int|
                    0 <= j < self.providers@.len() ==> (#[trigger] self.providers@[j]).0@ != kind@,
            },
    {
        let mut i: usize = 0;
        while i < self.providers.len()
            invariant
                self.wf(),
                i <= self.providers@.len(),
                forall|j: int| 0 <= j < i ==> (#[trigger] self.providers@[j]).0@ != kind@,
            decreases self.providers@.len() - i,
        {
            if same_text(self.providers[i].0.as_str(), kind) {
                proof {
                    lemma_keyed_at(provider_list(self.providers@), i as int);
                }
                return Some(i);
            }
            i = i + 1;
        }
        proof {
            lemma_keyed_lacks(provider_list(self.providers@), kind@);
        }
        None
    }

    /// Registers a provider for a kind. Replaces the provider that this kind had.
    pub fn insert(&mut self, kind: String, provider: V)
        requires
            old(self).wf(),
        ensures
            final(self).wf(),
            final(self)@ == old(self)@.insert(kind@, provider),
    {
        match self.position(kind.as_str()) {
            Some(i) => {
                proof {
                    lemma_keyed_update(provider_list(self.providers@), i as int, provider);
                }
                self.providers[i].1 = provider;
                assert(provider_list(self.providers@) =~= provider_list(
                    old(self).providers@,
                ).update(i as int, (kind@, provider)));
            },
            None => {
                proof {
                    lemma_keyed_push(provider_list(self.providers@), kind@, provider);
                }
                let ghost name = kind@;
                self.providers.push((kind, provider));
                assert(provider_list(self.providers@) =~= provider_list(
                    old(self).providers@,
                ).push((name, provider)));
            },
        }
    }

    /// The provider for `kind`.
    pub fn provider_for(&self, kind: &str) -> (provider: Result<&V, SurfaceError>)
        requires
            self.wf(),
        ensures
            match provider {
                Ok(found) => self@.contains_key(kind@) && *found == self@[kind@],
                Err(error) => !self@.contains_key(kind@)
                    && (error matches SurfaceError::NoProvider { kind: missing } && missing@
                    == kind@),
            },
    {
        match self.position(kind) {
            Some(i) => Ok(&self.providers[i].1),
            None => Err(SurfaceError::NoProvider { kind: kind.to_owned() }),
        }
    }
}

/// Registers a provider for its `kind`. Replaces any existing provider with the same
/// kind.
pub fn register_surface_provider<P, H, V: SurfaceProvider<P, H>>(
    registry: &mut SurfaceRegistry<V>,
    provider: V,
)
    requires
        old(registry).wf(),
    ensures
        final(registry).wf(),
        final(registry)@ == old(registry)@.insert(provider.kind_of(), provider),
{
    let kind = provider.kind().to_owned();
    registry.insert(kind, provider);
}

/// A provider is found again under its own kind once it is registered, and providers of
/// other kinds are left alone.
pub proof fn law_registered_provider_is_found<P, H, V: SurfaceProvider<P, H>>(
    providers: Map<Seq<char>, V>,
    provider: V,
    other: Seq<char>,
)
    ensures
        providers.insert(provider.kind_of(), provider).contains_key(provider.kind_of()),
        providers.insert(provider.kind_of(), provider)[provider.kind_of()] == provider,
        other != provider.kind_of() ==> (providers.insert(
            provider.kind_of(),
            provider,
        ).contains_key(other) <==> providers.contains_key(other)),
        other != provider.kind_of() && providers.contains_key(other) ==> providers.insert(
            provider.kind_of(),
            provider,
        )[other] == providers[other],
{
}

/// Opens a surface of the given `kind`.
pub fn open_surface<P, H, V: SurfaceProvider<P, H>>(
    kind: &str,
    params: &P,
    registry: &SurfaceRegistry<V>,
    host: &mut H,
) -> (outcome: Result<SurfaceId, SurfaceError>)
    requires
        registry.wf(),
    ensures
        if registry@.contains_key(kind@) {
            registry@[kind@].opens(*params, *old(host), *final(host), outcome)
        } else {
            *final(host) == *old(host) && (outcome matches Err(
                SurfaceError::NoProvider { kind: missing },
            ) && missing@ == kind@)
        },
{
    match registry.provider_for(kind) {
        Ok(provider) => provider.open(params, host),
        Err(error) => Err(error),
    }
}

/// Updates an existing surface instance of the given `kind`.
pub fn update_surface<P, H, V: SurfaceProvider<P, H>>(
    kind: &str,
    id: SurfaceId,
    params: &P,
    registry: &SurfaceRegistry<V>,
    host: &mut H,
) -> (outcome: Result<(), SurfaceError>)
    requires
        registry.wf(),
    ensures
        if registry@.contains_key(kind@) {
            registry@[kind@].updates(id, *params, *old(host), *final(host), outcome)
        } else {
            *final(host) == *old(host) && (outcome matches Err(
                SurfaceError::NoProvider { kind: missing },
            ) && missing@ == kind@)
        },
{
    match registry.provider_for(kind) {
        Ok(provider) => provider.update(id, params, host),
        Err(error) => Err(error),
    }
}

// Session to surface association (persisted).
//
// Records which surfaces a conversation created, so a UI can offer to (re)open
// them. Persisted to disk so the association survives restarts; on reopen the stored
// `params` are replayed through the provider's `open`.

/// The file of the recorded surfaces, as path components below the data directory.
pub fn surfaces_path() -> (components: Vec<&'static str>)
    ensures
        components@.len() == 1,
        components@[0]@ == "surfaces.json"@,
{
    let mut components: Vec<&'static str> = Vec::new();
    components.push("surfaces.json");
    components
}

/// A surface created within a session, as surfaced to UIs.
#[derive(Clone, Debug)]
pub struct SurfaceInfo {
    /// Index of this surface within its session, used to address it in
    /// [`focus_surface`].
    pub index: usize,
    pub kind: String,
    pub title: String,
}

/// A recorded surface.
pub struct SurfaceEntry<P> {
    pub kind: String,
    pub title: String,
    /// Provider-defined params sufficient to (re)open the surface.
    pub params: P,
    /// The live instance id, if currently open.
    pub live_id: Option<SurfaceId>,
}

/// What a recorded surface holds.
pub struct SurfaceEntryView<P> {
    pub kind: Seq<char>,
    pub title: Seq<char>,
    pub params: P,
    pub live_id: Option<SurfaceId>,
}

/// A recorded surface as it is kept on disk: without the live instance.
pub struct PersistedSurface<P> {
    pub kind: String,
    pub title: String,
    pub params: P,
}

/// What a surface on disk holds.
pub struct PersistedSurfaceView<P> {
    pub kind: Seq<char>,
    pub title: Seq<char>,
    pub params: P,
}

/// The surfaces of one session.
pub struct SessionEntries<P> {
    pub session: SessionKey,
    pub entries: Vec<SurfaceEntry<P>>,
}

/// The surfaces of one session as they are kept on disk.
pub struct PersistedSession<P> {
    pub session: String,
    pub surfaces: Vec<PersistedSurface<P>>,
}

/// The surfaces of every session, once they have been loaded from disk.
pub struct SessionSurfaces<P> {
    pub sessions: Vec<SessionEntries<P>>,
    pub loaded: bool,
}

impl<P> View for SurfaceEntry<P> {
    type V = SurfaceEntryView<P>;

    open spec fn view(&self) -> SurfaceEntryView<P> {
        SurfaceEntryView {
            kind: self.kind@,
            title: self.title@,
            params: self.params,
            live_id: self.live_id,
        }
    }
}

impl<P> View for PersistedSurface<P> {
    type V = PersistedSurfaceView<P>;

    open spec fn view(&self) -> PersistedSurfaceView<P> {
        PersistedSurfaceView { kind: self.kind@, title: self.title@, params: self.params }
    }
}

/// What each recorded surface holds.
pub open spec fn entries_view<P>(entries: Seq<SurfaceEntry<P>>) -> Seq<SurfaceEntryView<P>> {
    entries.map_values(|entry: SurfaceEntry<P>| entry@)
}

/// What each surface on disk holds.
pub open spec fn persisted_view<P>(surfaces: Seq<PersistedSurface<P>>) -> Seq<
    PersistedSurfaceView<P>,
> {
    surfaces.map_values(|surface: PersistedSurface<P>| surface@)
}

/// The sessions with what their surfaces hold.
pub open spec fn session_list<P>(sessions: Seq<SessionEntries<P>>) -> Seq<
    (Seq<char>, Seq<SurfaceEntryView<P>>),
> {
    sessions.map_values(
        |session: SessionEntries<P>| (session.session@, entries_view(session.entries@)),
    )
}

/// The surfaces by session.
pub open spec fn sessions_map<P>(sessions: Seq<SessionEntries<P>>) -> Map<
    Seq<char>,
    Seq<SurfaceEntryView<P>>,
> {
    keyed(session_list(sessions))
}

/// The surfaces on disk by session. A session listed twice counts as listed last.
pub open spec fn persisted_map<P>(sessions: Seq<PersistedSession<P>>) -> Map<
    Seq<char>,
    Seq<PersistedSurfaceView<P>>,
>
    decreases sessions.len(),
{
    if sessions.len() == 0 {
        Map::empty()
    } else {
        persisted_map(sessions.drop_last()).insert(
            sessions.last().session@,
            persisted_view(sessions.last().surfaces@),
        )
    }
}

/// A surface as it comes back from disk: recorded, and not live.
pub open spec fn restored_entry<P>(surface: PersistedSurfaceView<P>) -> SurfaceEntryView<P> {
    SurfaceEntryView {
        kind: surface.kind,
        title: surface.title,
        params: surface.params,
        live_id: None,
    }
}

/// A recorded surface as it goes to disk.
pub open spec fn persisted_entry<P>(entry: SurfaceEntryView<P>) -> PersistedSurfaceView<P> {
    PersistedSurfaceView { kind: entry.kind, title: entry.title, params: entry.params }
}

/// The surfaces of one session as they come back from disk.
pub open spec fn restored_entries<P>(surfaces: Seq<PersistedSurfaceView<P>>) -> Seq<
    SurfaceEntryView<P>,
> {
    surfaces.map_values(|surface: PersistedSurfaceView<P>| restored_entry(surface))
}

/// The surfaces of one session as they go to disk.
pub open spec fn persisted_entries<P>(entries: Seq<SurfaceEntryView<P>>) -> Seq<
    PersistedSurfaceView<P>,
> {
    entries.map_values(|entry: SurfaceEntryView<P>| persisted_entry(entry))
}

/// All sessions as they come back from disk.
pub open spec fn restored<P>(sessions: Map<Seq<char>, Seq<PersistedSurfaceView<P>>>) -> Map<
    Seq<char>,
    Seq<SurfaceEntryView<P>>,
> {
    sessions.map_values(|surfaces: Seq<PersistedSurfaceView<P>>| restored_entries(surfaces))
}

/// All sessions as they go to disk.
pub open spec fn persisted<P>(sessions: Map<Seq<char>, Seq<SurfaceEntryView<P>>>) -> Map<
    Seq<char>,
    Seq<PersistedSurfaceView<P>>,
> {
    sessions.map_values(|entries: Seq<SurfaceEntryView<P>>| persisted_entries(entries))
}

/// The surfaces of a session, none where it has not recorded any.
pub open spec fn entries_of<P>(
    sessions: Map<Seq<char>, Seq<SurfaceEntryView<P>>>,
    session: Seq<char>,
) -> Seq<SurfaceEntryView<P>> {
    if sessions.contains_key(session) {
        sessions[session]
    } else {
        Seq::empty()
    }
}

/// Whether a recorded surface has this kind and title.
pub open spec fn is_named<P>(
    entry: SurfaceEntryView<P>,
    kind: Seq<char>,
    title: Seq<char>,
) -> bool {
    entry.kind == kind && entry.title == title
}

/// Where the first surface with this kind and title stands, or the number of
/// surfaces where there is none.
pub open spec fn position_of<P>(
    entries: Seq<SurfaceEntryView<P>>,
    kind: Seq<char>,
    title: Seq<char>,
) -> int
    decreases entries.len(),
{
    if entries.len() == 0 {
        0
    } else if is_named(entries[0], kind, title) {
        0
    } else {
        1 + position_of(entries.skip(1), kind, title)
    }
}

/// The surfaces of a session after one has been recorded: the first with the same
/// kind and title is updated in place, and where there is none it is added at the
/// end.
pub open spec fn recorded<P>(
    entries: Seq<SurfaceEntryView<P>>,
    kind: Seq<char>,
    title: Seq<char>,
    params: P,
    live_id: SurfaceId,
) -> Seq<SurfaceEntryView<P>> {
    let at = position_of(entries, kind, title);
    let entry = SurfaceEntryView { kind, title, params, live_id: Some(live_id) };
    if at < entries.len() {
        entries.update(at, entry)
    } else {
        entries.push(entry)
    }
}

/// The surfaces of a session after the one at `index` has been opened again.
pub open spec fn reopened<P>(
    entries: Seq<SurfaceEntryView<P>>,
    index: int,
    live_id: SurfaceId,
) -> Seq<SurfaceEntryView<P>> {
    entries.update(index, SurfaceEntryView { live_id: Some(live_id), ..entries[index] })
}

proof fn lemma_position_of<P>(
    entries: Seq<SurfaceEntryView<P>>,
    kind: Seq<char>,
    title: Seq<char>,
    at: int,
)
    requires
        0 <= at <= entries.len(),
        forall|j: int| 0 <= j < at ==> !is_named(#[trigger] entries[j], kind, title),
        at < entries.len() ==> is_named(entries[at], kind, title),
    ensures
        position_of(entries, kind, title) == at,
    decreases entries.len(),
{
    if entries.len() > 0 && at > 0 {
        assert(!is_named(entries[0], kind, title));
        assert forall|j: int| 0 <= j < at - 1 implies !is_named(
            #[trigger] entries.skip(1)[j],
            kind,
            title,
        ) by {
            assert(!is_named(entries[j + 1], kind, title));
        }
        lemma_position_of(entries.skip(1), kind, title, at - 1);
    }
}

/// What the store of surfaces holds.
pub struct SessionSurfacesView<P> {
    /// The surfaces by session.
    pub sessions: Map<Seq<char>, Seq<SurfaceEntryView<P>>>,
    /// Whether they have been loaded from disk.
    pub loaded: bool,
}

impl<P> View for SessionSurfaces<P> {
    type V = SessionSurfacesView<P>;

    open spec fn view(&self) -> SessionSurfacesView<P> {
        SessionSurfacesView { sessions: sessions_map(self.sessions@), loaded: self.loaded }
    }
}

/// Records a surface in a session's list.
fn record_entry<P>(
    entries: &mut Vec<SurfaceEntry<P>>,
    kind: &str,
    title: String,
    params: P,
    live_id: SurfaceId,
)
    ensures
        entries_view(final(entries)@) == recorded(
            entries_view(old(entries)@),
            kind@,
            title@,
            params,
            live_id,
        ),
{
    let mut i: usize = 0;
    while i < entries.len()
        invariant
            i <= entries@.len(),
            entries@ == old(entries)@,
            forall|j: int|
                0 <= j < i ==> !is_named(#[trigger] entries_view(entries@)[j], kind@, title@),
        decreases entries@.len() - i,
    {
        if same_text(entries[i].kind.as_str(), kind) && entries[i].title == title {
            proof {
                lemma_position_of(entries_view(entries@), kind@, title@, i as int);
            }
            entries[i].params = params;
            entries[i].live_id = Some(live_id);
            assert(entries_view(entries@) =~= recorded(
                entries_view(old(entries)@),
                kind@,
                title@,
                params,
                live_id,
            ));
            return ;
        }
        i = i + 1;
    }
    proof {
        lemma_position_of(entries_view(entries@), kind@, title@, i as int);
    }
    entries.push(
        SurfaceEntry { kind: kind.to_owned(), title, params, live_id: Some(live_id) },
    );
    assert(entries_view(entries@) =~= recorded(
        entries_view(old(entries)@),
        kind@,
        title@,
        params,
        live_id,
    ));
}

/// The surfaces of a session as they come back from disk.
fn restore_entries<P>(surfaces: Vec<PersistedSurface<P>>) -> (entries: Vec<SurfaceEntry<P>>)
    ensures
        entries_view(entries@) == restored_entries(persisted_view(surfaces@)),
{
    let mut entries: Vec<SurfaceEntry<P>> = Vec::new();
    let ghost all = surfaces@;
    for surface in it: surfaces.into_iter()
        invariant
            it.seq() == all,
            entries_view(entries@) == restored_entries(persisted_view(all)).take(
                it.index() as int,
            ),
    {
        let ghost before = entries_view(entries@);
        entries.push(
            SurfaceEntry {
                kind: surface.kind,
                title: surface.title,
                params: surface.params,
                live_id: None,
            },
        );
        proof {
            let at = it.index() as int;
            let target = restored_entries(persisted_view(all));
            assert(entries_view(entries@) =~= before.push(target[at]));
            assert(target.take(at + 1) =~= target.take(at).push(target[at]));
        }
    }
    assert(entries_view(entries@) =~= restored_entries(persisted_view(all)));
    entries
}

impl<P> SessionSurfaces<P> {
    /// No session is listed twice.
    pub open spec fn wf(self) -> bool {
        distinct_keys(session_list(self.sessions@))
    }

    /// No surfaces, and nothing loaded yet.
    pub fn new() -> (store: SessionSurfaces<P>)
        ensures
            store.wf(),
            !store.loaded,
            store@.sessions == Map::<Seq<char>, Seq<SurfaceEntryView<P>>>::empty(),
    {
        SessionSurfaces { sessions: Vec::new(), loaded: false }
    }

    /// Where a session stands.
    fn position(&self, session: &str) -> (found: Option<usize>)
        requires
            self.wf(),
        ensures
            match found {
                Some(i) => i < self.sessions@.len() && self.sessions@[i as int].session@ == session@
                    && self@.sessions.contains_key(session@) && self@.sessions[session@] == entries_view(
                    self.sessions@[i as int].entries@,
                ),
                None => !self@.sessions.contains_key(session@) && forall|j: int|
                    0 <= j < self.sessions@.len() ==> (#[trigger] self.sessions@[j]).session@
                        != session@,
            },
    {
        let mut i: usize = 0;
        while i < self.sessions.len()
            invariant
                self.wf(),
                i <= self.sessions@.len(),
                forall|j: int| 0 <= j < i ==> (#[trigger] self.sessions@[j]).session@ != session@,
            decreases self.sessions@.len() - i,
        {
            if same_text(self.sessions[i].session.as_str(), session) {
                proof {
                    lemma_keyed_at(session_list(self.sessions@), i as int);
                }
                return Some(i);
            }
            i = i + 1;
        }
        proof {
            lemma_keyed_lacks(session_list(self.sessions@), session@);
        }
        None
    }

    /// Sets the surfaces of a session.
    fn set_entries(&mut self, session: SessionKey, entries: Vec<SurfaceEntry<P>>)
        requires
            old(self).wf(),
        ensures
            final(self).wf(),
            final(self).loaded == old(self).loaded,
            final(self)@.sessions == old(self)@.sessions.insert(session@, entries_view(entries@)),
    {
        match self.position(session.as_str()) {
            Some(i) => {
                let ghost listed = entries_view(entries@);
                proof {
                    lemma_keyed_update(session_list(self.sessions@), i as int, listed);
                }
                self.sessions[i].entries = entries;
                assert(session_list(self.sessions@) =~= session_list(old(self).sessions@).update(
                    i as int,
                    (session@, listed),
                ));
            },
            None => {
                let ghost listed = entries_view(entries@);
                let ghost name = session@;
                proof {
                    lemma_keyed_push(session_list(self.sessions@), name, listed);
                }
                self.sessions.push(SessionEntries { session, entries });
                assert(session_list(self.sessions@) =~= session_list(old(self).sessions@).push(
                    (name, listed),
                ));
            },
        }
    }

    /// Records a surface of a session.
    pub fn record(
        &mut self,
        session: SessionKey,
        kind: &str,
        title: String,
        params: P,
        live_id: SurfaceId,
    )
        requires
            old(self).wf(),
        ensures
            final(self).wf(),
            final(self).loaded == old(self).loaded,
            final(self)@.sessions == old(self)@.sessions.insert(
                session@,
                recorded(entries_of(old(self)@.sessions, session@), kind@, title@, params, live_id),
            ),
    {
        match self.position(session.as_str()) {
            Some(i) => {
                record_entry(&mut self.sessions[i].entries, kind, title, params, live_id);
                proof {
                    let listed = entries_view(self.sessions@[i as int].entries@);
                    lemma_keyed_update(session_list(old(self).sessions@), i as int, listed);
                    assert(session_list(self.sessions@) =~= session_list(
                        old(self).sessions@,
                    ).update(i as int, (session@, listed)));
                }
            },
            None => {
                let mut entries: Vec<SurfaceEntry<P>> = Vec::new();
                assert(entries_view(entries@) =~= Seq::<SurfaceEntryView<P>>::empty());
                record_entry(&mut entries, kind, title, params, live_id);
                let ghost listed = entries_view(entries@);
                let ghost name = session@;
                proof {
                    lemma_keyed_push(session_list(self.sessions@), name, listed);
                }
                self.sessions.push(SessionEntries { session, entries });
                assert(session_list(self.sessions@) =~= session_list(old(self).sessions@).push(
                    (name, listed),
                ));
            },
        }
    }
}

/// The sessions held by a store, none where there is no store yet.
pub open spec fn sessions_in<P>(store: Option<SessionSurfaces<P>>) -> Map<
    Seq<char>,
    Seq<SurfaceEntryView<P>>,
> {
    match store {
        Some(store) => store@.sessions,
        None => Map::empty(),
    }
}

/// Whether the sessions still have to be read from disk.
pub open spec fn unloaded<P>(store: Option<SessionSurfaces<P>>) -> bool {
    !(store is Some && store->0.loaded)
}

/// The sessions after loading: what was on disk, where nothing had been loaded
/// before.
pub open spec fn loaded_sessions<P>(
    store: Option<SessionSurfaces<P>>,
    on_disk: Seq<PersistedSession<P>>,
) -> Map<Seq<char>, Seq<SurfaceEntryView<P>>> {
    if unloaded(store) {
        restored(persisted_map(on_disk))
    } else {
        store->0@.sessions
    }
}

/// Whether the sessions still have to be read from disk.
pub fn needs_load<P>(store: &Option<SessionSurfaces<P>>) -> (needed: bool)
    ensures
        needed == unloaded(*store),
{
    match store {
        Some(store) => !store.loaded,
        None => true,
    }
}

/// The sessions as they come back from disk.
fn read_persisted<P>(on_disk: Vec<PersistedSession<P>>) -> (store: SessionSurfaces<P>)
    ensures
        store.wf(),
        store.loaded,
        store@.sessions == restored(persisted_map(on_disk@)),
{
    let mut store: SessionSurfaces<P> = SessionSurfaces { sessions: Vec::new(), loaded: true };
    let ghost all = on_disk@;
    assert(persisted_map(all.take(0)) == Map::<Seq<char>, Seq<PersistedSurfaceView<P>>>::empty());
    assert(store@.sessions =~= restored(persisted_map(all.take(0))));
    for session in it: on_disk.into_iter()
        invariant
            it.seq() == all,
            store.wf(),
            store.loaded,
            store@.sessions == restored(persisted_map(all.take(it.index() as int))),
    {
        proof {
            let at = it.index() as int;
            assert(all.take(at + 1).drop_last() =~= all.take(at));
            assert(all.take(at + 1).last() == session);
            let before = persisted_map(all.take(at));
            let surfaces = persisted_view(session.surfaces@);
            assert(restored(before.insert(session.session@, surfaces)) =~= restored(before).insert(
                session.session@,
                restored_entries(surfaces),
            ));
        }
        let entries = restore_entries(session.surfaces);
        store.set_entries(SessionKey::new(session.session), entries);
    }
    assert(all.take(all.len() as int) =~= all);
    store
}

/// Loads the sessions from disk, once. Safe to call repeatedly: after the first call
/// what is on disk is not looked at (see [`needs_load`]). A missing or unreadable file
/// counts as an empty one.
pub fn load_persisted<P>(
    store: &mut Option<SessionSurfaces<P>>,
    on_disk: Vec<PersistedSession<P>>,
)
    requires
        *old(store) is Some ==> (*old(store))->0.wf(),
    ensures
        *final(store) is Some,
        (*final(store))->0.wf(),
        (*final(store))->0.loaded,
        sessions_in(*final(store)) == loaded_sessions(*old(store), on_disk@),
        !unloaded(*old(store)) ==> *final(store) == *old(store),
{
    if needs_load(store) {
        *store = Some(read_persisted(on_disk));
    }
}

/// Records that `session` created a surface, so a UI can later (re)open it. If a
/// surface with the same `kind` and `title` already exists for the session, it is
/// updated in place (canvases are keyed by title on disk, so re-creating one
/// shouldn't duplicate the entry). The sessions are loaded first where they have not
/// been; the result has to be written to disk, see
/// [`SessionSurfaces::write_persisted`].
pub fn record_session_surface<P>(
    store: &mut Option<SessionSurfaces<P>>,
    on_disk: Vec<PersistedSession<P>>,
    session: SessionKey,
    kind: &str,
    title: String,
    params: P,
    live_id: SurfaceId,
)
    requires
        *old(store) is Some ==> (*old(store))->0.wf(),
    ensures
        *final(store) is Some,
        (*final(store))->0.wf(),
        (*final(store))->0.loaded,
        ({
            let sessions = loaded_sessions(*old(store), on_disk@);
            sessions_in(*final(store)) == sessions.insert(
                session@,
                recorded(entries_of(sessions, session@), kind@, title@, params, live_id),
            )
        }),
{
    load_persisted(store, on_disk);
    match store {
        Some(loaded) => {
            loaded.record(session, kind, title, params, live_id);
        },
        None => {},
    }
}

/// What a UI shows of the surfaces of a session.
pub open spec fn is_info_of<P>(
    info: SurfaceInfo,
    entries: Seq<SurfaceEntryView<P>>,
    index: int,
) -> bool {
    info.index == index && info.kind@ == entries[index].kind && info.title@ == entries[index].title
}

/// The surfaces created in `session`, in creation order.
pub fn session_surfaces<P>(
    session: &SessionKey,
    store: &Option<SessionSurfaces<P>>,
) -> (surfaces: Vec<SurfaceInfo>)
    requires
        *store is Some ==> store->0.wf(),
    ensures
        surfaces@.len() == entries_of(sessions_in(*store), session@).len(),
        forall|i: int|
            0 <= i < surfaces@.len() ==> is_info_of(
                #[trigger] surfaces@[i],
                entries_of(sessions_in(*store), session@),
                i,
            ),
        forall|i: int|
            0 <= i < surfaces@.len() ==> (#[trigger] surfaces@[i]).index == i
                && surfaces@[i].kind@ == entries_of(sessions_in(*store), session@)[i].kind
                && surfaces@[i].title@ == entries_of(sessions_in(*store), session@)[i].title,
{
    let mut surfaces: Vec<SurfaceInfo> = Vec::new();
    let store = match store {
        Some(store) => store,
        None => {
            return surfaces;
        },
    };
    let at = match store.position(session.as_str()) {
        Some(at) => at,
        None => {
            return surfaces;
        },
    };
    let entries = &store.sessions[at].entries;
    let mut i: usize = 0;
    while i < entries.len()
        invariant
            i <= entries@.len(),
            surfaces@.len() == i,
            forall|j: int|
                0 <= j < i ==> is_info_of(#[trigger] surfaces@[j], entries_view(entries@), j),
        decreases entries@.len() - i,
    {
        surfaces.push(
            SurfaceInfo {
                index: i,
                kind: entries[i].kind.clone(),
                title: entries[i].title.clone(),
            },
        );
        i = i + 1;
    }
    surfaces
}

/// A recorded surface on its way to disk.
pub struct SurfaceToWrite<'a, P> {
    pub kind: &'a str,
    pub title: &'a str,
    pub params: &'a P,
}

impl<'a, P> View for SurfaceToWrite<'a, P> {
    type V = PersistedSurfaceView<P>;

    open spec fn view(&self) -> PersistedSurfaceView<P> {
        PersistedSurfaceView { kind: self.kind@, title: self.title@, params: *self.params }
    }
}

/// The surfaces of one session on their way to disk.
pub struct SessionToWrite<'a, P> {
    pub session: &'a str,
    pub surfaces: Vec<SurfaceToWrite<'a, P>>,
}

/// What each surface on its way to disk holds.
pub open spec fn written_view<P>(surfaces: Seq<SurfaceToWrite<P>>) -> Seq<
    PersistedSurfaceView<P>,
> {
    surfaces.map_values(|surface: SurfaceToWrite<P>| surface@)
}

/// The surfaces on their way to disk by session.
pub open spec fn written_map<P>(sessions: Seq<SessionToWrite<P>>) -> Map<
    Seq<char>,
    Seq<PersistedSurfaceView<P>>,
>
    decreases sessions.len(),
{
    if sessions.len() == 0 {
        Map::empty()
    } else {
        written_map(sessions.drop_last()).insert(
            sessions.last().session@,
            written_view(sessions.last().surfaces@),
        )
    }
}

/// Whether no session is written twice.
pub open spec fn distinct_to_write<P>(sessions: Seq<SessionToWrite<P>>) -> bool {
    forall|i: int, j: int|
        0 <= i < j < sessions.len() ==> (#[trigger] sessions[i]).session@ != (
        #[trigger] sessions[j]).session@
}

impl<P> SessionSurfaces<P> {
    /// The sessions as they go to disk: each once, with its surfaces in order and
    /// without their live instances.
    pub fn write_persisted(&self) -> (on_disk: Vec<SessionToWrite<'_, P>>)
        requires
            self.wf(),
        ensures
            distinct_to_write(on_disk@),
            forall|i: int, j: int|
                0 <= i < j < on_disk@.len() ==> (#[trigger] on_disk@[i]).session@ != (
                #[trigger] on_disk@[j]).session@,
            written_map(on_disk@) == persisted(self@.sessions),
    {
        let mut on_disk: Vec<SessionToWrite<P>> = Vec::new();
        let mut i: usize = 0;
        proof {
            assert(self.sessions@.take(0) =~= Seq::<SessionEntries<P>>::empty());
            assert(written_map(on_disk@) =~= persisted(sessions_map(self.sessions@.take(0))));
        }
        while i < self.sessions.len()
            invariant
                self.wf(),
                i <= self.sessions@.len(),
                on_disk@.len() == i,
                forall|j: int|
                    0 <= j < i ==> (#[trigger] on_disk@[j]).session@
                        == self.sessions@[j].session@,
                written_map(on_disk@) == persisted(sessions_map(self.sessions@.take(i as int))),
            decreases self.sessions@.len() - i,
        {
            let entries = &self.sessions[i].entries;
            let mut surfaces: Vec<SurfaceToWrite<P>> = Vec::new();
            let mut k: usize = 0;
            while k < entries.len()
                invariant
                    k <= entries@.len(),
                    surfaces@.len() == k,
                    forall|j: int|
                        0 <= j < k ==> (#[trigger] surfaces@[j])@ == persisted_entry(
                            entries_view(entries@)[j],
                        ),
                decreases entries@.len() - k,
            {
                surfaces.push(
                    SurfaceToWrite {
                        kind: entries[k].kind.as_str(),
                        title: entries[k].title.as_str(),
                        params: &entries[k].params,
                    },
                );
                k = k + 1;
            }
            let ghost before = on_disk@;
            let session = self.sessions[i].session.as_str();
            on_disk.push(SessionToWrite { session, surfaces });
            proof {
                assert(on_disk@.drop_last() =~= before);
                let listed = entries_view(entries@);
                let written = session_list(self.sessions@.take(i as int));
                lemma_keyed_push(written, self.sessions@[i as int].session@, listed);
                assert(session_list(self.sessions@.take(i + 1)) =~= written.push(
                    (self.sessions@[i as int].session@, listed),
                ));
                assert(written_view(surfaces@) =~= persisted_entries(listed));
                let earlier = sessions_map(self.sessions@.take(i as int));
                assert(persisted(earlier.insert(self.sessions@[i as int].session@, listed))
                    =~= persisted(earlier).insert(
                    self.sessions@[i as int].session@,
                    persisted_entries(listed),
                ));
            }
            i = i + 1;
        }
        proof {
            assert(self.sessions@.take(i as int) =~= self.sessions@);
            assert forall|i: int, j: int| 0 <= i < j < on_disk@.len() implies (
            #[trigger] on_disk@[i]).session@ != (#[trigger] on_disk@[j]).session@ by {
                assert(session_list(self.sessions@)[i].0 != session_list(self.sessions@)[j].0);
            }
        }
        on_disk
    }

    /// Takes note that the surface at `index` of `session` is live again as `live_id`.
    pub fn note_reopened(&mut self, session: &SessionKey, index: usize, live_id: SurfaceId)
        requires
            old(self).wf(),
        ensures
            final(self).wf(),
            final(self).loaded == old(self).loaded,
            final(self)@.sessions == if index < entries_of(old(self)@.sessions, session@).len() {
                old(self)@.sessions.insert(
                    session@,
                    reopened(old(self)@.sessions[session@], index as int, live_id),
                )
            } else {
                old(self)@.sessions
            },
            final(self)@.sessions.dom() == old(self)@.sessions.dom(),
            forall|other: Seq<char>|
                old(self)@.sessions.contains_key(other) ==> (
                #[trigger] final(self)@.sessions[other]).len()
                    == old(self)@.sessions[other].len(),
            forall|other: Seq<char>, i: int|
                old(self)@.sessions.contains_key(other) && 0 <= i
                    < old(self)@.sessions[other].len() ==> {
                    let now = #[trigger] final(self)@.sessions[other][i];
                    let before = old(self)@.sessions[other][i];
                    &&& now.kind == before.kind
                    &&& now.title == before.title
                    &&& now.params == before.params
                    &&& now.live_id == if other == session@ && i == index {
                        Some(live_id)
                    } else {
                        before.live_id
                    }
                },
    {
        match self.position(session.as_str()) {
            Some(i) => {
                if index < self.sessions[i].entries.len() {
                    self.sessions[i].entries[index].live_id = Some(live_id);
                    proof {
                        let listed = entries_view(self.sessions@[i as int].entries@);
                        lemma_keyed_update(session_list(old(self).sessions@), i as int, listed);
                        assert(session_list(self.sessions@) =~= session_list(
                            old(self).sessions@,
                        ).update(i as int, (session@, listed)));
                        assert(listed =~= reopened(
                            old(self)@.sessions[session@],
                            index as int,
                            live_id,
                        ));
                        assert(self@.sessions.dom() =~= old(self)@.sessions.dom());
                    }
                }
            },
            None => {},
        }
    }

    /// The surface at `index` of `session`.
    fn entry(&self, session: &SessionKey, index: usize) -> (entry: Option<&SurfaceEntry<P>>)
        requires
            self.wf(),
        ensures
            match entry {
                Some(found) => index < entries_of(self@.sessions, session@).len() && found@ == entries_of(
                    self@.sessions,
                    session@,
                )[index as int],
                None => index >= entries_of(self@.sessions, session@).len(),
            },
    {
        match self.position(session.as_str()) {
            Some(i) => {
                if index < self.sessions[i].entries.len() {
                    Some(&self.sessions[i].entries[index])
                } else {
                    None
                }
            },
            None => None,
        }
    }
}

/// How focusing the surface `entry` through its provider may turn out, where `mid` is
/// the host between focusing and opening and `new_id` what was opened, if anything.
pub open spec fn focus_turns_out<P, H, V: SurfaceProvider<P, H>>(
    provider: V,
    entry: SurfaceEntryView<P>,
    before: H,
    mid: H,
    after: H,
    new_id: Option<SurfaceId>,
    outcome: Result<(), SurfaceError>,
) -> bool {
    // The live instance came to the foreground, or the provider failed to say.
    ||| {
        &&& entry.live_id is Some
        &&& new_id is None
        &&& match outcome {
            Ok(()) => provider.focuses(entry.live_id->0, before, after, Ok(true)),
            Err(error) => provider.focuses(entry.live_id->0, before, after, Err(error)),
        }
    }
    // There was no live instance, and the surface was opened again.

    ||| {
        &&& match entry.live_id {
            Some(id) => provider.focuses(id, before, mid, Ok(false)),
            None => mid == before,
        }
        &&& match outcome {
            Ok(()) => new_id is Some && provider.opens(entry.params, mid, after, Ok(new_id->0)),
            Err(error) => new_id is None && provider.opens(entry.params, mid, after, Err(error)),
        }
    }
}

/// The sessions after focusing: the surface is live as what was opened, if anything.
pub open spec fn sessions_after_focus<P>(
    sessions: Map<Seq<char>, Seq<SurfaceEntryView<P>>>,
    session: Seq<char>,
    index: int,
    new_id: Option<SurfaceId>,
) -> Map<Seq<char>, Seq<SurfaceEntryView<P>>> {
    match new_id {
        Some(id) => sessions.insert(session, reopened(sessions[session], index, id)),
        None => sessions,
    }
}

/// What follows an attempt to focus a live instance.
#[derive(Debug)]
pub enum FocusStep {
    /// The instance is in the foreground.
    Shown,
    /// The provider failed.
    Failed(SurfaceError),
    /// The instance is gone: the surface has to be opened again.
    Open,
}

/// What follows an attempt to focus a live instance that turned out as `focused`.
pub fn after_focus(focused: Result<bool, SurfaceError>) -> (step: FocusStep)
    ensures
        step == match focused {
            Ok(true) => FocusStep::Shown,
            Ok(false) => FocusStep::Open,
            Err(error) => FocusStep::Failed(error),
        },
{
    match focused {
        Ok(shown) => {
            if shown {
                FocusStep::Shown
            } else {
                FocusStep::Open
            }
        },
        Err(error) => FocusStep::Failed(error),
    }
}

/// Brings the `index`-th surface of `session` to the foreground, reopening it from its
/// persisted params if the live instance is gone.
pub fn focus_surface<P, H, V: SurfaceProvider<P, H>>(
    session: &SessionKey,
    index: usize,
    store: &mut Option<SessionSurfaces<P>>,
    registry: &SurfaceRegistry<V>,
    host: &mut H,
) -> (outcome: Result<(), SurfaceError>)
    requires
        *old(store) is Some ==> (*old(store))->0.wf(),
        registry.wf(),
    ensures
        *final(store) is Some <==> *old(store) is Some,
        *final(store) is Some ==> (*final(store))->0.wf() && (*final(store))->0.loaded == (*old(
            store,
        ))->0.loaded,
        sessions_in(*final(store)).dom() == sessions_in(*old(store)).dom(),
        forall|other: Seq<char>|
            sessions_in(*old(store)).contains_key(other) ==> (#[trigger] sessions_in(
                *final(store),
            )[other]).len() == sessions_in(*old(store))[other].len(),
        forall|other: Seq<char>, i: int|
            sessions_in(*old(store)).contains_key(other) && 0 <= i < sessions_in(
                *old(store),
            )[other].len() ==> (#[trigger] sessions_in(*final(store))[other][i]).kind
                == sessions_in(*old(store))[other][i].kind && sessions_in(
                *final(store),
            )[other][i].title == sessions_in(*old(store))[other][i].title && sessions_in(
                *final(store),
            )[other][i].params == sessions_in(*old(store))[other][i].params && (other != session@
                || i != index ==> sessions_in(*final(store))[other][i].live_id == sessions_in(
                *old(store),
            )[other][i].live_id),
        ({
            let sessions = sessions_in(*old(store));
            let entries = entries_of(sessions, session@);
            let unchanged = *final(store) == *old(store) && *final(host) == *old(host);
            if *old(store) is None {
                outcome matches Err(SurfaceError::NothingRecorded) && unchanged
            } else if index >= entries.len() {
                (outcome matches Err(SurfaceError::NoSurface { index: missing }) && missing
                    == index) && unchanged
            } else if !registry@.contains_key(entries[index as int].kind) {
                (outcome matches Err(SurfaceError::NoProvider { kind }) && kind@
                    == entries[index as int].kind) && unchanged
            } else {
                exists|mid: H, new_id: Option<SurfaceId>|
                    #[trigger] focus_turns_out(
                        registry@[entries[index as int].kind],
                        entries[index as int],
                        *old(host),
                        mid,
                        *final(host),
                        new_id,
                        outcome,
                    ) && sessions_in(*final(store)) == sessions_after_focus(
                        sessions,
                        session@,
                        index as int,
                        new_id,
                    )
            }
        }),
{
    let ghost sessions = sessions_in(*store);
    let ghost start = *host;
    match store {
        None => Err(SurfaceError::NothingRecorded),
        Some(inner) => {
            let entry = match inner.entry(session, index) {
                Some(entry) => entry,
                None => {
                    return Err(SurfaceError::NoSurface { index });
                },
            };
            let provider = match registry.provider_for(entry.kind.as_str()) {
                Ok(provider) => provider,
                Err(error) => {
                    return Err(error);
                },
            };
            let ghost listed = entry@;
            match entry.live_id {
                Some(id) => {
                    match after_focus(provider.focus(id, host)) {
                        FocusStep::Shown => {
                            assert(focus_turns_out(
                                *provider,
                                listed,
                                start,
                                start,
                                *host,
                                None,
                                Ok::<(), SurfaceError>(()),
                            ));
                            return Ok(());
                        },
                        FocusStep::Open => {},
                        FocusStep::Failed(error) => {
                            assert(focus_turns_out(
                                *provider,
                                listed,
                                start,
                                start,
                                *host,
                                None,
                                Err::<(), SurfaceError>(error),
                            ));
                            return Err(error);
                        },
                    }
                },
                None => {},
            }
            let ghost mid = *host;
            match provider.open(&entry.params, host) {
                Ok(new_id) => {
                    assert(focus_turns_out(
                        *provider,
                        listed,
                        start,
                        mid,
                        *host,
                        Some(new_id),
                        Ok::<(), SurfaceError>(()),
                    ));
                    inner.note_reopened(session, index, new_id);
                    Ok(())
                },
                Err(error) => {
                    assert(focus_turns_out(
                        *provider,
                        listed,
                        start,
                        mid,
                        *host,
                        None,
                        Err::<(), SurfaceError>(error),
                    ));
                    Err(error)
                },
            }
        },
    }
}

// Laws of the record of surfaces.

/// The sessions with no surface live.
pub open spec fn none_live<P>(sessions: Map<Seq<char>, Seq<SurfaceEntryView<P>>>) -> Map<
    Seq<char>,
    Seq<SurfaceEntryView<P>>,
> {
    sessions.map_values(
        |entries: Seq<SurfaceEntryView<P>>|
            entries.map_values(
                |entry: SurfaceEntryView<P>| SurfaceEntryView { live_id: None, ..entry },
            ),
    )
}

/// The association survives restarts: what is written to disk and loaded again is
/// what was recorded, with every kind, title, parameter and order, and nothing live.
pub proof fn law_persisted_sessions_survive<P>(
    sessions: Map<Seq<char>, Seq<SurfaceEntryView<P>>>,
)
    ensures
        restored(persisted(sessions)) == none_live(sessions),
{
    assert forall|session: Seq<char>| sessions.contains_key(session) implies restored(
        persisted(sessions),
    )[session] == #[trigger] none_live(sessions)[session] by {
        assert(restored(persisted(sessions))[session] =~= none_live(sessions)[session]);
    }
    assert(restored(persisted(sessions)) =~= none_live(sessions));
}

/// Whether no two surfaces share kind and title.
pub open spec fn distinct_names<P>(entries: Seq<SurfaceEntryView<P>>) -> bool {
    forall|i: int, j: int|
        0 <= i < j < entries.len() ==> !((#[trigger] entries[i]).kind == (
        #[trigger] entries[j]).kind && entries[i].title == entries[j].title)
}

proof fn lemma_position_bounds<P>(
    entries: Seq<SurfaceEntryView<P>>,
    kind: Seq<char>,
    title: Seq<char>,
)
    ensures
        0 <= position_of(entries, kind, title) <= entries.len(),
        position_of(entries, kind, title) < entries.len() ==> is_named(
            entries[position_of(entries, kind, title)],
            kind,
            title,
        ),
        forall|j: int|
            0 <= j < position_of(entries, kind, title) ==> !is_named(
                #[trigger] entries[j],
                kind,
                title,
            ),
    decreases entries.len(),
{
    if entries.len() > 0 && !is_named(entries[0], kind, title) {
        lemma_position_bounds(entries.skip(1), kind, title);
        let at = position_of(entries.skip(1), kind, title);
        assert forall|j: int| 0 <= j < at + 1 implies !is_named(
            #[trigger] entries[j],
            kind,
            title,
        ) by {
            if j > 0 {
                assert(!is_named(entries.skip(1)[j - 1], kind, title));
            }
        }
    }
}

/// Recording a surface lists it under its kind and title, with its parameters and
/// live; every surface listed before keeps its place, kind and title, and those of
/// another name keep everything.
pub proof fn law_record_lists<P>(
    entries: Seq<SurfaceEntryView<P>>,
    kind: Seq<char>,
    title: Seq<char>,
    params: P,
    live_id: SurfaceId,
)
    ensures
        recorded(entries, kind, title, params, live_id).contains(
            SurfaceEntryView { kind, title, params, live_id: Some(live_id) },
        ),
        entries.len() <= recorded(entries, kind, title, params, live_id).len() <= entries.len() + 1,
        forall|i: int|
            0 <= i < entries.len() ==> (#[trigger] recorded(
                entries,
                kind,
                title,
                params,
                live_id,
            )[i]).kind == entries[i].kind && recorded(entries, kind, title, params, live_id)[i].title
                == entries[i].title,
        forall|i: int|
            0 <= i < entries.len() && !is_named(entries[i], kind, title) ==> #[trigger] recorded(
                entries,
                kind,
                title,
                params,
                live_id,
            )[i] == entries[i],
{
    lemma_position_bounds(entries, kind, title);
    let at = position_of(entries, kind, title);
    let result = recorded(entries, kind, title, params, live_id);
    assert(result[at] == (SurfaceEntryView { kind, title, params, live_id: Some(live_id) }));
}

/// Recording a surface under a name that is taken makes no second entry: a session
/// whose surfaces have distinct names keeps them distinct.
pub proof fn law_record_keeps_names_distinct<P>(
    entries: Seq<SurfaceEntryView<P>>,
    kind: Seq<char>,
    title: Seq<char>,
    params: P,
    live_id: SurfaceId,
)
    requires
        distinct_names(entries),
    ensures
        distinct_names(recorded(entries, kind, title, params, live_id)),
{
    lemma_position_bounds(entries, kind, title);
    law_record_lists(entries, kind, title, params, live_id);
    let result = recorded(entries, kind, title, params, live_id);
    assert forall|i: int, j: int| 0 <= i < j < result.len() implies !((#[trigger] result[i]).kind
        == (#[trigger] result[j]).kind && result[i].title == result[j].title) by {
        if j < entries.len() {
            assert(!(entries[i].kind == entries[j].kind && entries[i].title == entries[j].title));
        } else {
            assert(!is_named(entries[i], kind, title));
        }
    }
}

/// Of two records under one name the later one counts, and it takes the place of the
/// earlier one.
pub proof fn law_record_again_replaces<P>(
    entries: Seq<SurfaceEntryView<P>>,
    kind: Seq<char>,
    title: Seq<char>,
    params: P,
    live_id: SurfaceId,
    later_params: P,
    later_id: SurfaceId,
)
    ensures
        recorded(
            recorded(entries, kind, title, params, live_id),
            kind,
            title,
            later_params,
            later_id,
        ) == recorded(entries, kind, title, later_params, later_id),
{
    lemma_position_bounds(entries, kind, title);
    let at = position_of(entries, kind, title);
    let once = recorded(entries, kind, title, params, live_id);
    assert forall|j: int| 0 <= j < at implies !is_named(#[trigger] once[j], kind, title) by {
        assert(!is_named(entries[j], kind, title));
    }
    lemma_position_of(once, kind, title, at);
    assert(recorded(once, kind, title, later_params, later_id) =~= recorded(
        entries,
        kind,
        title,
        later_params,
        later_id,
    ));
}

/// Opening a surface again changes nothing of its session's list but that it is live:
/// the number and the order of the surfaces, every kind, title and parameter stay, and
/// so does the live instance of every other surface.
pub proof fn law_reopening_keeps_the_list<P>(
    entries: Seq<SurfaceEntryView<P>>,
    index: int,
    live_id: SurfaceId,
)
    requires
        0 <= index < entries.len(),
    ensures
        reopened(entries, index, live_id).len() == entries.len(),
        forall|i: int|
            0 <= i < entries.len() ==> (#[trigger] reopened(entries, index, live_id)[i]).kind
                == entries[i].kind && reopened(entries, index, live_id)[i].title == entries[i].title
                && reopened(entries, index, live_id)[i].params == entries[i].params,
        reopened(entries, index, live_id)[index].live_id == Some(live_id),
        forall|i: int|
            0 <= i < entries.len() && i != index ==> (#[trigger] reopened(
                entries,
                index,
                live_id,
            )[i]).live_id == entries[i].live_id,
{
}

/// Focusing a surface changes neither the number nor the order nor any kind, title or
/// parameter of the surfaces of any session. The surface at the index that was focused
/// is live as what was opened, where anything was; every other live instance stays.
pub proof fn law_focusing_keeps_the_lists<P>(
    sessions: Map<Seq<char>, Seq<SurfaceEntryView<P>>>,
    session: Seq<char>,
    index: int,
    new_id: Option<SurfaceId>,
)
    requires
        sessions.contains_key(session),
        0 <= index < sessions[session].len(),
    ensures
        sessions_after_focus(sessions, session, index, new_id).dom() == sessions.dom(),
        forall|other: Seq<char>|
            sessions.contains_key(other) && other != session ==> #[trigger] sessions_after_focus(
                sessions,
                session,
                index,
                new_id,
            )[other] == sessions[other],
        sessions_after_focus(sessions, session, index, new_id)[session].len()
            == sessions[session].len(),
        forall|i: int|
            0 <= i < sessions[session].len() ==> (#[trigger] sessions_after_focus(
                sessions,
                session,
                index,
                new_id,
            )[session][i]).kind == sessions[session][i].kind && sessions_after_focus(
                sessions,
                session,
                index,
                new_id,
            )[session][i].title == sessions[session][i].title && sessions_after_focus(
                sessions,
                session,
                index,
                new_id,
            )[session][i].params == sessions[session][i].params,
        forall|i: int|
            0 <= i < sessions[session].len() ==> (#[trigger] sessions_after_focus(
                sessions,
                session,
                index,
                new_id,
            )[session][i]).live_id == if i == index && new_id is Some {
                new_id
            } else {
                sessions[session][i].live_id
            },
{
    let result = sessions_after_focus(sessions, session, index, new_id);
    assert(result.dom() =~= sessions.dom());
    match new_id {
        Some(id) => {
            law_reopening_keeps_the_list(sessions[session], index, id);
        },
        None => {},
    }
}

/// A live surface is brought to the foreground where its provider can do so, and only
/// where it is gone, or was not live, is it opened again with its own parameters.
pub proof fn law_focus_falls_back_to_opening<P, H, V: SurfaceProvider<P, H>>(
    provider: V,
    entry: SurfaceEntryView<P>,
    before: H,
    mid: H,
    after: H,
    new_id: Option<SurfaceId>,
    outcome: Result<(), SurfaceError>,
)
    requires
        focus_turns_out(provider, entry, before, mid, after, new_id, outcome),
    ensures
        outcome is Err ==> new_id is None,
        new_id is Some ==> provider.opens(entry.params, mid, after, Ok(new_id->0)),
        entry.live_id is None ==> mid == before && match outcome {
            Ok(_) => new_id is Some,
            Err(error) => provider.opens(entry.params, before, after, Err(error)),
        },
        entry.live_id is Some && new_id is Some ==> provider.focuses(
            entry.live_id->0,
            before,
            mid,
            Ok(false),
        ),
        entry.live_id is Some && new_id is None ==> match outcome {
            Ok(_) => provider.focuses(entry.live_id->0, before, after, Ok(true)),
            Err(error) => provider.focuses(entry.live_id->0, before, after, Err(error)) || (
            provider.focuses(entry.live_id->0, before, mid, Ok(false)) && provider.opens(
                entry.params,
                mid,
                after,
                Err(error),
            )),
        },
{
}

/// A surface whose name is taken replaces the first of that name where it stands, and
/// every other surface stays as it is.
pub proof fn law_record_replaces_in_place<P>(
    entries: Seq<SurfaceEntryView<P>>,
    kind: Seq<char>,
    title: Seq<char>,
    params: P,
    live_id: SurfaceId,
    at: int,
)
    requires
        0 <= at < entries.len(),
        entries[at].kind == kind,
        entries[at].title == title,
        forall|j: int|
            0 <= j < at ==> !((#[trigger] entries[j]).kind == kind && entries[j].title == title),
    ensures
        recorded(entries, kind, title, params, live_id).len() == entries.len(),
        recorded(entries, kind, title, params, live_id)[at].kind == kind,
        recorded(entries, kind, title, params, live_id)[at].title == title,
        recorded(entries, kind, title, params, live_id)[at].params == params,
        recorded(entries, kind, title, params, live_id)[at].live_id == Some(live_id),
        forall|i: int|
            0 <= i < entries.len() && i != at ==> #[trigger] recorded(
                entries,
                kind,
                title,
                params,
                live_id,
            )[i] == entries[i],
{
    assert forall|j: int| 0 <= j < at implies !is_named(#[trigger] entries[j], kind, title) by {
        assert(!(entries[j].kind == kind && entries[j].title == title));
    }
    lemma_position_of(entries, kind, title, at);
}

/// A surface of a new name is added at the end, and those before it stay as they are.
pub proof fn law_record_adds_at_the_end<P>(
    entries: Seq<SurfaceEntryView<P>>,
    kind: Seq<char>,
    title: Seq<char>,
    params: P,
    live_id: SurfaceId,
)
    requires
        forall|j: int|
            0 <= j < entries.len() ==> !((#[trigger] entries[j]).kind == kind && entries[j].title
                == title),
    ensures
        recorded(entries, kind, title, params, live_id).len() == entries.len() + 1,
        recorded(entries, kind, title, params, live_id).take(entries.len() as int) == entries,
        recorded(entries, kind, title, params, live_id).last().kind == kind,
        recorded(entries, kind, title, params, live_id).last().title == title,
        recorded(entries, kind, title, params, live_id).last().params == params,
        recorded(entries, kind, title, params, live_id).last().live_id == Some(live_id),
{
    assert forall|j: int| 0 <= j < entries.len() implies !is_named(
        #[trigger] entries[j],
        kind,
        title,
    ) by {
        assert(!(entries[j].kind == kind && entries[j].title == title));
    }
    lemma_position_of(entries, kind, title, entries.len() as int);
    assert(recorded(entries, kind, title, params, live_id).take(entries.len() as int) =~= entries);
}

/// What goes to disk has every session, and of each every surface in order with its
/// kind, title and parameters.
pub proof fn law_everything_is_written<P>(
    sessions: Map<Seq<char>, Seq<SurfaceEntryView<P>>>,
    session: Seq<char>,
    i: int,
)
    ensures
        persisted(sessions).dom() == sessions.dom(),
        sessions.contains_key(session) ==> persisted(sessions)[session].len()
            == sessions[session].len(),
        sessions.contains_key(session) && 0 <= i < sessions[session].len() ==> persisted(
            sessions,
        )[session][i].kind == sessions[session][i].kind && persisted(sessions)[session][i].title
            == sessions[session][i].title && persisted(sessions)[session][i].params
            == sessions[session][i].params,
{
    assert(persisted(sessions).dom() =~= sessions.dom());
}

/// What comes from disk has every session, and of each every surface in order with its
/// kind, title and parameters, and none of them is live.
pub proof fn law_everything_is_read<P>(
    sessions: Map<Seq<char>, Seq<PersistedSurfaceView<P>>>,
    session: Seq<char>,
    i: int,
)
    ensures
        restored(sessions).dom() == sessions.dom(),
        sessions.contains_key(session) ==> restored(sessions)[session].len()
            == sessions[session].len(),
        sessions.contains_key(session) && 0 <= i < sessions[session].len() ==> restored(
            sessions,
        )[session][i].kind == sessions[session][i].kind && restored(sessions)[session][i].title
            == sessions[session][i].title && restored(sessions)[session][i].params
            == sessions[session][i].params && restored(sessions)[session][i].live_id is None,
{
    assert(restored(sessions).dom() =~= sessions.dom());
}

/// A list on disk holds nothing but its sessions, and one more session at its end counts
/// with its own surfaces, whatever was listed before.
pub proof fn law_disk_lists_by_session<P>(
    listed: Seq<PersistedSession<P>>,
    next: PersistedSession<P>,
    i: int,
)
    ensures
        persisted_map(Seq::<PersistedSession<P>>::empty()) == Map::<
            Seq<char>,
            Seq<PersistedSurfaceView<P>>,
        >::empty(),
        persisted_map(listed.push(next)).remove(next.session@) == persisted_map(listed).remove(
            next.session@,
        ),
        persisted_map(listed.push(next)).contains_key(next.session@),
        persisted_map(listed.push(next))[next.session@].len() == next.surfaces@.len(),
        0 <= i < next.surfaces@.len() ==> {
            let found = persisted_map(listed.push(next))[next.session@][i];
            found.kind == next.surfaces@[i].kind@ && found.title == next.surfaces@[i].title@
                && found.params == next.surfaces@[i].params
        },
{
    assert(listed.push(next).drop_last() =~= listed);
    assert(persisted_map(listed.push(next)).remove(next.session@) =~= persisted_map(listed).remove(
        next.session@,
    ));
}

/// A list on its way to disk holds nothing but its sessions, each with its surfaces.
pub proof fn law_written_by_session<P>(
    listed: Seq<SessionToWrite<P>>,
    next: SessionToWrite<P>,
    i: int,
)
    ensures
        written_map(Seq::<SessionToWrite<P>>::empty()) == Map::<
            Seq<char>,
            Seq<PersistedSurfaceView<P>>,
        >::empty(),
        written_map(listed.push(next)).remove(next.session@) == written_map(listed).remove(
            next.session@,
        ),
        written_map(listed.push(next)).contains_key(next.session@),
        written_map(listed.push(next))[next.session@].len() == next.surfaces@.len(),
        0 <= i < next.surfaces@.len() ==> {
            let found = written_map(listed.push(next))[next.session@][i];
            found.kind == next.surfaces@[i].kind@ && found.title == next.surfaces@[i].title@
                && found.params == *next.surfaces@[i].params
        },
{
    assert(listed.push(next).drop_last() =~= listed);
    assert(written_map(listed.push(next)).remove(next.session@) =~= written_map(listed).remove(
        next.session@,
    ));
}

/// In the store, too, a session at the end of the list counts with its own surfaces.
pub proof fn law_store_lists_by_session<P>(
    listed: Seq<SessionEntries<P>>,
    next: SessionEntries<P>,
    i: int,
)
    ensures
        sessions_map(Seq::<SessionEntries<P>>::empty()) == Map::<
            Seq<char>,
            Seq<SurfaceEntryView<P>>,
        >::empty(),
        sessions_map(listed.push(next)).remove(next.session@) == sessions_map(listed).remove(
            next.session@,
        ),
        sessions_map(listed.push(next)).contains_key(next.session@),
        sessions_map(listed.push(next))[next.session@].len() == next.entries@.len(),
        0 <= i < next.entries@.len() ==> {
            let found = sessions_map(listed.push(next))[next.session@][i];
            found.kind == next.entries@[i].kind@ && found.title == next.entries@[i].title@
                && found.params == next.entries@[i].params && found.live_id
                == next.entries@[i].live_id
        },
{
    let before = session_list(listed);
    lemma_keyed_push(before, next.session@, entries_view(next.entries@));
    assert(session_list(listed.push(next)) =~= before.push(
        (next.session@, entries_view(next.entries@)),
    ));
    assert(sessions_map(listed.push(next)).remove(next.session@) =~= sessions_map(listed).remove(
        next.session@,
    ));
    assert(session_list(Seq::<SessionEntries<P>>::empty()) =~= Seq::<
        (Seq<char>, Seq<SurfaceEntryView<P>>),
    >::empty());
}

/// Of the providers the one registered last for a kind counts, and a registry has no
/// others.
pub proof fn law_providers_by_kind<V>(
    registry: SurfaceRegistry<V>,
    listed: Seq<(String, V)>,
    next: (String, V),
)
    ensures
        registry@ == keyed(provider_list(registry.providers@)),
        keyed(provider_list(Seq::<(String, V)>::empty())) == Map::<Seq<char>, V>::empty(),
        keyed(provider_list(listed.push(next))).remove(next.0@) == keyed(
            provider_list(listed),
        ).remove(next.0@),
        keyed(provider_list(listed.push(next))).contains_key(next.0@),
        keyed(provider_list(listed.push(next)))[next.0@] == next.1,
{
    let before = provider_list(listed);
    lemma_keyed_push(before, next.0@, next.1);
    assert(provider_list(listed.push(next)) =~= before.push((next.0@, next.1)));
    assert(keyed(provider_list(listed.push(next))).remove(next.0@) =~= keyed(
        provider_list(listed),
    ).remove(next.0@));
    assert(provider_list(Seq::<(String, V)>::empty()) =~= Seq::<(Seq<char>, V)>::empty());
}

/// Sessions are loaded once: a store that was loaded keeps what it holds, whatever is on
/// disk, and one that was not takes what is on disk, whatever it held.
pub proof fn law_sessions_are_loaded_once<P>(
    store: SessionSurfaces<P>,
    other: SessionSurfaces<P>,
    on_disk: Seq<PersistedSession<P>>,
    changed: Seq<PersistedSession<P>>,
)
    ensures
        store.loaded ==> !unloaded(Some(store)) && loaded_sessions(Some(store), on_disk)
            == sessions_map(store.sessions@),
        !store.loaded ==> unloaded(Some(store)) && loaded_sessions(Some(store), on_disk)
            == restored(persisted_map(on_disk)),
        unloaded(None::<SessionSurfaces<P>>),
        loaded_sessions(None, on_disk) == restored(persisted_map(on_disk)),
        sessions_in(Some(store)) == sessions_map(store.sessions@),
        sessions_in(None::<SessionSurfaces<P>>) == Map::<
            Seq<char>,
            Seq<SurfaceEntryView<P>>,
        >::empty(),
        store.loaded ==> loaded_sessions(Some(store), on_disk) == loaded_sessions(
            Some(store),
            changed,
        ),
        !store.loaded && !other.loaded ==> loaded_sessions(Some(store), on_disk)
            == loaded_sessions(Some(other), on_disk),
{
}

/// A session has the surfaces that are kept for it, and none where none are.
pub proof fn law_session_has_its_own<P>(
    sessions: Map<Seq<char>, Seq<SurfaceEntryView<P>>>,
    session: Seq<char>,
    other: Seq<char>,
    entries: Seq<SurfaceEntryView<P>>,
)
    ensures
        entries_of(sessions.insert(session, entries), session) == entries,
        other != session ==> entries_of(sessions.insert(session, entries), other) == entries_of(
            sessions,
            other,
        ),
        entries_of(sessions.remove(session), session).len() == 0,
{
}

/// An error tells what is missing: the kind that nobody registered for, the index that
/// the session does not have, or what the provider said.
pub proof fn law_error_tells_what_is_missing(error: SurfaceError)
    ensures
        match error {
            SurfaceError::NoProvider { kind } => error.text().take(40)
                == "no surface provider registered for kind "@ && error.text().skip(40)
                == debug_text(kind@),
            SurfaceError::NothingRecorded => error.text() == "no surfaces recorded"@,
            SurfaceError::NoSurface { index } => error.text().take(20) == "no surface at index "@
                && error.text().skip(20) == decimal(index as nat),
            SurfaceError::Provider { message } => error.text() == message@,
        },
{
    reveal_strlit("no surface provider registered for kind ");
    reveal_strlit("no surface at index ");
    let text = error.text();
    match error {
        SurfaceError::NoProvider { kind } => {
            assert(text.take(40) =~= "no surface provider registered for kind "@);
            assert(text.skip(40) =~= debug_text(kind@));
        },
        SurfaceError::NoSurface { index } => {
            assert(text.take(20) =~= "no surface at index "@);
            assert(text.skip(20) =~= decimal(index as nat));
        },
        _ => {},
    }
}

} // verus!
