//! Shared runtime snapshot for the host-owned Codex Apps MCP server.
//!
//! Runtime snapshots are process-local live state scoped by the active Codex
//! auth context. Disk is best-effort cold-start persistence: a context takes
//! what was persisted once, when it is activated, and never again. Full
//! connector metadata is owned by the connector metadata store, not by this
//! module.

use std::sync::Arc;
use vstd::prelude::*;
use crate::metrics::{self, MetricTag, TagModel};
use crate::text;
use crate::tool_info::{ToolInfo, ToolInfoModel};

verus! {

/// One atomically published connector runtime state.
///
/// Tools remain raw and in response order. Local and managed configuration is
/// intentionally applied by readers rather than kept in this snapshot. The time
/// of the refresh is in nanoseconds since the Unix epoch.
#[derive(Debug, PartialEq, Eq)]
pub struct ConnectorRuntimeSnapshot {
    pub tools: Vec<ToolInfo>,
    pub refreshed_at: i128,
}

pub struct SnapshotModel {
    pub tools: Seq<ToolInfoModel>,
    pub refreshed_at: int,
}

impl DeepView for ConnectorRuntimeSnapshot {
    type V = SnapshotModel;

    open spec fn deep_view(&self) -> SnapshotModel {
        SnapshotModel { tools: self.tools.deep_view(), refreshed_at: self.refreshed_at as int }
    }
}

impl Clone for ConnectorRuntimeSnapshot {
    fn clone(&self) -> (copy: Self)
        ensures
            copy.deep_view() == self.deep_view(),
    {
        let copy = ConnectorRuntimeSnapshot {
            tools: self.tools.clone(),
            refreshed_at: self.refreshed_at,
        };
        assert(copy.tools.deep_view() =~= self.tools.deep_view());
        copy
    }
}

impl ConnectorRuntimeSnapshot {
    pub fn tools(&self) -> (tools: &[ToolInfo])
        ensures
            tools@ == self.tools@,
    {
        self.tools.as_slice()
    }

    pub fn refreshed_at(&self) -> (time: i128)
        ensures
            time == self.refreshed_at,
    {
        self.refreshed_at
    }

    /// The nanoseconds from the refresh to `now`, none where the clock was set
    /// back meanwhile.
    pub fn age(&self, now: i128) -> (age: u128)
        ensures
            age == (if now > self.refreshed_at {
                now - self.refreshed_at
            } else {
                0
            }),
    {
        let then: i128 = self.refreshed_at;
        if now <= then {
            0
        } else if then >= 0 || now < 0 {
            (now - then) as u128
        } else {
            let before: u128 = (-(then + 1)) as u128;
            now as u128 + before + 1
        }
    }
}

/// The parts of the signed-in account that the runtime is scoped by.
#[derive(Debug, PartialEq, Eq)]
pub struct CodexAuth {
    pub account_id: Option<String>,
    pub chatgpt_user_id: Option<String>,
    pub is_workspace_account: bool,
}

/// The auth parts that identify a connector runtime catalog.
///
/// Debug bearer-token overrides bypass the shared runtime manager, so shared
/// snapshots only need the identity of the account.
#[derive(Debug, PartialEq, Eq, Hash)]
pub struct ConnectorRuntimeContextKey {
    pub account_id: Option<String>,
    pub chatgpt_user_id: Option<String>,
    pub is_workspace_account: bool,
}

pub struct KeyModel {
    pub account_id: Option<Seq<char>>,
    pub chatgpt_user_id: Option<Seq<char>>,
    pub is_workspace_account: bool,
}

impl DeepView for CodexAuth {
    type V = KeyModel;

    open spec fn deep_view(&self) -> KeyModel {
        KeyModel {
            account_id: self.account_id.deep_view(),
            chatgpt_user_id: self.chatgpt_user_id.deep_view(),
            is_workspace_account: self.is_workspace_account,
        }
    }
}

impl DeepView for ConnectorRuntimeContextKey {
    type V = KeyModel;

    open spec fn deep_view(&self) -> KeyModel {
        KeyModel {
            account_id: self.account_id.deep_view(),
            chatgpt_user_id: self.chatgpt_user_id.deep_view(),
            is_workspace_account: self.is_workspace_account,
        }
    }
}

impl Clone for ConnectorRuntimeContextKey {
    fn clone(&self) -> (copy: Self)
        ensures
            copy.deep_view() == self.deep_view(),
    {
        ConnectorRuntimeContextKey {
            account_id: self.account_id.clone(),
            chatgpt_user_id: self.chatgpt_user_id.clone(),
            is_workspace_account: self.is_workspace_account,
        }
    }
}

/// The key of a signed-in account, or of nobody.
pub open spec fn context_key(auth: Option<KeyModel>) -> KeyModel {
    match auth {
        Some(account) => account,
        None => KeyModel { account_id: None, chatgpt_user_id: None, is_workspace_account: false },
    }
}

/// Builds the connector runtime context key of the signed-in account.
pub fn connector_runtime_context_key(auth: Option<&CodexAuth>) -> (key: ConnectorRuntimeContextKey)
    ensures
        key.deep_view() == context_key(auth.deep_view()),
{
    match auth {
        Some(account) => ConnectorRuntimeContextKey {
            account_id: account.account_id.clone(),
            chatgpt_user_id: account.chatgpt_user_id.clone(),
            is_workspace_account: account.is_workspace_account,
        },
        None => ConnectorRuntimeContextKey {
            account_id: None,
            chatgpt_user_id: None,
            is_workspace_account: false,
        },
    }
}

/// Compatibility alias for existing cache call sites.
pub type CodexAppsToolsCacheKey = ConnectorRuntimeContextKey;

/// Compatibility helper for existing cache call sites.
pub fn codex_apps_tools_cache_key(auth: Option<&CodexAuth>) -> (key: CodexAppsToolsCacheKey)
    ensures
        key.deep_view() == context_key(auth.deep_view()),
{
    connector_runtime_context_key(auth)
}

/// Everything that decides whether two connector runtime clients can share a
/// snapshot.
///
/// The auth key says whose runtime catalog is read. `codex_home` keeps the
/// persisted cache under the right home directory: it holds the components of
/// that directory's path, each as the bytes of its name, so that two spellings
/// of one path are one identity.
#[derive(Debug, PartialEq, Eq, Hash)]
pub struct ConnectorRuntimeIdentity {
    pub codex_home: Vec<Vec<u8>>,
    pub key: ConnectorRuntimeContextKey,
}

pub struct RuntimeIdentityModel {
    pub codex_home: Seq<Seq<u8>>,
    pub key: KeyModel,
}

impl DeepView for ConnectorRuntimeIdentity {
    type V = RuntimeIdentityModel;

    open spec fn deep_view(&self) -> RuntimeIdentityModel {
        RuntimeIdentityModel {
            codex_home: self.codex_home.deep_view(),
            key: self.key.deep_view(),
        }
    }
}

impl Clone for ConnectorRuntimeIdentity {
    fn clone(&self) -> (copy: Self)
        ensures
            copy.deep_view() == self.deep_view(),
    {
        let copy = ConnectorRuntimeIdentity {
            codex_home: copy_home(&self.codex_home),
            key: self.key.clone(),
        };
        copy
    }
}

fn copy_home(home: &Vec<Vec<u8>>) -> (copy: Vec<Vec<u8>>)
    ensures
        copy.deep_view() == home.deep_view(),
{
    let mut copy: Vec<Vec<u8>> = Vec::new();
    let mut i: usize = 0;
    while i < home.len()
        invariant
            i <= home@.len(),
            copy@.len() == i,
            forall|j: int| 0 <= j < i ==> (#[trigger] copy@[j])@ == home@[j]@,
        decreases home@.len() - i,
    {
        let mut part: Vec<u8> = Vec::new();
        let mut k: usize = 0;
        while k < home[i].len()
            invariant
                i < home@.len(),
                k <= home@[i as int]@.len(),
                part@ == home@[i as int]@.take(k as int),
            decreases home@[i as int]@.len() - k,
        {
            part.push(home[i][k]);
            assert(part@ =~= home@[i as int]@.take(k + 1));
            k += 1;
        }
        assert(part@ =~= home@[i as int]@);
        copy.push(part);
        i += 1;
    }
    assert forall|j: int| 0 <= j < home@.len() implies copy.deep_view()[j]
        == home.deep_view()[j] by {
        assert(copy@[j].deep_view() =~= copy@[j]@);
        assert(home@[j].deep_view() =~= home@[j]@);
    }
    assert(copy.deep_view() =~= home.deep_view());
    copy
}

fn same_bytes(a: &Vec<u8>, b: &Vec<u8>) -> (result: bool)
    ensures
        result == (a@ == b@),
{
    if a.len() != b.len() {
        return false;
    }
    let mut i: usize = 0;
    while i < a.len()
        invariant
            i <= a@.len(),
            a@.len() == b@.len(),
            forall|j: int| 0 <= j < i ==> a@[j] == b@[j],
        decreases a@.len() - i,
    {
        if a[i] != b[i] {
            return false;
        }
        i += 1;
    }
    assert(a@ =~= b@);
    true
}

fn same_home(a: &Vec<Vec<u8>>, b: &Vec<Vec<u8>>) -> (result: bool)
    ensures
        result == (a.deep_view() == b.deep_view()),
{
    let ghost x = a.deep_view();
    let ghost y = b.deep_view();
    assert forall|j: int| 0 <= j < a@.len() implies x[j] == #[trigger] a@[j]@ by {
        assert(a@[j].deep_view() =~= a@[j]@);
    }
    assert forall|j: int| 0 <= j < b@.len() implies y[j] == #[trigger] b@[j]@ by {
        assert(b@[j].deep_view() =~= b@[j]@);
    }
    if a.len() != b.len() {
        assert(x.len() != y.len());
        return false;
    }
    let mut i: usize = 0;
    while i < a.len()
        invariant
            i <= a@.len(),
            a@.len() == b@.len(),
            x.len() == a@.len(),
            y.len() == b@.len(),
            forall|j: int| 0 <= j < a@.len() ==> x[j] == #[trigger] a@[j]@,
            forall|j: int| 0 <= j < b@.len() ==> y[j] == #[trigger] b@[j]@,
            x == a.deep_view(),
            y == b.deep_view(),
            forall|j: int| 0 <= j < i ==> x[j] == y[j],
        decreases a@.len() - i,
    {
        if !same_bytes(&a[i], &b[i]) {
            assert(x[i as int] == a@[i as int]@);
            assert(y[i as int] == b@[i as int]@);
            return false;
        }
        i += 1;
    }
    assert(x =~= y);
    true
}

impl ConnectorRuntimeIdentity {
    /// Whether two identities share a snapshot.
    pub fn same(&self, other: &Self) -> (result: bool)
        ensures
            result == (self.deep_view() == other.deep_view()),
    {
        same_home(&self.codex_home, &other.codex_home) && text::same_optional_text(
            &self.key.account_id,
            &other.key.account_id,
        ) && text::same_optional_text(&self.key.chatgpt_user_id, &other.key.chatgpt_user_id)
            && self.key.is_workspace_account == other.key.is_workspace_account
    }
}

/// Why a fetch was made.
#[derive(Clone, Copy, Debug, PartialEq, Eq)]
pub enum CodexAppsToolsFetchSource {
    Startup,
    HardRefresh,
}

pub open spec fn source_text(source: CodexAppsToolsFetchSource) -> Seq<char> {
    match source {
        CodexAppsToolsFetchSource::Startup => "startup"@,
        CodexAppsToolsFetchSource::HardRefresh => "hard_refresh"@,
    }
}

impl CodexAppsToolsFetchSource {
    pub fn as_str(self) -> (name: &'static str)
        ensures
            name@ == source_text(self),
    {
        match self {
            CodexAppsToolsFetchSource::Startup => "startup",
            CodexAppsToolsFetchSource::HardRefresh => "hard_refresh",
        }
    }
}

/// The place of one fetch among the fetches of its context.
pub struct CodexAppsToolsFetchTicket {
    generation: u64,
    source: CodexAppsToolsFetchSource,
}

impl CodexAppsToolsFetchTicket {
    pub closed spec fn generation(&self) -> u64 {
        self.generation
    }

    pub closed spec fn fetch_source(&self) -> CodexAppsToolsFetchSource {
        self.source
    }

    pub fn source(&self) -> (source: CodexAppsToolsFetchSource)
        ensures
            source == self.fetch_source(),
    {
        self.source
    }
}

/// The handle belongs to a context that is no longer the active one.
#[derive(Clone, Copy, Debug, PartialEq, Eq)]
pub struct ConnectorRuntimeContextDiscarded;

pub open spec fn discarded_text() -> Seq<char> {
    "connector runtime context was discarded"@
}

impl ConnectorRuntimeContextDiscarded {
    pub fn message(&self) -> (text: &'static str)
        ensures
            text@ == discarded_text(),
    {
        "connector runtime context was discarded"
    }
}

struct ActiveConnectorRuntime {
    identity: ConnectorRuntimeIdentity,
    activation: u64,
    current_snapshot: Option<Arc<ConnectorRuntimeSnapshot>>,
    last_accepted_generation: u64,
}

pub struct ActiveModel {
    pub identity: RuntimeIdentityModel,
    pub activation: nat,
    pub current_snapshot: Option<SnapshotModel>,
    pub last_accepted_generation: u64,
}

/// The active context, and for every activation so far the number of fetches
/// that were begun under it. The first activation is number one. The numbers
/// outlive their activation, because handles to a discarded context go on to number
/// their fetches.
pub struct RuntimeModel {
    pub active: Option<ActiveModel>,
    pub fetches: Seq<u64>,
}

/// Process-scoped owner of the active account/workspace connector runtime.
///
/// Activating a different context discards the prior in-memory entry. Handles
/// to a discarded context can no longer read or publish its snapshot, which
/// prevents account A state from bleeding into account B.
pub struct ConnectorRuntimeManager {
    state: RuntimeState,
}

struct RuntimeState {
    active: Option<ActiveConnectorRuntime>,
    fetches: Vec<u64>,
}

impl DeepView for ActiveConnectorRuntime {
    type V = ActiveModel;

    closed spec fn deep_view(&self) -> ActiveModel {
        ActiveModel {
            identity: self.identity.deep_view(),
            activation: self.activation as nat,
            current_snapshot: self.current_snapshot.deep_view(),
            last_accepted_generation: self.last_accepted_generation,
        }
    }
}

impl DeepView for RuntimeState {
    type V = RuntimeModel;

    closed spec fn deep_view(&self) -> RuntimeModel {
        RuntimeModel { active: self.active.deep_view(), fetches: self.fetches@ }
    }
}

impl DeepView for ConnectorRuntimeManager {
    type V = RuntimeModel;

    closed spec fn deep_view(&self) -> RuntimeModel {
        self.state.deep_view()
    }
}

/// Compatibility alias for existing cache call sites.
pub type CodexAppsToolsCache = ConnectorRuntimeManager;

/// Handle to an activation of an account/workspace connector runtime. Handles are
/// numbered by the manager that gave them out, and are to be used with that one.
pub struct ConnectorRuntimeContext {
    activation: u64,
    identity: ConnectorRuntimeIdentity,
}

/// Compatibility alias for existing cache call sites.
pub type CodexAppsToolsCacheContext = ConnectorRuntimeContext;

impl Clone for ConnectorRuntimeContext {
    fn clone(&self) -> (copy: Self)
        ensures
            copy.number() == self.number(),
            copy.scope() == self.scope(),
    {
        ConnectorRuntimeContext { activation: self.activation, identity: self.identity.clone() }
    }
}

/// A manager under which nothing was activated yet.
pub open spec fn idle_runtime() -> RuntimeModel {
    RuntimeModel { active: None, fetches: Seq::empty() }
}

/// What every operation keeps: the active context is one of the activations,
/// and it has a snapshot once it accepted a fetch.
pub open spec fn is_consistent(state: RuntimeModel) -> bool {
    state.active matches Some(active) ==> {
        &&& 1 <= active.activation <= state.fetches.len()
        &&& active.last_accepted_generation > 0 ==> active.current_snapshot is Some
    }
}

/// The context number `activation` is the active one.
pub open spec fn is_current(state: RuntimeModel, activation: nat) -> bool {
    state.active matches Some(active) && active.activation == activation
}

/// The context number `activation` was activated under this manager.
pub open spec fn was_activated(state: RuntimeModel, activation: nat) -> bool {
    1 <= activation <= state.fetches.len()
}

/// The identity `identity` is the active one.
pub open spec fn has_identity(state: RuntimeModel, identity: RuntimeIdentityModel) -> bool {
    state.active matches Some(active) && active.identity == identity
}

/// The manager after `identity` was activated: nothing changes where it is
/// active already, else the prior entry is discarded and the new one starts
/// with what was persisted.
pub open spec fn activated(
    state: RuntimeModel,
    identity: RuntimeIdentityModel,
    persisted: Option<SnapshotModel>,
) -> RuntimeModel {
    if has_identity(state, identity) {
        state
    } else {
        RuntimeModel {
            active: Some(
                ActiveModel {
                    identity,
                    activation: state.fetches.len() + 1,
                    current_snapshot: persisted,
                    last_accepted_generation: 0,
                },
            ),
            fetches: state.fetches.push(0),
        }
    }
}

/// What the handle number `activation` reads.
pub open spec fn readable(state: RuntimeModel, activation: nat) -> Option<SnapshotModel> {
    if is_current(state, activation) {
        state.active->Some_0.current_snapshot
    } else {
        None
    }
}

/// The manager after a fetch was begun under the activation.
pub open spec fn fetch_begun(state: RuntimeModel, activation: nat) -> RuntimeModel {
    RuntimeModel {
        fetches: state.fetches.update(
            activation - 1,
            (state.fetches[activation - 1] + 1) as u64,
        ),
        ..state
    }
}

/// A fetch with this generation is newer than all that were accepted.
pub open spec fn is_accepted(state: RuntimeModel, activation: nat, generation: u64) -> bool {
    is_current(state, activation) && generation > state.active->Some_0.last_accepted_generation
}

/// The manager after a fetch was published: only a fetch of the active context
/// that is newer than all accepted before changes anything.
pub open spec fn published(
    state: RuntimeModel,
    activation: nat,
    generation: u64,
    snapshot: SnapshotModel,
) -> RuntimeModel {
    if is_accepted(state, activation, generation) {
        RuntimeModel {
            active: Some(
                ActiveModel {
                    current_snapshot: Some(snapshot),
                    last_accepted_generation: generation,
                    ..state.active->Some_0
                },
            ),
            ..state
        }
    } else {
        state
    }
}

/// What became of a published fetch.
pub enum Publication {
    /// The context was discarded meanwhile.
    Discarded,
    /// A newer fetch was accepted before. Its snapshot stays.
    Stale(Option<Arc<ConnectorRuntimeSnapshot>>),
    /// The fetch was accepted.
    Published(Arc<ConnectorRuntimeSnapshot>),
}

pub enum PublicationModel {
    Discarded,
    Stale(Option<SnapshotModel>),
    Published(SnapshotModel),
}

impl DeepView for Publication {
    type V = PublicationModel;

    open spec fn deep_view(&self) -> PublicationModel {
        match self {
            Publication::Discarded => PublicationModel::Discarded,
            Publication::Stale(current) => PublicationModel::Stale(current.deep_view()),
            Publication::Published(snapshot) => PublicationModel::Published(snapshot.deep_view()),
        }
    }
}

/// What becomes of a fetch that is published.
pub open spec fn publication(
    state: RuntimeModel,
    activation: nat,
    generation: u64,
    snapshot: SnapshotModel,
) -> PublicationModel {
    if !is_current(state, activation) {
        PublicationModel::Discarded
    } else if is_accepted(state, activation, generation) {
        PublicationModel::Published(snapshot)
    } else {
        PublicationModel::Stale(readable(state, activation))
    }
}

pub open spec fn publication_text(publication: PublicationModel) -> Seq<char> {
    match publication {
        PublicationModel::Discarded => "discarded"@,
        PublicationModel::Stale(_) => "stale"@,
        PublicationModel::Published(_) => "published"@,
    }
}

/// The name of the metric that records how long a publication took.
pub open spec fn publish_metric() -> Seq<char> {
    "codex.mcp.tools.cache_publish.duration_ms"@
}

pub open spec fn publication_tags(
    source: CodexAppsToolsFetchSource,
    publication: PublicationModel,
) -> Seq<TagModel> {
    seq![
        metrics::tag_of("source"@, source_text(source)),
        metrics::tag_of("result"@, publication_text(publication)),
    ]
}

/// The name of the metric that records how long a publication took.
pub fn publish_metric_name() -> (name: &'static str)
    ensures
        name@ == publish_metric(),
{
    "codex.mcp.tools.cache_publish.duration_ms"
}

impl Publication {
    /// The snapshot that readers see after the publication.
    pub fn into_result(self) -> (result: Result<
        Arc<ConnectorRuntimeSnapshot>,
        ConnectorRuntimeContextDiscarded,
    >)
        ensures
            result is Err <==> self is Discarded || self.deep_view() == PublicationModel::Stale(
                None,
            ),
            result matches Ok(snapshot) ==> self.deep_view() == PublicationModel::Published(
                snapshot.deep_view(),
            ) || self.deep_view() == PublicationModel::Stale(Some(snapshot.deep_view())),
    {
        match self {
            Publication::Discarded => Err(ConnectorRuntimeContextDiscarded),
            Publication::Stale(None) => Err(ConnectorRuntimeContextDiscarded),
            Publication::Stale(Some(snapshot)) => Ok(snapshot),
            Publication::Published(snapshot) => Ok(snapshot),
        }
    }

    /// The tags of the duration metric.
    pub fn metric_tags(&self, source: CodexAppsToolsFetchSource) -> (tags: Vec<MetricTag>)
        ensures
            tags.deep_view() == publication_tags(source, self.deep_view()),
    {
        let result = match self {
            Publication::Discarded => "discarded",
            Publication::Stale(_) => "stale",
            Publication::Published(_) => "published",
        };
        let mut tags: Vec<MetricTag> = Vec::new();
        tags.push(metrics::tag("source", source.as_str()));
        tags.push(metrics::tag("result", result));
        assert(tags.deep_view() =~= publication_tags(source, self.deep_view()));
        tags
    }
}

impl ConnectorRuntimeManager {
    #[verifier::type_invariant]
    spec fn consistent(&self) -> bool {
        is_consistent(self.deep_view())
    }
}

impl RuntimeState {
    fn idle() -> (state: Self)
        ensures
            state.deep_view() == idle_runtime(),
    {
        let state = RuntimeState { active: None, fetches: Vec::new() };
        assert(state.deep_view().fetches =~= Seq::<u64>::empty());
        state
    }
}

impl Default for ConnectorRuntimeManager {
    fn default() -> (manager: Self)
        ensures
            manager.deep_view() == idle_runtime(),
    {
        ConnectorRuntimeManager { state: RuntimeState::idle() }
    }
}

impl ConnectorRuntimeManager {
    fn take(&mut self) -> (state: RuntimeState)
        ensures
            state.deep_view() == old(self).deep_view(),
            is_consistent(state.deep_view()),
            final(self).deep_view() == idle_runtime(),
    {
        proof {
            use_type_invariant(&*self);
        }
        let mut state = RuntimeState::idle();
        std::mem::swap(&mut state, &mut self.state);
        state
    }

    /// The handle to `identity`, where that is the active one.
    pub fn active_context(&self, identity: &ConnectorRuntimeIdentity) -> (found: Option<
        ConnectorRuntimeContext,
    >)
        ensures
            found is Some <==> has_identity(self.deep_view(), identity.deep_view()),
            found matches Some(context) ==> is_current(self.deep_view(), context.number())
                && was_activated(self.deep_view(), context.number()) && context.scope()
                == identity.deep_view(),
    {
        proof {
            use_type_invariant(self);
        }
        match &self.state.active {
            Some(active) => if active.identity.same(identity) {
                Some(
                    ConnectorRuntimeContext {
                        activation: active.activation,
                        identity: active.identity.clone(),
                    },
                )
            } else {
                None
            },
            None => None,
        }
    }

    /// Activates `identity`, unless it is the active one already. `persisted` is
    /// what was persisted for it, and counts only where it was not active.
    pub fn context(
        &mut self,
        identity: ConnectorRuntimeIdentity,
        persisted: Option<ConnectorRuntimeSnapshot>,
    ) -> (context: ConnectorRuntimeContext)
        ensures
            final(self).deep_view() == activated(
                old(self).deep_view(),
                identity.deep_view(),
                persisted.deep_view(),
            ),
            is_consistent(final(self).deep_view()),
            is_current(final(self).deep_view(), context.number()),
            was_activated(final(self).deep_view(), context.number()),
            context.scope() == identity.deep_view(),
    {
        match self.active_context(&identity) {
            Some(context) => {
                proof {
                    use_type_invariant(&*self);
                }
                return context;
            },
            None => {},
        }
        let mut state = self.take();
        state.fetches.push(0);
        let activation: u64 = state.fetches.len() as u64;
        let current_snapshot = match persisted {
            Some(snapshot) => Some(Arc::new(snapshot)),
            None => None,
        };
        let context = ConnectorRuntimeContext { activation, identity: identity.clone() };
        state.active = Some(
            ActiveConnectorRuntime {
                identity,
                activation,
                current_snapshot,
                last_accepted_generation: 0,
            },
        );
        self.state = state;
        context
    }

    /// Activates `identity` and reads its snapshot.
    pub fn current_snapshot(
        &mut self,
        identity: ConnectorRuntimeIdentity,
        persisted: Option<ConnectorRuntimeSnapshot>,
    ) -> (snapshot: Option<Arc<ConnectorRuntimeSnapshot>>)
        ensures
            final(self).deep_view() == activated(
                old(self).deep_view(),
                identity.deep_view(),
                persisted.deep_view(),
            ),
            is_consistent(final(self).deep_view()),
            final(self).deep_view().active matches Some(active) && snapshot.deep_view()
                == active.current_snapshot,
    {
        let context = self.context(identity, persisted);
        context.current_snapshot(self)
    }
}

impl ConnectorRuntimeContext {
    /// The number of the activation.
    pub closed spec fn number(&self) -> nat {
        self.activation as nat
    }

    /// The identity that was activated.
    pub closed spec fn scope(&self) -> RuntimeIdentityModel {
        self.identity.deep_view()
    }

    /// The number of the activation.
    pub fn activation(&self) -> (activation: u64)
        ensures
            activation == self.number(),
    {
        self.activation
    }

    /// The number of fetches that were begun under the activation, where it is one
    /// of this manager.
    pub fn fetches_begun(&self, manager: &ConnectorRuntimeManager) -> (count: Option<u64>)
        ensures
            match count {
                Some(fetches) => was_activated(manager.deep_view(), self.number()) && fetches
                    == manager.deep_view().fetches[self.number() - 1],
                None => !was_activated(manager.deep_view(), self.number()),
            },
    {
        let activations = manager.state.fetches.len();
        if self.activation >= 1 && self.activation <= activations as u64 {
            let at: usize = (self.activation - 1) as usize;
            Some(manager.state.fetches[at])
        } else {
            None
        }
    }

    pub fn identity(&self) -> (identity: &ConnectorRuntimeIdentity)
        ensures
            identity.deep_view() == self.scope(),
    {
        &self.identity
    }

    /// The snapshot that readers see, none where the context was discarded.
    pub fn current_snapshot(&self, manager: &ConnectorRuntimeManager) -> (snapshot: Option<
        Arc<ConnectorRuntimeSnapshot>,
    >)
        ensures
            snapshot.deep_view() == readable(manager.deep_view(), self.number()),
    {
        match &manager.state.active {
            Some(active) => if active.activation == self.activation {
                match &active.current_snapshot {
                    Some(snapshot) => Some(Arc::clone(snapshot)),
                    None => None,
                }
            } else {
                None
            },
            None => None,
        }
    }

    pub fn current_tools(&self, manager: &ConnectorRuntimeManager) -> (tools: Option<Vec<ToolInfo>>)
        ensures
            match readable(manager.deep_view(), self.number()) {
                Some(snapshot) => tools matches Some(list) && list.deep_view() == snapshot.tools,
                None => tools is None,
            },
    {
        match self.current_snapshot(manager) {
            Some(snapshot) => {
                let tools = snapshot.tools.clone();
                assert(tools.deep_view() =~= snapshot.tools.deep_view());
                Some(tools)
            },
            None => None,
        }
    }

    pub fn has_current_tools(&self, manager: &ConnectorRuntimeManager) -> (result: bool)
        ensures
            result == readable(manager.deep_view(), self.number()) is Some,
    {
        self.current_snapshot(manager).is_some()
    }

    /// Whether the context is the active one.
    pub fn is_active(&self, manager: &ConnectorRuntimeManager) -> (result: bool)
        ensures
            result == is_current(manager.deep_view(), self.number()),
    {
        match &manager.state.active {
            Some(active) => active.activation == self.activation,
            None => false,
        }
    }

    /// Admits an explicit refresh. It is asked twice, before waiting for the
    /// refreshes ahead and after.
    pub fn admit_explicit_refresh(&self, manager: &ConnectorRuntimeManager) -> (result: Result<
        (),
        ConnectorRuntimeContextDiscarded,
    >)
        ensures
            result is Ok <==> is_current(manager.deep_view(), self.number()),
    {
        if self.is_active(manager) {
            Ok(())
        } else {
            Err(ConnectorRuntimeContextDiscarded)
        }
    }

    /// Begins a fetch. The tickets of one context are numbered from one up,
    /// also after it was discarded.
    pub fn begin_fetch(
        &self,
        manager: &mut ConnectorRuntimeManager,
        source: CodexAppsToolsFetchSource,
    ) -> (ticket: CodexAppsToolsFetchTicket)
        requires
            was_activated(old(manager).deep_view(), self.number()),
            old(manager).deep_view().fetches[self.number() - 1] < u64::MAX,
        ensures
            final(manager).deep_view() == fetch_begun(old(manager).deep_view(), self.number()),
            is_consistent(final(manager).deep_view()),
            ticket.generation() == old(manager).deep_view().fetches[self.number() - 1] + 1,
            ticket.fetch_source() == source,
    {
        let mut state = manager.take();
        let count = state.fetches.len();
        assert(self.activation - 1 < count);
        let at: usize = (self.activation - 1) as usize;
        let generation: u64 = state.fetches[at] + 1;
        state.fetches.set(at, generation);
        manager.state = state;
        CodexAppsToolsFetchTicket { generation, source }
    }

    /// Publishes the tools of a fetch, unless a newer fetch was accepted before.
    pub fn publish_runtime_if_newest_accepted(
        &self,
        manager: &mut ConnectorRuntimeManager,
        ticket: CodexAppsToolsFetchTicket,
        tools: Vec<ToolInfo>,
        now: i128,
    ) -> (result: Publication)
        ensures
            ({
                let snapshot = SnapshotModel {
                    tools: tools.deep_view(),
                    refreshed_at: now as int,
                };
                &&& final(manager).deep_view() == published(
                    old(manager).deep_view(),
                    self.number(),
                    ticket.generation(),
                    snapshot,
                )
                &&& result.deep_view() == publication(
                    old(manager).deep_view(),
                    self.number(),
                    ticket.generation(),
                    snapshot,
                )
            }),
            is_consistent(final(manager).deep_view()),
    {
        let ghost before = manager.deep_view();
        let mut state = manager.take();
        let mut result = Publication::Discarded;
        let mut kept: Option<ActiveConnectorRuntime> = None;
        std::mem::swap(&mut kept, &mut state.active);
        match kept {
            Some(active) => {
                if active.activation == self.activation {
                    if ticket.generation <= active.last_accepted_generation {
                        result =
                        Publication::Stale(
                            match &active.current_snapshot {
                                Some(snapshot) => Some(Arc::clone(snapshot)),
                                None => None,
                            },
                        );
                        state.active = Some(active);
                    } else {
                        let snapshot = Arc::new(
                            ConnectorRuntimeSnapshot { tools, refreshed_at: now },
                        );
                        result = Publication::Published(Arc::clone(&snapshot));
                        state.active = Some(
                            ActiveConnectorRuntime {
                                identity: active.identity,
                                activation: active.activation,
                                current_snapshot: Some(snapshot),
                                last_accepted_generation: ticket.generation,
                            },
                        );
                    }
                } else {
                    state.active = Some(active);
                }
            },
            None => {},
        }
        manager.state = state;
        result
    }
}

/// How the step reads the tools of the hosted connectors.
#[derive(Debug)]
pub enum ConnectorRuntimeCapture {
    /// Every read observes the live Codex Apps client and cache.
    LegacyLive,
    /// Reads use exactly this committed state. `None` means that no Codex Apps
    /// tools were committed at capture.
    Snapshot(Option<Arc<ConnectorRuntimeSnapshot>>),
}

/// Which listing of the tools a step asks for.
#[derive(Debug)]
pub enum ToolListing {
    /// List the tools of all servers as they are now.
    AllLive,
    /// List the hosted connectors' tools from this state, and those of the other
    /// servers as they are now.
    WithConnectorSnapshot(Option<Arc<ConnectorRuntimeSnapshot>>),
}

pub enum CaptureModel {
    Live,
    Captured(Option<SnapshotModel>),
}

impl DeepView for ConnectorRuntimeCapture {
    type V = CaptureModel;

    open spec fn deep_view(&self) -> CaptureModel {
        match self {
            ConnectorRuntimeCapture::LegacyLive => CaptureModel::Live,
            ConnectorRuntimeCapture::Snapshot(snapshot) => {
                CaptureModel::Captured(snapshot.deep_view())
            },
        }
    }
}

impl DeepView for ToolListing {
    type V = CaptureModel;

    open spec fn deep_view(&self) -> CaptureModel {
        match self {
            ToolListing::AllLive => CaptureModel::Live,
            ToolListing::WithConnectorSnapshot(snapshot) => {
                CaptureModel::Captured(snapshot.deep_view())
            },
        }
    }
}

impl ConnectorRuntimeCapture {
    /// The listing that gives the tools of the step.
    pub fn mcp_tools(&self) -> (listing: ToolListing)
        ensures
            listing.deep_view() == self.deep_view(),
            match *self {
                ConnectorRuntimeCapture::LegacyLive => listing is AllLive,
                ConnectorRuntimeCapture::Snapshot(captured) => listing
                    matches ToolListing::WithConnectorSnapshot(read) && read.deep_view()
                    == captured.deep_view(),
            },
    {
        match self {
            ConnectorRuntimeCapture::LegacyLive => ToolListing::AllLive,
            ConnectorRuntimeCapture::Snapshot(snapshot) => ToolListing::WithConnectorSnapshot(
                match snapshot {
                    Some(captured) => Some(Arc::clone(captured)),
                    None => None,
                },
            ),
        }
    }
}

}
