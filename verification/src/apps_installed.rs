//! The `app/installed` request: which apps are installed, and which of them can be
//! called.
//!
//! The request asks for one thing after the other. `action` says what it waits
//! for, and `advance` takes the answer.

use std::sync::Arc;
use vstd::prelude::*;
use vstd::string::*;
use crate::connector_runtime::{ConnectorRuntimeSnapshot, SnapshotModel};
use crate::metrics::{self, MetricRecord, MetricTag, MetricValue, RecordModel, TagModel};
use crate::rpc_error::{self, ErrorModel, RpcError, RpcErrorKind};
use crate::text;

verus! {

/// How the refresh that a request asked for went.
#[derive(Clone, Copy, Debug, PartialEq, Eq, Structural)]
pub enum RefreshDisposition {
    NotRequested,
    NotStarted,
    Success,
    Error,
    SkippedAppsDisabled,
    SkippedWorkspacePolicyError,
    SkippedWorkspaceDisabled,
}

pub open spec fn disposition_text(disposition: RefreshDisposition) -> Seq<char> {
    match disposition {
        RefreshDisposition::NotRequested => "not_requested"@,
        RefreshDisposition::NotStarted => "not_started"@,
        RefreshDisposition::Success => "success"@,
        RefreshDisposition::Error => "error"@,
        RefreshDisposition::SkippedAppsDisabled => "skipped_apps_disabled"@,
        RefreshDisposition::SkippedWorkspacePolicyError => "skipped_workspace_policy_error"@,
        RefreshDisposition::SkippedWorkspaceDisabled => "skipped_workspace_disabled"@,
    }
}

impl RefreshDisposition {
    pub fn as_str(self) -> (name: &'static str)
        ensures
            name@ == disposition_text(self),
    {
        match self {
            RefreshDisposition::NotRequested => "not_requested",
            RefreshDisposition::NotStarted => "not_started",
            RefreshDisposition::Success => "success",
            RefreshDisposition::Error => "error",
            RefreshDisposition::SkippedAppsDisabled => "skipped_apps_disabled",
            RefreshDisposition::SkippedWorkspacePolicyError => "skipped_workspace_policy_error",
            RefreshDisposition::SkippedWorkspaceDisabled => "skipped_workspace_disabled",
        }
    }
}

/// An installed app, whether it is enabled, and whether it can be called.
#[derive(Debug, PartialEq, Eq)]
pub struct InstalledApp {
    pub id: String,
    pub enabled: bool,
    pub callable: bool,
}

#[verifier::ext_equal]
pub struct InstalledModel {
    pub id: Seq<char>,
    pub enabled: bool,
    pub callable: bool,
}

impl DeepView for InstalledApp {
    type V = InstalledModel;

    open spec fn deep_view(&self) -> InstalledModel {
        InstalledModel { id: self.id@, enabled: self.enabled, callable: self.callable }
    }
}

/// What the request waits for.
#[derive(Clone, Copy, Debug, PartialEq, Eq, Structural)]
pub enum InstalledAction {
    /// Load the configuration that the request is for.
    LoadConfig,
    /// Find out whether apps are enabled for who is signed in.
    ReadAuth,
    /// Ask the workspace settings service, past its cache.
    RefreshPolicy,
    /// Look the workspace policy up in the cache.
    ReadCachedPolicy,
    /// Read the current snapshot.
    ReadPreviousSnapshot,
    /// Fetch the tools anew and commit them.
    RefreshSnapshot,
    /// Look whether there is a snapshot, without activating anything.
    PeekSnapshot,
    /// List the apps in the snapshot.
    ListInstalled,
    /// List the apps in the snapshot that can be called.
    ListCallable,
    /// Look up for each installed app whether the configuration enables it.
    ReadEnabled,
    /// Answer the request.
    Respond,
}

/// The action goes over the network.
pub open spec fn is_remote(action: InstalledAction) -> bool {
    action is RefreshPolicy || action is RefreshSnapshot
}

/// What came of an action.
pub enum InstalledEvent {
    ConfigLoaded { runtime_state_enabled: bool },
    ConfigFailed { error: RpcError },
    AuthRead { apps_enabled: bool },
    /// `None` where the service could not be asked.
    PolicyRefreshed { enabled: Option<bool> },
    /// `None` where the cache knows nothing.
    PolicyCached { enabled: Option<bool> },
    PreviousSnapshot { current: Option<Arc<ConnectorRuntimeSnapshot>>, now: i128 },
    SnapshotRefreshed { snapshot: Arc<ConnectorRuntimeSnapshot>, now: i128 },
    RefreshFailed { reason: String },
    SnapshotPeeked { present: bool },
    InstalledListed { ids: Vec<String> },
    CallableListed { ids: Vec<String> },
    /// One answer for each installed app, in the same order.
    EnabledRead { answers: Vec<bool> },
}

pub enum EventModel {
    ConfigLoaded { runtime_state_enabled: bool },
    ConfigFailed { error: ErrorModel },
    AuthRead { apps_enabled: bool },
    PolicyRefreshed { enabled: Option<bool> },
    PolicyCached { enabled: Option<bool> },
    PreviousSnapshot { current: Option<SnapshotModel>, now: int },
    SnapshotRefreshed { snapshot: SnapshotModel, now: int },
    RefreshFailed { reason: Seq<char> },
    SnapshotPeeked { present: bool },
    InstalledListed { ids: Seq<Seq<char>> },
    CallableListed { ids: Seq<Seq<char>> },
    EnabledRead { answers: Seq<bool> },
}

impl DeepView for InstalledEvent {
    type V = EventModel;

    open spec fn deep_view(&self) -> EventModel {
        match self {
            InstalledEvent::ConfigLoaded { runtime_state_enabled } => EventModel::ConfigLoaded {
                runtime_state_enabled: *runtime_state_enabled,
            },
            InstalledEvent::ConfigFailed { error } => EventModel::ConfigFailed {
                error: error.deep_view(),
            },
            InstalledEvent::AuthRead { apps_enabled } => EventModel::AuthRead {
                apps_enabled: *apps_enabled,
            },
            InstalledEvent::PolicyRefreshed { enabled } => EventModel::PolicyRefreshed {
                enabled: *enabled,
            },
            InstalledEvent::PolicyCached { enabled } => EventModel::PolicyCached {
                enabled: *enabled,
            },
            InstalledEvent::PreviousSnapshot { current, now } => EventModel::PreviousSnapshot {
                current: current.deep_view(),
                now: *now as int,
            },
            InstalledEvent::SnapshotRefreshed { snapshot, now } => EventModel::SnapshotRefreshed {
                snapshot: snapshot.deep_view(),
                now: *now as int,
            },
            InstalledEvent::RefreshFailed { reason } => EventModel::RefreshFailed {
                reason: reason@,
            },
            InstalledEvent::SnapshotPeeked { present } => EventModel::SnapshotPeeked {
                present: *present,
            },
            InstalledEvent::InstalledListed { ids } => EventModel::InstalledListed {
                ids: ids.deep_view(),
            },
            InstalledEvent::CallableListed { ids } => EventModel::CallableListed {
                ids: ids.deep_view(),
            },
            InstalledEvent::EnabledRead { answers } => EventModel::EnabledRead {
                answers: answers@,
            },
        }
    }
}

/// How far the request has come.
pub enum InstalledPhase {
    LoadConfig,
    ReadAuth,
    ReadPolicy,
    ReadPrevious,
    Refresh,
    Peek { reason: String },
    ListInstalled,
    ListCallable { ids: Vec<String> },
    ReadEnabled { ids: Vec<String>, callable: Vec<String> },
    Answered { apps: Vec<InstalledApp> },
    Refused { error: RpcError },
}

pub enum PhaseModel {
    LoadConfig,
    ReadAuth,
    ReadPolicy,
    ReadPrevious,
    Refresh,
    Peek { reason: Seq<char> },
    ListInstalled,
    ListCallable { ids: Seq<Seq<char>> },
    ReadEnabled { ids: Seq<Seq<char>>, callable: Seq<Seq<char>> },
    Answered { apps: Seq<InstalledModel> },
    Refused { error: ErrorModel },
}

impl DeepView for InstalledPhase {
    type V = PhaseModel;

    open spec fn deep_view(&self) -> PhaseModel {
        match self {
            InstalledPhase::LoadConfig => PhaseModel::LoadConfig,
            InstalledPhase::ReadAuth => PhaseModel::ReadAuth,
            InstalledPhase::ReadPolicy => PhaseModel::ReadPolicy,
            InstalledPhase::ReadPrevious => PhaseModel::ReadPrevious,
            InstalledPhase::Refresh => PhaseModel::Refresh,
            InstalledPhase::Peek { reason } => PhaseModel::Peek { reason: reason@ },
            InstalledPhase::ListInstalled => PhaseModel::ListInstalled,
            InstalledPhase::ListCallable { ids } => PhaseModel::ListCallable {
                ids: ids.deep_view(),
            },
            InstalledPhase::ReadEnabled { ids, callable } => PhaseModel::ReadEnabled {
                ids: ids.deep_view(),
                callable: callable.deep_view(),
            },
            InstalledPhase::Answered { apps } => PhaseModel::Answered { apps: apps.deep_view() },
            InstalledPhase::Refused { error } => PhaseModel::Refused { error: error.deep_view() },
        }
    }
}

/// An `app/installed` request.
pub struct InstalledRequest {
    pub reload: bool,
    pub apps_enabled: bool,
    pub policy_failed: bool,
    pub runtime_enabled: bool,
    pub retained_previous_snapshot: bool,
    pub refresh_disposition: RefreshDisposition,
    pub snapshot_age: Option<u128>,
    pub snapshot_tool_count: usize,
    pub phase: InstalledPhase,
}

pub struct RequestModel {
    pub reload: bool,
    pub apps_enabled: bool,
    pub policy_failed: bool,
    pub runtime_enabled: bool,
    pub retained_previous_snapshot: bool,
    pub refresh_disposition: RefreshDisposition,
    pub snapshot_age: Option<u128>,
    pub snapshot_tool_count: usize,
    pub phase: PhaseModel,
}

impl DeepView for InstalledRequest {
    type V = RequestModel;

    open spec fn deep_view(&self) -> RequestModel {
        RequestModel {
            reload: self.reload,
            apps_enabled: self.apps_enabled,
            policy_failed: self.policy_failed,
            runtime_enabled: self.runtime_enabled,
            retained_previous_snapshot: self.retained_previous_snapshot,
            refresh_disposition: self.refresh_disposition,
            snapshot_age: self.snapshot_age,
            snapshot_tool_count: self.snapshot_tool_count,
            phase: self.phase.deep_view(),
        }
    }
}

/// A new request.
pub open spec fn started(reload: bool) -> RequestModel {
    RequestModel {
        reload,
        apps_enabled: false,
        policy_failed: false,
        runtime_enabled: false,
        retained_previous_snapshot: false,
        refresh_disposition: if reload {
            RefreshDisposition::NotStarted
        } else {
            RefreshDisposition::NotRequested
        },
        snapshot_age: None,
        snapshot_tool_count: 0,
        phase: PhaseModel::LoadConfig,
    }
}

/// What the request waits for. A cached read must not turn into a network
/// request, so only a reload asks the workspace settings service.
pub open spec fn awaited(request: RequestModel) -> InstalledAction {
    match request.phase {
        PhaseModel::LoadConfig => InstalledAction::LoadConfig,
        PhaseModel::ReadAuth => InstalledAction::ReadAuth,
        PhaseModel::ReadPolicy => if request.reload {
            InstalledAction::RefreshPolicy
        } else {
            InstalledAction::ReadCachedPolicy
        },
        PhaseModel::ReadPrevious => InstalledAction::ReadPreviousSnapshot,
        PhaseModel::Refresh => InstalledAction::RefreshSnapshot,
        PhaseModel::Peek { .. } => InstalledAction::PeekSnapshot,
        PhaseModel::ListInstalled => InstalledAction::ListInstalled,
        PhaseModel::ListCallable { .. } => InstalledAction::ListCallable,
        PhaseModel::ReadEnabled { .. } => InstalledAction::ReadEnabled,
        PhaseModel::Answered { .. } => InstalledAction::Respond,
        PhaseModel::Refused { .. } => InstalledAction::Respond,
    }
}

/// The request in another phase.
pub open spec fn in_phase(request: RequestModel, phase: PhaseModel) -> RequestModel {
    RequestModel { phase, ..request }
}

pub open spec fn not_enabled_error() -> ErrorModel {
    rpc_error::error_of(
        RpcErrorKind::MethodNotFound,
        "app/installed is not enabled for this app-server"@,
    )
}

pub open spec fn refresh_error(reason: Seq<char>) -> ErrorModel {
    rpc_error::error_of(
        RpcErrorKind::Internal,
        "failed to refresh installed connector runtime state: "@ + reason,
    )
}

/// The request once the workspace policy is known. Where it is not, it fails
/// closed.
pub open spec fn with_policy(
    request: RequestModel,
    enabled: Option<bool>,
    failed: bool,
) -> RequestModel {
    RequestModel {
        policy_failed: failed,
        runtime_enabled: enabled == Some(true),
        phase: PhaseModel::ReadPrevious,
        ..request
    }
}

pub open spec fn age_at(snapshot: SnapshotModel, now: int) -> int {
    if now > snapshot.refreshed_at {
        now - snapshot.refreshed_at
    } else {
        0
    }
}

/// The request once the snapshot to answer from is known.
pub open spec fn with_snapshot(
    request: RequestModel,
    snapshot: SnapshotModel,
    now: int,
) -> RequestModel {
    RequestModel {
        snapshot_age: Some(age_at(snapshot, now) as u128),
        snapshot_tool_count: snapshot.tools.len() as usize,
        phase: PhaseModel::ListInstalled,
        ..request
    }
}

/// Why a reload did not refresh anything.
pub open spec fn skipped(request: RequestModel) -> RefreshDisposition {
    if !request.apps_enabled {
        RefreshDisposition::SkippedAppsDisabled
    } else if request.policy_failed {
        RefreshDisposition::SkippedWorkspacePolicyError
    } else {
        RefreshDisposition::SkippedWorkspaceDisabled
    }
}

/// The request once the current snapshot was read.
pub open spec fn with_previous(
    request: RequestModel,
    snapshot: Option<SnapshotModel>,
    now: int,
) -> RequestModel {
    if request.reload && request.runtime_enabled {
        in_phase(request, PhaseModel::Refresh)
    } else {
        let noted = if request.reload {
            RequestModel {
                refresh_disposition: skipped(request),
                retained_previous_snapshot: snapshot is Some,
                ..request
            }
        } else {
            request
        };
        match snapshot {
            Some(current) => with_snapshot(noted, current, now),
            None => in_phase(noted, PhaseModel::Answered { apps: Seq::empty() }),
        }
    }
}

/// All apps as disabled.
pub open spec fn disabled_apps(ids: Seq<Seq<char>>) -> Seq<InstalledModel> {
    Seq::new(
        ids.len(),
        |i: int| InstalledModel { id: ids[i], enabled: false, callable: false },
    )
}

/// The apps with what is known of each.
pub open spec fn known_apps(
    ids: Seq<Seq<char>>,
    callable: Seq<Seq<char>>,
    enabled: Seq<bool>,
) -> Seq<InstalledModel> {
    Seq::new(
        ids.len(),
        |i: int|
            InstalledModel {
                id: ids[i],
                enabled: enabled[i],
                callable: callable.contains(ids[i]),
            },
    )
}

/// The request after the event. An event that it does not wait for changes
/// nothing.
pub open spec fn advanced(request: RequestModel, event: EventModel) -> RequestModel {
    match (request.phase, event) {
        (PhaseModel::LoadConfig, EventModel::ConfigLoaded { runtime_state_enabled }) => {
            if runtime_state_enabled {
                in_phase(request, PhaseModel::ReadAuth)
            } else {
                in_phase(request, PhaseModel::Refused { error: not_enabled_error() })
            }
        },
        (PhaseModel::LoadConfig, EventModel::ConfigFailed { error }) => in_phase(
            request,
            PhaseModel::Refused { error },
        ),
        (PhaseModel::ReadAuth, EventModel::AuthRead { apps_enabled }) => RequestModel {
            apps_enabled,
            phase: if apps_enabled {
                PhaseModel::ReadPolicy
            } else {
                PhaseModel::ReadPrevious
            },
            ..request
        },
        (PhaseModel::ReadPolicy, EventModel::PolicyRefreshed { enabled }) => if request.reload {
            with_policy(request, enabled, enabled is None)
        } else {
            request
        },
        (PhaseModel::ReadPolicy, EventModel::PolicyCached { enabled }) => if request.reload {
            request
        } else {
            with_policy(request, enabled, false)
        },
        (PhaseModel::ReadPrevious, EventModel::PreviousSnapshot { current, now }) => {
            with_previous(request, current, now)
        },
        (PhaseModel::Refresh, EventModel::SnapshotRefreshed { snapshot, now }) => with_snapshot(
            RequestModel { refresh_disposition: RefreshDisposition::Success, ..request },
            snapshot,
            now,
        ),
        (PhaseModel::Refresh, EventModel::RefreshFailed { reason }) => RequestModel {
            refresh_disposition: RefreshDisposition::Error,
            phase: PhaseModel::Peek { reason },
            ..request
        },
        (PhaseModel::Peek { reason }, EventModel::SnapshotPeeked { present }) => RequestModel {
            retained_previous_snapshot: present,
            phase: PhaseModel::Refused { error: refresh_error(reason) },
            ..request
        },
        (PhaseModel::ListInstalled, EventModel::InstalledListed { ids }) => in_phase(
            request,
            if request.runtime_enabled {
                PhaseModel::ListCallable { ids }
            } else {
                PhaseModel::Answered { apps: disabled_apps(ids) }
            },
        ),
        (PhaseModel::ListCallable { ids }, EventModel::CallableListed { ids: callable }) => {
            in_phase(request, PhaseModel::ReadEnabled { ids, callable })
        },
        (PhaseModel::ReadEnabled { ids, callable }, EventModel::EnabledRead { answers }) => {
            if answers.len() == ids.len() {
                in_phase(
                    request,
                    PhaseModel::Answered { apps: known_apps(ids, callable, answers) },
                )
            } else {
                request
            }
        },
        _ => request,
    }
}

fn list_disabled(ids: Vec<String>) -> (apps: Vec<InstalledApp>)
    ensures
        apps.deep_view() == disabled_apps(ids.deep_view()),
{
    let mut apps: Vec<InstalledApp> = Vec::new();
    let mut i: usize = 0;
    while i < ids.len()
        invariant
            i <= ids@.len(),
            apps@.len() == i,
            forall|j: int|
                0 <= j < i ==> (#[trigger] apps@[j]).deep_view() == (InstalledModel {
                    id: ids@[j]@,
                    enabled: false,
                    callable: false,
                }),
        decreases ids@.len() - i,
    {
        apps.push(InstalledApp { id: ids[i].clone(), enabled: false, callable: false });
        i += 1;
    }
    assert(apps.deep_view() =~= disabled_apps(ids.deep_view()));
    apps
}

fn list_known(ids: Vec<String>, callable: Vec<String>, enabled: Vec<bool>) -> (apps: Vec<
    InstalledApp,
>)
    requires
        enabled@.len() == ids@.len(),
    ensures
        apps.deep_view() == known_apps(ids.deep_view(), callable.deep_view(), enabled@),
{
    let mut apps: Vec<InstalledApp> = Vec::new();
    let mut i: usize = 0;
    while i < ids.len()
        invariant
            i <= ids@.len(),
            enabled@.len() == ids@.len(),
            apps@.len() == i,
            forall|j: int|
                0 <= j < i ==> (#[trigger] apps@[j]).deep_view() == (InstalledModel {
                    id: ids@[j]@,
                    enabled: enabled@[j],
                    callable: callable.deep_view().contains(ids@[j]@),
                }),
        decreases ids@.len() - i,
    {
        let can_call = text::lists_text(&callable, ids[i].as_str());
        apps.push(
            InstalledApp { id: ids[i].clone(), enabled: enabled[i], callable: can_call },
        );
        i += 1;
    }
    assert(apps.deep_view() =~= known_apps(ids.deep_view(), callable.deep_view(), enabled@));
    apps
}

impl InstalledRequest {
    pub fn new(reload: bool) -> (request: Self)
        ensures
            request.deep_view() == started(reload),
    {
        InstalledRequest {
            reload,
            apps_enabled: false,
            policy_failed: false,
            runtime_enabled: false,
            retained_previous_snapshot: false,
            refresh_disposition: if reload {
                RefreshDisposition::NotStarted
            } else {
                RefreshDisposition::NotRequested
            },
            snapshot_age: None,
            snapshot_tool_count: 0,
            phase: InstalledPhase::LoadConfig,
        }
    }

    /// What the request waits for.
    pub fn action(&self) -> (action: InstalledAction)
        ensures
            action == awaited(self.deep_view()),
    {
        match &self.phase {
            InstalledPhase::LoadConfig => InstalledAction::LoadConfig,
            InstalledPhase::ReadAuth => InstalledAction::ReadAuth,
            InstalledPhase::ReadPolicy => if self.reload {
                InstalledAction::RefreshPolicy
            } else {
                InstalledAction::ReadCachedPolicy
            },
            InstalledPhase::ReadPrevious => InstalledAction::ReadPreviousSnapshot,
            InstalledPhase::Refresh => InstalledAction::RefreshSnapshot,
            InstalledPhase::Peek { .. } => InstalledAction::PeekSnapshot,
            InstalledPhase::ListInstalled => InstalledAction::ListInstalled,
            InstalledPhase::ListCallable { .. } => InstalledAction::ListCallable,
            InstalledPhase::ReadEnabled { .. } => InstalledAction::ReadEnabled,
            InstalledPhase::Answered { .. } => InstalledAction::Respond,
            InstalledPhase::Refused { .. } => InstalledAction::Respond,
        }
    }

    fn use_policy(self, enabled: Option<bool>, failed: bool) -> (request: Self)
        ensures
            request.deep_view() == with_policy(self.deep_view(), enabled, failed),
    {
        let mut request = self;
        request.policy_failed = failed;
        request.runtime_enabled =
        match enabled {
            Some(value) => value,
            None => false,
        };
        request.phase = InstalledPhase::ReadPrevious;
        request
    }

    fn use_snapshot(self, snapshot: &ConnectorRuntimeSnapshot, now: i128) -> (request: Self)
        ensures
            request.deep_view() == with_snapshot(
                self.deep_view(),
                snapshot.deep_view(),
                now as int,
            ),
    {
        let mut request = self;
        request.snapshot_age = Some(snapshot.age(now));
        request.snapshot_tool_count = snapshot.tools.len();
        request.phase = InstalledPhase::ListInstalled;
        request
    }

    fn use_previous(
        self,
        snapshot: Option<Arc<ConnectorRuntimeSnapshot>>,
        now: i128,
    ) -> (request: Self)
        ensures
            request.deep_view() == with_previous(
                self.deep_view(),
                snapshot.deep_view(),
                now as int,
            ),
    {
        let mut request = self;
        if request.reload && request.runtime_enabled {
            request.phase = InstalledPhase::Refresh;
            return request;
        }
        if request.reload {
            request.refresh_disposition =
            if !request.apps_enabled {
                RefreshDisposition::SkippedAppsDisabled
            } else if request.policy_failed {
                RefreshDisposition::SkippedWorkspacePolicyError
            } else {
                RefreshDisposition::SkippedWorkspaceDisabled
            };
            request.retained_previous_snapshot = snapshot.is_some();
        }
        match snapshot {
            Some(current) => request.use_snapshot(&current, now),
            None => {
                let apps: Vec<InstalledApp> = Vec::new();
                assert(apps.deep_view() =~= Seq::<InstalledModel>::empty());
                request.phase = InstalledPhase::Answered { apps };
                request
            },
        }
    }

    /// The request after the event. An event that it does not wait for changes
    /// nothing.
    pub fn advance(self, event: InstalledEvent) -> (request: Self)
        ensures
            request.deep_view() == advanced(self.deep_view(), event.deep_view()),
    {
        let mut request = self;
        let mut phase = InstalledPhase::LoadConfig;
        std::mem::swap(&mut phase, &mut request.phase);
        match (phase, event) {
            (
                InstalledPhase::LoadConfig,
                InstalledEvent::ConfigLoaded { runtime_state_enabled },
            ) => {
                request.phase =
                if runtime_state_enabled {
                    InstalledPhase::ReadAuth
                } else {
                    let error = rpc_error::rpc_error(
                        RpcErrorKind::MethodNotFound,
                        "app/installed is not enabled for this app-server",
                        "",
                    );
                    proof {
                        reveal_strlit("");
                        assert("app/installed is not enabled for this app-server"@ + ""@
                            =~= "app/installed is not enabled for this app-server"@);
                    }
                    InstalledPhase::Refused { error }
                };
                request
            },
            (InstalledPhase::LoadConfig, InstalledEvent::ConfigFailed { error }) => {
                request.phase = InstalledPhase::Refused { error };
                request
            },
            (InstalledPhase::ReadAuth, InstalledEvent::AuthRead { apps_enabled }) => {
                request.apps_enabled = apps_enabled;
                request.phase =
                if apps_enabled {
                    InstalledPhase::ReadPolicy
                } else {
                    InstalledPhase::ReadPrevious
                };
                request
            },
            (InstalledPhase::ReadPolicy, InstalledEvent::PolicyRefreshed { enabled }) => {
                request.phase = InstalledPhase::ReadPolicy;
                if request.reload {
                    request.use_policy(enabled, enabled.is_none())
                } else {
                    request
                }
            },
            (InstalledPhase::ReadPolicy, InstalledEvent::PolicyCached { enabled }) => {
                request.phase = InstalledPhase::ReadPolicy;
                if request.reload {
                    request
                } else {
                    request.use_policy(enabled, false)
                }
            },
            (InstalledPhase::ReadPrevious, InstalledEvent::PreviousSnapshot { current, now }) => {
                request.phase = InstalledPhase::ReadPrevious;
                request.use_previous(current, now)
            },
            (InstalledPhase::Refresh, InstalledEvent::SnapshotRefreshed { snapshot, now }) => {
                request.phase = InstalledPhase::Refresh;
                request.refresh_disposition = RefreshDisposition::Success;
                request.use_snapshot(&snapshot, now)
            },
            (InstalledPhase::Refresh, InstalledEvent::RefreshFailed { reason }) => {
                request.refresh_disposition = RefreshDisposition::Error;
                request.phase = InstalledPhase::Peek { reason };
                request
            },
            (InstalledPhase::Peek { reason }, InstalledEvent::SnapshotPeeked { present }) => {
                request.retained_previous_snapshot = present;
                let error = rpc_error::rpc_error(
                    RpcErrorKind::Internal,
                    "failed to refresh installed connector runtime state: ",
                    reason.as_str(),
                );
                request.phase = InstalledPhase::Refused { error };
                request
            },
            (InstalledPhase::ListInstalled, InstalledEvent::InstalledListed { ids }) => {
                request.phase =
                if request.runtime_enabled {
                    InstalledPhase::ListCallable { ids }
                } else {
                    InstalledPhase::Answered { apps: list_disabled(ids) }
                };
                request
            },
            (
                InstalledPhase::ListCallable { ids },
                InstalledEvent::CallableListed { ids: callable },
            ) => {
                request.phase = InstalledPhase::ReadEnabled { ids, callable };
                request
            },
            (
                InstalledPhase::ReadEnabled { ids, callable },
                InstalledEvent::EnabledRead { answers },
            ) => {
                request.phase =
                if answers.len() == ids.len() {
                    InstalledPhase::Answered { apps: list_known(ids, callable, answers) }
                } else {
                    InstalledPhase::ReadEnabled { ids, callable }
                };
                request
            },
            (phase, _) => {
                request.phase = phase;
                request
            },
        }
    }
}

impl InstalledRequest {
    /// The answer to the request, once it is known.
    pub fn into_result(self) -> (result: Option<Result<Vec<InstalledApp>, RpcError>>)
        ensures
            match self.deep_view().phase {
                PhaseModel::Answered { apps } => result matches Some(Ok(list)) && list.deep_view()
                    == apps,
                PhaseModel::Refused { error } => result matches Some(Err(refusal))
                    && refusal.deep_view() == error,
                _ => result is None,
            },
    {
        match self.phase {
            InstalledPhase::Answered { apps } => Some(Ok(apps)),
            InstalledPhase::Refused { error } => Some(Err(error)),
            _ => None,
        }
    }
}

/// The size of an answer: the number of apps, and the length of its serialized
/// form, where it could be serialized.
#[derive(Clone, Copy, Debug, PartialEq, Eq, Structural)]
pub struct ResponseSize {
    pub apps: usize,
    pub bytes: Option<usize>,
}

pub open spec fn path_tag() -> TagModel {
    metrics::tag_of("path"@, "new"@)
}

pub open spec fn duration_metric(
    reload: bool,
    retained_previous_snapshot: bool,
    refresh_disposition: RefreshDisposition,
    answered: bool,
) -> RecordModel {
    RecordModel {
        name: "codex.apps.installed.duration_ms"@,
        value: MetricValue::Elapsed,
        tags: seq![
            path_tag(),
            metrics::tag_of("reload"@, metrics::flag_text(reload)),
            metrics::tag_of("refresh"@, disposition_text(refresh_disposition)),
            metrics::tag_of(
                "outcome"@,
                if answered {
                    "success"@
                } else {
                    "error"@
                },
            ),
            metrics::tag_of(
                "retained_previous_snapshot"@,
                metrics::flag_text(retained_previous_snapshot),
            ),
        ],
    }
}

pub open spec fn count_metric(name: Seq<char>, count: usize) -> RecordModel {
    RecordModel {
        name,
        value: MetricValue::Count(metrics::saturated(count as nat)),
        tags: seq![path_tag()],
    }
}

pub open spec fn bytes_metrics(bytes: Option<usize>) -> Seq<RecordModel> {
    match bytes {
        Some(count) => seq![count_metric("codex.apps.installed.response_bytes"@, count)],
        None => Seq::empty(),
    }
}

pub open spec fn age_metrics(snapshot_age: Option<u128>) -> Seq<RecordModel> {
    match snapshot_age {
        Some(age) => seq![
            RecordModel {
                name: "codex.apps.snapshot.age_ms"@,
                value: MetricValue::Nanoseconds(age),
                tags: seq![path_tag(), metrics::tag_of("observation"@, "installed"@)],
            },
        ],
        None => Seq::empty(),
    }
}

/// The metrics of a request: how long it took, and of an answer also how large
/// it is, how many apps and tools there are, and how old they are.
pub open spec fn installed_metrics(
    reload: bool,
    retained_previous_snapshot: bool,
    refresh_disposition: RefreshDisposition,
    snapshot_age: Option<u128>,
    snapshot_tool_count: usize,
    response: Option<ResponseSize>,
) -> Seq<RecordModel> {
    let duration = duration_metric(
        reload,
        retained_previous_snapshot,
        refresh_disposition,
        response is Some,
    );
    match response {
        Some(size) => seq![duration] + bytes_metrics(size.bytes) + seq![
            count_metric("codex.apps.installed.connector_count"@, size.apps),
            count_metric("codex.apps.installed.tool_count"@, snapshot_tool_count),
        ] + age_metrics(snapshot_age),
        None => seq![duration],
    }
}

fn count_record(name: &'static str, count: usize) -> (record: MetricRecord)
    ensures
        record.deep_view() == count_metric(name@, count),
{
    let mut tags: Vec<MetricTag> = Vec::new();
    tags.push(metrics::tag("path", "new"));
    assert(tags.deep_view() =~= seq![path_tag()]);
    MetricRecord { name, value: MetricValue::Count(metrics::usize_to_i64(count)), tags }
}

/// The metrics to record of a request. `response` is the size of the answer,
/// `None` where the request was refused.
pub fn record_apps_installed_metrics(
    reload: bool,
    retained_previous_snapshot: bool,
    refresh_disposition: RefreshDisposition,
    snapshot_age: Option<u128>,
    snapshot_tool_count: usize,
    response: Option<ResponseSize>,
) -> (records: Vec<MetricRecord>)
    ensures
        records.deep_view() == installed_metrics(
            reload,
            retained_previous_snapshot,
            refresh_disposition,
            snapshot_age,
            snapshot_tool_count,
            response,
        ),
{
    let mut tags: Vec<MetricTag> = Vec::new();
    let outcome = if response.is_some() {
        "success"
    } else {
        "error"
    };
    tags.push(metrics::tag("path", "new"));
    tags.push(metrics::tag("reload", metrics::flag_tag(reload)));
    tags.push(metrics::tag("refresh", refresh_disposition.as_str()));
    tags.push(metrics::tag("outcome", outcome));
    tags.push(
        metrics::tag("retained_previous_snapshot", metrics::flag_tag(retained_previous_snapshot)),
    );
    let ghost duration = duration_metric(
        reload,
        retained_previous_snapshot,
        refresh_disposition,
        response is Some,
    );
    assert(tags.deep_view() =~= duration.tags);
    let mut records: Vec<MetricRecord> = Vec::new();
    records.push(
        MetricRecord {
            name: "codex.apps.installed.duration_ms",
            value: MetricValue::Elapsed,
            tags,
        },
    );
    assert(records.deep_view() =~= seq![duration]);
    match response {
        Some(size) => {
            match size.bytes {
                Some(bytes) => {
                    records.push(count_record("codex.apps.installed.response_bytes", bytes));
                },
                None => {},
            }
            assert(records.deep_view() =~= seq![duration] + bytes_metrics(size.bytes));
            records.push(count_record("codex.apps.installed.connector_count", size.apps));
            records.push(count_record("codex.apps.installed.tool_count", snapshot_tool_count));
            let ghost counted = records.deep_view();
            assert(counted =~= seq![duration] + bytes_metrics(size.bytes) + seq![
                count_metric("codex.apps.installed.connector_count"@, size.apps),
                count_metric("codex.apps.installed.tool_count"@, snapshot_tool_count),
            ]);
            match snapshot_age {
                Some(age) => {
                    let mut age_tags: Vec<MetricTag> = Vec::new();
                    age_tags.push(metrics::tag("path", "new"));
                    age_tags.push(metrics::tag("observation", "installed"));
                    assert(age_tags.deep_view() =~= age_metrics(snapshot_age)[0].tags);
                    records.push(
                        MetricRecord {
                            name: "codex.apps.snapshot.age_ms",
                            value: MetricValue::Nanoseconds(age),
                            tags: age_tags,
                        },
                    );
                },
                None => {},
            }
            assert(records.deep_view() =~= counted + age_metrics(snapshot_age));
        },
        None => {},
    }
    records
}

/// The request after `events`.
pub open spec fn run(request: RequestModel, events: Seq<EventModel>) -> RequestModel
    decreases events.len(),
{
    if events.len() == 0 {
        request
    } else {
        advanced(run(request, events.drop_last()), events.last())
    }
}

/// No app is enabled, and none can be called.
pub open spec fn all_disabled(apps: Seq<InstalledModel>) -> bool {
    forall|i: int| 0 <= i < apps.len() ==> !(#[trigger] apps[i]).enabled && !apps[i].callable
}

/// What holds of a request at any time.
pub open spec fn is_sound(request: RequestModel) -> bool {
    &&& request.runtime_enabled ==> request.apps_enabled
    &&& request.policy_failed ==> request.reload && !request.runtime_enabled
    &&& request.phase is Refresh || request.phase is Peek ==> request.reload
        && request.runtime_enabled
    &&& request.phase is ListCallable || request.phase is ReadEnabled ==> request.runtime_enabled
    &&& request.phase is LoadConfig || request.phase is ReadAuth || request.phase is ReadPolicy
        ==> !request.runtime_enabled && !request.policy_failed
    &&& request.phase is LoadConfig || request.phase is ReadAuth ==> !request.apps_enabled
    &&& request.phase is ReadPolicy ==> request.apps_enabled
    &&& !request.runtime_enabled ==> (request.phase matches PhaseModel::Answered { apps }
        ==> all_disabled(apps))
    &&& !request.reload ==> request.refresh_disposition is NotRequested
        && !request.retained_previous_snapshot
    &&& request.reload ==> !(request.refresh_disposition is NotRequested)
    &&& request.reload && (request.phase is ListInstalled || request.phase is ListCallable
        || request.phase is ReadEnabled || request.phase is Answered) ==> (
    request.refresh_disposition is Success <==> request.runtime_enabled)
    &&& request.phase is Answered && request.reload && !request.runtime_enabled
        ==> request.refresh_disposition == skipped(request)
    &&& request.phase is ListInstalled && request.reload && !request.runtime_enabled
        ==> request.refresh_disposition == skipped(request) && request.retained_previous_snapshot
}

/// Every request is sound, whatever comes of its actions, and stays a reload or a
/// cached read.
pub proof fn requests_are_sound(reload: bool, events: Seq<EventModel>)
    ensures
        is_sound(run(started(reload), events)),
        run(started(reload), events).reload == reload,
    decreases events.len(),
{
    if events.len() > 0 {
        requests_are_sound(reload, events.drop_last());
    }
}

/// A cached read never goes over the network, whatever comes of its actions.
pub proof fn cached_reads_stay_local(events: Seq<EventModel>)
    ensures
        !is_remote(awaited(run(started(false), events))),
{
    requests_are_sound(false, events);
}

/// The tools are fetched anew only where a reload was asked for, apps are enabled
/// and the workspace allows them.
pub proof fn only_enabled_reloads_fetch(reload: bool, events: Seq<EventModel>)
    ensures
        awaited(run(started(reload), events)) is RefreshSnapshot ==> reload && run(
            started(reload),
            events,
        ).apps_enabled && run(started(reload), events).runtime_enabled,
{
    requests_are_sound(reload, events);
}

/// Where apps are disabled, or the workspace does not allow them, or its policy is
/// unknown, no app in the answer is enabled or can be called.
pub proof fn disabled_runtimes_answer_disabled_apps(reload: bool, events: Seq<EventModel>)
    ensures
        ({
            let request = run(started(reload), events);
            !request.runtime_enabled ==> (request.phase matches PhaseModel::Answered { apps }
                ==> all_disabled(apps))
        }),
{
    requests_are_sound(reload, events);
}

/// An unknown workspace policy counts as one that does not allow apps.
pub proof fn unknown_policy_fails_closed(request: RequestModel)
    requires
        request.phase is ReadPolicy,
        is_sound(request),
    ensures
        !advanced(request, EventModel::PolicyRefreshed { enabled: None }).runtime_enabled,
        !advanced(request, EventModel::PolicyCached { enabled: None }).runtime_enabled,
{
}

/// The answer names exactly the apps in the snapshot, in order, whether or not
/// they are enabled.
pub proof fn answers_name_the_installed_apps(
    request: RequestModel,
    ids: Seq<Seq<char>>,
    callable: Seq<Seq<char>>,
    enabled: Seq<bool>,
)
    requires
        request.phase is ListInstalled,
        enabled.len() == ids.len(),
    ensures
        ({
            let listed = advanced(request, EventModel::InstalledListed { ids });
            let called = advanced(listed, EventModel::CallableListed { ids: callable });
            let end = advanced(called, EventModel::EnabledRead { answers: enabled });
            end.phase matches PhaseModel::Answered { apps } && apps.len() == ids.len()
                && forall|i: int| 0 <= i < ids.len() ==> (#[trigger] apps[i]).id == ids[i]
        }),
{
}

/// An answer is final.
pub proof fn answers_are_final(request: RequestModel, event: EventModel)
    requires
        awaited(request) is Respond,
    ensures
        advanced(request, event) == request,
{
}

/// A failed reload is refused with the reason, whatever snapshot there was before.
pub proof fn failed_reloads_are_refused(request: RequestModel, reason: Seq<char>, present: bool)
    requires
        request.phase is Refresh,
    ensures
        ({
            let failed = advanced(request, EventModel::RefreshFailed { reason });
            let end = advanced(failed, EventModel::SnapshotPeeked { present });
            &&& end.phase == (PhaseModel::Refused { error: refresh_error(reason) })
            &&& end.refresh_disposition is Error
            &&& end.retained_previous_snapshot == present
        }),
{
}

}
