//! The `app/list` request: all apps, page by page.
//!
//! Two lists are loaded at the same time, the apps that are accessible and the
//! directory of all apps. What is known so far is merged and announced as it
//! comes in, and the request is answered once both lists are there.

use vstd::prelude::*;
use vstd::string::*;
use crate::app_info::{self, AppInfo, AppModel};
use crate::decimal;
use crate::metrics::{self, MetricRecord, MetricTag, MetricValue, RecordModel};
use crate::rpc_error::{self, ErrorModel, RpcError, RpcErrorKind};

verus! {

pub const APP_LIST_LOAD_TIMEOUT_SECS: usize = 90;

/// What to do with a request before any list is loaded.
#[derive(Clone, Copy, Debug, PartialEq, Eq, Structural)]
pub enum GateAction {
    /// Answer with no apps.
    RespondEmpty,
    /// Ask whether the workspace allows apps.
    AskWorkspace,
    /// Load the lists.
    Load,
}

/// Whether the workspace allows apps. Where that could not be asked, it does.
pub open spec fn workspace_allows(answer: Option<bool>) -> bool {
    answer != Some(false)
}

/// Whether the workspace allows apps. `None` is for a workspace that could not be
/// asked.
pub fn workspace_codex_plugins_enabled(answer: Option<bool>) -> (result: bool)
    ensures
        result == workspace_allows(answer),
{
    match answer {
        Some(enabled) => enabled,
        None => true,
    }
}

pub open spec fn gate(apps_enabled: bool, workspace: Option<Option<bool>>) -> GateAction {
    if !apps_enabled {
        GateAction::RespondEmpty
    } else {
        match workspace {
            None => GateAction::AskWorkspace,
            Some(answer) => if workspace_allows(answer) {
                GateAction::Load
            } else {
                GateAction::RespondEmpty
            },
        }
    }
}

/// What to do with a request. `workspace` is the answer of the workspace, once it
/// was asked.
pub fn apps_list_gate(apps_enabled: bool, workspace: Option<Option<bool>>) -> (action: GateAction)
    ensures
        action == gate(apps_enabled, workspace),
{
    if !apps_enabled {
        return GateAction::RespondEmpty;
    }
    match workspace {
        None => GateAction::AskWorkspace,
        Some(answer) => if workspace_codex_plugins_enabled(answer) {
            GateAction::Load
        } else {
            GateAction::RespondEmpty
        },
    }
}

/// What follows an answer.
#[derive(Clone, Copy, Debug, PartialEq, Eq, Structural)]
pub struct AfterResponse {
    /// Record how long the request took.
    pub record_duration: bool,
    /// Load the lists once more, and fetch them anew.
    pub retry: bool,
}

/// A request that was answered while the apps server was not ready is repeated,
/// but only once.
pub open spec fn following(codex_apps_ready: Option<bool>, force_refetch: bool) -> AfterResponse {
    AfterResponse {
        record_duration: codex_apps_ready is Some,
        retry: codex_apps_ready == Some(false) && !force_refetch,
    }
}

/// What follows an answer. `codex_apps_ready` is `None` for a request that was
/// refused.
pub fn after_response(codex_apps_ready: Option<bool>, force_refetch: bool) -> (next: AfterResponse)
    ensures
        next == following(codex_apps_ready, force_refetch),
{
    match codex_apps_ready {
        Some(ready) => AfterResponse { record_duration: true, retry: !ready && !force_refetch },
        None => AfterResponse { record_duration: false, retry: false },
    }
}

pub open spec fn legacy_duration_metric(reload: bool) -> RecordModel {
    RecordModel {
        name: "codex.apps.installed.duration_ms"@,
        value: MetricValue::Elapsed,
        tags: seq![
            metrics::tag_of("path"@, "legacy"@),
            metrics::tag_of("reload"@, metrics::flag_text(reload)),
        ],
    }
}

/// The metric that records how long a request took.
pub fn record_legacy_apps_installed_duration(reload: bool) -> (record: MetricRecord)
    ensures
        record.deep_view() == legacy_duration_metric(reload),
{
    let mut tags: Vec<MetricTag> = Vec::new();
    tags.push(metrics::tag("path", "legacy"));
    tags.push(metrics::tag("reload", metrics::flag_tag(reload)));
    assert(tags.deep_view() =~= legacy_duration_metric(reload).tags);
    MetricRecord { name: "codex.apps.installed.duration_ms", value: MetricValue::Elapsed, tags }
}

/// The position that a cursor stands for. A request without one begins at the
/// start.
pub open spec fn cursor_position(cursor: Option<Seq<char>>) -> Option<usize> {
    match cursor {
        Some(text) => decimal::count_value(text),
        None => Some(0),
    }
}

pub open spec fn cursor_error(cursor: Seq<char>) -> ErrorModel {
    rpc_error::error_of(RpcErrorKind::InvalidRequest, "invalid cursor: "@ + cursor)
}

/// Reads the cursor of a request.
pub fn start_position(cursor: Option<&str>) -> (start: Result<usize, RpcError>)
    ensures
        match start {
            Ok(position) => cursor_position(cursor.deep_view()) == Some(position),
            Err(error) => cursor_position(cursor.deep_view()) is None && (cursor matches Some(text)
                && error.deep_view() == cursor_error(text@)),
        },
{
    match cursor {
        Some(text) => match decimal::parse_count(text) {
            Some(position) => Ok(position),
            None => Err(
                rpc_error::rpc_error(RpcErrorKind::InvalidRequest, "invalid cursor: ", text),
            ),
        },
        None => Ok(0),
    }
}

/// A page of apps, and the cursor of the next one.
#[derive(Debug, PartialEq, Eq)]
pub struct AppsListResponse {
    pub data: Vec<AppInfo>,
    pub next_cursor: Option<String>,
}

pub struct PageModel {
    pub data: Seq<AppModel>,
    pub next_cursor: Option<Seq<char>>,
}

impl DeepView for AppsListResponse {
    type V = PageModel;

    open spec fn deep_view(&self) -> PageModel {
        PageModel { data: self.data.deep_view(), next_cursor: self.next_cursor.deep_view() }
    }
}

/// The size of a page. Without a limit it is the number of apps, as a 32-bit
/// number, and it is never zero.
pub open spec fn page_size(total: nat, limit: Option<u32>) -> nat {
    let asked: nat = match limit {
        Some(number) => number as nat,
        None => total % 0x1_0000_0000,
    };
    if asked == 0 {
        1
    } else {
        asked
    }
}

/// Where the page that begins at `start` ends.
pub open spec fn page_end(total: nat, start: nat, limit: Option<u32>) -> nat {
    if start + page_size(total, limit) < total {
        start + page_size(total, limit)
    } else {
        total
    }
}

/// The page that begins at `start`.
pub open spec fn page(apps: Seq<AppModel>, start: nat, limit: Option<u32>) -> PageModel {
    let end = page_end(apps.len(), start, limit);
    PageModel {
        data: apps.subrange(start as int, end as int),
        next_cursor: if end < apps.len() {
            Some(decimal::numeral(end))
        } else {
            None
        },
    }
}

pub open spec fn beyond_error(start: nat, total: nat) -> ErrorModel {
    rpc_error::error_of(
        RpcErrorKind::InvalidRequest,
        "cursor "@ + decimal::numeral(start) + " exceeds total apps "@ + decimal::numeral(total),
    )
}

/// The page of `connectors` that begins at `start`.
pub fn paginate_apps(connectors: &Vec<AppInfo>, start: usize, limit: Option<u32>) -> (response:
    Result<AppsListResponse, RpcError>)
    ensures
        match response {
            Ok(found) => start <= connectors@.len() && found.deep_view() == page(
                connectors.deep_view(),
                start as nat,
                limit,
            ),
            Err(error) => start > connectors@.len() && error.deep_view() == beyond_error(
                start as nat,
                connectors@.len(),
            ),
        },
{
    let total: usize = connectors.len();
    if start > total {
        let mut more = decimal::to_numeral(start);
        more.append(" exceeds total apps ");
        more.append(decimal::to_numeral(total).as_str());
        let error = rpc_error::rpc_error(RpcErrorKind::InvalidRequest, "cursor ", more.as_str());
        assert(error.message@ =~= beyond_error(start as nat, total as nat).message);
        return Err(error);
    }
    let asked: u64 = match limit {
        Some(number) => number as u64,
        None => total as u64 % 0x1_0000_0000u64,
    };
    let size: u64 = if asked == 0 {
        1
    } else {
        asked
    };
    let left: usize = total - start;
    let end: usize = if size < left as u64 {
        start + size as usize
    } else {
        total
    };
    let mut data: Vec<AppInfo> = Vec::new();
    let mut i: usize = start;
    while i < end
        invariant
            start <= i <= end <= connectors@.len(),
            data@.len() == i - start,
            forall|j: int|
                0 <= j < data@.len() ==> (#[trigger] data@[j]).deep_view() == connectors@[start
                    + j].deep_view(),
        decreases end - i,
    {
        data.push(connectors[i].clone());
        i += 1;
    }
    assert(data.deep_view() =~= connectors.deep_view().subrange(start as int, end as int));
    let next_cursor = if end < total {
        Some(decimal::to_numeral(end))
    } else {
        None
    };
    Ok(AppsListResponse { data, next_cursor })
}

/// What is handed to the merging of the two lists.
pub struct MergeInput {
    pub all: Vec<AppInfo>,
    pub accessible: Vec<AppInfo>,
    pub all_connectors_loaded: bool,
}

pub struct MergeModel {
    pub all: Seq<AppModel>,
    pub accessible: Seq<AppModel>,
    pub all_connectors_loaded: bool,
}

impl DeepView for MergeInput {
    type V = MergeModel;

    open spec fn deep_view(&self) -> MergeModel {
        MergeModel {
            all: self.all.deep_view(),
            accessible: self.accessible.deep_view(),
            all_connectors_loaded: self.all_connectors_loaded,
        }
    }
}

pub open spec fn list_or_none(apps: Option<Seq<AppModel>>) -> Seq<AppModel> {
    match apps {
        Some(list) => list,
        None => Seq::empty(),
    }
}

/// What is merged of two lists, of which either may be missing.
pub open spec fn merge_of(
    all: Option<Seq<AppModel>>,
    accessible: Option<Seq<AppModel>>,
) -> MergeModel {
    MergeModel {
        all: list_or_none(all),
        accessible: list_or_none(accessible),
        all_connectors_loaded: all is Some,
    }
}

fn copy_list(apps: &Option<Vec<AppInfo>>) -> (copy: Vec<AppInfo>)
    ensures
        copy.deep_view() == list_or_none(apps.deep_view()),
{
    match apps {
        Some(list) => app_info::copy_apps(list),
        None => {
            let copy: Vec<AppInfo> = Vec::new();
            assert(copy.deep_view() =~= Seq::<AppModel>::empty());
            copy
        },
    }
}

/// What is merged of two lists, of which either may be missing.
pub fn merge_loaded_apps(
    all_connectors: &Option<Vec<AppInfo>>,
    accessible_connectors: &Option<Vec<AppInfo>>,
) -> (input: MergeInput)
    ensures
        input.deep_view() == merge_of(
            all_connectors.deep_view(),
            accessible_connectors.deep_view(),
        ),
{
    MergeInput {
        all: copy_list(all_connectors),
        accessible: copy_list(accessible_connectors),
        all_connectors_loaded: all_connectors.is_some(),
    }
}

/// Some of the apps is accessible.
pub open spec fn any_accessible(apps: Seq<AppModel>) -> bool {
    exists|i: int| 0 <= i < apps.len() && (#[trigger] apps[i]).is_accessible
}

/// The list is worth announcing: it is complete, or it has an accessible app.
pub open spec fn worth_announcing(
    apps: Seq<AppModel>,
    accessible_loaded: bool,
    all_loaded: bool,
) -> bool {
    any_accessible(apps) || (accessible_loaded && all_loaded)
}

/// Whether the list is worth announcing.
pub fn should_send_app_list_updated_notification(
    connectors: &Vec<AppInfo>,
    accessible_loaded: bool,
    all_loaded: bool,
) -> (result: bool)
    ensures
        result == worth_announcing(connectors.deep_view(), accessible_loaded, all_loaded),
{
    if accessible_loaded && all_loaded {
        return true;
    }
    let mut i: usize = 0;
    while i < connectors.len()
        invariant
            i <= connectors@.len(),
            forall|j: int|
                0 <= j < i ==> !(#[trigger] connectors.deep_view()[j]).is_accessible,
        decreases connectors@.len() - i,
    {
        if connectors[i].is_accessible {
            assert(connectors.deep_view()[i as int].is_accessible);
            return true;
        }
        i += 1;
    }
    false
}

/// What the loading of the lists brings.
pub enum LoadEvent {
    /// The accessible apps, and whether the apps server was ready.
    Accessible { connectors: Vec<AppInfo>, codex_apps_ready: bool },
    AccessibleFailed { reason: String },
    /// All apps.
    Directory { connectors: Vec<AppInfo> },
    DirectoryFailed { reason: String },
    /// Nothing more will come.
    Closed,
    /// The time is up.
    TimedOut,
}

pub enum LoadModel {
    Accessible { connectors: Seq<AppModel>, codex_apps_ready: bool },
    AccessibleFailed { reason: Seq<char> },
    Directory { connectors: Seq<AppModel> },
    DirectoryFailed { reason: Seq<char> },
    Closed,
    TimedOut,
}

impl DeepView for LoadEvent {
    type V = LoadModel;

    open spec fn deep_view(&self) -> LoadModel {
        match self {
            LoadEvent::Accessible { connectors, codex_apps_ready } => LoadModel::Accessible {
                connectors: connectors.deep_view(),
                codex_apps_ready: *codex_apps_ready,
            },
            LoadEvent::AccessibleFailed { reason } => LoadModel::AccessibleFailed {
                reason: reason@,
            },
            LoadEvent::Directory { connectors } => LoadModel::Directory {
                connectors: connectors.deep_view(),
            },
            LoadEvent::DirectoryFailed { reason } => LoadModel::DirectoryFailed {
                reason: reason@,
            },
            LoadEvent::Closed => LoadModel::Closed,
            LoadEvent::TimedOut => LoadModel::TimedOut,
        }
    }
}

/// What the request waits for.
#[derive(Clone, Copy, Debug, PartialEq, Eq, Structural)]
pub enum ListAction {
    /// Merge the lists that `merge_input` gives.
    Merge,
    /// Wait for what the loading brings.
    Wait,
    /// Answer the request.
    Respond,
}

/// How far the request has come.
pub enum ListPhase {
    /// What was cached is to be merged.
    MergeCached,
    Wait,
    /// What was loaded is to be merged.
    MergeLoaded,
    Answered { response: AppsListResponse },
    Refused { error: RpcError },
}

pub enum ListPhaseModel {
    MergeCached,
    Wait,
    MergeLoaded,
    Answered { response: PageModel },
    Refused { error: ErrorModel },
}

impl DeepView for ListPhase {
    type V = ListPhaseModel;

    open spec fn deep_view(&self) -> ListPhaseModel {
        match self {
            ListPhase::MergeCached => ListPhaseModel::MergeCached,
            ListPhase::Wait => ListPhaseModel::Wait,
            ListPhase::MergeLoaded => ListPhaseModel::MergeLoaded,
            ListPhase::Answered { response } => ListPhaseModel::Answered {
                response: response.deep_view(),
            },
            ListPhase::Refused { error } => ListPhaseModel::Refused { error: error.deep_view() },
        }
    }
}

/// An `app/list` request whose lists are being loaded.
pub struct ListRequest {
    pub start: usize,
    pub limit: Option<u32>,
    pub force_refetch: bool,
    /// The directory as it was cached.
    pub cached_all: Option<Vec<AppInfo>>,
    pub accessible: Option<Vec<AppInfo>>,
    pub all: Option<Vec<AppInfo>>,
    pub accessible_loaded: bool,
    pub all_loaded: bool,
    pub codex_apps_ready: bool,
    pub last_announced: Option<Vec<AppInfo>>,
    pub phase: ListPhase,
}

pub struct ListModel {
    pub start: usize,
    pub limit: Option<u32>,
    pub force_refetch: bool,
    pub cached_all: Option<Seq<AppModel>>,
    pub accessible: Option<Seq<AppModel>>,
    pub all: Option<Seq<AppModel>>,
    pub accessible_loaded: bool,
    pub all_loaded: bool,
    pub codex_apps_ready: bool,
    pub last_announced: Option<Seq<AppModel>>,
    pub phase: ListPhaseModel,
}

impl DeepView for ListRequest {
    type V = ListModel;

    open spec fn deep_view(&self) -> ListModel {
        ListModel {
            start: self.start,
            limit: self.limit,
            force_refetch: self.force_refetch,
            cached_all: self.cached_all.deep_view(),
            accessible: self.accessible.deep_view(),
            all: self.all.deep_view(),
            accessible_loaded: self.accessible_loaded,
            all_loaded: self.all_loaded,
            codex_apps_ready: self.codex_apps_ready,
            last_announced: self.last_announced.deep_view(),
            phase: self.phase.deep_view(),
        }
    }
}

/// A request when the loading of its lists begins. What was cached is shown
/// meanwhile, where anything was.
pub open spec fn loading(
    start: usize,
    limit: Option<u32>,
    force_refetch: bool,
    cached_accessible: Option<Seq<AppModel>>,
    cached_all: Option<Seq<AppModel>>,
) -> ListModel {
    ListModel {
        start,
        limit,
        force_refetch,
        cached_all,
        accessible: cached_accessible,
        all: cached_all,
        accessible_loaded: false,
        all_loaded: false,
        codex_apps_ready: true,
        last_announced: None,
        phase: if cached_accessible is Some || cached_all is Some {
            ListPhaseModel::MergeCached
        } else {
            ListPhaseModel::Wait
        },
    }
}

pub open spec fn list_awaited(request: ListModel) -> ListAction {
    match request.phase {
        ListPhaseModel::MergeCached => ListAction::Merge,
        ListPhaseModel::Wait => ListAction::Wait,
        ListPhaseModel::MergeLoaded => ListAction::Merge,
        ListPhaseModel::Answered { .. } => ListAction::Respond,
        ListPhaseModel::Refused { .. } => ListAction::Respond,
    }
}

/// Both lists are there.
pub open spec fn is_complete(request: ListModel) -> bool {
    request.accessible_loaded && request.all_loaded
}

/// What is merged: the lists as far as they are known. While a refetch is under
/// way, the directory is the cached one, where there is one, and no accessible
/// apps are shown before they were fetched anew.
pub open spec fn merge_inputs(request: ListModel) -> MergeModel {
    let interim = request.force_refetch && !is_complete(request) && request.phase is MergeLoaded;
    merge_of(
        if interim && request.cached_all is Some {
            request.cached_all
        } else {
            request.all
        },
        if interim && !request.accessible_loaded {
            None
        } else {
            request.accessible
        },
    )
}

pub open spec fn internal(message: Seq<char>) -> ListPhaseModel {
    ListPhaseModel::Refused { error: rpc_error::error_of(RpcErrorKind::Internal, message) }
}

pub open spec fn timeout_text() -> Seq<char> {
    "timed out waiting for app lists after "@ + decimal::numeral(
        APP_LIST_LOAD_TIMEOUT_SECS as nat,
    ) + " seconds"@
}

/// The request after the loading brought something. It is heeded only while the
/// request waits for it.
pub open spec fn loaded(request: ListModel, event: LoadModel) -> ListModel {
    if !(request.phase is Wait) {
        request
    } else {
        match event {
            LoadModel::Accessible { connectors, codex_apps_ready } => ListModel {
                accessible: Some(connectors),
                accessible_loaded: true,
                codex_apps_ready,
                phase: ListPhaseModel::MergeLoaded,
                ..request
            },
            LoadModel::AccessibleFailed { reason } => ListModel {
                phase: internal("failed to load accessible apps: "@ + reason),
                ..request
            },
            LoadModel::Directory { connectors } => ListModel {
                all: Some(connectors),
                all_loaded: true,
                phase: ListPhaseModel::MergeLoaded,
                ..request
            },
            LoadModel::DirectoryFailed { reason } => ListModel {
                phase: internal("failed to list apps: "@ + reason),
                ..request
            },
            LoadModel::Closed => ListModel {
                phase: internal("failed to load app lists"@),
                ..request
            },
            LoadModel::TimedOut => ListModel { phase: internal(timeout_text()), ..request },
        }
    }
}

/// What is announced of a merged list: nothing that is not worth it, and nothing
/// that was announced just before.
pub open spec fn announcement(request: ListModel, merged: Seq<AppModel>) -> Option<
    Seq<AppModel>,
> {
    if worth_announcing(merged, request.accessible_loaded, request.all_loaded)
        && request.last_announced != Some(merged) {
        Some(merged)
    } else {
        None
    }
}

/// The answer, or the refusal, of a complete list.
pub open spec fn answer(request: ListModel, merged: Seq<AppModel>) -> ListPhaseModel {
    if request.start > merged.len() {
        ListPhaseModel::Refused { error: beyond_error(request.start as nat, merged.len()) }
    } else {
        ListPhaseModel::Answered { response: page(merged, request.start as nat, request.limit) }
    }
}

/// The request after the lists were merged. It is heeded only where the request
/// waits for it.
pub open spec fn merged_into(request: ListModel, merged: Seq<AppModel>) -> ListModel {
    if !(list_awaited(request) is Merge) {
        request
    } else {
        ListModel {
            last_announced: match announcement(request, merged) {
                Some(announced) => Some(announced),
                None => request.last_announced,
            },
            phase: if is_complete(request) {
                answer(request, merged)
            } else {
                ListPhaseModel::Wait
            },
            ..request
        }
    }
}

fn refusal(text: &str, more: &str) -> (phase: ListPhase)
    ensures
        phase.deep_view() == internal(text@ + more@),
{
    ListPhase::Refused { error: rpc_error::rpc_error(RpcErrorKind::Internal, text, more) }
}

fn copy_optional(apps: &Option<Vec<AppInfo>>) -> (copy: Option<Vec<AppInfo>>)
    ensures
        copy.deep_view() == apps.deep_view(),
{
    match apps {
        Some(list) => Some(app_info::copy_apps(list)),
        None => None,
    }
}

impl ListRequest {
    /// A request when the loading of its lists begins.
    pub fn new(
        start: usize,
        limit: Option<u32>,
        force_refetch: bool,
        cached_accessible: Option<Vec<AppInfo>>,
        cached_all: Option<Vec<AppInfo>>,
    ) -> (request: Self)
        ensures
            request.deep_view() == loading(
                start,
                limit,
                force_refetch,
                cached_accessible.deep_view(),
                cached_all.deep_view(),
            ),
    {
        let phase = if cached_accessible.is_some() || cached_all.is_some() {
            ListPhase::MergeCached
        } else {
            ListPhase::Wait
        };
        ListRequest {
            start,
            limit,
            force_refetch,
            cached_all: copy_optional(&cached_all),
            accessible: cached_accessible,
            all: cached_all,
            accessible_loaded: false,
            all_loaded: false,
            codex_apps_ready: true,
            last_announced: None,
            phase,
        }
    }

    /// What the request waits for.
    pub fn action(&self) -> (action: ListAction)
        ensures
            action == list_awaited(self.deep_view()),
    {
        match &self.phase {
            ListPhase::MergeCached => ListAction::Merge,
            ListPhase::Wait => ListAction::Wait,
            ListPhase::MergeLoaded => ListAction::Merge,
            ListPhase::Answered { .. } => ListAction::Respond,
            ListPhase::Refused { .. } => ListAction::Respond,
        }
    }

    /// What is to be merged.
    pub fn merge_input(&self) -> (input: MergeInput)
        ensures
            input.deep_view() == merge_inputs(self.deep_view()),
    {
        let after_load = match &self.phase {
            ListPhase::MergeLoaded => true,
            _ => false,
        };
        let interim = self.force_refetch && !(self.accessible_loaded && self.all_loaded)
            && after_load;
        let all = if interim && self.cached_all.is_some() {
            &self.cached_all
        } else {
            &self.all
        };
        let none: Option<Vec<AppInfo>> = None;
        let accessible = if interim && !self.accessible_loaded {
            &none
        } else {
            &self.accessible
        };
        merge_loaded_apps(all, accessible)
    }

    /// The request after the loading brought something.
    pub fn on_load(self, event: LoadEvent) -> (request: Self)
        ensures
            request.deep_view() == loaded(self.deep_view(), event.deep_view()),
    {
        let waits = match self.action() {
            ListAction::Wait => true,
            _ => false,
        };
        let mut request = self;
        if !waits {
            return request;
        }
        match event {
            LoadEvent::Accessible { connectors, codex_apps_ready } => {
                request.accessible = Some(connectors);
                request.accessible_loaded = true;
                request.codex_apps_ready = codex_apps_ready;
                request.phase = ListPhase::MergeLoaded;
            },
            LoadEvent::AccessibleFailed { reason } => {
                request.phase = refusal("failed to load accessible apps: ", reason.as_str());
            },
            LoadEvent::Directory { connectors } => {
                request.all = Some(connectors);
                request.all_loaded = true;
                request.phase = ListPhase::MergeLoaded;
            },
            LoadEvent::DirectoryFailed { reason } => {
                request.phase = refusal("failed to list apps: ", reason.as_str());
            },
            LoadEvent::Closed => {
                request.phase = refusal("failed to load app lists", "");
                proof {
                    reveal_strlit("");
                    assert("failed to load app lists"@ + ""@ =~= "failed to load app lists"@);
                }
            },
            LoadEvent::TimedOut => {
                let mut more = decimal::to_numeral(APP_LIST_LOAD_TIMEOUT_SECS);
                more.append(" seconds");
                request.phase =
                refusal("timed out waiting for app lists after ", more.as_str());
                assert("timed out waiting for app lists after "@ + more@ =~= timeout_text());
            },
        }
        request
    }

    /// The request after the lists were merged, and what is to be announced.
    pub fn on_merged(self, merged: Vec<AppInfo>) -> (outcome: (Self, Option<Vec<AppInfo>>))
        ensures
            outcome.0.deep_view() == merged_into(self.deep_view(), merged.deep_view()),
            outcome.1.deep_view() == (if list_awaited(self.deep_view()) is Merge {
                announcement(self.deep_view(), merged.deep_view())
            } else {
                None
            }),
    {
        let waits = match self.action() {
            ListAction::Merge => true,
            _ => false,
        };
        let mut request = self;
        if !waits {
            return (request, None);
        }
        let known = match &request.last_announced {
            Some(last) => app_info::same_apps(last, &merged),
            None => false,
        };
        let announced = if !known && should_send_app_list_updated_notification(
            &merged,
            request.accessible_loaded,
            request.all_loaded,
        ) {
            Some(app_info::copy_apps(&merged))
        } else {
            None
        };
        match &announced {
            Some(apps) => {
                request.last_announced = Some(app_info::copy_apps(apps));
            },
            None => {},
        }
        request.phase =
        if request.accessible_loaded && request.all_loaded {
            match paginate_apps(&merged, request.start, request.limit) {
                Ok(response) => ListPhase::Answered { response },
                Err(error) => ListPhase::Refused { error },
            }
        } else {
            ListPhase::Wait
        };
        (request, announced)
    }

    /// The answer to the request, with whether the apps server was ready, once it
    /// is known.
    pub fn into_result(self) -> (result: Option<Result<(AppsListResponse, bool), RpcError>>)
        ensures
            match self.deep_view().phase {
                ListPhaseModel::Answered { response } => result matches Some(Ok(found))
                    && found.0.deep_view() == response && found.1 == self.codex_apps_ready,
                ListPhaseModel::Refused { error } => result matches Some(Err(refusal))
                    && refusal.deep_view() == error,
                _ => result is None,
            },
    {
        match self.phase {
            ListPhase::Answered { response } => Some(Ok((response, self.codex_apps_ready))),
            ListPhase::Refused { error } => Some(Err(error)),
            _ => None,
        }
    }
}

/// All pages from the position `start` on, one behind the other.
pub open spec fn all_pages(apps: Seq<AppModel>, start: nat, limit: Option<u32>) -> Seq<AppModel>
    decreases apps.len() - start,
{
    if start >= apps.len() {
        Seq::empty()
    } else {
        page(apps, start, limit).data + all_pages(
            apps,
            page_end(apps.len(), start, limit),
            limit,
        )
    }
}

/// The pages, from the first to the last, hold every app once, in order.
pub proof fn pages_hold_everything(apps: Seq<AppModel>, start: nat, limit: Option<u32>)
    requires
        start <= apps.len(),
    ensures
        all_pages(apps, start, limit) == apps.skip(start as int),
    decreases apps.len() - start,
{
    if start < apps.len() {
        let end = page_end(apps.len(), start, limit);
        pages_hold_everything(apps, end, limit);
        assert(apps.subrange(start as int, end as int) + apps.skip(end as int) =~= apps.skip(
            start as int,
        ));
    } else {
        assert(apps.skip(start as int) =~= Seq::empty());
    }
}

/// The cursor of a page reads back as the position where the page ended, which is
/// behind its start. There is one exactly where apps are left.
pub proof fn cursors_lead_to_the_next_page(
    apps: Seq<AppModel>,
    start: nat,
    limit: Option<u32>,
)
    requires
        start <= apps.len() <= usize::MAX,
    ensures
        ({
            let end = page_end(apps.len(), start, limit);
            let found = page(apps, start, limit);
            &&& found.next_cursor is Some <==> end < apps.len()
            &&& found.next_cursor is Some ==> start < end && cursor_position(found.next_cursor)
                == Some(end as usize)
        }),
{
    let end = page_end(apps.len(), start, limit);
    if end < apps.len() {
        decimal::numeral_reads_back(end as usize);
    }
}

/// Without a limit all apps are on one page.
pub proof fn one_page_without_a_limit(apps: Seq<AppModel>)
    requires
        apps.len() < 0x1_0000_0000,
    ensures
        page(apps, 0, None) == (PageModel { data: apps, next_cursor: None }),
{
    assert(apps.subrange(0, apps.len() as int) =~= apps);
}

/// What happens to a request while its lists are loaded.
pub enum ListHappening {
    Loaded(LoadModel),
    Merged(Seq<AppModel>),
}

pub open spec fn after_happening(request: ListModel, happening: ListHappening) -> ListModel {
    match happening {
        ListHappening::Loaded(event) => loaded(request, event),
        ListHappening::Merged(apps) => merged_into(request, apps),
    }
}

/// The request after `happenings`.
pub open spec fn list_run(request: ListModel, happenings: Seq<ListHappening>) -> ListModel
    decreases happenings.len(),
{
    if happenings.len() == 0 {
        request
    } else {
        after_happening(list_run(request, happenings.drop_last()), happenings.last())
    }
}

/// What holds of a request at any time: what counts as loaded is there, an answer
/// is given only where both lists were loaded, and no announcement was made before
/// that without an accessible app.
pub open spec fn list_is_sound(request: ListModel) -> bool {
    &&& request.accessible_loaded ==> request.accessible is Some
    &&& request.all_loaded ==> request.all is Some
    &&& request.phase is Answered ==> is_complete(request)
    &&& request.phase is MergeCached ==> !request.accessible_loaded && !request.all_loaded
    &&& request.phase is MergeLoaded ==> request.accessible_loaded || request.all_loaded
    &&& !is_complete(request) ==> (request.last_announced matches Some(apps) ==> any_accessible(
        apps,
    ))
}

/// Every request is sound, whatever happens while its lists are loaded.
pub proof fn list_requests_are_sound(
    start: usize,
    limit: Option<u32>,
    force_refetch: bool,
    cached_accessible: Option<Seq<AppModel>>,
    cached_all: Option<Seq<AppModel>>,
    happenings: Seq<ListHappening>,
)
    ensures
        list_is_sound(
            list_run(
                loading(start, limit, force_refetch, cached_accessible, cached_all),
                happenings,
            ),
        ),
    decreases happenings.len(),
{
    if happenings.len() > 0 {
        list_requests_are_sound(
            start,
            limit,
            force_refetch,
            cached_accessible,
            cached_all,
            happenings.drop_last(),
        );
    }
}

/// A request is answered with a page of the list that was announced last.
pub proof fn answers_come_from_what_was_announced(request: ListModel, merged: Seq<AppModel>)
    requires
        list_awaited(request) is Merge,
        is_complete(request),
    ensures
        ({
            let next = merged_into(request, merged);
            &&& next.last_announced == Some(merged)
            &&& next.phase is Answered <==> request.start <= merged.len()
            &&& next.phase matches ListPhaseModel::Answered { response } ==> response == page(
                merged,
                request.start as nat,
                request.limit,
            )
        }),
{
}

/// No list is announced twice in a row: what was announced is remembered, also
/// over what the loading brings, and is not announced again.
pub proof fn announcements_do_not_repeat(
    request: ListModel,
    merged: Seq<AppModel>,
    event: LoadModel,
)
    requires
        list_awaited(request) is Merge,
        announcement(request, merged) is Some,
    ensures
        announcement(merged_into(request, merged), merged) is None,
        announcement(loaded(merged_into(request, merged), event), merged) is None,
{
}

/// While a refetch is under way, accessible apps that were not fetched anew are
/// not shown, and a directory that is cached is shown as it was.
pub proof fn refetches_hide_stale_access(request: ListModel)
    requires
        request.phase is MergeLoaded,
        request.force_refetch,
        !is_complete(request),
    ensures
        !request.accessible_loaded ==> merge_inputs(request).accessible == Seq::<
            AppModel,
        >::empty(),
        request.accessible_loaded ==> merge_inputs(request).accessible == list_or_none(
            request.accessible,
        ),
        request.cached_all matches Some(cached) ==> merge_inputs(request).all == cached,
{
}

/// A list that is complete is merged from what was loaded, never from the cache.
pub proof fn complete_lists_are_merged_from_what_was_loaded(request: ListModel)
    requires
        list_is_sound(request),
        is_complete(request),
    ensures
        merge_inputs(request).all_connectors_loaded,
        request.all matches Some(apps) && merge_inputs(request).all == apps,
        request.accessible matches Some(apps) && merge_inputs(request).accessible == apps,
{
}

/// A request is repeated at most once: what repeats it is a refetch, and a refetch
/// is not repeated.
pub proof fn retries_end(codex_apps_ready: Option<bool>)
    ensures
        !following(codex_apps_ready, true).retry,
{
}

/// An answer is final.
pub proof fn list_answers_are_final(request: ListModel, happening: ListHappening)
    requires
        list_awaited(request) is Respond,
    ensures
        after_happening(request, happening) == request,
{
}

}
