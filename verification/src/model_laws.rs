//! What the models hold of the values that they stand for.

use vstd::prelude::*;
use crate::app_info::AppInfo;
use crate::apps_installed::{
    EventModel, InstalledApp, InstalledEvent, InstalledPhase, InstalledRequest, PhaseModel,
};
use crate::apps_list::{
    AppsListResponse, ListPhase, ListPhaseModel, ListRequest, LoadEvent, LoadModel, MergeInput,
};
use crate::command_document::{NodeModel, ParsedCommand, YamlEntry, YamlNode};
use crate::command_migration::{CommandFile, CommandSource, ImportedSkill};
use crate::command_names::CommandPath;
use crate::config_write::ConfigValueWriteParams;
use crate::connector_runtime::{
    CaptureModel, CodexAuth, ConnectorRuntimeCapture, ConnectorRuntimeContextKey,
    ConnectorRuntimeIdentity, ConnectorRuntimeSnapshot, Publication, PublicationModel,
    ToolListing,
};
use crate::mcp_diagnostics::{
    ToolSearchDiagnosticIdentity, ToolSearchMcpDiagnosticsSnapshot,
    ToolSearchToolsListResponseSnapshot,
};
use crate::metrics::{MetricRecord, MetricTag};
use crate::resolution_state::{ResolutionState, StoreResolutionReport};
use crate::rpc_error::RpcError;
use crate::tool_exposure::{AppToolPolicyInput, McpToolExposure};
use crate::tool_identity::{
    DiagnosticToolIdentity, LoadableModel, LoadableToolSpec, NamespaceToolModel,
    ResponsesApiNamespaceTool, ToolSearchInfo,
};
use crate::tool_info::{Tool, ToolInfo, ToolWithConnectorId};
use crate::tool_search_recorder::{
    FeedbackSnapshot, RecorderState, SearchResultDiagnostic, SearchSnapshot, StageMetadata,
    StageSnapshot, ToolExposureDecision,
};

verus! {

/// The model of an `AppInfo` holds every field of it.
pub proof fn app_info_is_modelled_whole(value: AppInfo)
    ensures
        value.deep_view().id == value.id@,
        value.deep_view().name == value.name@,
        value.deep_view().description == value.description.deep_view(),
        value.deep_view().is_accessible == value.is_accessible,
        value.deep_view().is_enabled == value.is_enabled,
        value.deep_view().plugin_display_names == value.plugin_display_names.deep_view(),
        value.deep_view().details == value.details@,
{
}

/// The model of an `InstalledApp` holds every field of it.
pub proof fn installed_app_is_modelled_whole(value: InstalledApp)
    ensures
        value.deep_view().id == value.id@,
        value.deep_view().enabled == value.enabled,
        value.deep_view().callable == value.callable,
{
}

/// The model of an `InstalledRequest` holds every field of it.
pub proof fn installed_request_is_modelled_whole(value: InstalledRequest)
    ensures
        value.deep_view().reload == value.reload,
        value.deep_view().apps_enabled == value.apps_enabled,
        value.deep_view().policy_failed == value.policy_failed,
        value.deep_view().runtime_enabled == value.runtime_enabled,
        value.deep_view().retained_previous_snapshot == value.retained_previous_snapshot,
        value.deep_view().refresh_disposition == value.refresh_disposition,
        value.deep_view().snapshot_age == value.snapshot_age,
        value.deep_view().snapshot_tool_count == value.snapshot_tool_count,
        value.deep_view().phase == value.phase.deep_view(),
{
}

/// The model of an `AppsListResponse` holds every field of it.
pub proof fn apps_list_response_is_modelled_whole(value: AppsListResponse)
    ensures
        value.deep_view().data == value.data.deep_view(),
        value.deep_view().next_cursor == value.next_cursor.deep_view(),
{
}

/// The model of a `MergeInput` holds every field of it.
pub proof fn merge_input_is_modelled_whole(value: MergeInput)
    ensures
        value.deep_view().all == value.all.deep_view(),
        value.deep_view().accessible == value.accessible.deep_view(),
        value.deep_view().all_connectors_loaded == value.all_connectors_loaded,
{
}

/// The model of a `ListRequest` holds every field of it.
pub proof fn list_request_is_modelled_whole(value: ListRequest)
    ensures
        value.deep_view().start == value.start,
        value.deep_view().limit == value.limit,
        value.deep_view().force_refetch == value.force_refetch,
        value.deep_view().cached_all == value.cached_all.deep_view(),
        value.deep_view().accessible == value.accessible.deep_view(),
        value.deep_view().all == value.all.deep_view(),
        value.deep_view().accessible_loaded == value.accessible_loaded,
        value.deep_view().all_loaded == value.all_loaded,
        value.deep_view().codex_apps_ready == value.codex_apps_ready,
        value.deep_view().last_announced == value.last_announced.deep_view(),
        value.deep_view().phase == value.phase.deep_view(),
{
}

/// The model of a `YamlEntry` holds every field of it.
pub proof fn yaml_entry_is_modelled_whole(value: YamlEntry)
    ensures
        value.deep_view().key == value.key.deep_view(),
        value.deep_view().value == value.value.deep_view(),
{
}

/// The model of a `ParsedCommand` holds every field of it.
pub proof fn parsed_command_is_modelled_whole(value: ParsedCommand)
    ensures
        value.deep_view().description == value.description.deep_view(),
        value.deep_view().body == value.body@,
{
}

/// The model of a `CommandFile` holds every field of it.
pub proof fn command_file_is_modelled_whole(value: CommandFile)
    ensures
        value.deep_view().path == value.path.deep_view(),
        value.deep_view().content == value.content@,
{
}

/// The model of a `CommandSource` holds every field of it.
pub proof fn command_source_is_modelled_whole(value: CommandSource)
    ensures
        value.deep_view().file == value.file,
        value.deep_view().name == value.name@,
{
}

/// The model of an `ImportedSkill` holds every field of it.
pub proof fn imported_skill_is_modelled_whole(value: ImportedSkill)
    ensures
        value.deep_view().name == value.name@,
        value.deep_view().contents == value.contents@,
{
}

/// The model of a `CommandPath` holds every field of it.
pub proof fn command_path_is_modelled_whole(value: CommandPath)
    ensures
        value.deep_view().folders == value.folders.deep_view(),
        value.deep_view().stem == value.stem.deep_view(),
{
}

/// The model of a `ConfigValueWriteParams` holds every field of it.
pub proof fn config_value_write_params_is_modelled_whole(value: ConfigValueWriteParams)
    ensures
        value.deep_view().key_path == value.key_path@,
        value.deep_view().value == value.value@,
        value.deep_view().merge_strategy == value.merge_strategy,
        value.deep_view().file_path == value.file_path.deep_view(),
        value.deep_view().expected_version == value.expected_version.deep_view(),
{
}

/// The model of a `ConnectorRuntimeSnapshot` holds every field of it.
pub proof fn connector_runtime_snapshot_is_modelled_whole(value: ConnectorRuntimeSnapshot)
    ensures
        value.deep_view().tools == value.tools.deep_view(),
        value.deep_view().refreshed_at == value.refreshed_at,
{
}

/// The model of a `CodexAuth` holds every field of it.
pub proof fn codex_auth_is_modelled_whole(value: CodexAuth)
    ensures
        value.deep_view().account_id == value.account_id.deep_view(),
        value.deep_view().chatgpt_user_id == value.chatgpt_user_id.deep_view(),
        value.deep_view().is_workspace_account == value.is_workspace_account,
{
}

/// The model of a `ConnectorRuntimeContextKey` holds every field of it.
pub proof fn connector_runtime_context_key_is_modelled_whole(value: ConnectorRuntimeContextKey)
    ensures
        value.deep_view().account_id == value.account_id.deep_view(),
        value.deep_view().chatgpt_user_id == value.chatgpt_user_id.deep_view(),
        value.deep_view().is_workspace_account == value.is_workspace_account,
{
}

/// The model of a `ConnectorRuntimeIdentity` holds every field of it.
pub proof fn connector_runtime_identity_is_modelled_whole(value: ConnectorRuntimeIdentity)
    ensures
        value.deep_view().codex_home == value.codex_home.deep_view(),
        value.deep_view().key == value.key.deep_view(),
{
}

/// The model of a `ToolSearchDiagnosticIdentity` holds every field of it.
pub proof fn tool_search_diagnostic_identity_is_modelled_whole(value: ToolSearchDiagnosticIdentity)
    ensures
        value.deep_view().server_name == value.server_name@,
        value.deep_view().raw_tool_name == value.raw_tool_name@,
        value.deep_view().callable_namespace == value.callable_namespace.deep_view(),
        value.deep_view().callable_name == value.callable_name.deep_view(),
        value.deep_view().connector_id == value.connector_id.deep_view(),
        value.deep_view().connector_name == value.connector_name.deep_view(),
        value.deep_view().plugin_display_names == value.plugin_display_names.deep_view(),
{
}

/// The model of a `ToolSearchToolsListResponseSnapshot` holds every field of it.
pub proof fn tool_search_tools_list_response_snapshot_is_modelled_whole(value: ToolSearchToolsListResponseSnapshot)
    ensures
        value.deep_view().server_name == value.server_name@,
        value.deep_view().source == value.source,
        value.deep_view().total_count == value.total_count,
        value.deep_view().fingerprint == value.fingerprint@,
        value.deep_view().identities == value.identities.deep_view(),
        value.deep_view().identities_truncated == value.identities_truncated,
{
}

/// The model of a `ToolSearchMcpDiagnosticsSnapshot` holds every field of it.
pub proof fn tool_search_mcp_diagnostics_snapshot_is_modelled_whole(value: ToolSearchMcpDiagnosticsSnapshot)
    ensures
        value.deep_view().tools_list_responses == value.tools_list_responses.deep_view(),
        value.deep_view().server_count == value.server_count,
        value.deep_view().cached_server_count == value.cached_server_count,
        value.deep_view().startup_complete_server_count == value.startup_complete_server_count,
{
}

/// The model of a `MetricTag` holds every field of it.
pub proof fn metric_tag_is_modelled_whole(value: MetricTag)
    ensures
        value.deep_view().name == value.name@,
        value.deep_view().value == value.value@,
{
}

/// The model of a `MetricRecord` holds every field of it.
pub proof fn metric_record_is_modelled_whole(value: MetricRecord)
    ensures
        value.deep_view().name == value.name@,
        value.deep_view().value == value.value,
        value.deep_view().tags == value.tags.deep_view(),
{
}

/// The model of a `ResolutionState` holds every field of it.
pub proof fn resolution_state_is_modelled_whole(value: ResolutionState)
    ensures
        value.deep_view().version == value.version,
        value.deep_view().resolutions == value.resolutions.deep_view(),
{
}

/// The model of a `StoreResolutionReport` holds every field of it.
pub proof fn store_resolution_report_is_modelled_whole(value: StoreResolutionReport)
    ensures
        value.deep_view().message == value.message@,
        value.deep_view().reason == value.reason@,
        value.deep_view().change == value.change,
        value.deep_view().tags == value.tags.deep_view(),
        value.deep_view().error == value.error.deep_view(),
{
}

/// The model of a `RpcError` holds every field of it.
pub proof fn rpc_error_is_modelled_whole(value: RpcError)
    ensures
        value.deep_view().kind == value.kind,
        value.deep_view().message == value.message@,
{
}

/// The model of an `AppToolPolicyInput` holds every field of it.
pub proof fn app_tool_policy_input_is_modelled_whole(value: AppToolPolicyInput)
    ensures
        value.deep_view().connector_id == value.connector_id@,
        value.deep_view().tool_name == value.tool_name@,
        value.deep_view().tool_title == value.tool_title.deep_view(),
        value.deep_view().destructive_hint == value.destructive_hint,
        value.deep_view().open_world_hint == value.open_world_hint,
{
}

/// The model of a `McpToolExposure` holds every field of it.
pub proof fn mcp_tool_exposure_is_modelled_whole(value: McpToolExposure)
    ensures
        value.deep_view().direct_tools == value.direct_tools.deep_view(),
        value.deep_view().deferred_tools == value.deferred_tools.deep_view(),
        value.deep_view().diagnostic_decisions == value.diagnostic_decisions.deep_view(),
{
}

/// The model of a `DiagnosticToolIdentity` holds every field of it.
pub proof fn diagnostic_tool_identity_is_modelled_whole(value: DiagnosticToolIdentity)
    ensures
        value.deep_view().server_name == value.server_name@,
        value.deep_view().raw_tool_name == value.raw_tool_name@,
        value.deep_view().tool_name == value.tool_name.deep_view(),
        value.deep_view().connector_id == value.connector_id.deep_view(),
        value.deep_view().connector_name == value.connector_name.deep_view(),
        value.deep_view().plugin_display_names == value.plugin_display_names.deep_view(),
{
}

/// The model of a `ToolSearchInfo` holds every field of it.
pub proof fn tool_search_info_is_modelled_whole(value: ToolSearchInfo)
    ensures
        value.deep_view().output == value.output.deep_view(),
        value.deep_view().source_name == value.source_name.deep_view(),
{
}

/// The model of a `Tool` holds every field of it.
pub proof fn tool_is_modelled_whole(value: Tool)
    ensures
        value.deep_view().name == value.name@,
        value.deep_view().title == value.title.deep_view(),
        value.deep_view().annotations == value.annotations,
{
}

/// The model of a `ToolWithConnectorId` holds every field of it.
pub proof fn tool_with_connector_id_is_modelled_whole(value: ToolWithConnectorId)
    ensures
        value.deep_view().tool == value.tool.deep_view(),
        value.deep_view().connector_id == value.connector_id.deep_view(),
        value.deep_view().connector_name == value.connector_name.deep_view(),
{
}

/// The model of a `ToolInfo` holds every field of it.
pub proof fn tool_info_is_modelled_whole(value: ToolInfo)
    ensures
        value.deep_view().server_name == value.server_name@,
        value.deep_view().tool == value.tool.deep_view(),
        value.deep_view().callable_namespace == value.callable_namespace@,
        value.deep_view().callable_name == value.callable_name@,
        value.deep_view().connector_id == value.connector_id.deep_view(),
        value.deep_view().connector_name == value.connector_name.deep_view(),
        value.deep_view().plugin_display_names == value.plugin_display_names.deep_view(),
        value.deep_view().details == value.details@,
{
}

/// The model of a `ToolExposureDecision` holds every field of it.
pub proof fn tool_exposure_decision_is_modelled_whole(value: ToolExposureDecision)
    ensures
        value.deep_view().identity == value.identity.deep_view(),
        value.deep_view().included == value.included,
        value.deep_view().model_visible == value.model_visible,
        value.deep_view().connector_id_present == value.connector_id_present,
        value.deep_view().connector_allowed == value.connector_allowed,
        value.deep_view().policy_enabled == value.policy_enabled,
{
}

/// The model of a `StageMetadata` holds every field of it.
pub proof fn stage_metadata_is_modelled_whole(value: StageMetadata)
    ensures
        value.deep_view().observation_sources == value.observation_sources.deep_view(),
        value.deep_view().server_count == value.server_count,
        value.deep_view().cached_server_count == value.cached_server_count,
        value.deep_view().startup_complete_server_count == value.startup_complete_server_count,
        value.deep_view().included_count == value.included_count,
        value.deep_view().search_tool_enabled == value.search_tool_enabled,
        value.deep_view().cache_state == value.cache_state.deep_view(),
        value.deep_view().total_count_override == value.total_count_override,
        value.deep_view().upstream_identities_truncated == value.upstream_identities_truncated,
        value.deep_view().fingerprint_override == value.fingerprint_override.deep_view(),
{
}

/// The model of a `StageSnapshot` holds every field of it.
pub proof fn stage_snapshot_is_modelled_whole(value: StageSnapshot)
    ensures
        value.deep_view().stage == value.stage@,
        value.deep_view().inventory_generation == value.inventory_generation@,
        value.deep_view().fingerprint == value.fingerprint@,
        value.deep_view().total_count == value.total_count,
        value.deep_view().identities == value.identities.deep_view(),
        value.deep_view().identities_truncated == value.identities_truncated,
        value.deep_view().added == value.added.deep_view(),
        value.deep_view().removed == value.removed.deep_view(),
        value.deep_view().changes_truncated == value.changes_truncated,
        value.deep_view().excluded == value.excluded.deep_view(),
        value.deep_view().excluded_truncated == value.excluded_truncated,
        value.deep_view().metadata == value.metadata.deep_view(),
{
}

/// The model of a `SearchResultDiagnostic` holds every field of it.
pub proof fn search_result_diagnostic_is_modelled_whole(value: SearchResultDiagnostic)
    ensures
        value.deep_view().rank == value.rank,
        value.deep_view().score_bits == value.score_bits,
        value.deep_view().document_index == value.document_index,
        value.deep_view().identity == value.identity.deep_view(),
{
}

/// The model of a `SearchSnapshot` holds every field of it.
pub proof fn search_snapshot_is_modelled_whole(value: SearchSnapshot)
    ensures
        value.deep_view().stage == value.stage@,
        value.deep_view().inventory_generation == value.inventory_generation@,
        value.deep_view().query == value.query@,
        value.deep_view().requested_limit == value.requested_limit,
        value.deep_view().returned_count == value.returned_count,
        value.deep_view().results == value.results.deep_view(),
        value.deep_view().results_truncated == value.results_truncated,
{
}

/// The model of a `RecorderState` holds every field of it.
pub proof fn recorder_state_is_modelled_whole(value: RecorderState)
    ensures
        value.deep_view().inventory_generation == value.inventory_generation@,
        value.deep_view().stages == value.stages.deep_view(),
        value.deep_view().identity_by_tool_name == value.identity_by_tool_name.deep_view(),
        value.deep_view().searches.len() == value.searches@.len(),
        forall|i: int|
            0 <= i < value.searches@.len() ==> #[trigger] value.deep_view().searches[i]
                == value.searches@[i].deep_view(),
{
}

/// The model of a `FeedbackSnapshot` holds every field of it.
pub proof fn feedback_snapshot_is_modelled_whole(value: FeedbackSnapshot)
    ensures
        value.deep_view().version == value.version,
        value.deep_view().thread_id == value.thread_id@,
        value.deep_view().session_id == value.session_id@,
        value.deep_view().inventory_generation == value.inventory_generation@,
        value.deep_view().limits == value.limits,
        value.deep_view().stages == value.stages.deep_view(),
        value.deep_view().searches == value.searches.deep_view(),
{
}

/// The model of what came of an action of an `app/installed` request holds all that
/// came of it.
pub proof fn installed_events_are_modelled_whole(event: InstalledEvent)
    ensures
        match event {
            InstalledEvent::ConfigLoaded { runtime_state_enabled } => event.deep_view() == (
            EventModel::ConfigLoaded { runtime_state_enabled }),
            InstalledEvent::ConfigFailed { error } => event.deep_view() == (
            EventModel::ConfigFailed { error: error.deep_view() }),
            InstalledEvent::AuthRead { apps_enabled } => event.deep_view() == (
            EventModel::AuthRead { apps_enabled }),
            InstalledEvent::PolicyRefreshed { enabled } => event.deep_view() == (
            EventModel::PolicyRefreshed { enabled }),
            InstalledEvent::PolicyCached { enabled } => event.deep_view() == (
            EventModel::PolicyCached { enabled }),
            InstalledEvent::PreviousSnapshot { current, now } => event.deep_view() == (
            EventModel::PreviousSnapshot { current: current.deep_view(), now: now as int }),
            InstalledEvent::SnapshotRefreshed { snapshot, now } => event.deep_view() == (
            EventModel::SnapshotRefreshed { snapshot: snapshot.deep_view(), now: now as int }),
            InstalledEvent::RefreshFailed { reason } => event.deep_view() == (
            EventModel::RefreshFailed { reason: reason@ }),
            InstalledEvent::SnapshotPeeked { present } => event.deep_view() == (
            EventModel::SnapshotPeeked { present }),
            InstalledEvent::InstalledListed { ids } => event.deep_view() == (
            EventModel::InstalledListed { ids: ids.deep_view() }),
            InstalledEvent::CallableListed { ids } => event.deep_view() == (
            EventModel::CallableListed { ids: ids.deep_view() }),
            InstalledEvent::EnabledRead { answers } => event.deep_view() == (
            EventModel::EnabledRead { answers: answers@ }),
        },
{
}

/// The model of what the loading of the lists brought holds all that it brought.
pub proof fn load_events_are_modelled_whole(event: LoadEvent)
    ensures
        match event {
            LoadEvent::Accessible { connectors, codex_apps_ready } => event.deep_view() == (
            LoadModel::Accessible { connectors: connectors.deep_view(), codex_apps_ready }),
            LoadEvent::AccessibleFailed { reason } => event.deep_view() == (
            LoadModel::AccessibleFailed { reason: reason@ }),
            LoadEvent::Directory { connectors } => event.deep_view() == (LoadModel::Directory {
                connectors: connectors.deep_view(),
            }),
            LoadEvent::DirectoryFailed { reason } => event.deep_view() == (
            LoadModel::DirectoryFailed { reason: reason@ }),
            LoadEvent::Closed => event.deep_view() == LoadModel::Closed,
            LoadEvent::TimedOut => event.deep_view() == LoadModel::TimedOut,
        },
{
}

/// The models of captures, listings and publications hold the snapshots in them.
pub proof fn snapshots_are_modelled_where_they_are_held(
    capture: ConnectorRuntimeCapture,
    listing: ToolListing,
    publication: Publication,
)
    ensures
        match capture {
            ConnectorRuntimeCapture::LegacyLive => capture.deep_view() == CaptureModel::Live,
            ConnectorRuntimeCapture::Snapshot(snapshot) => capture.deep_view()
                == CaptureModel::Captured(snapshot.deep_view()),
        },
        match listing {
            ToolListing::AllLive => listing.deep_view() == CaptureModel::Live,
            ToolListing::WithConnectorSnapshot(snapshot) => listing.deep_view()
                == CaptureModel::Captured(snapshot.deep_view()),
        },
        match publication {
            Publication::Discarded => publication.deep_view() == PublicationModel::Discarded,
            Publication::Stale(current) => publication.deep_view() == PublicationModel::Stale(
                current.deep_view(),
            ),
            Publication::Published(snapshot) => publication.deep_view()
                == PublicationModel::Published(snapshot.deep_view()),
        },
{
}

/// The model of a YAML value holds the value.
pub proof fn yaml_values_are_modelled_whole(value: YamlNode)
    ensures
        match value {
            YamlNode::Null => value.deep_view() == NodeModel::Null,
            YamlNode::Bool(flag) => value.deep_view() == NodeModel::Bool(flag),
            YamlNode::Number(number) => value.deep_view() == NodeModel::Number(number@),
            YamlNode::Text(text) => value.deep_view() == NodeModel::Text(text@),
            YamlNode::Sequence => value.deep_view() == NodeModel::Sequence,
            YamlNode::Mapping => value.deep_view() == NodeModel::Mapping,
            YamlNode::Tagged => value.deep_view() == NodeModel::Tagged,
        },
{
}

/// The model of what a search entry loads holds its names.
pub proof fn search_outputs_are_modelled_whole(
    output: LoadableToolSpec,
    tool: ResponsesApiNamespaceTool,
)
    ensures
        match output {
            LoadableToolSpec::Function { name } => output.deep_view() == (
            LoadableModel::Function { name: name@ }),
            LoadableToolSpec::Namespace { name, tools } => output.deep_view() == (
            LoadableModel::Namespace { name: name@, tools: tools.deep_view() }),
        },
        match tool {
            ResponsesApiNamespaceTool::Function { name } => tool.deep_view() == (
            NamespaceToolModel::Function { name: name@ }),
            ResponsesApiNamespaceTool::Other => tool.deep_view() == NamespaceToolModel::Other,
        },
{
}

/// The model of how far an `app/list` request has come holds its answer or refusal.
pub proof fn list_phases_are_modelled_whole(phase: ListPhase)
    ensures
        match phase {
            ListPhase::MergeCached => phase.deep_view() == ListPhaseModel::MergeCached,
            ListPhase::Wait => phase.deep_view() == ListPhaseModel::Wait,
            ListPhase::MergeLoaded => phase.deep_view() == ListPhaseModel::MergeLoaded,
            ListPhase::Answered { response } => phase.deep_view() == (ListPhaseModel::Answered {
                response: response.deep_view(),
            }),
            ListPhase::Refused { error } => phase.deep_view() == (ListPhaseModel::Refused {
                error: error.deep_view(),
            }),
        },
{
}

/// The model of how far an `app/installed` request has come holds what it found, and
/// its answer or refusal.
pub proof fn installed_phases_are_modelled_whole(phase: InstalledPhase)
    ensures
        match phase {
            InstalledPhase::LoadConfig => phase.deep_view() == PhaseModel::LoadConfig,
            InstalledPhase::ReadAuth => phase.deep_view() == PhaseModel::ReadAuth,
            InstalledPhase::ReadPolicy => phase.deep_view() == PhaseModel::ReadPolicy,
            InstalledPhase::ReadPrevious => phase.deep_view() == PhaseModel::ReadPrevious,
            InstalledPhase::Refresh => phase.deep_view() == PhaseModel::Refresh,
            InstalledPhase::Peek { reason } => phase.deep_view() == (PhaseModel::Peek {
                reason: reason@,
            }),
            InstalledPhase::ListInstalled => phase.deep_view() == PhaseModel::ListInstalled,
            InstalledPhase::ListCallable { ids } => phase.deep_view() == (
            PhaseModel::ListCallable { ids: ids.deep_view() }),
            InstalledPhase::ReadEnabled { ids, callable } => phase.deep_view() == (
            PhaseModel::ReadEnabled { ids: ids.deep_view(), callable: callable.deep_view() }),
            InstalledPhase::Answered { apps } => phase.deep_view() == (PhaseModel::Answered {
                apps: apps.deep_view(),
            }),
            InstalledPhase::Refused { error } => phase.deep_view() == (PhaseModel::Refused {
                error: error.deep_view(),
            }),
        },
{
}

}
