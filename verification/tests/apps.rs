use codex_connector_core::app_info::AppInfo;
use codex_connector_core::apps_installed::{
    record_apps_installed_metrics, InstalledAction, InstalledApp, InstalledEvent, InstalledRequest,
    RefreshDisposition, ResponseSize,
};
use codex_connector_core::apps_list::{
    after_response, apps_list_gate, merge_loaded_apps, paginate_apps,
    record_legacy_apps_installed_duration, should_send_app_list_updated_notification,
    start_position, workspace_codex_plugins_enabled, AfterResponse, GateAction, ListAction,
    ListRequest, LoadEvent,
};
use codex_connector_core::config_write::{
    set_user_model_provider_to_bedrock, write_user_model_provider, MergeStrategy,
};
use codex_connector_core::connector_runtime::ConnectorRuntimeSnapshot;
use codex_connector_core::metrics::{usize_to_i64, MetricValue};
use codex_connector_core::rpc_error::{
    config_reload_failed, invalid_thread_id, thread_not_found, RpcError, RpcErrorKind,
};
use std::sync::Arc;

fn app(id: &str, accessible: bool) -> AppInfo {
    AppInfo {
        id: id.to_string(),
        name: id.to_uppercase(),
        description: None,
        is_accessible: accessible,
        is_enabled: true,
        plugin_display_names: Vec::new(),
        details: "{}".to_string(),
    }
}

fn snapshot() -> Arc<ConnectorRuntimeSnapshot> {
    Arc::new(ConnectorRuntimeSnapshot { tools: Vec::new(), refreshed_at: 100 })
}

fn ids(names: &[&str]) -> Vec<String> {
    names.iter().map(|name| name.to_string()).collect()
}

fn installed(id: &str, enabled: bool, callable: bool) -> InstalledApp {
    InstalledApp { id: id.to_string(), enabled, callable }
}

fn internal(message: &str) -> RpcError {
    RpcError { kind: RpcErrorKind::Internal, message: message.to_string() }
}

fn signed_in(reload: bool, apps_enabled: bool) -> InstalledRequest {
    InstalledRequest::new(reload)
        .advance(InstalledEvent::ConfigLoaded { runtime_state_enabled: true })
        .advance(InstalledEvent::AuthRead { apps_enabled })
}

#[test]
fn installed_apps_need_the_feature() {
    let request = InstalledRequest::new(true);
    assert_eq!(request.action(), InstalledAction::LoadConfig);
    let request = request.advance(InstalledEvent::ConfigLoaded { runtime_state_enabled: false });
    assert_eq!(request.action(), InstalledAction::Respond);
    assert_eq!(
        request.into_result(),
        Some(Err(RpcError {
            kind: RpcErrorKind::MethodNotFound,
            message: "app/installed is not enabled for this app-server".to_string(),
        }))
    );
    let failed = InstalledRequest::new(false)
        .advance(InstalledEvent::ConfigFailed { error: config_reload_failed("boom") });
    assert_eq!(failed.into_result(), Some(Err(internal("failed to reload config: boom"))));
}

#[test]
fn reload_refreshes_and_tells_what_can_be_called() {
    let request = signed_in(true, true);
    assert_eq!(request.action(), InstalledAction::RefreshPolicy);
    let request = request.advance(InstalledEvent::PolicyRefreshed { enabled: Some(true) });
    assert_eq!(request.action(), InstalledAction::ReadPreviousSnapshot);
    let request = request.advance(InstalledEvent::PreviousSnapshot { current: None, now: 150 });
    assert_eq!(request.action(), InstalledAction::RefreshSnapshot);
    let request =
        request.advance(InstalledEvent::SnapshotRefreshed { snapshot: snapshot(), now: 150 });
    assert_eq!(request.action(), InstalledAction::ListInstalled);
    assert_eq!(request.snapshot_age, Some(50));
    let request = request
        .advance(InstalledEvent::InstalledListed { ids: ids(&["alpha", "blocked", "disabled"]) });
    assert_eq!(request.action(), InstalledAction::ListCallable);
    let request = request.advance(InstalledEvent::CallableListed { ids: ids(&["alpha"]) });
    assert_eq!(request.action(), InstalledAction::ReadEnabled);
    let request =
        request.advance(InstalledEvent::EnabledRead { answers: vec![true, true, false] });
    assert_eq!(request.refresh_disposition, RefreshDisposition::Success);
    assert_eq!(
        request.into_result(),
        Some(Ok(vec![
            installed("alpha", true, true),
            installed("blocked", true, false),
            installed("disabled", false, false),
        ]))
    );
}

#[test]
fn cached_read_asks_the_cache_alone() {
    let request = signed_in(false, true);
    assert_eq!(request.action(), InstalledAction::ReadCachedPolicy);
    let request = request.advance(InstalledEvent::PolicyRefreshed { enabled: Some(true) });
    assert_eq!(request.action(), InstalledAction::ReadCachedPolicy);
    let request = request.advance(InstalledEvent::PolicyCached { enabled: Some(true) });
    let request = request
        .advance(InstalledEvent::PreviousSnapshot { current: Some(snapshot()), now: 100 });
    assert_eq!(request.action(), InstalledAction::ListInstalled);
    assert_eq!(request.refresh_disposition, RefreshDisposition::NotRequested);
    let empty = signed_in(false, true)
        .advance(InstalledEvent::PolicyCached { enabled: Some(true) })
        .advance(InstalledEvent::PreviousSnapshot { current: None, now: 100 });
    assert_eq!(empty.into_result(), Some(Ok(Vec::new())));
}

#[test]
fn workspace_policy_retains_identities_as_disabled() {
    let unknown = signed_in(false, true)
        .advance(InstalledEvent::PolicyCached { enabled: None })
        .advance(InstalledEvent::PreviousSnapshot { current: Some(snapshot()), now: 100 })
        .advance(InstalledEvent::InstalledListed { ids: ids(&["alpha", "beta"]) });
    assert_eq!(
        unknown.into_result(),
        Some(Ok(vec![installed("alpha", false, false), installed("beta", false, false)]))
    );
    let cases = [
        (Some(false), RefreshDisposition::SkippedWorkspaceDisabled),
        (None, RefreshDisposition::SkippedWorkspacePolicyError),
    ];
    for (enabled, disposition) in cases {
        let request = signed_in(true, true)
            .advance(InstalledEvent::PolicyRefreshed { enabled })
            .advance(InstalledEvent::PreviousSnapshot { current: Some(snapshot()), now: 100 });
        assert_eq!(request.action(), InstalledAction::ListInstalled);
        assert_eq!(request.refresh_disposition, disposition);
        assert!(request.retained_previous_snapshot);
    }
    let globally = signed_in(true, false);
    assert_eq!(globally.action(), InstalledAction::ReadPreviousSnapshot);
    let globally =
        globally.advance(InstalledEvent::PreviousSnapshot { current: Some(snapshot()), now: 1 });
    assert_eq!(globally.refresh_disposition, RefreshDisposition::SkippedAppsDisabled);
    assert_eq!(globally.snapshot_age, Some(0));
}

#[test]
fn failed_reload_is_refused() {
    let request = signed_in(true, true)
        .advance(InstalledEvent::PolicyRefreshed { enabled: Some(true) })
        .advance(InstalledEvent::PreviousSnapshot { current: Some(snapshot()), now: 100 })
        .advance(InstalledEvent::RefreshFailed { reason: "down".to_string() });
    assert_eq!(request.action(), InstalledAction::PeekSnapshot);
    let request = request.advance(InstalledEvent::SnapshotPeeked { present: true });
    assert!(request.retained_previous_snapshot);
    assert_eq!(request.refresh_disposition, RefreshDisposition::Error);
    assert_eq!(
        request.into_result(),
        Some(Err(internal("failed to refresh installed connector runtime state: down")))
    );
}

#[test]
fn installed_metrics_are_recorded() {
    let size = ResponseSize { apps: 3, bytes: Some(120) };
    let records = record_apps_installed_metrics(
        true,
        false,
        RefreshDisposition::Success,
        Some(7),
        9,
        Some(size),
    );
    let names: Vec<&str> = records.iter().map(|record| record.name).collect();
    assert_eq!(
        names,
        vec![
            "codex.apps.installed.duration_ms",
            "codex.apps.installed.response_bytes",
            "codex.apps.installed.connector_count",
            "codex.apps.installed.tool_count",
            "codex.apps.snapshot.age_ms",
        ]
    );
    let tags: Vec<(&str, &str)> =
        records[0].tags.iter().map(|tag| (tag.name, tag.value)).collect();
    assert_eq!(
        tags,
        vec![
            ("path", "new"),
            ("reload", "true"),
            ("refresh", "success"),
            ("outcome", "success"),
            ("retained_previous_snapshot", "false"),
        ]
    );
    assert_eq!(records[1].value, MetricValue::Count(120));
    assert_eq!(records[2].value, MetricValue::Count(3));
    assert_eq!(records[3].value, MetricValue::Count(9));
    assert_eq!(records[4].value, MetricValue::Nanoseconds(7));
    let refused = record_apps_installed_metrics(
        false,
        true,
        RefreshDisposition::NotRequested,
        Some(7),
        9,
        None,
    );
    assert_eq!(refused.len(), 1);
    assert_eq!(refused[0].tags[3].value, "error");
    assert_eq!(refused[0].tags[2].value, "not_requested");
    assert_eq!(usize_to_i64(5), 5);
    assert_eq!(usize_to_i64(usize::MAX), i64::MAX);
    let legacy = record_legacy_apps_installed_duration(true);
    assert_eq!(legacy.tags[0].value, "legacy");
    assert_eq!(legacy.tags[1].value, "true");
    assert_eq!(RefreshDisposition::NotStarted.as_str(), "not_started");
    assert_eq!(RefreshDisposition::SkippedAppsDisabled.as_str(), "skipped_apps_disabled");
}

#[test]
fn list_gate_fails_open() {
    assert_eq!(apps_list_gate(false, None), GateAction::RespondEmpty);
    assert_eq!(apps_list_gate(true, None), GateAction::AskWorkspace);
    assert_eq!(apps_list_gate(true, Some(Some(false))), GateAction::RespondEmpty);
    assert_eq!(apps_list_gate(true, Some(Some(true))), GateAction::Load);
    assert_eq!(apps_list_gate(true, Some(None)), GateAction::Load);
    assert!(workspace_codex_plugins_enabled(None));
}

#[test]
fn unready_answers_are_repeated_once() {
    assert_eq!(
        after_response(Some(false), false),
        AfterResponse { record_duration: true, retry: true }
    );
    assert_eq!(
        after_response(Some(false), true),
        AfterResponse { record_duration: true, retry: false }
    );
    assert_eq!(
        after_response(Some(true), false),
        AfterResponse { record_duration: true, retry: false }
    );
    assert_eq!(
        after_response(None, false),
        AfterResponse { record_duration: false, retry: false }
    );
}

#[test]
fn cursors_are_positions() {
    assert_eq!(start_position(None), Ok(0));
    assert_eq!(start_position(Some("12")), Ok(12));
    assert_eq!(start_position(Some("+12")), Ok(12));
    for cursor in ["", "-1", "1 ", "x", "99999999999999999999999"] {
        assert_eq!(
            start_position(Some(cursor)),
            Err(RpcError {
                kind: RpcErrorKind::InvalidRequest,
                message: format!("invalid cursor: {cursor}"),
            })
        );
    }
}

#[test]
fn pages_hold_every_app_once() {
    let apps: Vec<AppInfo> = (0..7).map(|i| app(&format!("app{i}"), false)).collect();
    let mut seen: Vec<AppInfo> = Vec::new();
    let mut cursor: Option<String> = None;
    loop {
        let start = start_position(cursor.as_deref()).expect("cursor");
        let page = paginate_apps(&apps, start, Some(3)).expect("page");
        seen.extend(page.data);
        cursor = page.next_cursor;
        if cursor.is_none() {
            break;
        }
    }
    assert_eq!(seen, apps);
    let first = paginate_apps(&apps, 0, Some(3)).expect("page");
    assert_eq!(first.next_cursor, Some("3".to_string()));
    let all = paginate_apps(&apps, 0, None).expect("page");
    assert_eq!(all.data, apps);
    assert_eq!(all.next_cursor, None);
    assert_eq!(paginate_apps(&apps, 2, Some(0)).expect("page").data.len(), 1);
    assert_eq!(paginate_apps(&apps, 7, None).expect("page").data.len(), 0);
    assert_eq!(
        paginate_apps(&apps, 8, None),
        Err(RpcError {
            kind: RpcErrorKind::InvalidRequest,
            message: "cursor 8 exceeds total apps 7".to_string(),
        })
    );
    assert_eq!(paginate_apps(&Vec::new(), 0, None).expect("page").data.len(), 0);
}

#[test]
fn lists_are_announced_and_then_answered() {
    let request = ListRequest::new(0, None, false, None, Some(vec![app("a", false)]));
    assert_eq!(request.action(), ListAction::Merge);
    let input = request.merge_input();
    assert!(input.all_connectors_loaded);
    assert_eq!(input.all, vec![app("a", false)]);
    assert!(input.accessible.is_empty());
    let (request, announced) = request.on_merged(vec![app("a", false)]);
    assert_eq!(announced, None);
    assert_eq!(request.action(), ListAction::Wait);
    let request = request.on_load(LoadEvent::Accessible {
        connectors: vec![app("a", true)],
        codex_apps_ready: false,
    });
    assert_eq!(request.merge_input().accessible, vec![app("a", true)]);
    let (request, announced) = request.on_merged(vec![app("a", true)]);
    assert_eq!(announced, Some(vec![app("a", true)]));
    let request = request.on_load(LoadEvent::Directory { connectors: vec![app("a", false)] });
    let (request, announced) = request.on_merged(vec![app("a", true)]);
    assert_eq!(announced, None);
    assert_eq!(request.action(), ListAction::Respond);
    let (response, ready) = request.into_result().expect("answer").expect("apps");
    assert_eq!(response.data, vec![app("a", true)]);
    assert!(!ready);
}

#[test]
fn refetches_show_the_cached_directory_meanwhile() {
    let request = ListRequest::new(
        0,
        None,
        true,
        Some(vec![app("stale", true)]),
        Some(vec![app("cached", false)]),
    );
    let (request, announced) = request.on_merged(vec![app("stale", true)]);
    assert_eq!(announced, Some(vec![app("stale", true)]));
    let request = request.on_load(LoadEvent::Directory { connectors: vec![app("fresh", false)] });
    let input = request.merge_input();
    assert_eq!(input.all, vec![app("cached", false)]);
    assert!(input.accessible.is_empty());
    let (request, announced) = request.on_merged(vec![app("cached", false)]);
    assert_eq!(announced, None);
    let request = request.on_load(LoadEvent::Accessible {
        connectors: vec![app("fresh", true)],
        codex_apps_ready: true,
    });
    let input = request.merge_input();
    assert_eq!(input.all, vec![app("fresh", false)]);
    assert_eq!(input.accessible, vec![app("fresh", true)]);
}

#[test]
fn failures_refuse_the_list() {
    let fresh = || ListRequest::new(0, None, false, None, None);
    assert_eq!(fresh().action(), ListAction::Wait);
    let cases = [
        (LoadEvent::Closed, "failed to load app lists"),
        (LoadEvent::TimedOut, "timed out waiting for app lists after 90 seconds"),
        (
            LoadEvent::AccessibleFailed { reason: "x".to_string() },
            "failed to load accessible apps: x",
        ),
        (LoadEvent::DirectoryFailed { reason: "y".to_string() }, "failed to list apps: y"),
    ];
    for (event, message) in cases {
        match fresh().on_load(event).into_result() {
            Some(Err(error)) => assert_eq!(error, internal(message)),
            _ => panic!("expected a refusal"),
        }
    }
}

#[test]
fn only_accessible_or_complete_lists_are_announced() {
    let hidden = vec![app("a", false)];
    assert!(!should_send_app_list_updated_notification(&hidden, true, false));
    assert!(should_send_app_list_updated_notification(&hidden, true, true));
    assert!(should_send_app_list_updated_notification(&vec![app("a", true)], false, false));
    let input = merge_loaded_apps(&None, &Some(hidden));
    assert!(!input.all_connectors_loaded);
    assert!(input.all.is_empty());
    assert_eq!(input.accessible.len(), 1);
}

#[test]
fn request_errors_have_their_texts() {
    assert_eq!(invalid_thread_id("bad").message, "invalid thread id: bad");
    assert_eq!(thread_not_found("t").message, "thread not found: t");
    assert_eq!(thread_not_found("t").kind, RpcErrorKind::InvalidRequest);
}

#[test]
fn provider_writes_replace_the_user_value() {
    let write = set_user_model_provider_to_bedrock("bedrock");
    assert_eq!(write.key_path, "model_provider");
    assert_eq!(write.value, "bedrock");
    assert_eq!(write.merge_strategy, MergeStrategy::Replace);
    assert_eq!(write.file_path, None);
    assert_eq!(write.expected_version, None);
    let versioned = write_user_model_provider("other".to_string(), Some("v2".to_string()));
    assert_eq!(versioned.expected_version, Some("v2".to_string()));
}
