use codex_connector_core::connector_runtime::{
    codex_apps_tools_cache_key, connector_runtime_context_key, publish_metric_name, CodexAppsToolsFetchSource,
    CodexAuth, ConnectorRuntimeCapture, ConnectorRuntimeContextDiscarded, ConnectorRuntimeIdentity,
    ConnectorRuntimeManager, ConnectorRuntimeSnapshot, Publication, ToolListing,
};
use codex_connector_core::tool_info::{Tool, ToolInfo};
use std::sync::Arc;

fn tool(name: &str) -> ToolInfo {
    ToolInfo {
        server_name: "apps".to_string(),
        tool: Tool { name: name.to_string(), title: None, annotations: None },
        callable_namespace: "apps".to_string(),
        callable_name: name.to_string(),
        connector_id: None,
        connector_name: None,
        plugin_display_names: Vec::new(),
        details: "{\"input_schema\":{}}".to_string(),
    }
}

fn identity(account: &str) -> ConnectorRuntimeIdentity {
    let auth = CodexAuth {
        account_id: Some(account.to_string()),
        chatgpt_user_id: None,
        is_workspace_account: false,
    };
    ConnectorRuntimeIdentity {
        codex_home: vec![b"/".to_vec(), b"home".to_vec()],
        key: connector_runtime_context_key(Some(&auth)),
    }
}

fn names(tools: Option<Vec<ToolInfo>>) -> Option<Vec<String>> {
    tools.map(|list| list.into_iter().map(|tool| tool.tool.name).collect())
}

#[test]
fn snapshots_tell_tools_time_and_age() {
    let snapshot = ConnectorRuntimeSnapshot { tools: vec![tool("a")], refreshed_at: 100 };
    assert_eq!(snapshot.tools().len(), 1);
    assert_eq!(snapshot.refreshed_at(), 100);
    assert_eq!(snapshot.age(175), 75);
    assert_eq!(snapshot.age(99), 0);
    let early = ConnectorRuntimeSnapshot { tools: Vec::new(), refreshed_at: -5 };
    assert_eq!(early.age(7), 12);
    let earliest = ConnectorRuntimeSnapshot { tools: Vec::new(), refreshed_at: i128::MIN };
    assert_eq!(earliest.age(i128::MAX), u128::MAX);
}

#[test]
fn keys_follow_the_account() {
    let auth = CodexAuth {
        account_id: Some("a".to_string()),
        chatgpt_user_id: Some("u".to_string()),
        is_workspace_account: true,
    };
    let key = connector_runtime_context_key(Some(&auth));
    assert_eq!(key.account_id, Some("a".to_string()));
    assert_eq!(key.chatgpt_user_id, Some("u".to_string()));
    assert!(key.is_workspace_account);
    let nobody = codex_apps_tools_cache_key(None);
    assert_eq!(nobody.account_id, None);
    assert!(!nobody.is_workspace_account);
}

#[test]
fn activation_takes_what_was_persisted_once() {
    let mut manager = ConnectorRuntimeManager::default();
    let persisted = ConnectorRuntimeSnapshot { tools: vec![tool("old")], refreshed_at: 1 };
    let context = manager.context(identity("a"), Some(persisted));
    assert_eq!(names(context.current_tools(&manager)), Some(vec!["old".to_string()]));
    let later = ConnectorRuntimeSnapshot { tools: vec![tool("later")], refreshed_at: 2 };
    let again = manager.context(identity("a"), Some(later));
    assert_eq!(names(again.current_tools(&manager)), Some(vec!["old".to_string()]));
    assert!(manager.active_context(&identity("a")).is_some());
    assert!(manager.active_context(&identity("b")).is_none());
    assert!(manager.current_snapshot(identity("a"), None).is_some());
}

#[test]
fn another_account_discards_the_context() {
    let mut manager = ConnectorRuntimeManager::default();
    let first = manager.context(identity("a"), None);
    let ticket = first.begin_fetch(&mut manager, CodexAppsToolsFetchSource::Startup);
    let second = manager.context(identity("b"), None);
    assert!(!first.is_active(&manager));
    assert!(second.is_active(&manager));
    assert!(first.admit_explicit_refresh(&manager).is_err());
    assert!(second.admit_explicit_refresh(&manager).is_ok());
    let publication =
        first.publish_runtime_if_newest_accepted(&mut manager, ticket, vec![tool("a")], 5);
    assert_eq!(publication.metric_tags(CodexAppsToolsFetchSource::Startup)[1].value, "discarded");
    assert_eq!(publication.into_result(), Err(ConnectorRuntimeContextDiscarded));
    assert!(!second.has_current_tools(&manager));
    let back = manager.context(identity("a"), None);
    assert!(!first.is_active(&manager));
    assert!(back.is_active(&manager));
    assert!(first.current_snapshot(&manager).is_none());
}

#[test]
fn a_context_stays_active_until_another_is_activated() {
    let mut manager = ConnectorRuntimeManager::default();
    let context = manager.context(identity("a"), None);
    let ticket = context.begin_fetch(&mut manager, CodexAppsToolsFetchSource::Startup);
    let again = manager.context(identity("a"), None);
    assert_eq!(again.activation(), context.activation());
    let published =
        again.publish_runtime_if_newest_accepted(&mut manager, ticket, vec![tool("new")], 5);
    assert!(published.into_result().is_ok());
    let persisted = ConnectorRuntimeSnapshot { tools: vec![tool("old")], refreshed_at: 1 };
    let third = manager.context(identity("a"), Some(persisted));
    assert_eq!(third.activation(), context.activation());
    assert!(context.is_active(&manager));
    assert_eq!(names(third.current_tools(&manager)), Some(vec!["new".to_string()]));
    assert_eq!(names(context.current_tools(&manager)), Some(vec!["new".to_string()]));
}

#[test]
fn a_returning_identity_gets_a_new_context() {
    let mut manager = ConnectorRuntimeManager::default();
    let before = ConnectorRuntimeSnapshot { tools: vec![tool("before")], refreshed_at: 1 };
    let first = manager.context(identity("a"), Some(before));
    manager.context(identity("b"), None);
    let after = ConnectorRuntimeSnapshot { tools: vec![tool("after")], refreshed_at: 2 };
    let back = manager.context(identity("a"), Some(after));
    assert_ne!(back.activation(), first.activation());
    assert!(!first.is_active(&manager));
    assert!(first.current_snapshot(&manager).is_none());
    assert!(!first.has_current_tools(&manager));
    assert_eq!(names(back.current_tools(&manager)), Some(vec!["after".to_string()]));
}

#[test]
fn the_newest_fetch_wins() {
    let mut manager = ConnectorRuntimeManager::default();
    let context = manager.context(identity("a"), None);
    assert_eq!(context.activation(), 1);
    assert_eq!(context.fetches_begun(&manager), Some(0));
    assert_eq!(context.fetches_begun(&ConnectorRuntimeManager::default()), None);
    let older = context.begin_fetch(&mut manager, CodexAppsToolsFetchSource::Startup);
    assert_eq!(context.fetches_begun(&manager), Some(1));
    let newer = context.begin_fetch(&mut manager, CodexAppsToolsFetchSource::HardRefresh);
    let source = newer.source();
    assert_eq!(source.as_str(), "hard_refresh");
    assert_eq!(CodexAppsToolsFetchSource::Startup.as_str(), "startup");
    let published =
        context.publish_runtime_if_newest_accepted(&mut manager, newer, vec![tool("new")], 10);
    let tags = published.metric_tags(source);
    assert_eq!(tags[0].name, "source");
    assert_eq!(tags[0].value, "hard_refresh");
    assert_eq!(tags[1].name, "result");
    assert_eq!(tags[1].value, "published");
    assert!(matches!(published, Publication::Published(_)));
    let stale =
        context.publish_runtime_if_newest_accepted(&mut manager, older, vec![tool("old")], 20);
    assert_eq!(stale.metric_tags(CodexAppsToolsFetchSource::Startup)[1].value, "stale");
    let kept = stale.into_result().expect("the newer snapshot");
    assert_eq!(kept.tools[0].tool.name, "new");
    assert_eq!(kept.refreshed_at, 10);
    assert_eq!(kept.tools[0], tool("new"));
    assert_eq!(names(context.current_tools(&manager)), Some(vec!["new".to_string()]));
    assert_eq!(publish_metric_name(), "codex.mcp.tools.cache_publish.duration_ms");
}

#[test]
fn discarded_error_has_a_message() {
    assert_eq!(
        ConnectorRuntimeContextDiscarded.message(),
        "connector runtime context was discarded"
    );
}

#[test]
fn steps_read_what_they_captured() {
    assert!(matches!(ConnectorRuntimeCapture::LegacyLive.mcp_tools(), ToolListing::AllLive));
    let snapshot = Arc::new(ConnectorRuntimeSnapshot { tools: vec![tool("a")], refreshed_at: 0 });
    let capture = ConnectorRuntimeCapture::Snapshot(Some(Arc::clone(&snapshot)));
    match capture.mcp_tools() {
        ToolListing::WithConnectorSnapshot(Some(captured)) => assert_eq!(captured, snapshot),
        _ => panic!("expected the captured snapshot"),
    }
    assert!(matches!(
        ConnectorRuntimeCapture::Snapshot(None).mcp_tools(),
        ToolListing::WithConnectorSnapshot(None)
    ));
}
