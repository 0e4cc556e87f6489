use codex_connector_core::digest::fingerprint_of;
use codex_connector_core::mcp_diagnostics::{
    ToolSearchDiagnosticIdentity, ToolSearchMcpDiagnosticsSnapshot,
    ToolSearchToolsListResponseSnapshot, ToolSearchToolsListSource,
};
use codex_connector_core::tool_identity::{
    DiagnosticToolIdentity, LoadableToolSpec, ResponsesApiNamespaceTool, ToolSearchInfo,
};
use codex_connector_core::tool_info::{Tool, ToolInfo, ToolWithConnectorId};
use codex_connector_core::tool_search_recorder::{
    enrich_identity, fingerprint, record_stage, FeedbackSnapshot, SearchResultDiagnostic,
    StageMetadata, ToolExposureDecision, ToolSearchPipelineDiagnostics, MAX_QUERY_CHARS,
    MAX_SEARCHES, MAX_SEARCH_RESULTS, MAX_STAGE_IDENTITIES,
};

fn identity(index: usize) -> DiagnosticToolIdentity {
    DiagnosticToolIdentity {
        server_name: format!("server_{index}"),
        raw_tool_name: format!("raw_tool_{index}"),
        tool_name: Some(format!("namespace.tool_{index}")),
        connector_id: Some(format!("connector_{index}")),
        connector_name: Some(format!("connector name {index}")),
        plugin_display_names: vec![format!("plugin_{index}")],
    }
}

fn feedback(recorder: &ToolSearchPipelineDiagnostics) -> FeedbackSnapshot {
    recorder
        .feedback_snapshot("thread".to_string(), "session".to_string())
        .expect("snapshot should be present")
}

fn tool(server: &str, name: &str) -> ToolInfo {
    ToolInfo {
        server_name: server.to_string(),
        tool: Tool { name: name.to_string(), title: None, annotations: None },
        callable_namespace: "space".to_string(),
        callable_name: format!("call_{name}"),
        connector_id: Some("conn".to_string()),
        connector_name: Some("Conn".to_string()),
        plugin_display_names: vec![
            "one".to_string(),
            "two".to_string(),
            "three".to_string(),
            "four".to_string(),
            "five".to_string(),
        ],
        details: "{\"input_schema\":{}}".to_string(),
    }
}

#[test]
fn feedback_snapshot_is_bounded_and_omits_sensitive_payloads() {
    let mut recorder = ToolSearchPipelineDiagnostics::default();
    let identities = (0..(MAX_STAGE_IDENTITIES + 20))
        .map(identity)
        .collect::<Vec<_>>();
    recorder.state.inventory_generation = "generation".to_string();
    record_stage(
        &mut recorder.state,
        "mcp_inventory_snapshot",
        "generation",
        identities,
        StageMetadata::default(),
        Vec::new(),
    );
    for search_index in 0..(MAX_SEARCHES + 4) {
        let results = (0..(MAX_SEARCH_RESULTS + 7))
            .map(|result_index| SearchResultDiagnostic {
                rank: result_index + 1,
                score_bits: (result_index as f32).to_bits(),
                document_index: result_index,
                identity: identity(result_index),
            })
            .collect();
        recorder.record_search(
            &format!("{} sensitive-search-text", "q".repeat(MAX_QUERY_CHARS + 40)),
            search_index + 1,
            MAX_SEARCH_RESULTS + 7,
            results,
        );
    }

    let snapshot = feedback(&recorder);
    let text = format!("{snapshot:?}");

    assert_eq!(snapshot.stages[0].identities.len(), MAX_STAGE_IDENTITIES);
    assert_eq!(snapshot.searches.len(), MAX_SEARCHES);
    assert_eq!(snapshot.searches[0].results.len(), MAX_SEARCH_RESULTS);
    assert!(!text.contains("input_schema"));
    assert!(!text.contains("output_schema"));
    assert!(!text.contains("search_text"));
    assert!(!text.contains("sensitive-search-text"));
    assert!(snapshot.stages[0].identities_truncated);
    assert_eq!(snapshot.stages[0].total_count, MAX_STAGE_IDENTITIES + 20);
    assert!(snapshot.searches[0].results_truncated);
    assert_eq!(snapshot.searches[0].requested_limit, 5);
    assert_eq!(snapshot.searches[31].requested_limit, 36);
    assert_eq!(snapshot.searches[0].query.chars().count(), MAX_QUERY_CHARS + 1);
    assert!(snapshot.searches[0].query.ends_with('\u{2026}'));
    assert_eq!(snapshot.searches[0].results[3].score_bits, 3.0f32.to_bits());
}

#[test]
fn changed_fingerprint_records_added_and_removed_canonical_identities() {
    let mut recorder = ToolSearchPipelineDiagnostics::default();
    recorder.state.inventory_generation = "generation".to_string();
    record_stage(
        &mut recorder.state,
        "mcp_inventory_snapshot",
        "generation",
        vec![identity(/*index*/ 1)],
        StageMetadata::default(),
        Vec::new(),
    );
    record_stage(
        &mut recorder.state,
        "mcp_inventory_snapshot",
        "generation",
        vec![identity(/*index*/ 2)],
        StageMetadata::default(),
        Vec::new(),
    );

    let snapshot = feedback(&recorder);
    let stage = &snapshot.stages[0];

    assert_eq!(
        stage.added,
        vec!["server_2|raw_tool_2|namespace.tool_2|connector_2".to_string()]
    );
    assert_eq!(
        stage.removed,
        vec!["server_1|raw_tool_1|namespace.tool_1|connector_1".to_string()]
    );
}

#[test]
fn trace_subscriber_does_not_enable_verbose_tool_search_payloads() {
    let mut recorder = ToolSearchPipelineDiagnostics::default();
    let subscriber = tracing_subscriber::fmt()
        .with_max_level(tracing::Level::TRACE)
        .finish();

    tracing::subscriber::with_default(subscriber, || {
        recorder.state.inventory_generation = "generation".to_string();
        record_stage(
            &mut recorder.state,
            "mcp_inventory_snapshot",
            "generation",
            vec![identity(/*index*/ 1)],
            StageMetadata::default(),
            Vec::new(),
        );
    });

    let text = format!(
        "{:?}",
        recorder
            .feedback_snapshot("thread".to_string(), "session".to_string())
            .expect("always-on snapshot should not depend on RUST_LOG")
    );
    assert!(text.contains("mcp_inventory_snapshot"));
    assert!(!text.contains("input_schema"));
    assert!(!text.contains("output_schema"));
    assert!(!text.contains("search_text"));
}

#[test]
fn nothing_recorded_reports_nothing() {
    let recorder = ToolSearchPipelineDiagnostics::default();
    assert!(recorder.feedback_snapshot("t".to_string(), "s".to_string()).is_none());
}

#[test]
fn report_states_version_ids_and_limits() {
    let mut recorder = ToolSearchPipelineDiagnostics::default();
    recorder.record_search("query", 3, 0, Vec::new());
    let report = feedback(&recorder);
    assert_eq!(report.version, 1);
    assert_eq!(report.thread_id, "thread");
    assert_eq!(report.session_id, "session");
    assert_eq!(report.limits.max_stage_identities, 256);
    assert_eq!(report.limits.max_stage_changes, 128);
    assert_eq!(report.limits.max_excluded_identities, 256);
    assert_eq!(report.limits.max_searches, 32);
    assert_eq!(report.limits.max_search_results, 100);
    assert_eq!(report.limits.max_identity_chars, 160);
    assert_eq!(report.limits.max_query_chars, 256);
    assert_eq!(report.searches[0].stage, "bm25_search_results");
    assert_eq!(report.searches[0].query, "query");
    assert!(report.stages.is_empty());
}

#[test]
fn fingerprints_are_sha1_in_hexadecimal() {
    assert_eq!(fingerprint_of(&Vec::new()), "da39a3ee5e6b4b0d3255bfef95601890afd80709");
    assert_eq!(
        fingerprint_of(&vec![b'a', b'b', b'c']),
        "a9993e364706816aba3e25717850c26c9cd0d89d"
    );
    assert_eq!(fingerprint(&Vec::new()), "da39a3ee5e6b4b0d3255bfef95601890afd80709");
}

#[test]
fn stage_order_and_repetitions_do_not_matter() {
    let mut first = ToolSearchPipelineDiagnostics::default();
    let mut second = ToolSearchPipelineDiagnostics::default();
    let one = vec![identity(2), identity(1), identity(2)];
    let other = vec![identity(1), identity(2)];
    record_stage(&mut first.state, "s", "g", one, StageMetadata::default(), Vec::new());
    record_stage(&mut second.state, "s", "g", other, StageMetadata::default(), Vec::new());
    assert_eq!(feedback(&first), feedback(&second));
    assert_eq!(feedback(&first).stages[0].total_count, 2);
}

#[test]
fn recording_the_same_stage_again_changes_nothing() {
    let mut recorder = ToolSearchPipelineDiagnostics::default();
    record_stage(
        &mut recorder.state,
        "s",
        "g",
        vec![identity(1)],
        StageMetadata::default(),
        Vec::new(),
    );
    let before = feedback(&recorder);
    record_stage(
        &mut recorder.state,
        "s",
        "g",
        vec![identity(1)],
        StageMetadata::default(),
        Vec::new(),
    );
    assert_eq!(feedback(&recorder), before);
    assert_eq!(before.stages[0].added.len(), 1);
}

#[test]
fn mcp_snapshot_starts_a_generation_with_two_stages() {
    let mut recorder = ToolSearchPipelineDiagnostics::default();
    let raw = ToolWithConnectorId {
        tool: Tool { name: "raw".to_string(), title: None, annotations: None },
        connector_id: None,
        connector_name: None,
    };
    let mcp = ToolSearchMcpDiagnosticsSnapshot {
        tools_list_responses: vec![
            ToolSearchToolsListResponseSnapshot::from_live_response("live", &vec![raw]),
            ToolSearchToolsListResponseSnapshot::not_observed("quiet"),
        ],
        server_count: 2,
        cached_server_count: 1,
        startup_complete_server_count: 2,
    };
    recorder.record_mcp_snapshot(&mcp, &vec![tool("live", "raw")]);
    let report = feedback(&recorder);
    assert!(!format!("{report:?}").contains("input_schema"));
    assert_eq!(report.stages.len(), 2);
    assert_eq!(report.stages[0].stage, "mcp_inventory_snapshot");
    assert_eq!(report.stages[1].stage, "mcp_tools_list_response");
    assert_eq!(report.stages[0].metadata.server_count, Some(2));
    assert_eq!(report.stages[0].metadata.cached_server_count, Some(1));
    assert!(report.stages[0].metadata.observation_sources.is_empty());
    assert_eq!(
        report.stages[1].metadata.observation_sources,
        vec!["live=LiveResponse".to_string(), "quiet=NotObserved".to_string()]
    );
    assert_eq!(report.stages[1].total_count, 1);
    assert_eq!(report.inventory_generation, report.stages[0].fingerprint);
    assert_eq!(
        recorder.state.identity_by_tool_name.get("space.call_raw").map(|i| i.server_name.clone()),
        Some("live".to_string())
    );
}

#[test]
fn exposure_keeps_the_excluded_decisions() {
    let mut recorder = ToolSearchPipelineDiagnostics::default();
    let decision = |index: usize, included: bool| ToolExposureDecision {
        identity: identity(index),
        included,
        model_visible: included,
        connector_id_present: true,
        connector_allowed: true,
        policy_enabled: true,
    };
    recorder.record_exposure(vec![decision(1, true), decision(2, false)], true);
    let report = feedback(&recorder);
    let stage = &report.stages[0];
    assert_eq!(stage.stage, "mcp_exposure_filter");
    assert_eq!(stage.metadata.included_count, Some(1));
    assert_eq!(stage.metadata.search_tool_enabled, Some(true));
    assert_eq!(stage.excluded, vec![decision(2, false)]);
    assert!(!stage.excluded_truncated);
}

#[test]
fn search_entries_are_completed_from_the_inventory() {
    let mut recorder = ToolSearchPipelineDiagnostics::default();
    let mcp = ToolSearchMcpDiagnosticsSnapshot::default();
    let mut known = tool("live", "raw");
    known.connector_name = None;
    recorder.record_mcp_snapshot(&mcp, &vec![known]);
    let entry = ToolSearchInfo {
        output: LoadableToolSpec::Namespace {
            name: "space".to_string(),
            tools: vec![ResponsesApiNamespaceTool::Function { name: "call_raw".to_string() }],
        },
        source_name: Some("Source".to_string()),
    };
    recorder.record_deferred(&vec![entry], "hit");
    let report = feedback(&recorder);
    let stage = &report.stages[0];
    assert_eq!(stage.stage, "deferred_tool_search_info");
    assert_eq!(stage.metadata.cache_state, Some("hit".to_string()));
    assert_eq!(stage.identities[0].server_name, "live");
    assert_eq!(stage.identities[0].connector_name, Some("Source".to_string()));

    let other = ToolSearchInfo {
        output: LoadableToolSpec::Function { name: "plain".to_string() },
        source_name: None,
    };
    recorder.record_index(&vec![other], "miss");
    let report = feedback(&recorder);
    assert_eq!(report.stages[0].stage, "bm25_index_cache");
    assert_eq!(report.stages[0].identities[0].tool_name, Some("plain".to_string()));
    assert_eq!(report.stages[0].identities[0].server_name, "");
}

#[test]
fn enriching_twice_is_enriching_once() {
    let mut recorder = ToolSearchPipelineDiagnostics::default();
    recorder.record_mcp_snapshot(
        &ToolSearchMcpDiagnosticsSnapshot::default(),
        &vec![tool("live", "raw")],
    );
    let mut once = DiagnosticToolIdentity {
        server_name: String::new(),
        raw_tool_name: String::new(),
        tool_name: Some("space.call_raw".to_string()),
        connector_id: None,
        connector_name: Some("Source".to_string()),
        plugin_display_names: Vec::new(),
    };
    enrich_identity(&recorder.state, &mut once);
    assert_eq!(once.raw_tool_name, "raw");
    assert_eq!(once.connector_name, Some("Conn".to_string()));
    let mut twice = once.clone();
    enrich_identity(&recorder.state, &mut twice);
    assert_eq!(twice, once);
}

#[test]
fn namespaces_are_named_by_what_they_hold() {
    let function = |name: &str| ResponsesApiNamespaceTool::Function { name: name.to_string() };
    let entry = |tools: Vec<ResponsesApiNamespaceTool>| ToolSearchInfo {
        output: LoadableToolSpec::Namespace { name: "space".to_string(), tools },
        source_name: None,
    };
    let name_of = |info: &ToolSearchInfo| DiagnosticToolIdentity::from_search_info(info).tool_name;
    assert_eq!(name_of(&entry(vec![])), Some("space".to_string()));
    assert_eq!(name_of(&entry(vec![function("a")])), Some("space.a".to_string()));
    assert_eq!(
        name_of(&entry(vec![function("a"), function("b"), ResponsesApiNamespaceTool::Other])),
        Some("space (+3 tools)".to_string())
    );
    assert_eq!(
        name_of(&entry(vec![ResponsesApiNamespaceTool::Other, function("a")])),
        Some("space".to_string())
    );
}

#[test]
fn identities_are_cut_to_their_limits() {
    let mut long = tool("server", "raw");
    long.server_name = "x".repeat(161);
    long.tool.name = "y".repeat(160);
    let identity = ToolSearchDiagnosticIdentity::from_tool_info(&long);
    assert_eq!(identity.server_name, format!("{}\u{2026}", "x".repeat(160)));
    assert_eq!(identity.raw_tool_name, "y".repeat(160));
    assert_eq!(identity.plugin_display_names.len(), 4);
    assert_eq!(identity.callable_name, Some("call_raw".to_string()));
}

#[test]
fn response_snapshots_are_sorted_distinct_and_bounded() {
    let raw = |name: String| ToolWithConnectorId {
        tool: Tool { name, title: None, annotations: None },
        connector_id: Some("c".to_string()),
        connector_name: None,
    };
    let mut tools: Vec<ToolWithConnectorId> = (0..300).map(|i| raw(format!("t{i:03}"))).collect();
    tools.push(raw("t000".to_string()));
    let snapshot = ToolSearchToolsListResponseSnapshot::from_live_response("server", &tools);
    assert_eq!(snapshot.source, ToolSearchToolsListSource::LiveResponse);
    assert_eq!(snapshot.total_count, 300);
    assert_eq!(snapshot.identities.len(), 256);
    assert!(snapshot.identities_truncated);
    assert_eq!(snapshot.identities[0].raw_tool_name, "t000");
    assert_eq!(snapshot.identities[255].raw_tool_name, "t255");
    tools.reverse();
    let reversed = ToolSearchToolsListResponseSnapshot::from_live_response("server", &tools);
    assert_eq!(reversed, snapshot);

    let single = ToolSearchToolsListResponseSnapshot::from_live_response(
        "s",
        &vec![raw("t".to_string())],
    );
    let covered = vec![b's', 0, b't', 0, b'c', 0];
    assert_eq!(single.fingerprint, fingerprint_of(&covered));
    let cached = ToolSearchToolsListResponseSnapshot::from_cached_tools("s", &vec![tool("s", "t")]);
    assert_eq!(cached.source, ToolSearchToolsListSource::CachedToolsWithoutLiveResponse);
    assert_eq!(cached.identities[0].callable_namespace, Some("space".to_string()));
}

#[test]
fn only_the_stages_of_the_pipeline_are_recorded() {
    let mut recorder = ToolSearchPipelineDiagnostics::default();
    for _ in 0..3 {
        recorder.record_mcp_snapshot(
            &ToolSearchMcpDiagnosticsSnapshot::default(),
            &vec![tool("live", "raw")],
        );
        recorder.record_exposure(Vec::new(), false);
        recorder.record_deferred(&Vec::new(), "hit");
        recorder.record_index(&Vec::new(), "hit");
        recorder.record_search("query", 1, 0, Vec::new());
    }
    let report = feedback(&recorder);
    let names: Vec<&str> = report.stages.iter().map(|stage| stage.stage.as_str()).collect();
    assert_eq!(
        names,
        vec![
            "bm25_index_cache",
            "deferred_tool_search_info",
            "mcp_exposure_filter",
            "mcp_inventory_snapshot",
            "mcp_tools_list_response",
        ]
    );
}

#[test]
fn changes_are_cut_and_say_so() {
    let mut recorder = ToolSearchPipelineDiagnostics::default();
    let many: Vec<DiagnosticToolIdentity> = (0..130).map(identity).collect();
    record_stage(&mut recorder.state, "s", "g", many, StageMetadata::default(), Vec::new());
    let report = feedback(&recorder);
    assert_eq!(report.stages[0].added.len(), 128);
    assert!(report.stages[0].changes_truncated);
    let mut sorted = report.stages[0].added.clone();
    sorted.sort();
    assert_eq!(report.stages[0].added, sorted);
    record_stage(
        &mut recorder.state,
        "s",
        "g",
        vec![identity(1), identity(500)],
        StageMetadata::default(),
        Vec::new(),
    );
    let report = feedback(&recorder);
    assert_eq!(
        report.stages[0].added,
        vec!["server_500|raw_tool_500|namespace.tool_500|connector_500".to_string()]
    );
    assert_eq!(report.stages[0].removed.len(), 128);
    assert!(report.stages[0].changes_truncated);
}
