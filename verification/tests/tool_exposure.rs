use codex_connector_core::app_info::AppInfo;
use codex_connector_core::tool_exposure::{
    build_mcp_tool_exposure, filter_codex_apps_mcp_tools, filter_non_codex_apps_mcp_tools_only,
    policy_input, tool_exposure_decisions, ToolVerdict,
};
use codex_connector_core::tool_info::{Tool, ToolAnnotations, ToolInfo};

const APPS: &str = "apps";

fn tool(server: &str, name: &str, connector: Option<&str>) -> ToolInfo {
    ToolInfo {
        server_name: server.to_string(),
        tool: Tool {
            name: name.to_string(),
            title: Some("Title".to_string()),
            annotations: Some(ToolAnnotations {
                destructive_hint: Some(true),
                open_world_hint: None,
            }),
        },
        callable_namespace: server.to_string(),
        callable_name: name.to_string(),
        connector_id: connector.map(str::to_string),
        connector_name: None,
        plugin_display_names: Vec::new(),
        details: "{\"input_schema\":{}}".to_string(),
    }
}

fn app(id: &str) -> AppInfo {
    AppInfo {
        id: id.to_string(),
        name: id.to_string(),
        description: None,
        is_accessible: true,
        is_enabled: true,
        plugin_display_names: Vec::new(),
        details: String::new(),
    }
}

fn names(tools: &[ToolInfo]) -> Vec<String> {
    tools.iter().map(|tool| tool.tool.name.clone()).collect()
}

fn tools() -> Vec<ToolInfo> {
    vec![
        tool(APPS, "listed", Some("c")),
        tool("other", "plain", None),
        tool(APPS, "unlisted", Some("d")),
        tool(APPS, "loose", None),
        tool("other", "hidden", None),
        tool(APPS, "denied", Some("c")),
    ]
}

fn verdicts() -> Vec<ToolVerdict> {
    let verdict = |model_visible, policy_enabled| ToolVerdict { model_visible, policy_enabled };
    vec![
        verdict(true, true),
        verdict(true, false),
        verdict(true, true),
        verdict(true, true),
        verdict(false, true),
        verdict(true, false),
    ]
}

#[test]
fn other_tools_come_first_and_then_enabled_app_tools() {
    let connectors = vec![app("c")];
    let exposure = build_mcp_tool_exposure(&tools(), &verdicts(), Some(&connectors), APPS, false);
    assert_eq!(names(&exposure.direct_tools), vec!["plain".to_string(), "listed".to_string()]);
    assert!(exposure.deferred_tools.is_none());
    let deferred = build_mcp_tool_exposure(&tools(), &verdicts(), Some(&connectors), APPS, true);
    assert!(deferred.direct_tools.is_empty());
    assert_eq!(deferred.deferred_tools, Some(exposure.direct_tools));
    let without = build_mcp_tool_exposure(&tools(), &verdicts(), None, APPS, false);
    assert_eq!(names(&without.direct_tools), vec!["plain".to_string()]);
    let nothing = build_mcp_tool_exposure(&Vec::new(), &Vec::new(), None, APPS, true);
    assert!(nothing.deferred_tools.is_none());
    assert_eq!(
        names(&filter_non_codex_apps_mcp_tools_only(&tools(), &verdicts(), APPS)),
        vec!["plain".to_string()]
    );
    assert_eq!(
        names(&filter_codex_apps_mcp_tools(&tools(), &verdicts(), &connectors, APPS)),
        vec!["listed".to_string()]
    );
}

#[test]
fn decisions_say_why() {
    let connectors = vec![app("c")];
    let decisions = tool_exposure_decisions(&tools(), &verdicts(), Some(&connectors), APPS);
    let included: Vec<bool> = decisions.iter().map(|decision| decision.included).collect();
    assert_eq!(included, vec![true, true, false, false, false, false]);
    assert!(!decisions[2].connector_allowed);
    assert!(decisions[2].policy_enabled);
    assert!(!decisions[3].connector_id_present);
    assert!(!decisions[3].policy_enabled);
    assert!(!decisions[4].model_visible);
    assert!(decisions[4].connector_allowed);
    assert!(decisions[5].connector_allowed);
    assert!(!decisions[5].policy_enabled);
    assert_eq!(decisions[0].identity.raw_tool_name, "listed");
    let exposed = build_mcp_tool_exposure(&tools(), &verdicts(), Some(&connectors), APPS, false);
    assert_eq!(exposed.direct_tools.len(), included.iter().filter(|value| **value).count());
}

#[test]
fn the_policy_is_asked_about_app_tools() {
    let input = policy_input(&tool(APPS, "listed", Some("c")), APPS).expect("input");
    assert_eq!(input.connector_id, "c");
    assert_eq!(input.tool_name, "listed");
    assert_eq!(input.tool_title, Some("Title".to_string()));
    assert_eq!(input.destructive_hint, Some(true));
    assert_eq!(input.open_world_hint, None);
    assert!(policy_input(&tool("other", "plain", Some("c")), APPS).is_none());
    assert!(policy_input(&tool(APPS, "loose", None), APPS).is_none());
}
