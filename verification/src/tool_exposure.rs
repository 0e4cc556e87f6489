//! Which MCP tools the model gets to see.

use vstd::prelude::*;
use crate::app_info::{self, AppInfo, AppModel};
use crate::mcp_diagnostics;
use crate::text;
use crate::tool_identity::{self, DiagnosticToolIdentity};
use crate::tool_info::{ToolInfo, ToolInfoModel};
use crate::tool_search_recorder::{self, DecisionModel, ToolExposureDecision};

verus! {

/// What the app tool policy is asked about a tool.
#[derive(Debug, PartialEq, Eq)]
pub struct AppToolPolicyInput {
    pub connector_id: String,
    pub tool_name: String,
    pub tool_title: Option<String>,
    pub destructive_hint: Option<bool>,
    pub open_world_hint: Option<bool>,
}

pub struct PolicyInputModel {
    pub connector_id: Seq<char>,
    pub tool_name: Seq<char>,
    pub tool_title: Option<Seq<char>>,
    pub destructive_hint: Option<bool>,
    pub open_world_hint: Option<bool>,
}

impl DeepView for AppToolPolicyInput {
    type V = PolicyInputModel;

    open spec fn deep_view(&self) -> PolicyInputModel {
        PolicyInputModel {
            connector_id: self.connector_id@,
            tool_name: self.tool_name@,
            tool_title: self.tool_title.deep_view(),
            destructive_hint: self.destructive_hint,
            open_world_hint: self.open_world_hint,
        }
    }
}

/// What the policy is asked about the tool. It is asked about tools of the apps
/// server that belong to a connector.
pub open spec fn policy_question(
    tool: ToolInfoModel,
    apps_server: Seq<char>,
) -> Option<PolicyInputModel> {
    match tool.connector_id {
        Some(connector_id) => if tool.server_name == apps_server {
            Some(
                PolicyInputModel {
                    connector_id,
                    tool_name: tool.tool.name,
                    tool_title: tool.tool.title,
                    destructive_hint: match tool.tool.annotations {
                        Some(annotations) => annotations.destructive_hint,
                        None => None,
                    },
                    open_world_hint: match tool.tool.annotations {
                        Some(annotations) => annotations.open_world_hint,
                        None => None,
                    },
                },
            )
        } else {
            None
        },
        None => None,
    }
}

/// What the policy is to be asked about the tool, where it is asked at all.
pub fn policy_input(tool: &ToolInfo, apps_server: &str) -> (input: Option<AppToolPolicyInput>)
    ensures
        input.deep_view() == policy_question(tool.deep_view(), apps_server@),
{
    if !text::same_text(tool.server_name.as_str(), apps_server) {
        return None;
    }
    match &tool.connector_id {
        Some(connector_id) => {
            let (destructive_hint, open_world_hint) = match &tool.tool.annotations {
                Some(annotations) => (annotations.destructive_hint, annotations.open_world_hint),
                None => (None, None),
            };
            Some(
                AppToolPolicyInput {
                    connector_id: connector_id.clone(),
                    tool_name: tool.tool.name.clone(),
                    tool_title: tool.tool.title.clone(),
                    destructive_hint,
                    open_world_hint,
                },
            )
        },
        None => None,
    }
}

/// What was found of a tool: whether its metadata makes it visible to the model,
/// and what the app tool policy answered. The answer counts only where the policy
/// is asked about the tool.
#[derive(Clone, Copy, Debug, PartialEq, Eq, Structural)]
pub struct ToolVerdict {
    pub model_visible: bool,
    pub policy_enabled: bool,
}

/// The tool belongs to one of the connectors.
pub open spec fn has_listed_connector(
    tool: ToolInfoModel,
    connectors: Option<Seq<AppModel>>,
) -> bool {
    connectors matches Some(apps) && tool.connector_id matches Some(id) && app_info::lists_id(
        apps,
        id,
    )
}

/// The tool is of another server than the apps server, and is exposed.
pub open spec fn exposes_other_tool(
    tool: ToolInfoModel,
    verdict: ToolVerdict,
    apps_server: Seq<char>,
) -> bool {
    tool.server_name != apps_server && verdict.model_visible
}

/// The tool is of the apps server, and is exposed.
pub open spec fn exposes_app_tool(
    tool: ToolInfoModel,
    verdict: ToolVerdict,
    connectors: Option<Seq<AppModel>>,
    apps_server: Seq<char>,
) -> bool {
    tool.server_name == apps_server && verdict.model_visible && has_listed_connector(
        tool,
        connectors,
    ) && verdict.policy_enabled
}

/// Why the tool is exposed, or is not.
pub open spec fn exposure_decision(
    tool: ToolInfoModel,
    verdict: ToolVerdict,
    connectors: Option<Seq<AppModel>>,
    apps_server: Seq<char>,
) -> DecisionModel {
    let of_apps = tool.server_name == apps_server;
    let connector_allowed = !of_apps || has_listed_connector(tool, connectors);
    let policy_enabled = !of_apps || (tool.connector_id is Some && verdict.policy_enabled);
    DecisionModel {
        identity: tool_identity::diagnostic_identity(mcp_diagnostics::tool_identity(tool)),
        included: verdict.model_visible && connector_allowed && policy_enabled,
        model_visible: verdict.model_visible,
        connector_id_present: tool.connector_id is Some,
        connector_allowed,
        policy_enabled,
    }
}

/// The decision on every tool.
pub open spec fn exposure_decisions(
    tools: Seq<ToolInfoModel>,
    verdicts: Seq<ToolVerdict>,
    connectors: Option<Seq<AppModel>>,
    apps_server: Seq<char>,
) -> Seq<DecisionModel> {
    Seq::new(
        tools.len(),
        |i: int| exposure_decision(tools[i], verdicts[i], connectors, apps_server),
    )
}

/// The exposed tools of the servers other than the apps server, in order.
pub open spec fn other_tools(
    tools: Seq<ToolInfoModel>,
    verdicts: Seq<ToolVerdict>,
    apps_server: Seq<char>,
) -> Seq<ToolInfoModel>
    decreases tools.len(),
{
    if tools.len() == 0 {
        Seq::empty()
    } else {
        let front = other_tools(tools.drop_last(), verdicts, apps_server);
        if exposes_other_tool(tools.last(), verdicts[tools.len() - 1], apps_server) {
            front.push(tools.last())
        } else {
            front
        }
    }
}

/// The exposed tools of the apps server, in order.
pub open spec fn app_tools(
    tools: Seq<ToolInfoModel>,
    verdicts: Seq<ToolVerdict>,
    connectors: Option<Seq<AppModel>>,
    apps_server: Seq<char>,
) -> Seq<ToolInfoModel>
    decreases tools.len(),
{
    if tools.len() == 0 {
        Seq::empty()
    } else {
        let front = app_tools(tools.drop_last(), verdicts, connectors, apps_server);
        if exposes_app_tool(tools.last(), verdicts[tools.len() - 1], connectors, apps_server) {
            front.push(tools.last())
        } else {
            front
        }
    }
}

/// The tools that are exposed: first those of other servers, then those of the
/// apps server.
pub open spec fn exposed_tools(
    tools: Seq<ToolInfoModel>,
    verdicts: Seq<ToolVerdict>,
    connectors: Option<Seq<AppModel>>,
    apps_server: Seq<char>,
) -> Seq<ToolInfoModel> {
    other_tools(tools, verdicts, apps_server) + app_tools(tools, verdicts, connectors, apps_server)
}

/// How the tools are exposed.
#[derive(Debug, PartialEq, Eq)]
pub struct McpToolExposure {
    pub direct_tools: Vec<ToolInfo>,
    pub deferred_tools: Option<Vec<ToolInfo>>,
    pub diagnostic_decisions: Vec<ToolExposureDecision>,
}

pub struct ExposureModel {
    pub direct_tools: Seq<ToolInfoModel>,
    pub deferred_tools: Option<Seq<ToolInfoModel>>,
    pub diagnostic_decisions: Seq<DecisionModel>,
}

impl DeepView for McpToolExposure {
    type V = ExposureModel;

    open spec fn deep_view(&self) -> ExposureModel {
        ExposureModel {
            direct_tools: self.direct_tools.deep_view(),
            deferred_tools: self.deferred_tools.deep_view(),
            diagnostic_decisions: self.diagnostic_decisions.deep_view(),
        }
    }
}

/// With the search tool the exposed tools are deferred until they are searched
/// for, without it the model gets them directly.
pub open spec fn exposure(
    tools: Seq<ToolInfoModel>,
    verdicts: Seq<ToolVerdict>,
    connectors: Option<Seq<AppModel>>,
    apps_server: Seq<char>,
    search_tool_enabled: bool,
) -> ExposureModel {
    let exposed = exposed_tools(tools, verdicts, connectors, apps_server);
    ExposureModel {
        direct_tools: if search_tool_enabled {
            Seq::empty()
        } else {
            exposed
        },
        deferred_tools: if search_tool_enabled && exposed.len() > 0 {
            Some(exposed)
        } else {
            None
        },
        diagnostic_decisions: exposure_decisions(tools, verdicts, connectors, apps_server),
    }
}

fn connector_is_listed(tool: &ToolInfo, connectors: Option<&Vec<AppInfo>>) -> (result: bool)
    ensures
        result == has_listed_connector(tool.deep_view(), connectors.deep_view()),
{
    match connectors {
        Some(apps) => match &tool.connector_id {
            Some(id) => app_info::lists_app(apps, id.as_str()),
            None => false,
        },
        None => false,
    }
}

/// The visible tools of the servers other than the apps server.
pub fn filter_non_codex_apps_mcp_tools_only(
    mcp_tools: &Vec<ToolInfo>,
    verdicts: &Vec<ToolVerdict>,
    apps_server: &str,
) -> (kept: Vec<ToolInfo>)
    requires
        verdicts@.len() == mcp_tools@.len(),
    ensures
        kept.deep_view() == other_tools(mcp_tools.deep_view(), verdicts@, apps_server@),
{
    let ghost models = mcp_tools.deep_view();
    let mut kept: Vec<ToolInfo> = Vec::new();
    let mut i: usize = 0;
    assert(kept.deep_view() =~= Seq::<ToolInfoModel>::empty());
    while i < mcp_tools.len()
        invariant
            i <= mcp_tools@.len(),
            models == mcp_tools.deep_view(),
            verdicts@.len() == mcp_tools@.len(),
            kept.deep_view() == other_tools(models.take(i as int), verdicts@, apps_server@),
        decreases mcp_tools@.len() - i,
    {
        let tool = &mcp_tools[i];
        let ghost before = kept.deep_view();
        assert(models.take(i + 1).drop_last() =~= models.take(i as int));
        assert(models[i as int] == tool.deep_view());
        if !text::same_text(tool.server_name.as_str(), apps_server) && verdicts[i].model_visible {
            kept.push(tool.clone());
            assert(kept.deep_view() =~= before.push(models[i as int]));
        }
        i += 1;
    }
    assert(models.take(models.len() as int) =~= models);
    kept
}

/// The tools of the apps server that are visible, belong to one of the
/// connectors, and that the policy enables.
pub fn filter_codex_apps_mcp_tools(
    mcp_tools: &Vec<ToolInfo>,
    verdicts: &Vec<ToolVerdict>,
    connectors: &Vec<AppInfo>,
    apps_server: &str,
) -> (kept: Vec<ToolInfo>)
    requires
        verdicts@.len() == mcp_tools@.len(),
    ensures
        kept.deep_view() == app_tools(
            mcp_tools.deep_view(),
            verdicts@,
            Some(connectors.deep_view()),
            apps_server@,
        ),
{
    let ghost models = mcp_tools.deep_view();
    let ghost apps = Some(connectors.deep_view());
    let mut kept: Vec<ToolInfo> = Vec::new();
    let mut i: usize = 0;
    assert(kept.deep_view() =~= Seq::<ToolInfoModel>::empty());
    while i < mcp_tools.len()
        invariant
            i <= mcp_tools@.len(),
            models == mcp_tools.deep_view(),
            apps == Some(connectors.deep_view()),
            verdicts@.len() == mcp_tools@.len(),
            kept.deep_view() == app_tools(models.take(i as int), verdicts@, apps, apps_server@),
        decreases mcp_tools@.len() - i,
    {
        let tool = &mcp_tools[i];
        let ghost before = kept.deep_view();
        assert(models.take(i + 1).drop_last() =~= models.take(i as int));
        assert(models[i as int] == tool.deep_view());
        if text::same_text(tool.server_name.as_str(), apps_server) && verdicts[i].model_visible
            && connector_is_listed(tool, Some(connectors)) && verdicts[i].policy_enabled {
            kept.push(tool.clone());
            assert(kept.deep_view() =~= before.push(models[i as int]));
        }
        i += 1;
    }
    assert(models.take(models.len() as int) =~= models);
    kept
}

/// Why each tool is exposed, or is not.
pub fn tool_exposure_decisions(
    all_mcp_tools: &Vec<ToolInfo>,
    verdicts: &Vec<ToolVerdict>,
    connectors: Option<&Vec<AppInfo>>,
    apps_server: &str,
) -> (decisions: Vec<ToolExposureDecision>)
    requires
        verdicts@.len() == all_mcp_tools@.len(),
    ensures
        decisions.deep_view() == exposure_decisions(
            all_mcp_tools.deep_view(),
            verdicts@,
            connectors.deep_view(),
            apps_server@,
        ),
{
    let ghost models = all_mcp_tools.deep_view();
    let mut decisions: Vec<ToolExposureDecision> = Vec::new();
    let mut i: usize = 0;
    while i < all_mcp_tools.len()
        invariant
            i <= all_mcp_tools@.len(),
            models == all_mcp_tools.deep_view(),
            verdicts@.len() == all_mcp_tools@.len(),
            decisions@.len() == i,
            forall|j: int|
                0 <= j < i ==> (#[trigger] decisions@[j]).deep_view() == exposure_decision(
                    models[j],
                    verdicts@[j],
                    connectors.deep_view(),
                    apps_server@,
                ),
        decreases all_mcp_tools@.len() - i,
    {
        let tool = &all_mcp_tools[i];
        assert(models[i as int] == tool.deep_view());
        let of_apps = text::same_text(tool.server_name.as_str(), apps_server);
        let model_visible = verdicts[i].model_visible;
        let connector_id_present = tool.connector_id.is_some();
        let connector_allowed = !of_apps || connector_is_listed(tool, connectors);
        let policy_enabled = !of_apps || (connector_id_present && verdicts[i].policy_enabled);
        decisions.push(
            ToolExposureDecision {
                identity: DiagnosticToolIdentity::from_tool_info(tool),
                included: model_visible && connector_allowed && policy_enabled,
                model_visible,
                connector_id_present,
                connector_allowed,
                policy_enabled,
            },
        );
        i += 1;
    }
    assert(decisions.deep_view() =~= exposure_decisions(
        models,
        verdicts@,
        connectors.deep_view(),
        apps_server@,
    ));
    decisions
}

/// Decides which tools are exposed and how.
pub fn build_mcp_tool_exposure(
    all_mcp_tools: &Vec<ToolInfo>,
    verdicts: &Vec<ToolVerdict>,
    connectors: Option<&Vec<AppInfo>>,
    apps_server: &str,
    search_tool_enabled: bool,
) -> (result: McpToolExposure)
    requires
        verdicts@.len() == all_mcp_tools@.len(),
    ensures
        result.deep_view() == exposure(
            all_mcp_tools.deep_view(),
            verdicts@,
            connectors.deep_view(),
            apps_server@,
            search_tool_enabled,
        ),
{
    let ghost models = all_mcp_tools.deep_view();
    let ghost exposed = exposed_tools(models, verdicts@, connectors.deep_view(), apps_server@);
    let mut tools = filter_non_codex_apps_mcp_tools_only(all_mcp_tools, verdicts, apps_server);
    match connectors {
        Some(apps) => {
            let ghost before = tools.deep_view();
            let mut more = filter_codex_apps_mcp_tools(all_mcp_tools, verdicts, apps, apps_server);
            let ghost added = more.deep_view();
            tools.append(&mut more);
            assert(tools.deep_view() =~= before + added);
        },
        None => {
            proof {
                lemma_no_app_tools(models, verdicts@, apps_server@);
                assert(tools.deep_view() =~= exposed);
            }
        },
    }
    let diagnostic_decisions = tool_exposure_decisions(
        all_mcp_tools,
        verdicts,
        connectors,
        apps_server,
    );
    if !search_tool_enabled {
        return McpToolExposure {
            direct_tools: tools,
            deferred_tools: None,
            diagnostic_decisions,
        };
    }
    let direct_tools: Vec<ToolInfo> = Vec::new();
    assert(direct_tools.deep_view() =~= Seq::<ToolInfoModel>::empty());
    let deferred_tools = if tools.len() > 0 {
        Some(tools)
    } else {
        None
    };
    McpToolExposure { direct_tools, deferred_tools, diagnostic_decisions }
}

proof fn lemma_no_app_tools(
    tools: Seq<ToolInfoModel>,
    verdicts: Seq<ToolVerdict>,
    apps_server: Seq<char>,
)
    ensures
        app_tools(tools, verdicts, None, apps_server) == Seq::<ToolInfoModel>::empty(),
    decreases tools.len(),
{
    if tools.len() > 0 {
        lemma_no_app_tools(tools.drop_last(), verdicts, apps_server);
    }
}

/// A tool is exposed exactly where the decision on it says so.
pub proof fn decisions_tell_what_is_exposed(
    tool: ToolInfoModel,
    verdict: ToolVerdict,
    connectors: Option<Seq<AppModel>>,
    apps_server: Seq<char>,
)
    ensures
        exposure_decision(tool, verdict, connectors, apps_server).included <==> (
        exposes_other_tool(tool, verdict, apps_server) || exposes_app_tool(
            tool,
            verdict,
            connectors,
            apps_server,
        )),
        !(exposes_other_tool(tool, verdict, apps_server) && exposes_app_tool(
            tool,
            verdict,
            connectors,
            apps_server,
        )),
{
}

/// The number of decisions that include their tool.
pub open spec fn included_count(decisions: Seq<DecisionModel>) -> nat
    decreases decisions.len(),
{
    if decisions.len() == 0 {
        0
    } else {
        included_count(decisions.drop_last()) + if decisions.last().included {
            1nat
        } else {
            0nat
        }
    }
}

/// As many tools are exposed as the decisions include.
pub proof fn as_many_are_exposed_as_included(
    tools: Seq<ToolInfoModel>,
    verdicts: Seq<ToolVerdict>,
    connectors: Option<Seq<AppModel>>,
    apps_server: Seq<char>,
)
    ensures
        exposed_tools(tools, verdicts, connectors, apps_server).len() == included_count(
            exposure_decisions(tools, verdicts, connectors, apps_server),
        ),
    decreases tools.len(),
{
    let decisions = exposure_decisions(tools, verdicts, connectors, apps_server);
    if tools.len() > 0 {
        let front = tools.drop_last();
        as_many_are_exposed_as_included(front, verdicts, connectors, apps_server);
        assert(decisions.drop_last() =~= exposure_decisions(
            front,
            verdicts,
            connectors,
            apps_server,
        ));
        decisions_tell_what_is_exposed(
            tools.last(),
            verdicts[tools.len() - 1],
            connectors,
            apps_server,
        );
    }
}

proof fn lemma_other_tools(
    tools: Seq<ToolInfoModel>,
    verdicts: Seq<ToolVerdict>,
    apps_server: Seq<char>,
    tool: ToolInfoModel,
)
    ensures
        other_tools(tools, verdicts, apps_server).contains(tool) <==> exists|i: int|
            0 <= i < tools.len() && #[trigger] tools[i] == tool && exposes_other_tool(
                tool,
                verdicts[i],
                apps_server,
            ),
    decreases tools.len(),
{
    if tools.len() > 0 {
        let front = tools.drop_last();
        let kept = other_tools(front, verdicts, apps_server);
        let all = other_tools(tools, verdicts, apps_server);
        lemma_other_tools(front, verdicts, apps_server, tool);
        if all.contains(tool) {
            let k = choose|k: int| 0 <= k < all.len() && all[k] == tool;
            if k < kept.len() {
                assert(kept[k] == tool);
                let i = choose|i: int|
                    0 <= i < front.len() && #[trigger] front[i] == tool && exposes_other_tool(
                        tool,
                        verdicts[i],
                        apps_server,
                    );
                assert(tools[i] == tool);
            } else {
                assert(tools[tools.len() - 1] == tool);
            }
        }
        if exists|i: int|
            0 <= i < tools.len() && #[trigger] tools[i] == tool && exposes_other_tool(
                tool,
                verdicts[i],
                apps_server,
            ) {
            let i = choose|i: int|
                0 <= i < tools.len() && #[trigger] tools[i] == tool && exposes_other_tool(
                    tool,
                    verdicts[i],
                    apps_server,
                );
            if i < front.len() {
                assert(front[i] == tool);
                let k = choose|k: int| 0 <= k < kept.len() && kept[k] == tool;
                assert(all[k] == tool);
            } else {
                assert(all[kept.len() as int] == tool);
            }
        }
    }
}

proof fn lemma_app_tools(
    tools: Seq<ToolInfoModel>,
    verdicts: Seq<ToolVerdict>,
    connectors: Option<Seq<AppModel>>,
    apps_server: Seq<char>,
    tool: ToolInfoModel,
)
    ensures
        app_tools(tools, verdicts, connectors, apps_server).contains(tool) <==> exists|i: int|
            0 <= i < tools.len() && #[trigger] tools[i] == tool && exposes_app_tool(
                tool,
                verdicts[i],
                connectors,
                apps_server,
            ),
    decreases tools.len(),
{
    if tools.len() > 0 {
        let front = tools.drop_last();
        let kept = app_tools(front, verdicts, connectors, apps_server);
        let all = app_tools(tools, verdicts, connectors, apps_server);
        lemma_app_tools(front, verdicts, connectors, apps_server, tool);
        if all.contains(tool) {
            let k = choose|k: int| 0 <= k < all.len() && all[k] == tool;
            if k < kept.len() {
                assert(kept[k] == tool);
                let i = choose|i: int|
                    0 <= i < front.len() && #[trigger] front[i] == tool && exposes_app_tool(
                        tool,
                        verdicts[i],
                        connectors,
                        apps_server,
                    );
                assert(tools[i] == tool);
            } else {
                assert(tools[tools.len() - 1] == tool);
            }
        }
        if exists|i: int|
            0 <= i < tools.len() && #[trigger] tools[i] == tool && exposes_app_tool(
                tool,
                verdicts[i],
                connectors,
                apps_server,
            ) {
            let i = choose|i: int|
                0 <= i < tools.len() && #[trigger] tools[i] == tool && exposes_app_tool(
                    tool,
                    verdicts[i],
                    connectors,
                    apps_server,
                );
            if i < front.len() {
                assert(front[i] == tool);
                let k = choose|k: int| 0 <= k < kept.len() && kept[k] == tool;
                assert(all[k] == tool);
            } else {
                assert(all[kept.len() as int] == tool);
            }
        }
    }
}

/// The exposed tools are exactly those whose decision includes them.
pub proof fn exposed_tools_are_the_included_ones(
    tools: Seq<ToolInfoModel>,
    verdicts: Seq<ToolVerdict>,
    connectors: Option<Seq<AppModel>>,
    apps_server: Seq<char>,
    tool: ToolInfoModel,
)
    ensures
        exposed_tools(tools, verdicts, connectors, apps_server).contains(tool) <==> exists|i: int|
            0 <= i < tools.len() && #[trigger] tools[i] == tool && exposure_decisions(
                tools,
                verdicts,
                connectors,
                apps_server,
            )[i].included,
{
    let others = other_tools(tools, verdicts, apps_server);
    let apps = app_tools(tools, verdicts, connectors, apps_server);
    let exposed = others + apps;
    let decisions = exposure_decisions(tools, verdicts, connectors, apps_server);
    lemma_other_tools(tools, verdicts, apps_server, tool);
    lemma_app_tools(tools, verdicts, connectors, apps_server, tool);
    assert(exposed.contains(tool) <==> others.contains(tool) || apps.contains(tool)) by {
        if exposed.contains(tool) {
            let k = choose|k: int| 0 <= k < exposed.len() && exposed[k] == tool;
            if k < others.len() {
                assert(others[k] == tool);
            } else {
                assert(apps[k - others.len()] == tool);
            }
        }
        if others.contains(tool) {
            let k = choose|k: int| 0 <= k < others.len() && others[k] == tool;
            assert(exposed[k] == tool);
        }
        if apps.contains(tool) {
            let k = choose|k: int| 0 <= k < apps.len() && apps[k] == tool;
            assert(exposed[others.len() + k] == tool);
        }
    }
    assert forall|i: int| 0 <= i < tools.len() && #[trigger] tools[i] == tool implies (
    decisions[i].included <==> exposes_other_tool(tool, verdicts[i], apps_server)
        || exposes_app_tool(tool, verdicts[i], connectors, apps_server)) by {
        decisions_tell_what_is_exposed(tools[i], verdicts[i], connectors, apps_server);
    }
}

/// The count that the diagnostics record of a list of decisions is the number of
/// decisions that include their tool.
pub proof fn recorded_count_is_the_included_count(decisions: Seq<DecisionModel>)
    ensures
        decisions.len() - tool_search_recorder::excluded_decisions(decisions).len()
            == included_count(decisions),
    decreases decisions.len(),
{
    if decisions.len() > 0 {
        recorded_count_is_the_included_count(decisions.drop_last());
    }
}

/// Without a list of connectors, and for connectors that are not listed, no tool
/// of the apps server is exposed.
pub proof fn unlisted_connectors_stay_hidden(
    tool: ToolInfoModel,
    verdict: ToolVerdict,
    connectors: Option<Seq<AppModel>>,
    apps_server: Seq<char>,
)
    requires
        tool.server_name == apps_server,
        !has_listed_connector(tool, connectors),
    ensures
        !exposure_decision(tool, verdict, connectors, apps_server).included,
{
}

}
