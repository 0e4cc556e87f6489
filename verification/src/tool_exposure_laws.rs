//! What holds of the exposure of tools as a whole.

use vstd::prelude::*;
use crate::app_info::AppModel;
use crate::tool_exposure::{self, ToolVerdict};
use crate::tool_info::ToolInfoModel;

verus! {

/// The positions ascend.
pub open spec fn ascend(at: Seq<int>) -> bool {
    forall|j: int, k: int| 0 <= j < k < at.len() ==> #[trigger] at[j] < #[trigger] at[k]
}

/// The connector of the tool is one of the list, at whatever position.
proof fn lemma_listed(tool: ToolInfoModel, apps: Seq<AppModel>)
    ensures
        tool_exposure::has_listed_connector(tool, Some(apps)) <==> exists|k: int|
            0 <= k < apps.len() && tool.connector_id == Some((#[trigger] apps[k]).id),
        !tool_exposure::has_listed_connector(tool, None),
{
    if tool_exposure::has_listed_connector(tool, Some(apps)) {
        let id = tool.connector_id->Some_0;
        let k = choose|k: int| 0 <= k < apps.len() && (#[trigger] apps[k]).id == id;
        assert(tool.connector_id == Some(apps[k].id));
    }
    if exists|k: int| 0 <= k < apps.len() && tool.connector_id == Some((#[trigger] apps[k]).id) {
        let k = choose|k: int|
            0 <= k < apps.len() && tool.connector_id == Some((#[trigger] apps[k]).id);
        assert(apps[k].id == tool.connector_id->Some_0);
    }
}

/// The kept tools of other servers are those that stand at certain ascending
/// positions, and these are the positions of all visible tools of another server.
pub proof fn other_tools_are_the_visible_ones_in_order(
    tools: Seq<ToolInfoModel>,
    verdicts: Seq<ToolVerdict>,
    apps_server: Seq<char>,
) -> (at: Seq<int>)
    ensures
        ascend(at),
        forall|i: int| #[trigger]
            at.contains(i) <==> 0 <= i < tools.len() && tools[i].server_name != apps_server
                && verdicts[i].model_visible,
        tool_exposure::other_tools(tools, verdicts, apps_server).len() == at.len(),
        forall|k: int|
            0 <= k < at.len() ==> (#[trigger] tool_exposure::other_tools(
                tools,
                verdicts,
                apps_server,
            )[k]) == tools[at[k]],
    decreases tools.len(),
{
    let kept = tool_exposure::other_tools(tools, verdicts, apps_server);
    if tools.len() == 0 {
        assert forall|i: int| #[trigger] Seq::<int>::empty().contains(i) <==> 0 <= i < tools.len()
            && tools[i].server_name != apps_server && verdicts[i].model_visible by {}
        Seq::empty()
    } else {
        let front = tools.drop_last();
        let last = tools.len() - 1;
        let fewer = other_tools_are_the_visible_ones_in_order(front, verdicts, apps_server);
        assert forall|k: int| 0 <= k < fewer.len() implies 0 <= #[trigger] fewer[k] < last by {
            assert(fewer.contains(fewer[k]));
        }
        if tools[last].server_name != apps_server && verdicts[last].model_visible {
            let at = fewer.push(last);
            assert forall|i: int| #[trigger] at.contains(i) <==> 0 <= i < tools.len()
                && tools[i].server_name != apps_server && verdicts[i].model_visible by {
                lemma_pushed(fewer, last, i);
                if 0 <= i < last {
                    assert(front[i] == tools[i]);
                    assert(fewer.contains(i) <==> front[i].server_name != apps_server
                        && verdicts[i].model_visible);
                }
            }
            assert forall|k: int| 0 <= k < at.len() implies #[trigger] kept[k] == tools[at[k]] by {
                if k < fewer.len() {
                    assert(at[k] == fewer[k]);
                }
            }
            at
        } else {
            assert forall|i: int| #[trigger] fewer.contains(i) <==> 0 <= i < tools.len()
                && tools[i].server_name != apps_server && verdicts[i].model_visible by {
                if 0 <= i < last {
                    assert(front[i] == tools[i]);
                }
            }
            fewer
        }
    }
}

proof fn lemma_pushed(at: Seq<int>, last: int, i: int)
    ensures
        at.push(last).contains(i) <==> at.contains(i) || i == last,
{
    let more = at.push(last);
    if at.contains(i) {
        let k = choose|k: int| 0 <= k < at.len() && at[k] == i;
        assert(more[k] == i);
    }
    if i == last {
        assert(more[at.len() as int] == i);
    }
}

/// The kept tools of the apps server are those that stand at certain ascending
/// positions, and these are the positions of all its tools that are visible, belong
/// to a connector of the list, whichever that is, and that the policy enables.
pub proof fn app_tools_are_the_allowed_ones_in_order(
    tools: Seq<ToolInfoModel>,
    verdicts: Seq<ToolVerdict>,
    apps: Seq<AppModel>,
    apps_server: Seq<char>,
) -> (at: Seq<int>)
    ensures
        ascend(at),
        forall|i: int| #[trigger]
            at.contains(i) <==> 0 <= i < tools.len() && tools[i].server_name == apps_server
                && verdicts[i].model_visible && verdicts[i].policy_enabled && exists|k: int|
                0 <= k < apps.len() && tools[i].connector_id == Some((#[trigger] apps[k]).id),
        tool_exposure::app_tools(tools, verdicts, Some(apps), apps_server).len() == at.len(),
        forall|k: int|
            0 <= k < at.len() ==> (#[trigger] tool_exposure::app_tools(
                tools,
                verdicts,
                Some(apps),
                apps_server,
            )[k]) == tools[at[k]],
    decreases tools.len(),
{
    let kept = tool_exposure::app_tools(tools, verdicts, Some(apps), apps_server);
    if tools.len() == 0 {
        Seq::empty()
    } else {
        let front = tools.drop_last();
        let last = tools.len() - 1;
        let fewer = app_tools_are_the_allowed_ones_in_order(front, verdicts, apps, apps_server);
        assert forall|k: int| 0 <= k < fewer.len() implies 0 <= #[trigger] fewer[k] < last by {
            assert(fewer.contains(fewer[k]));
        }
        lemma_listed(tools[last], apps);
        let listed = exists|k: int|
            0 <= k < apps.len() && tools[last].connector_id == Some((#[trigger] apps[k]).id);
        if tools[last].server_name == apps_server && verdicts[last].model_visible
            && verdicts[last].policy_enabled && listed {
            let at = fewer.push(last);
            assert forall|i: int| #[trigger] at.contains(i) <==> 0 <= i < tools.len()
                && tools[i].server_name == apps_server && verdicts[i].model_visible
                && verdicts[i].policy_enabled && exists|k: int|
                0 <= k < apps.len() && tools[i].connector_id == Some(
                    (#[trigger] apps[k]).id,
                ) by {
                lemma_pushed(fewer, last, i);
                if 0 <= i < last {
                    assert(front[i] == tools[i]);
                    assert(fewer.contains(i) || !fewer.contains(i));
                }
            }
            assert forall|k: int| 0 <= k < at.len() implies #[trigger] kept[k] == tools[at[k]] by {
                if k < fewer.len() {
                    assert(at[k] == fewer[k]);
                }
            }
            at
        } else {
            assert forall|i: int| #[trigger] fewer.contains(i) <==> 0 <= i < tools.len()
                && tools[i].server_name == apps_server && verdicts[i].model_visible
                && verdicts[i].policy_enabled && exists|k: int|
                0 <= k < apps.len() && tools[i].connector_id == Some(
                    (#[trigger] apps[k]).id,
                ) by {
                if 0 <= i < last {
                    assert(front[i] == tools[i]);
                }
            }
            fewer
        }
    }
}

/// The tools that the model gets are first the kept ones of other servers and then
/// the kept ones of the apps server, none of them where no connectors are known. With
/// the search tool they are all deferred, without it they are all direct.
pub proof fn kept_tools_are_all_exposed(
    tools: Seq<ToolInfoModel>,
    verdicts: Seq<ToolVerdict>,
    connectors: Option<Seq<AppModel>>,
    apps_server: Seq<char>,
)
    ensures
        ({
            let others = tool_exposure::other_tools(tools, verdicts, apps_server);
            let all = match connectors {
                Some(apps) => others + tool_exposure::app_tools(
                    tools,
                    verdicts,
                    Some(apps),
                    apps_server,
                ),
                None => others,
            };
            let direct = tool_exposure::exposure(tools, verdicts, connectors, apps_server, false);
            let deferred = tool_exposure::exposure(tools, verdicts, connectors, apps_server, true);
            &&& direct.direct_tools == all
            &&& direct.deferred_tools is None
            &&& deferred.direct_tools.len() == 0
            &&& all.len() == 0 ==> deferred.deferred_tools is None
            &&& all.len() > 0 ==> deferred.deferred_tools == Some(all)
            &&& deferred.diagnostic_decisions == direct.diagnostic_decisions
        }),
{
    if connectors is None {
        lemma_nothing_of_unknown_connectors(tools, verdicts, apps_server);
        let others = tool_exposure::other_tools(tools, verdicts, apps_server);
        assert(others + Seq::<ToolInfoModel>::empty() =~= others);
    }
}

proof fn lemma_nothing_of_unknown_connectors(
    tools: Seq<ToolInfoModel>,
    verdicts: Seq<ToolVerdict>,
    apps_server: Seq<char>,
)
    ensures
        tool_exposure::app_tools(tools, verdicts, None, apps_server) == Seq::<
            ToolInfoModel,
        >::empty(),
    decreases tools.len(),
{
    if tools.len() > 0 {
        lemma_nothing_of_unknown_connectors(tools.drop_last(), verdicts, apps_server);
    }
}

/// The decisions are one for each tool, in order, and tell what was found of it:
/// whether it is visible, whether it has a connector, whether that is one of the
/// list, at whatever position, and whether the policy enables it. The last two are
/// asked of tools of the apps server only. A tool is included where nothing speaks
/// against it.
pub proof fn decisions_tell_what_was_found(
    tools: Seq<ToolInfoModel>,
    verdicts: Seq<ToolVerdict>,
    connectors: Option<Seq<AppModel>>,
    apps_server: Seq<char>,
    search_tool_enabled: bool,
    i: int,
)
    requires
        0 <= i < tools.len(),
    ensures
        ({
            let decisions = tool_exposure::exposure(
                tools,
                verdicts,
                connectors,
                apps_server,
                search_tool_enabled,
            ).diagnostic_decisions;
            let tool = tools[i];
            let other = tool.server_name != apps_server;
            let listed = connectors matches Some(apps) && exists|k: int|
                0 <= k < apps.len() && tool.connector_id == Some((#[trigger] apps[k]).id);
            &&& decisions.len() == tools.len()
            &&& decisions == tool_exposure::exposure_decisions(
                tools,
                verdicts,
                connectors,
                apps_server,
            )
            &&& decisions[i].model_visible == verdicts[i].model_visible
            &&& decisions[i].connector_id_present == tool.connector_id is Some
            &&& decisions[i].connector_allowed == (other || listed)
            &&& decisions[i].policy_enabled == (other || tool.connector_id is Some
                && verdicts[i].policy_enabled)
            &&& decisions[i].included == (verdicts[i].model_visible && (other || listed
                && verdicts[i].policy_enabled))
        }),
{
    match connectors {
        Some(apps) => {
            lemma_listed(tools[i], apps);
        },
        None => {},
    }
}

/// A visible tool of the apps server whose connector stands at any position of the
/// list, and that the policy enables, is among the exposed tools, and its decision
/// includes it.
pub proof fn tools_of_every_listed_connector_are_exposed(
    tools: Seq<ToolInfoModel>,
    verdicts: Seq<ToolVerdict>,
    apps: Seq<AppModel>,
    apps_server: Seq<char>,
    i: int,
    k: int,
)
    requires
        0 <= i < tools.len(),
        0 <= k < apps.len(),
        tools[i].server_name == apps_server,
        tools[i].connector_id == Some(apps[k].id),
        verdicts[i].model_visible,
        verdicts[i].policy_enabled,
    ensures
        ({
            let direct = tool_exposure::exposure(tools, verdicts, Some(apps), apps_server, false);
            let deferred = tool_exposure::exposure(tools, verdicts, Some(apps), apps_server, true);
            &&& direct.direct_tools.contains(tools[i])
            &&& direct.diagnostic_decisions[i].included
            &&& deferred.deferred_tools matches Some(found) && found.contains(tools[i])
            &&& deferred.diagnostic_decisions[i].included
        }),
{
    let at = app_tools_are_the_allowed_ones_in_order(tools, verdicts, apps, apps_server);
    assert(at.contains(i));
    let n = choose|n: int| 0 <= n < at.len() && at[n] == i;
    let others = tool_exposure::other_tools(tools, verdicts, apps_server);
    let kept = tool_exposure::app_tools(tools, verdicts, Some(apps), apps_server);
    kept_tools_are_all_exposed(tools, verdicts, Some(apps), apps_server);
    assert(kept[n] == tools[i]);
    assert((others + kept)[others.len() + n] == tools[i]);
    decisions_tell_what_was_found(tools, verdicts, Some(apps), apps_server, false, i);
    decisions_tell_what_was_found(tools, verdicts, Some(apps), apps_server, true, i);
}

/// A visible tool of another server is among the exposed tools, whatever connectors
/// there are, and its decision includes it.
pub proof fn visible_tools_of_other_servers_are_exposed(
    tools: Seq<ToolInfoModel>,
    verdicts: Seq<ToolVerdict>,
    connectors: Option<Seq<AppModel>>,
    apps_server: Seq<char>,
    i: int,
)
    requires
        0 <= i < tools.len(),
        tools[i].server_name != apps_server,
        verdicts[i].model_visible,
    ensures
        ({
            let direct = tool_exposure::exposure(tools, verdicts, connectors, apps_server, false);
            let deferred = tool_exposure::exposure(tools, verdicts, connectors, apps_server, true);
            &&& direct.direct_tools.contains(tools[i])
            &&& direct.diagnostic_decisions[i].included
            &&& deferred.deferred_tools matches Some(found) && found.contains(tools[i])
            &&& deferred.diagnostic_decisions[i].included
        }),
{
    let at = other_tools_are_the_visible_ones_in_order(tools, verdicts, apps_server);
    assert(at.contains(i));
    let n = choose|n: int| 0 <= n < at.len() && at[n] == i;
    let others = tool_exposure::other_tools(tools, verdicts, apps_server);
    kept_tools_are_all_exposed(tools, verdicts, connectors, apps_server);
    assert(others[n] == tools[i]);
    let all = tool_exposure::exposure(tools, verdicts, connectors, apps_server, false).direct_tools;
    assert(all[n] == tools[i]);
    decisions_tell_what_was_found(tools, verdicts, connectors, apps_server, false, i);
    decisions_tell_what_was_found(tools, verdicts, connectors, apps_server, true, i);
}

/// The policy is asked about the tools of the apps server that have a connector, and
/// about no others. It is told the connector, and what the tool says of itself.
pub proof fn the_policy_is_told_what_the_tool_says(tool: ToolInfoModel, apps_server: Seq<char>)
    ensures
        ({
            let question = tool_exposure::policy_question(tool, apps_server);
            &&& question is Some <==> tool.server_name == apps_server && tool.connector_id is Some
            &&& question matches Some(input) ==> {
                &&& Some(input.connector_id) == tool.connector_id
                &&& input.tool_name == tool.tool.name
                &&& input.tool_title == tool.tool.title
                &&& tool.tool.annotations matches Some(notes) ==> input.destructive_hint
                    == notes.destructive_hint && input.open_world_hint == notes.open_world_hint
                &&& tool.tool.annotations is None ==> input.destructive_hint is None
                    && input.open_world_hint is None
            }
        }),
{
}

}
