//! What holds of the tool-search diagnostics over any run.

use vstd::prelude::*;
use crate::mcp_diagnostics::{
    self, IdentityModel, McpDiagnosticsModel, ToolSearchDiagnosticIdentity,
    ToolSearchToolsListSource, MAX_IDENTITY_CHARS, MAX_MCP_DIAGNOSTIC_IDENTITIES,
};
use crate::order::{self, Ranked};
use crate::text;
use crate::text_map;
use crate::tool_identity::{self, DiagnosticModel, DiagnosticToolIdentity, SearchInfoModel};
use crate::tool_info::{ToolAnnotations, ToolInfoModel, ToolModel};
use crate::tool_search_recorder::{
    self, DecisionModel, MetadataModel, RecorderModel, ResultModel, SearchModel, StageModel,
    MAX_EXCLUDED_IDENTITIES, MAX_QUERY_CHARS, MAX_SEARCHES, MAX_SEARCH_RESULTS, MAX_STAGE_CHANGES,
    MAX_STAGE_IDENTITIES,
};

verus! {

/// `s` was cut to `max` characters, with one more for the mark of the cut.
pub open spec fn is_cut(s: Seq<char>, max: nat) -> bool {
    s.len() <= max + 1
}

pub open spec fn optional_is_cut(s: Option<Seq<char>>, max: nat) -> bool {
    s matches Some(value) ==> is_cut(value, max)
}

/// Every text of the identity was cut to the limit, and at most four plugin
/// names are kept.
pub open spec fn is_compact(identity: DiagnosticModel) -> bool {
    &&& is_cut(identity.server_name, MAX_IDENTITY_CHARS as nat)
    &&& is_cut(identity.raw_tool_name, MAX_IDENTITY_CHARS as nat)
    &&& optional_is_cut(identity.tool_name, MAX_IDENTITY_CHARS as nat)
    &&& optional_is_cut(identity.connector_id, MAX_IDENTITY_CHARS as nat)
    &&& optional_is_cut(identity.connector_name, MAX_IDENTITY_CHARS as nat)
    &&& identity.plugin_display_names.len() <= 4
    &&& forall|i: int|
        0 <= i < identity.plugin_display_names.len() ==> is_cut(
            #[trigger] identity.plugin_display_names[i],
            MAX_IDENTITY_CHARS as nat,
        )
}

pub open spec fn all_compact(identities: Seq<DiagnosticModel>) -> bool {
    forall|i: int| 0 <= i < identities.len() ==> is_compact(#[trigger] identities[i])
}

pub open spec fn decisions_compact(decisions: Seq<DecisionModel>) -> bool {
    forall|i: int| 0 <= i < decisions.len() ==> is_compact((#[trigger] decisions[i]).identity)
}

pub open spec fn results_compact(results: Seq<ResultModel>) -> bool {
    forall|i: int| 0 <= i < results.len() ==> is_compact((#[trigger] results[i]).identity)
}

pub open spec fn stage_within_limits(stage: StageModel) -> bool {
    &&& stage.identities.len() <= MAX_STAGE_IDENTITIES
    &&& all_compact(stage.identities)
    &&& stage.added.len() <= MAX_STAGE_CHANGES
    &&& stage.removed.len() <= MAX_STAGE_CHANGES
    &&& stage.excluded.len() <= MAX_EXCLUDED_IDENTITIES
    &&& decisions_compact(stage.excluded)
}

pub open spec fn search_within_limits(search: SearchModel) -> bool {
    &&& is_cut(search.query, MAX_QUERY_CHARS as nat)
    &&& search.results.len() <= MAX_SEARCH_RESULTS
    &&& results_compact(search.results)
}

/// Every stage is bounded in its identities, changes and exclusions and stands
/// under its own name. The searches are bounded in number, and each in its query
/// and results. Every identity in the index is compact and stands under its own
/// tool name; how many there are is not bounded, nor is the number of servers that
/// a stage names as observed.
pub open spec fn within_limits(state: RecorderModel) -> bool {
    &&& state.stages.dom().finite()
    &&& forall|name: Seq<char>| #[trigger]
        state.stages.dom().contains(name) ==> stage_within_limits(state.stages[name])
            && state.stages[name].stage == name
    &&& forall|name: Seq<char>| #[trigger]
        state.identity_by_tool_name.dom().contains(name) ==> is_compact(
            state.identity_by_tool_name[name],
        ) && state.identity_by_tool_name[name].tool_name == Some(name)
    &&& state.searches.len() <= MAX_SEARCHES
    &&& forall|i: int|
        0 <= i < state.searches.len() ==> search_within_limits(#[trigger] state.searches[i])
}

/// A recorder that has seen nothing is within the limits.
pub proof fn empty_recorder_is_within_limits()
    ensures
        within_limits(tool_search_recorder::empty_recorder()),
{
}

/// Cutting a text leaves at most `max` characters and the mark.
pub proof fn cut_text_is_cut(s: Seq<char>, max: nat)
    ensures
        is_cut(text::bounded_text(s, max), max),
{
}

/// A text within the limit stays as it is.
pub proof fn short_text_is_not_cut(s: Seq<char>, max: nat)
    requires
        s.len() <= max,
    ensures
        text::bounded_text(s, max) == s,
{
}

/// Cutting a text a second time changes nothing.
pub proof fn cutting_is_idempotent(s: Seq<char>, max: nat)
    ensures
        text::bounded_text(text::bounded_text(s, max), max) == text::bounded_text(s, max),
{
    let once = text::bounded_text(s, max);
    if s.len() > max {
        assert(once.take(max as int) =~= s.take(max as int));
    }
}

/// Identities made of an MCP identity are compact, however long its texts are.
pub proof fn mcp_identities_are_compact(identity: IdentityModel)
    ensures
        is_compact(tool_identity::diagnostic_identity(identity)),
{
}

/// Identities made of a search entry are compact.
pub proof fn search_entries_are_compact(info: SearchInfoModel)
    ensures
        is_compact(tool_identity::search_info_identity(info)),
{
}

/// Completing a compact identity from the index keeps it compact.
pub proof fn enriching_keeps_compact(state: RecorderModel, identity: DiagnosticModel)
    requires
        within_limits(state),
        is_compact(identity),
    ensures
        is_compact(tool_search_recorder::enriched(state.identity_by_tool_name, identity)),
{
}

/// Completing an identity a second time changes nothing.
pub proof fn enriching_is_idempotent(state: RecorderModel, identity: DiagnosticModel)
    requires
        within_limits(state),
    ensures
        ({
            let once = tool_search_recorder::enriched(state.identity_by_tool_name, identity);
            tool_search_recorder::enriched(state.identity_by_tool_name, once) == once
        }),
{
}

proof fn lemma_listed_are_compact(identities: Seq<DiagnosticModel>)
    requires
        all_compact(identities),
    ensures
        all_compact(order::sorted_distinct::<DiagnosticToolIdentity>(identities)),
{
    order::every_sequence_has_a_listing::<DiagnosticToolIdentity>(identities);
    let listed = order::sorted_distinct::<DiagnosticToolIdentity>(identities);
    assert forall|i: int| 0 <= i < listed.len() implies is_compact(#[trigger] listed[i]) by {
        assert(listed.contains(listed[i]));
        assert(identities.contains(listed[i]));
        let k = choose|k: int| 0 <= k < identities.len() && identities[k] == listed[i];
        assert(is_compact(identities[k]));
    }
}

proof fn lemma_index_within_limits(
    index: Map<Seq<char>, DiagnosticModel>,
    identities: Seq<DiagnosticModel>,
)
    requires
        all_compact(identities),
        forall|name: Seq<char>| #[trigger]
            index.dom().contains(name) ==> is_compact(index[name]) && index[name].tool_name == Some(
                name,
            ),
    ensures
        ({
            let grown = tool_search_recorder::indexed(index, identities);
            forall|name: Seq<char>| #[trigger]
                grown.dom().contains(name) ==> is_compact(grown[name]) && grown[name].tool_name
                    == Some(name)
        }),
    decreases identities.len(),
{
    if identities.len() > 0 {
        let front = identities.drop_last();
        assert forall|i: int| 0 <= i < front.len() implies is_compact(#[trigger] front[i]) by {
            assert(is_compact(identities[i]));
        }
        lemma_index_within_limits(index, front);
        assert(is_compact(identities[identities.len() - 1]));
    }
}

/// Recording a stage keeps the limits.
pub proof fn recording_a_stage_keeps_limits(
    state: RecorderModel,
    stage: Seq<char>,
    generation: Seq<char>,
    identities: Seq<DiagnosticModel>,
    metadata: MetadataModel,
    excluded: Seq<DecisionModel>,
)
    requires
        within_limits(state),
        all_compact(identities),
        decisions_compact(excluded),
    ensures
        within_limits(
            tool_search_recorder::stage_recorded(
                state,
                stage,
                generation,
                identities,
                metadata,
                excluded,
            ),
        ),
{
    lemma_listed_are_compact(identities);
    let listed = order::sorted_distinct::<DiagnosticToolIdentity>(identities);
    let kept = tool_search_recorder::first(listed, MAX_STAGE_IDENTITIES as nat);
    assert(all_compact(kept)) by {
        assert forall|i: int| 0 <= i < kept.len() implies is_compact(#[trigger] kept[i]) by {
            assert(kept[i] == listed[i]);
        }
    }
    let left_out = tool_search_recorder::first(excluded, MAX_EXCLUDED_IDENTITIES as nat);
    assert(decisions_compact(left_out)) by {
        assert forall|i: int| 0 <= i < left_out.len() implies is_compact(
            (#[trigger] left_out[i]).identity,
        ) by {
            assert(left_out[i] == excluded[i]);
        }
    }
    lemma_index_within_limits(state.identity_by_tool_name, kept);
    let next = tool_search_recorder::stage_recorded(
        state,
        stage,
        generation,
        identities,
        metadata,
        excluded,
    );
    assert forall|name: Seq<char>| #[trigger] next.stages.dom().contains(name) implies
        stage_within_limits(next.stages[name]) && next.stages[name].stage == name by {
        if name != stage {
            assert(state.stages.dom().contains(name));
        }
    }
}

proof fn lemma_raw_identities_are_compact(responses: Seq<mcp_diagnostics::ResponseModel>)
    ensures
        all_compact(tool_search_recorder::raw_identities(responses)),
    decreases responses.len(),
{
    if responses.len() > 0 {
        lemma_raw_identities_are_compact(responses.drop_last());
        let all = tool_search_recorder::raw_identities(responses);
        let front = tool_search_recorder::raw_identities(responses.drop_last());
        let last = responses.last().identities;
        assert forall|i: int| 0 <= i < all.len() implies is_compact(#[trigger] all[i]) by {
            if i < front.len() {
                assert(all[i] == front[i]);
            } else {
                mcp_identities_are_compact(last[i - front.len()]);
            }
        }
    }
}

/// Recording an MCP snapshot keeps the limits, whatever the servers returned.
pub proof fn recording_an_mcp_snapshot_keeps_limits(
    state: RecorderModel,
    mcp: McpDiagnosticsModel,
    inventory: Seq<ToolInfoModel>,
)
    requires
        within_limits(state),
    ensures
        within_limits(tool_search_recorder::mcp_recorded(state, mcp, inventory)),
{
    let responses = mcp.tools_list_responses;
    let identities = tool_search_recorder::inventory_identities(inventory);
    let generation = tool_search_recorder::identities_fingerprint(identities);
    lemma_raw_identities_are_compact(responses);
    assert(all_compact(identities)) by {
        assert forall|i: int| 0 <= i < identities.len() implies is_compact(
            #[trigger] identities[i],
        ) by {
            mcp_identities_are_compact(mcp_diagnostics::tool_identity(inventory[i]));
        }
    }
    let counted = MetadataModel {
        server_count: Some(mcp.server_count),
        cached_server_count: Some(mcp.cached_server_count),
        startup_complete_server_count: Some(mcp.startup_complete_server_count),
        ..tool_search_recorder::no_metadata()
    };
    let seen = MetadataModel {
        observation_sources: tool_search_recorder::observations(responses),
        total_count_override: Some(tool_search_recorder::raw_total(responses) as usize),
        upstream_identities_truncated: tool_search_recorder::any_truncated(responses),
        fingerprint_override: Some(
            crate::digest::fingerprint_text(tool_search_recorder::response_bytes(responses)),
        ),
        ..counted
    };
    let started = RecorderModel {
        inventory_generation: generation,
        identity_by_tool_name: Map::empty(),
        ..state
    };
    assert(within_limits(started));
    let raw = tool_search_recorder::raw_identities(responses);
    recording_a_stage_keeps_limits(
        started,
        "mcp_tools_list_response"@,
        generation,
        raw,
        seen,
        Seq::empty(),
    );
    let observed = tool_search_recorder::stage_recorded(
        started,
        "mcp_tools_list_response"@,
        generation,
        raw,
        seen,
        Seq::empty(),
    );
    recording_a_stage_keeps_limits(
        observed,
        "mcp_inventory_snapshot"@,
        generation,
        identities,
        counted,
        Seq::empty(),
    );
}

proof fn lemma_excluded_are_compact(decisions: Seq<DecisionModel>)
    requires
        decisions_compact(decisions),
    ensures
        decisions_compact(tool_search_recorder::excluded_decisions(decisions)),
    decreases decisions.len(),
{
    if decisions.len() > 0 {
        let front = decisions.drop_last();
        assert forall|i: int| 0 <= i < front.len() implies is_compact(
            (#[trigger] front[i]).identity,
        ) by {
            assert(front[i] == decisions[i]);
        }
        lemma_excluded_are_compact(front);
        assert(is_compact(decisions[decisions.len() - 1].identity));
    }
}

/// Recording exposure decisions keeps the limits.
pub proof fn recording_exposure_keeps_limits(
    state: RecorderModel,
    decisions: Seq<DecisionModel>,
    search_tool_enabled: bool,
)
    requires
        within_limits(state),
        decisions_compact(decisions),
    ensures
        within_limits(
            tool_search_recorder::exposure_recorded(state, decisions, search_tool_enabled),
        ),
{
    lemma_excluded_are_compact(decisions);
    let excluded = tool_search_recorder::excluded_decisions(decisions);
    let identities = tool_search_recorder::decided_identities(decisions);
    assert forall|i: int| 0 <= i < identities.len() implies is_compact(#[trigger] identities[i]) by {
        assert(is_compact(decisions[i].identity));
    }
    recording_a_stage_keeps_limits(
        state,
        "mcp_exposure_filter"@,
        state.inventory_generation,
        identities,
        MetadataModel {
            included_count: Some((decisions.len() - excluded.len()) as usize),
            search_tool_enabled: Some(search_tool_enabled),
            ..tool_search_recorder::no_metadata()
        },
        excluded,
    );
}

/// Recording search entries keeps the limits.
pub proof fn recording_search_entries_keeps_limits(
    state: RecorderModel,
    stage: Seq<char>,
    infos: Seq<SearchInfoModel>,
    cache_state: Seq<char>,
)
    requires
        within_limits(state),
    ensures
        within_limits(
            tool_search_recorder::search_infos_recorded(state, stage, infos, cache_state),
        ),
{
    let identities = Seq::new(
        infos.len(),
        |i: int|
            tool_search_recorder::enriched(
                state.identity_by_tool_name,
                tool_identity::search_info_identity(infos[i]),
            ),
    );
    assert forall|i: int| 0 <= i < identities.len() implies is_compact(#[trigger] identities[i]) by {
        search_entries_are_compact(infos[i]);
        enriching_keeps_compact(state, tool_identity::search_info_identity(infos[i]));
    }
    recording_a_stage_keeps_limits(
        state,
        stage,
        state.inventory_generation,
        identities,
        MetadataModel { cache_state: Some(cache_state), ..tool_search_recorder::no_metadata() },
        Seq::empty(),
    );
}

/// Recording a search keeps the limits, and keeps it as the latest search.
pub proof fn recording_a_search_keeps_limits(
    state: RecorderModel,
    query: Seq<char>,
    requested_limit: usize,
    returned_count: usize,
    results: Seq<ResultModel>,
)
    requires
        within_limits(state),
        results_compact(results),
    ensures
        ({
            let next = tool_search_recorder::search_recorded(
                state,
                query,
                requested_limit,
                returned_count,
                results,
            );
            &&& within_limits(next)
            &&& next.searches.last() == tool_search_recorder::search_snapshot(
                state,
                query,
                requested_limit,
                returned_count,
                results,
            )
            &&& next.stages == state.stages
            &&& next.identity_by_tool_name == state.identity_by_tool_name
        }),
{
    let snapshot = tool_search_recorder::search_snapshot(
        state,
        query,
        requested_limit,
        returned_count,
        results,
    );
    cut_text_is_cut(query, MAX_QUERY_CHARS as nat);
    assert forall|i: int| 0 <= i < snapshot.results.len() implies is_compact(
        (#[trigger] snapshot.results[i]).identity,
    ) by {
        assert(is_compact(results[i].identity));
        enriching_keeps_compact(state, results[i].identity);
    }
    assert(search_within_limits(snapshot));
    let next = tool_search_recorder::search_recorded(
        state,
        query,
        requested_limit,
        returned_count,
        results,
    );
    let grown = state.searches.push(snapshot);
    assert forall|i: int| 0 <= i < next.searches.len() implies search_within_limits(
        #[trigger] next.searches[i],
    ) by {
        let shift = grown.len() - next.searches.len();
        assert(next.searches[i] == grown[i + shift]);
        if i + shift < state.searches.len() {
            assert(search_within_limits(state.searches[i + shift]));
        }
    }
}

/// One recording.
pub enum RecorderStep {
    McpSnapshot { mcp: McpDiagnosticsModel, inventory: Seq<ToolInfoModel> },
    Exposure { decisions: Seq<DecisionModel>, search_tool_enabled: bool },
    Deferred { infos: Seq<SearchInfoModel>, cache_state: Seq<char> },
    Indexed { infos: Seq<SearchInfoModel>, cache_state: Seq<char> },
    Search {
        query: Seq<char>,
        requested_limit: usize,
        returned_count: usize,
        results: Seq<ResultModel>,
    },
}

pub open spec fn after_step(state: RecorderModel, step: RecorderStep) -> RecorderModel {
    match step {
        RecorderStep::McpSnapshot { mcp, inventory } => tool_search_recorder::mcp_recorded(
            state,
            mcp,
            inventory,
        ),
        RecorderStep::Exposure { decisions, search_tool_enabled } => {
            tool_search_recorder::exposure_recorded(state, decisions, search_tool_enabled)
        },
        RecorderStep::Deferred { infos, cache_state } => {
            tool_search_recorder::search_infos_recorded(
                state,
                "deferred_tool_search_info"@,
                infos,
                cache_state,
            )
        },
        RecorderStep::Indexed { infos, cache_state } => {
            tool_search_recorder::search_infos_recorded(
                state,
                "bm25_index_cache"@,
                infos,
                cache_state,
            )
        },
        RecorderStep::Search { query, requested_limit, returned_count, results } => {
            tool_search_recorder::search_recorded(
                state,
                query,
                requested_limit,
                returned_count,
                results,
            )
        },
    }
}

/// The identities that are handed to the recorder as such are compact, as those
/// made of a tool or a search entry are.
pub open spec fn brings_compact_identities(step: RecorderStep) -> bool {
    match step {
        RecorderStep::Exposure { decisions, .. } => decisions_compact(decisions),
        RecorderStep::Search { results, .. } => results_compact(results),
        _ => true,
    }
}

/// The recorder after `steps`.
pub open spec fn recorder_run(state: RecorderModel, steps: Seq<RecorderStep>) -> RecorderModel
    decreases steps.len(),
{
    if steps.len() == 0 {
        state
    } else {
        after_step(recorder_run(state, steps.drop_last()), steps.last())
    }
}

/// However much is recorded, the recorder stays within its limits.
pub proof fn recorders_stay_within_limits(steps: Seq<RecorderStep>)
    requires
        forall|i: int| 0 <= i < steps.len() ==> brings_compact_identities(#[trigger] steps[i]),
    ensures
        within_limits(recorder_run(tool_search_recorder::empty_recorder(), steps)),
    decreases steps.len(),
{
    let empty = tool_search_recorder::empty_recorder();
    if steps.len() == 0 {
        empty_recorder_is_within_limits();
    } else {
        let front = steps.drop_last();
        assert forall|i: int| 0 <= i < front.len() implies brings_compact_identities(
            #[trigger] front[i],
        ) by {
            assert(front[i] == steps[i]);
        }
        recorders_stay_within_limits(front);
        let state = recorder_run(empty, front);
        let last = steps[steps.len() - 1];
        assert(brings_compact_identities(last));
        match last {
            RecorderStep::McpSnapshot { mcp, inventory } => {
                recording_an_mcp_snapshot_keeps_limits(state, mcp, inventory);
            },
            RecorderStep::Exposure { decisions, search_tool_enabled } => {
                recording_exposure_keeps_limits(state, decisions, search_tool_enabled);
            },
            RecorderStep::Deferred { infos, cache_state } => {
                recording_search_entries_keeps_limits(
                    state,
                    "deferred_tool_search_info"@,
                    infos,
                    cache_state,
                );
            },
            RecorderStep::Indexed { infos, cache_state } => {
                recording_search_entries_keeps_limits(
                    state,
                    "bm25_index_cache"@,
                    infos,
                    cache_state,
                );
            },
            RecorderStep::Search { query, requested_limit, returned_count, results } => {
                recording_a_search_keeps_limits(
                    state,
                    query,
                    requested_limit,
                    returned_count,
                    results,
                );
            },
        }
    }
}

/// The stages of the tool-search pipeline.
pub open spec fn pipeline_stages() -> Seq<Seq<char>> {
    seq![
        "bm25_index_cache"@,
        "deferred_tool_search_info"@,
        "mcp_exposure_filter"@,
        "mcp_inventory_snapshot"@,
        "mcp_tools_list_response"@,
    ]
}

proof fn lemma_few_names(names: Set<Seq<char>>)
    requires
        forall|name: Seq<char>| #[trigger] names.contains(name) ==> pipeline_stages().contains(name),
    ensures
        names.finite(),
        names.len() <= 5,
{
    let all = pipeline_stages().to_set();
    vstd::seq_lib::seq_to_set_is_finite(pipeline_stages());
    pipeline_stages().lemma_cardinality_of_set();
    assert(names.subset_of(all)) by {
        assert forall|name: Seq<char>| #[trigger] names.contains(name) implies all.contains(
            name,
        ) by {}
    }
    vstd::set_lib::lemma_len_subset(names, all);
}

/// However much is recorded, there are no stages but the five of the pipeline.
pub proof fn recorded_stages_are_those_of_the_pipeline(steps: Seq<RecorderStep>)
    ensures
        ({
            let end = recorder_run(tool_search_recorder::empty_recorder(), steps);
            &&& forall|name: Seq<char>| #[trigger]
                end.stages.dom().contains(name) ==> pipeline_stages().contains(name)
            &&& end.stages.dom().len() <= 5
        }),
    decreases steps.len(),
{
    let empty = tool_search_recorder::empty_recorder();
    let end = recorder_run(empty, steps);
    let stages = pipeline_stages();
    if steps.len() > 0 {
        recorded_stages_are_those_of_the_pipeline(steps.drop_last());
        assert(stages[0] == "bm25_index_cache"@);
        assert(stages[1] == "deferred_tool_search_info"@);
        assert(stages[2] == "mcp_exposure_filter"@);
        assert(stages[3] == "mcp_inventory_snapshot"@);
        assert(stages[4] == "mcp_tools_list_response"@);
    }
    lemma_few_names(end.stages.dom());
}

/// What a stage records depends on which identities it is given: neither on
/// their order nor on repetitions.
pub proof fn recording_a_stage_ignores_order(
    state: RecorderModel,
    stage: Seq<char>,
    generation: Seq<char>,
    identities: Seq<DiagnosticModel>,
    others: Seq<DiagnosticModel>,
    metadata: MetadataModel,
    excluded: Seq<DecisionModel>,
)
    requires
        forall|x: DiagnosticModel| #[trigger] identities.contains(x) <==> others.contains(x),
    ensures
        tool_search_recorder::stage_recorded(
            state,
            stage,
            generation,
            identities,
            metadata,
            excluded,
        ) == tool_search_recorder::stage_recorded(
            state,
            stage,
            generation,
            others,
            metadata,
            excluded,
        ),
{
    order::listing_ignores_order::<DiagnosticToolIdentity>(identities, others);
}

/// Recording the same stage again changes nothing: the identities that came and
/// went with the first recording stay on record.
pub proof fn recording_a_stage_again_changes_nothing(
    state: RecorderModel,
    stage: Seq<char>,
    generation: Seq<char>,
    identities: Seq<DiagnosticModel>,
    metadata: MetadataModel,
    excluded: Seq<DecisionModel>,
)
    ensures
        ({
            let once = tool_search_recorder::stage_recorded(
                state,
                stage,
                generation,
                identities,
                metadata,
                excluded,
            );
            tool_search_recorder::stage_recorded(
                once,
                stage,
                generation,
                identities,
                metadata,
                excluded,
            ) == once
        }),
{
    let once = tool_search_recorder::stage_recorded(
        state,
        stage,
        generation,
        identities,
        metadata,
        excluded,
    );
    assert(once.stages.insert(stage, once.stages[stage]) =~= once.stages);
}

/// Recording a stage leaves the other stages and the searches as they are.
pub proof fn recording_a_stage_leaves_the_rest(
    state: RecorderModel,
    stage: Seq<char>,
    generation: Seq<char>,
    identities: Seq<DiagnosticModel>,
    metadata: MetadataModel,
    excluded: Seq<DecisionModel>,
)
    ensures
        ({
            let next = tool_search_recorder::stage_recorded(
                state,
                stage,
                generation,
                identities,
                metadata,
                excluded,
            );
            &&& next.searches == state.searches
            &&& next.inventory_generation == state.inventory_generation
            &&& next.stages.dom() == state.stages.dom().insert(stage)
            &&& forall|name: Seq<char>| #[trigger]
                state.stages.dom().contains(name) && name != stage ==> next.stages[name]
                    == state.stages[name]
        }),
{
}

proof fn lemma_without(keys: Seq<Seq<char>>, others: Seq<Seq<char>>, key: Seq<char>)
    ensures
        tool_search_recorder::without(keys, others).contains(key) <==> keys.contains(key)
            && !others.contains(key),
    decreases keys.len(),
{
    if keys.len() > 0 {
        let front = keys.drop_last();
        let rest = tool_search_recorder::without(front, others);
        let all = tool_search_recorder::without(keys, others);
        lemma_without(front, others, key);
        assert(keys.contains(key) <==> front.contains(key) || key == keys.last()) by {
            if keys.contains(key) {
                let k = choose|k: int| 0 <= k < keys.len() && keys[k] == key;
                if k < front.len() {
                    assert(front[k] == key);
                }
            }
            if front.contains(key) {
                let k = choose|k: int| 0 <= k < front.len() && front[k] == key;
                assert(keys[k] == key);
            }
            if key == keys.last() {
                assert(keys[keys.len() - 1] == key);
            }
        }
        if !others.contains(keys.last()) {
            assert(all == rest.push(keys.last()));
            assert(all.contains(key) <==> rest.contains(key) || key == keys.last()) by {
                if all.contains(key) {
                    let k = choose|k: int| 0 <= k < all.len() && all[k] == key;
                    if k < rest.len() {
                        assert(rest[k] == key);
                    }
                }
                if rest.contains(key) {
                    let k = choose|k: int| 0 <= k < rest.len() && rest[k] == key;
                    assert(all[k] == key);
                }
                if key == keys.last() {
                    assert(all[rest.len() as int] == key);
                }
            }
        }
    }
}

/// A change list holds, each once and in order, exactly the keys on one side
/// that are missing on the other.
pub proof fn changes_are_the_difference(keys: Seq<Seq<char>>, others: Seq<Seq<char>>)
    ensures
        order::strictly_sorted::<String>(tool_search_recorder::new_keys(keys, others)),
        forall|key: Seq<char>| #[trigger]
            tool_search_recorder::new_keys(keys, others).contains(key) <==> keys.contains(key)
                && !others.contains(key),
{
    let fresh = tool_search_recorder::without(keys, others);
    order::every_sequence_has_a_listing::<String>(fresh);
    assert forall|key: Seq<char>| #[trigger]
        tool_search_recorder::new_keys(keys, others).contains(key) <==> keys.contains(key)
            && !others.contains(key) by {
        lemma_without(keys, others, key);
    }
}

/// The number of keys on one side that are missing on the other is the length of
/// the change list.
proof fn lemma_changes_count(keys: Seq<Seq<char>>, others: Seq<Seq<char>>)
    ensures
        tool_search_recorder::new_keys(keys, others).no_duplicates(),
        keys.to_set().difference(others.to_set()).len() == tool_search_recorder::new_keys(
            keys,
            others,
        ).len(),
{
    let fresh = tool_search_recorder::new_keys(keys, others);
    changes_are_the_difference(keys, others);
    assert forall|i: int, j: int| 0 <= i < fresh.len() && 0 <= j < fresh.len() && i != j implies
        fresh[i] != fresh[j] by {
        order::rank_lt_irreflexive(String::rank(fresh[i]));
        if i < j {
            assert(order::precedes::<String>(fresh[i], fresh[j]));
        } else {
            assert(order::precedes::<String>(fresh[j], fresh[i]));
        }
    }
    fresh.unique_seq_to_set();
    assert(keys.to_set().difference(others.to_set()) =~= fresh.to_set()) by {
        assert forall|key: Seq<char>|
            #![trigger fresh.to_set().contains(key)]
            keys.to_set().difference(others.to_set()).contains(key) <==> fresh.to_set().contains(
                key,
            ) by {
            assert(fresh.contains(key) <==> keys.contains(key) && !others.contains(key));
        }
    }
}

/// A stage that is new, or whose fingerprint changed, records which keys came and
/// which went against the identities that it held before: each list is sorted,
/// without repetitions, cut to the limit, and the two have no key in common. It
/// says so where either was cut, or the identities were cut before.
pub proof fn stages_record_what_came_and_went(
    state: RecorderModel,
    stage: Seq<char>,
    generation: Seq<char>,
    identities: Seq<DiagnosticModel>,
    metadata: MetadataModel,
    excluded: Seq<DecisionModel>,
)
    requires
        !state.stages.dom().contains(stage) || state.stages[stage].fingerprint
            != tool_search_recorder::stage_fingerprint(
            order::sorted_distinct::<DiagnosticToolIdentity>(identities),
            metadata,
        ),
    ensures
        ({
            let held = tool_search_recorder::retained_before(state, stage);
            let given = tool_search_recorder::keys_of(
                tool_search_recorder::first(
                    order::sorted_distinct::<DiagnosticToolIdentity>(identities),
                    MAX_STAGE_IDENTITIES as nat,
                ),
            );
            let came = given.to_set().difference(held.to_set());
            let went = held.to_set().difference(given.to_set());
            let snapshot = tool_search_recorder::stage_recorded(
                state,
                stage,
                generation,
                identities,
                metadata,
                excluded,
            ).stages[stage];
            &&& snapshot.added == tool_search_recorder::first(
                tool_search_recorder::new_keys(given, held),
                MAX_STAGE_CHANGES as nat,
            )
            &&& snapshot.removed == tool_search_recorder::first(
                tool_search_recorder::new_keys(held, given),
                MAX_STAGE_CHANGES as nat,
            )
            &&& order::is_listing_of::<String>(
                tool_search_recorder::new_keys(given, held),
                tool_search_recorder::without(given, held),
            )
            &&& order::is_listing_of::<String>(
                tool_search_recorder::new_keys(held, given),
                tool_search_recorder::without(held, given),
            )
            &&& forall|key: Seq<char>| #[trigger]
                tool_search_recorder::new_keys(given, held).contains(key) <==> came.contains(key)
            &&& forall|key: Seq<char>| #[trigger]
                tool_search_recorder::new_keys(held, given).contains(key) <==> went.contains(key)
            &&& snapshot.changes_truncated <==> metadata.upstream_identities_truncated
                || came.len() > MAX_STAGE_CHANGES || went.len() > MAX_STAGE_CHANGES
            &&& order::strictly_sorted::<String>(snapshot.added)
            &&& order::strictly_sorted::<String>(snapshot.removed)
            &&& snapshot.added.no_duplicates()
            &&& snapshot.removed.no_duplicates()
            &&& forall|key: Seq<char>| #[trigger]
                snapshot.added.contains(key) ==> !snapshot.removed.contains(key)
        }),
{
    let held = tool_search_recorder::retained_before(state, stage);
    let listed = order::sorted_distinct::<DiagnosticToolIdentity>(identities);
    let given = tool_search_recorder::keys_of(
        tool_search_recorder::first(listed, MAX_STAGE_IDENTITIES as nat),
    );
    let came = tool_search_recorder::new_keys(given, held);
    let went = tool_search_recorder::new_keys(held, given);
    order::every_sequence_has_a_listing::<String>(tool_search_recorder::without(given, held));
    order::every_sequence_has_a_listing::<String>(tool_search_recorder::without(held, given));
    changes_are_the_difference(given, held);
    changes_are_the_difference(held, given);
    lemma_changes_count(given, held);
    lemma_changes_count(held, given);
    let added = tool_search_recorder::first(came, MAX_STAGE_CHANGES as nat);
    let removed = tool_search_recorder::first(went, MAX_STAGE_CHANGES as nat);
    lemma_first_of_sorted(came, MAX_STAGE_CHANGES as nat);
    lemma_first_of_sorted(went, MAX_STAGE_CHANGES as nat);
    assert forall|key: Seq<char>| #[trigger] added.contains(key) implies !removed.contains(key) by {
        assert(came.contains(key));
        if removed.contains(key) {
            assert(went.contains(key));
        }
    }
}

proof fn lemma_first_of_sorted(s: Seq<Seq<char>>, max: nat)
    requires
        order::strictly_sorted::<String>(s),
        s.no_duplicates(),
    ensures
        order::strictly_sorted::<String>(tool_search_recorder::first(s, max)),
        tool_search_recorder::first(s, max).no_duplicates(),
        forall|key: Seq<char>| #[trigger]
            tool_search_recorder::first(s, max).contains(key) ==> s.contains(key),
{
    let cut = tool_search_recorder::first(s, max);
    assert forall|i: int, j: int| 0 <= i < j < cut.len() implies #[trigger] order::precedes::<
        String,
    >(cut[i], cut[j]) by {
        assert(order::precedes::<String>(s[i], s[j]));
    }
    assert forall|key: Seq<char>| #[trigger] cut.contains(key) implies s.contains(key) by {
        let k = choose|k: int| 0 <= k < cut.len() && cut[k] == key;
        assert(s[k] == key);
    }
}

/// A report is made exactly where something was recorded. It lists the stages
/// in the order of their names, and all of it is within the limits that it
/// states.
pub proof fn feedback_is_within_its_limits(
    state: RecorderModel,
    thread_id: Seq<char>,
    session_id: Seq<char>,
)
    requires
        within_limits(state),
    ensures
        tool_search_recorder::feedback(state, thread_id, session_id) is None <==> (
        state.stages.dom() == Set::<Seq<char>>::empty() && state.searches.len() == 0),
        tool_search_recorder::feedback(state, thread_id, session_id) matches Some(report) ==> {
            &&& report.limits == tool_search_recorder::feedback_limits()
            &&& report.searches.len() <= report.limits.max_searches
            &&& forall|i: int|
                0 <= i < report.searches.len() ==> search_within_limits(
                    #[trigger] report.searches[i],
                )
            &&& forall|i: int|
                0 <= i < report.stages.len() ==> stage_within_limits(#[trigger] report.stages[i])
            &&& forall|i: int, j: int|
                0 <= i < j < report.stages.len() ==> order::precedes::<String>(
                    (#[trigger] report.stages[i]).stage,
                    (#[trigger] report.stages[j]).stage,
                )
        },
{
    let names = text_map::ordered_keys(state.stages);
    text_map::finite_maps_have_a_key_listing(state.stages);
    if names.len() == 0 {
        assert(state.stages.dom() =~= Set::<Seq<char>>::empty()) by {
            assert forall|name: Seq<char>| !state.stages.dom().contains(name) by {
                assert(!names.contains(name));
            }
        }
    } else {
        assert(names.contains(names[0]));
    }
    let listed = Seq::new(names.len(), |i: int| state.stages[names[i]]);
    assert forall|i: int| 0 <= i < listed.len() implies stage_within_limits(#[trigger] listed[i])
        && listed[i].stage == names[i] by {
        assert(names.contains(names[i]));
    }
    assert forall|i: int, j: int| 0 <= i < j < listed.len() implies order::precedes::<String>(
        (#[trigger] listed[i]).stage,
        (#[trigger] listed[j]).stage,
    ) by {
        assert(order::precedes::<String>(names[i], names[j]));
    }
}

/// The snapshot of a `tools/list` response depends on which identities it is made
/// of: neither on their order nor on repetitions.
pub proof fn response_snapshots_ignore_order(
    server_name: Seq<char>,
    source: ToolSearchToolsListSource,
    identities: Seq<IdentityModel>,
    others: Seq<IdentityModel>,
)
    requires
        forall|x: IdentityModel| #[trigger] identities.contains(x) <==> others.contains(x),
    ensures
        mcp_diagnostics::response_snapshot(server_name, source, identities)
            == mcp_diagnostics::response_snapshot(server_name, source, others),
{
    order::listing_ignores_order::<ToolSearchDiagnosticIdentity>(identities, others);
}

/// The snapshot of a `tools/list` response is bounded, and says so where it left
/// identities out.
pub proof fn response_snapshots_are_bounded(
    server_name: Seq<char>,
    source: ToolSearchToolsListSource,
    identities: Seq<IdentityModel>,
)
    requires
        identities.len() <= usize::MAX,
    ensures
        ({
            let snapshot = mcp_diagnostics::response_snapshot(server_name, source, identities);
            &&& is_cut(snapshot.server_name, MAX_IDENTITY_CHARS as nat)
            &&& snapshot.identities.len() <= MAX_MCP_DIAGNOSTIC_IDENTITIES
            &&& snapshot.total_count <= identities.len()
            &&& snapshot.identities_truncated <==> snapshot.identities.len()
                < snapshot.total_count
            &&& forall|i: int|
                0 <= i < snapshot.identities.len() ==> identities.contains(
                    #[trigger] snapshot.identities[i],
                )
        }),
{
    let snapshot = mcp_diagnostics::response_snapshot(server_name, source, identities);
    order::every_sequence_has_a_listing::<ToolSearchDiagnosticIdentity>(identities);
    let listed = order::sorted_distinct::<ToolSearchDiagnosticIdentity>(identities);
    assert forall|i: int| 0 <= i < snapshot.identities.len() implies identities.contains(
        #[trigger] snapshot.identities[i],
    ) by {
        assert(snapshot.identities[i] == listed[i]);
        assert(listed.contains(listed[i]));
    }
}

/// Identities carry nothing of what describes a tool: neither its title nor its
/// annotations, nor the rest of what its server tells of it, leave a trace.
pub proof fn identities_leave_descriptions_out(
    tool: ToolInfoModel,
    title: Option<Seq<char>>,
    annotations: Option<ToolAnnotations>,
    details: Seq<char>,
)
    ensures
        mcp_diagnostics::tool_identity(
            ToolInfoModel { tool: ToolModel { title, annotations, ..tool.tool }, details, ..tool },
        ) == mcp_diagnostics::tool_identity(tool),
{
}

}
