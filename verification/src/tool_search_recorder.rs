//! Always-on, bounded tool-search diagnostics retained for immediate feedback.
//!
//! The recorder stores only compact identities, the latest snapshot of each
//! stage of the tool-search pipeline, and the latest searches.

use std::collections::VecDeque;
use vstd::prelude::*;
use vstd::string::*;
use vstd::utf8::*;
use crate::digest;
use crate::mcp_diagnostics::{
    self, McpDiagnosticsModel, ResponseModel, ToolSearchMcpDiagnosticsSnapshot,
    ToolSearchToolsListSource, MAX_IDENTITY_CHARS,
};
use crate::order;
use crate::text;
use crate::text_map::{self, TextMap};
use crate::tool_identity::{self, DiagnosticModel, DiagnosticToolIdentity, SearchInfoModel, ToolSearchInfo};
use crate::tool_info::{ToolInfo, ToolInfoModel};

verus! {

pub const MAX_STAGE_IDENTITIES: usize = 256;

pub const MAX_STAGE_CHANGES: usize = 128;

pub const MAX_EXCLUDED_IDENTITIES: usize = 256;

pub const MAX_SEARCHES: usize = 32;

pub const MAX_SEARCH_RESULTS: usize = 100;

pub const MAX_QUERY_CHARS: usize = 256;

/// Why a tool was exposed to the model, or was not.
#[derive(Debug, PartialEq, Eq)]
pub struct ToolExposureDecision {
    pub identity: DiagnosticToolIdentity,
    pub included: bool,
    pub model_visible: bool,
    pub connector_id_present: bool,
    pub connector_allowed: bool,
    pub policy_enabled: bool,
}

pub struct DecisionModel {
    pub identity: DiagnosticModel,
    pub included: bool,
    pub model_visible: bool,
    pub connector_id_present: bool,
    pub connector_allowed: bool,
    pub policy_enabled: bool,
}

impl DeepView for ToolExposureDecision {
    type V = DecisionModel;

    open spec fn deep_view(&self) -> DecisionModel {
        DecisionModel {
            identity: self.identity.deep_view(),
            included: self.included,
            model_visible: self.model_visible,
            connector_id_present: self.connector_id_present,
            connector_allowed: self.connector_allowed,
            policy_enabled: self.policy_enabled,
        }
    }
}

impl Clone for ToolExposureDecision {
    fn clone(&self) -> (copy: Self)
        ensures
            copy.deep_view() == self.deep_view(),
    {
        ToolExposureDecision {
            identity: self.identity.clone(),
            included: self.included,
            model_visible: self.model_visible,
            connector_id_present: self.connector_id_present,
            connector_allowed: self.connector_allowed,
            policy_enabled: self.policy_enabled,
        }
    }
}

/// What a stage reports besides its identities.
#[derive(Debug, PartialEq, Eq)]
pub struct StageMetadata {
    pub observation_sources: Vec<String>,
    pub server_count: Option<usize>,
    pub cached_server_count: Option<usize>,
    pub startup_complete_server_count: Option<usize>,
    pub included_count: Option<usize>,
    pub search_tool_enabled: Option<bool>,
    pub cache_state: Option<String>,
    pub total_count_override: Option<usize>,
    pub upstream_identities_truncated: bool,
    pub fingerprint_override: Option<String>,
}

pub struct MetadataModel {
    pub observation_sources: Seq<Seq<char>>,
    pub server_count: Option<usize>,
    pub cached_server_count: Option<usize>,
    pub startup_complete_server_count: Option<usize>,
    pub included_count: Option<usize>,
    pub search_tool_enabled: Option<bool>,
    pub cache_state: Option<Seq<char>>,
    pub total_count_override: Option<usize>,
    pub upstream_identities_truncated: bool,
    pub fingerprint_override: Option<Seq<char>>,
}

impl DeepView for StageMetadata {
    type V = MetadataModel;

    open spec fn deep_view(&self) -> MetadataModel {
        MetadataModel {
            observation_sources: self.observation_sources.deep_view(),
            server_count: self.server_count,
            cached_server_count: self.cached_server_count,
            startup_complete_server_count: self.startup_complete_server_count,
            included_count: self.included_count,
            search_tool_enabled: self.search_tool_enabled,
            cache_state: self.cache_state.deep_view(),
            total_count_override: self.total_count_override,
            upstream_identities_truncated: self.upstream_identities_truncated,
            fingerprint_override: self.fingerprint_override.deep_view(),
        }
    }
}

/// Metadata that reports nothing.
pub open spec fn no_metadata() -> MetadataModel {
    MetadataModel {
        observation_sources: Seq::empty(),
        server_count: None,
        cached_server_count: None,
        startup_complete_server_count: None,
        included_count: None,
        search_tool_enabled: None,
        cache_state: None,
        total_count_override: None,
        upstream_identities_truncated: false,
        fingerprint_override: None,
    }
}

impl Default for StageMetadata {
    fn default() -> (metadata: Self)
        ensures
            metadata.deep_view() == no_metadata(),
    {
        let observation_sources: Vec<String> = Vec::new();
        assert(observation_sources.deep_view() =~= Seq::<Seq<char>>::empty());
        StageMetadata {
            observation_sources,
            server_count: None,
            cached_server_count: None,
            startup_complete_server_count: None,
            included_count: None,
            search_tool_enabled: None,
            cache_state: None,
            total_count_override: None,
            upstream_identities_truncated: false,
            fingerprint_override: None,
        }
    }
}

impl Clone for StageMetadata {
    fn clone(&self) -> (copy: Self)
        ensures
            copy.deep_view() == self.deep_view(),
    {
        let copy = StageMetadata {
            observation_sources: self.observation_sources.clone(),
            server_count: self.server_count,
            cached_server_count: self.cached_server_count,
            startup_complete_server_count: self.startup_complete_server_count,
            included_count: self.included_count,
            search_tool_enabled: self.search_tool_enabled,
            cache_state: self.cache_state.clone(),
            total_count_override: self.total_count_override,
            upstream_identities_truncated: self.upstream_identities_truncated,
            fingerprint_override: self.fingerprint_override.clone(),
        };
        assert(copy.observation_sources.deep_view() =~= self.observation_sources.deep_view());
        copy
    }
}

/// The latest snapshot of one stage.
#[derive(Debug, PartialEq, Eq)]
pub struct StageSnapshot {
    pub stage: String,
    pub inventory_generation: String,
    pub fingerprint: String,
    pub total_count: usize,
    pub identities: Vec<DiagnosticToolIdentity>,
    pub identities_truncated: bool,
    pub added: Vec<String>,
    pub removed: Vec<String>,
    pub changes_truncated: bool,
    pub excluded: Vec<ToolExposureDecision>,
    pub excluded_truncated: bool,
    pub metadata: StageMetadata,
}

pub struct StageModel {
    pub stage: Seq<char>,
    pub inventory_generation: Seq<char>,
    pub fingerprint: Seq<char>,
    pub total_count: usize,
    pub identities: Seq<DiagnosticModel>,
    pub identities_truncated: bool,
    pub added: Seq<Seq<char>>,
    pub removed: Seq<Seq<char>>,
    pub changes_truncated: bool,
    pub excluded: Seq<DecisionModel>,
    pub excluded_truncated: bool,
    pub metadata: MetadataModel,
}

impl DeepView for StageSnapshot {
    type V = StageModel;

    open spec fn deep_view(&self) -> StageModel {
        StageModel {
            stage: self.stage@,
            inventory_generation: self.inventory_generation@,
            fingerprint: self.fingerprint@,
            total_count: self.total_count,
            identities: self.identities.deep_view(),
            identities_truncated: self.identities_truncated,
            added: self.added.deep_view(),
            removed: self.removed.deep_view(),
            changes_truncated: self.changes_truncated,
            excluded: self.excluded.deep_view(),
            excluded_truncated: self.excluded_truncated,
            metadata: self.metadata.deep_view(),
        }
    }
}

impl Clone for StageSnapshot {
    fn clone(&self) -> (copy: Self)
        ensures
            copy.deep_view() == self.deep_view(),
    {
        let copy = StageSnapshot {
            stage: self.stage.clone(),
            inventory_generation: self.inventory_generation.clone(),
            fingerprint: self.fingerprint.clone(),
            total_count: self.total_count,
            identities: self.identities.clone(),
            identities_truncated: self.identities_truncated,
            added: self.added.clone(),
            removed: self.removed.clone(),
            changes_truncated: self.changes_truncated,
            excluded: self.excluded.clone(),
            excluded_truncated: self.excluded_truncated,
            metadata: self.metadata.clone(),
        };
        assert(copy.identities.deep_view() =~= self.identities.deep_view());
        assert(copy.added.deep_view() =~= self.added.deep_view());
        assert(copy.removed.deep_view() =~= self.removed.deep_view());
        assert(copy.excluded.deep_view() =~= self.excluded.deep_view());
        copy
    }
}

/// One result of a search. The score is kept as the bits of its
/// single-precision value.
#[derive(Debug, PartialEq, Eq)]
pub struct SearchResultDiagnostic {
    pub rank: usize,
    pub score_bits: u32,
    pub document_index: usize,
    pub identity: DiagnosticToolIdentity,
}

pub struct ResultModel {
    pub rank: usize,
    pub score_bits: u32,
    pub document_index: usize,
    pub identity: DiagnosticModel,
}

impl DeepView for SearchResultDiagnostic {
    type V = ResultModel;

    open spec fn deep_view(&self) -> ResultModel {
        ResultModel {
            rank: self.rank,
            score_bits: self.score_bits,
            document_index: self.document_index,
            identity: self.identity.deep_view(),
        }
    }
}

impl Clone for SearchResultDiagnostic {
    fn clone(&self) -> (copy: Self)
        ensures
            copy.deep_view() == self.deep_view(),
    {
        SearchResultDiagnostic {
            rank: self.rank,
            score_bits: self.score_bits,
            document_index: self.document_index,
            identity: self.identity.clone(),
        }
    }
}

/// One search with its results.
#[derive(Debug, PartialEq, Eq)]
pub struct SearchSnapshot {
    pub stage: String,
    pub inventory_generation: String,
    pub query: String,
    pub requested_limit: usize,
    pub returned_count: usize,
    pub results: Vec<SearchResultDiagnostic>,
    pub results_truncated: bool,
}

pub struct SearchModel {
    pub stage: Seq<char>,
    pub inventory_generation: Seq<char>,
    pub query: Seq<char>,
    pub requested_limit: usize,
    pub returned_count: usize,
    pub results: Seq<ResultModel>,
    pub results_truncated: bool,
}

impl DeepView for SearchSnapshot {
    type V = SearchModel;

    open spec fn deep_view(&self) -> SearchModel {
        SearchModel {
            stage: self.stage@,
            inventory_generation: self.inventory_generation@,
            query: self.query@,
            requested_limit: self.requested_limit,
            returned_count: self.returned_count,
            results: self.results.deep_view(),
            results_truncated: self.results_truncated,
        }
    }
}

impl Clone for SearchSnapshot {
    fn clone(&self) -> (copy: Self)
        ensures
            copy.deep_view() == self.deep_view(),
    {
        let copy = SearchSnapshot {
            stage: self.stage.clone(),
            inventory_generation: self.inventory_generation.clone(),
            query: self.query.clone(),
            requested_limit: self.requested_limit,
            returned_count: self.returned_count,
            results: self.results.clone(),
            results_truncated: self.results_truncated,
        };
        assert(copy.results.deep_view() =~= self.results.deep_view());
        copy
    }
}

/// What the recorder retains.
pub struct RecorderState {
    pub inventory_generation: String,
    pub stages: TextMap<StageSnapshot>,
    pub identity_by_tool_name: TextMap<DiagnosticToolIdentity>,
    pub searches: VecDeque<SearchSnapshot>,
}

pub struct RecorderModel {
    pub inventory_generation: Seq<char>,
    pub stages: Map<Seq<char>, StageModel>,
    pub identity_by_tool_name: Map<Seq<char>, DiagnosticModel>,
    pub searches: Seq<SearchModel>,
}

impl DeepView for RecorderState {
    type V = RecorderModel;

    open spec fn deep_view(&self) -> RecorderModel {
        RecorderModel {
            inventory_generation: self.inventory_generation@,
            stages: self.stages.deep_view(),
            identity_by_tool_name: self.identity_by_tool_name.deep_view(),
            searches: Seq::new(self.searches@.len(), |i: int| self.searches@[i].deep_view()),
        }
    }
}

/// A recorder that has seen nothing.
pub open spec fn empty_recorder() -> RecorderModel {
    RecorderModel {
        inventory_generation: Seq::empty(),
        stages: Map::empty(),
        identity_by_tool_name: Map::empty(),
        searches: Seq::empty(),
    }
}

impl Default for RecorderState {
    fn default() -> (state: Self)
        ensures
            state.deep_view() == empty_recorder(),
    {
        let state = RecorderState {
            inventory_generation: String::new(),
            stages: TextMap::new(),
            identity_by_tool_name: TextMap::new(),
            searches: VecDeque::new(),
        };
        assert(state.deep_view().searches =~= Seq::<SearchModel>::empty());
        state
    }
}

/// At most the first `max` elements of `s`.
pub open spec fn first<A>(s: Seq<A>, max: nat) -> Seq<A> {
    if s.len() > max {
        s.take(max as int)
    } else {
        s
    }
}

/// The keys of `identities`.
pub open spec fn keys_of(identities: Seq<DiagnosticModel>) -> Seq<Seq<char>> {
    Seq::new(identities.len(), |i: int| tool_identity::identity_key(identities[i]))
}

/// The bytes that the fingerprint of `identities` covers: every key, followed
/// by a zero byte.
pub open spec fn key_bytes(identities: Seq<DiagnosticModel>) -> Seq<u8>
    decreases identities.len(),
{
    if identities.len() == 0 {
        Seq::empty()
    } else {
        key_bytes(identities.drop_last()) + encode_utf8(
            tool_identity::identity_key(identities.last()),
        ).push(0)
    }
}

/// The fingerprint of `identities`, in the order given.
pub open spec fn identities_fingerprint(identities: Seq<DiagnosticModel>) -> Seq<char> {
    digest::fingerprint_text(key_bytes(identities))
}

/// The elements of `keys` that are not among `others`.
pub open spec fn without(keys: Seq<Seq<char>>, others: Seq<Seq<char>>) -> Seq<Seq<char>>
    decreases keys.len(),
{
    if keys.len() == 0 {
        Seq::empty()
    } else {
        let rest = without(keys.drop_last(), others);
        if others.contains(keys.last()) {
            rest
        } else {
            rest.push(keys.last())
        }
    }
}

/// The keys among `keys` that are not among `others`, in order.
pub open spec fn new_keys(keys: Seq<Seq<char>>, others: Seq<Seq<char>>) -> Seq<Seq<char>> {
    order::sorted_distinct::<String>(without(keys, others))
}

/// `index` after each of `identities` was entered under its tool name.
pub open spec fn indexed(
    index: Map<Seq<char>, DiagnosticModel>,
    identities: Seq<DiagnosticModel>,
) -> Map<Seq<char>, DiagnosticModel>
    decreases identities.len(),
{
    if identities.len() == 0 {
        index
    } else {
        let rest = indexed(index, identities.drop_last());
        match identities.last().tool_name {
            Some(name) => rest.insert(name, identities.last()),
            None => rest,
        }
    }
}

/// The keys of the identities that the snapshot of `stage` retains, none where
/// there is no snapshot.
pub open spec fn retained_before(state: RecorderModel, stage: Seq<char>) -> Seq<Seq<char>> {
    if state.stages.dom().contains(stage) {
        keys_of(state.stages[stage].identities)
    } else {
        Seq::empty()
    }
}

/// The fingerprint of a stage: the one that its metadata gives, or that of
/// its listed identities.
pub open spec fn stage_fingerprint(
    listed: Seq<DiagnosticModel>,
    metadata: MetadataModel,
) -> Seq<char> {
    metadata.fingerprint_override.unwrap_or(identities_fingerprint(listed))
}

/// The snapshot of a stage whose fingerprint did not change: what describes
/// the identities stays, the rest is brought up to date.
pub open spec fn stage_refreshed(
    existing: StageModel,
    generation: Seq<char>,
    listed: Seq<DiagnosticModel>,
    metadata: MetadataModel,
    excluded: Seq<DecisionModel>,
) -> StageModel {
    StageModel {
        inventory_generation: generation,
        total_count: metadata.total_count_override.unwrap_or(listed.len() as usize),
        identities_truncated: metadata.upstream_identities_truncated || listed.len()
            > MAX_STAGE_IDENTITIES,
        excluded: first(excluded, MAX_EXCLUDED_IDENTITIES as nat),
        excluded_truncated: excluded.len() > MAX_EXCLUDED_IDENTITIES,
        metadata,
        ..existing
    }
}

/// The snapshot of a stage whose fingerprint is new, with the keys that came
/// and went since the snapshot before.
pub open spec fn stage_replaced(
    previous_keys: Seq<Seq<char>>,
    stage: Seq<char>,
    generation: Seq<char>,
    listed: Seq<DiagnosticModel>,
    metadata: MetadataModel,
    excluded: Seq<DecisionModel>,
) -> StageModel {
    let kept = first(listed, MAX_STAGE_IDENTITIES as nat);
    let retained = keys_of(kept);
    let added = new_keys(retained, previous_keys);
    let removed = new_keys(previous_keys, retained);
    StageModel {
        stage,
        inventory_generation: generation,
        fingerprint: stage_fingerprint(listed, metadata),
        total_count: metadata.total_count_override.unwrap_or(listed.len() as usize),
        identities: kept,
        identities_truncated: metadata.upstream_identities_truncated || listed.len()
            > MAX_STAGE_IDENTITIES,
        added: first(added, MAX_STAGE_CHANGES as nat),
        removed: first(removed, MAX_STAGE_CHANGES as nat),
        changes_truncated: metadata.upstream_identities_truncated || added.len()
            > MAX_STAGE_CHANGES || removed.len() > MAX_STAGE_CHANGES,
        excluded: first(excluded, MAX_EXCLUDED_IDENTITIES as nat),
        excluded_truncated: excluded.len() > MAX_EXCLUDED_IDENTITIES,
        metadata,
    }
}

/// The recorder after `stage` was recorded with `identities`, which may come in
/// any order and with repetitions.
pub open spec fn stage_recorded(
    state: RecorderModel,
    stage: Seq<char>,
    generation: Seq<char>,
    identities: Seq<DiagnosticModel>,
    metadata: MetadataModel,
    excluded: Seq<DecisionModel>,
) -> RecorderModel {
    let listed = order::sorted_distinct::<DiagnosticToolIdentity>(identities);
    if state.stages.dom().contains(stage) && state.stages[stage].fingerprint == stage_fingerprint(
        listed,
        metadata,
    ) {
        RecorderModel {
            stages: state.stages.insert(
                stage,
                stage_refreshed(state.stages[stage], generation, listed, metadata, excluded),
            ),
            ..state
        }
    } else {
        RecorderModel {
            stages: state.stages.insert(
                stage,
                stage_replaced(
                    retained_before(state, stage),
                    stage,
                    generation,
                    listed,
                    metadata,
                    excluded,
                ),
            ),
            identity_by_tool_name: indexed(
                state.identity_by_tool_name,
                first(listed, MAX_STAGE_IDENTITIES as nat),
            ),
            ..state
        }
    }
}

/// The fingerprint of `identities`, in the order given.
pub fn fingerprint(identities: &Vec<DiagnosticToolIdentity>) -> (result: String)
    ensures
        result@ == identities_fingerprint(identities.deep_view()),
{
    let mut data: Vec<u8> = Vec::new();
    let mut i: usize = 0;
    let ghost models = identities.deep_view();
    while i < identities.len()
        invariant
            i <= identities@.len(),
            models == identities.deep_view(),
            data@ == key_bytes(models.take(i as int)),
        decreases identities@.len() - i,
    {
        let mut key = order::text_key(identities[i].key().as_str());
        let ghost before = data@;
        data.append(&mut key);
        data.push(0);
        proof {
            assert(data@ =~= before + encode_utf8(
                tool_identity::identity_key(models[i as int]),
            ).push(0));
            assert(models.take(i + 1).drop_last() =~= models.take(i as int));
        }
        i += 1;
    }
    assert(models.take(models.len() as int) =~= models);
    digest::fingerprint_of(&data)
}

fn list_new_keys(keys: &Vec<String>, others: &Vec<String>) -> (result: Vec<String>)
    ensures
        result.deep_view() == new_keys(keys.deep_view(), others.deep_view()),
{
    let mut fresh: Vec<String> = Vec::new();
    let mut i: usize = 0;
    let ghost models = keys.deep_view();
    assert(fresh.deep_view() =~= Seq::<Seq<char>>::empty());
    while i < keys.len()
        invariant
            i <= keys@.len(),
            models == keys.deep_view(),
            fresh.deep_view() == without(models.take(i as int), others.deep_view()),
        decreases keys@.len() - i,
    {
        let ghost before = fresh.deep_view();
        assert(models.take(i + 1).drop_last() =~= models.take(i as int));
        if !text::lists_text(others, keys[i].as_str()) {
            fresh.push(keys[i].clone());
            assert(fresh.deep_view() =~= before.push(models[i as int]));
        }
        i += 1;
    }
    assert(models.take(models.len() as int) =~= models);
    order::sort_distinct(fresh)
}

fn index_identities(
    index: &mut TextMap<DiagnosticToolIdentity>,
    identities: &Vec<DiagnosticToolIdentity>,
)
    ensures
        final(index).deep_view() == indexed(old(index).deep_view(), identities.deep_view()),
{
    let mut i: usize = 0;
    let ghost models = identities.deep_view();
    let ghost start = index.deep_view();
    while i < identities.len()
        invariant
            i <= identities@.len(),
            models == identities.deep_view(),
            index.deep_view() == indexed(start, models.take(i as int)),
        decreases identities@.len() - i,
    {
        assert(models.take(i + 1).drop_last() =~= models.take(i as int));
        let identity = &identities[i];
        match &identity.tool_name {
            Some(name) => {
                index.insert(name.clone(), identity.clone());
            },
            None => {},
        }
        i += 1;
    }
    assert(models.take(models.len() as int) =~= models);
}

fn collect_keys(identities: &Vec<DiagnosticToolIdentity>) -> (keys: Vec<String>)
    ensures
        keys.deep_view() == keys_of(identities.deep_view()),
{
    let mut keys: Vec<String> = Vec::new();
    let mut i: usize = 0;
    while i < identities.len()
        invariant
            i <= identities@.len(),
            keys@.len() == i,
            forall|j: int|
                0 <= j < i ==> (#[trigger] keys@[j])@ == tool_identity::identity_key(
                    identities@[j].deep_view(),
                ),
        decreases identities@.len() - i,
    {
        keys.push(identities[i].key());
        i += 1;
    }
    assert(keys.deep_view() =~= keys_of(identities.deep_view()));
    keys
}

/// Records `stage` with `identities`.
pub fn record_stage(
    state: &mut RecorderState,
    stage: &str,
    generation: &str,
    identities: Vec<DiagnosticToolIdentity>,
    metadata: StageMetadata,
    excluded: Vec<ToolExposureDecision>,
)
    ensures
        final(state).deep_view() == stage_recorded(
            old(state).deep_view(),
            stage@,
            generation@,
            identities.deep_view(),
            metadata.deep_view(),
            excluded.deep_view(),
        ),
{
    let ghost before = state.deep_view();
    let ghost all_excluded = excluded.deep_view();
    let ghost meta = metadata.deep_view();
    let mut listed = order::sort_distinct(identities);
    let ghost all = listed.deep_view();
    let total_count = match metadata.total_count_override {
        Some(count) => count,
        None => listed.len(),
    };
    let stamp = match &metadata.fingerprint_override {
        Some(given) => given.clone(),
        None => fingerprint(&listed),
    };
    let identities_truncated = metadata.upstream_identities_truncated || listed.len()
        > MAX_STAGE_IDENTITIES;
    listed.truncate(MAX_STAGE_IDENTITIES);
    assert(listed.deep_view() =~= first(all, MAX_STAGE_IDENTITIES as nat));
    let retained_keys = collect_keys(&listed);
    let mut excluded = excluded;
    let excluded_truncated = excluded.len() > MAX_EXCLUDED_IDENTITIES;
    excluded.truncate(MAX_EXCLUDED_IDENTITIES);
    assert(excluded.deep_view() =~= first(all_excluded, MAX_EXCLUDED_IDENTITIES as nat));

    let mut previous_keys: Vec<String> = Vec::new();
    assert(previous_keys.deep_view() =~= Seq::<Seq<char>>::empty());
    match state.stages.get(stage) {
        Some(existing) => {
            if existing.fingerprint == stamp {
                let mut updated = existing.clone();
                updated.inventory_generation = generation.to_string();
                updated.total_count = total_count;
                updated.identities_truncated = identities_truncated;
                updated.metadata = metadata;
                updated.excluded = excluded;
                updated.excluded_truncated = excluded_truncated;
                assert(updated.deep_view() == stage_refreshed(
                    before.stages[stage@],
                    generation@,
                    all,
                    meta,
                    all_excluded,
                ));
                state.stages.insert(stage.to_string(), updated);
                return ;
            }
            previous_keys = collect_keys(&existing.identities);
        },
        None => {},
    }
    assert(previous_keys.deep_view() == retained_before(before, stage@));
    let mut added = list_new_keys(&retained_keys, &previous_keys);
    let mut removed = list_new_keys(&previous_keys, &retained_keys);
    let ghost all_added = added.deep_view();
    let ghost all_removed = removed.deep_view();
    let changes_truncated = metadata.upstream_identities_truncated || added.len()
        > MAX_STAGE_CHANGES || removed.len() > MAX_STAGE_CHANGES;
    added.truncate(MAX_STAGE_CHANGES);
    removed.truncate(MAX_STAGE_CHANGES);
    assert(added.deep_view() =~= first(all_added, MAX_STAGE_CHANGES as nat));
    assert(removed.deep_view() =~= first(all_removed, MAX_STAGE_CHANGES as nat));
    index_identities(&mut state.identity_by_tool_name, &listed);
    let snapshot = StageSnapshot {
        stage: stage.to_string(),
        inventory_generation: generation.to_string(),
        fingerprint: stamp,
        total_count,
        identities: listed,
        identities_truncated,
        added,
        removed,
        changes_truncated,
        excluded,
        excluded_truncated,
        metadata,
    };
    state.stages.insert(stage.to_string(), snapshot);
}

/// `identity` with what the index knows of the tool of that name. The name of
/// its source stays where the index knows no connector name.
pub open spec fn enriched(
    index: Map<Seq<char>, DiagnosticModel>,
    identity: DiagnosticModel,
) -> DiagnosticModel {
    match identity.tool_name {
        Some(name) => if index.dom().contains(name) {
            let known = index[name];
            DiagnosticModel {
                connector_name: if known.connector_name is Some {
                    known.connector_name
                } else {
                    identity.connector_name
                },
                ..known
            }
        } else {
            identity
        },
        None => identity,
    }
}

/// Completes `identity` with what the recorder knows of the tool of that name.
pub fn enrich_identity(state: &RecorderState, identity: &mut DiagnosticToolIdentity)
    ensures
        final(identity).deep_view() == enriched(
            state.deep_view().identity_by_tool_name,
            old(identity).deep_view(),
        ),
{
    let found = match &identity.tool_name {
        Some(name) => state.identity_by_tool_name.get(name.as_str()),
        None => None,
    };
    match found {
        Some(known) => {
            let mut complete = known.clone();
            if complete.connector_name.is_none() {
                complete.connector_name = identity.connector_name.clone();
            }
            *identity = complete;
        },
        None => {},
    }
}

/// All identities of `responses`, as the diagnostics keep them.
pub open spec fn raw_identities(responses: Seq<ResponseModel>) -> Seq<DiagnosticModel>
    decreases responses.len(),
{
    if responses.len() == 0 {
        Seq::empty()
    } else {
        raw_identities(responses.drop_last()) + Seq::new(
            responses.last().identities.len(),
            |i: int| tool_identity::diagnostic_identity(responses.last().identities[i]),
        )
    }
}

/// The number of tools that `responses` report.
pub open spec fn raw_total(responses: Seq<ResponseModel>) -> nat
    decreases responses.len(),
{
    if responses.len() == 0 {
        0
    } else {
        raw_total(responses.drop_last()) + responses.last().total_count as nat
    }
}

/// The bytes that the fingerprint of `responses` covers.
pub open spec fn response_bytes(responses: Seq<ResponseModel>) -> Seq<u8>
    decreases responses.len(),
{
    if responses.len() == 0 {
        Seq::empty()
    } else {
        response_bytes(responses.drop_last()) + encode_utf8(responses.last().server_name).push(0)
            + encode_utf8(responses.last().fingerprint).push(0)
    }
}

/// Some of `responses` left identities out.
pub open spec fn any_truncated(responses: Seq<ResponseModel>) -> bool {
    exists|i: int| 0 <= i < responses.len() && (#[trigger] responses[i]).identities_truncated
}

/// The name of an observation source.
pub open spec fn source_text(source: ToolSearchToolsListSource) -> Seq<char> {
    match source {
        ToolSearchToolsListSource::LiveResponse => "LiveResponse"@,
        ToolSearchToolsListSource::CachedToolsWithoutLiveResponse => {
            "CachedToolsWithoutLiveResponse"@
        },
        ToolSearchToolsListSource::NotObserved => "NotObserved"@,
    }
}

/// Every server with the source of its observation.
pub open spec fn observations(responses: Seq<ResponseModel>) -> Seq<Seq<char>> {
    Seq::new(
        responses.len(),
        |i: int| responses[i].server_name + "="@ + source_text(responses[i].source),
    )
}

/// The identities of the tools in `inventory`.
pub open spec fn inventory_identities(inventory: Seq<ToolInfoModel>) -> Seq<DiagnosticModel> {
    Seq::new(
        inventory.len(),
        |i: int|
            tool_identity::diagnostic_identity(mcp_diagnostics::tool_identity(inventory[i])),
    )
}

/// The recorder after an MCP snapshot was recorded with the inventory made of
/// it. A new inventory starts a new generation and a new index.
pub open spec fn mcp_recorded(
    state: RecorderModel,
    mcp: McpDiagnosticsModel,
    inventory: Seq<ToolInfoModel>,
) -> RecorderModel {
    let identities = inventory_identities(inventory);
    let generation = identities_fingerprint(identities);
    let counted = MetadataModel {
        server_count: Some(mcp.server_count),
        cached_server_count: Some(mcp.cached_server_count),
        startup_complete_server_count: Some(mcp.startup_complete_server_count),
        ..no_metadata()
    };
    let responses = mcp.tools_list_responses;
    let started = RecorderModel {
        inventory_generation: generation,
        identity_by_tool_name: Map::empty(),
        ..state
    };
    let observed = stage_recorded(
        started,
        "mcp_tools_list_response"@,
        generation,
        raw_identities(responses),
        MetadataModel {
            observation_sources: observations(responses),
            total_count_override: Some(raw_total(responses) as usize),
            upstream_identities_truncated: any_truncated(responses),
            fingerprint_override: Some(digest::fingerprint_text(response_bytes(responses))),
            ..counted
        },
        Seq::empty(),
    );
    stage_recorded(
        observed,
        "mcp_inventory_snapshot"@,
        generation,
        identities,
        counted,
        Seq::empty(),
    )
}

/// The identities that `decisions` are about.
pub open spec fn decided_identities(decisions: Seq<DecisionModel>) -> Seq<DiagnosticModel> {
    Seq::new(decisions.len(), |i: int| decisions[i].identity)
}

/// The decisions that left their tool out, in order.
pub open spec fn excluded_decisions(decisions: Seq<DecisionModel>) -> Seq<DecisionModel>
    decreases decisions.len(),
{
    if decisions.len() == 0 {
        Seq::empty()
    } else {
        let rest = excluded_decisions(decisions.drop_last());
        if decisions.last().included {
            rest
        } else {
            rest.push(decisions.last())
        }
    }
}

/// The recorder after the exposure decisions were recorded.
pub open spec fn exposure_recorded(
    state: RecorderModel,
    decisions: Seq<DecisionModel>,
    search_tool_enabled: bool,
) -> RecorderModel {
    let excluded = excluded_decisions(decisions);
    stage_recorded(
        state,
        "mcp_exposure_filter"@,
        state.inventory_generation,
        decided_identities(decisions),
        MetadataModel {
            included_count: Some((decisions.len() - excluded.len()) as usize),
            search_tool_enabled: Some(search_tool_enabled),
            ..no_metadata()
        },
        excluded,
    )
}

/// The recorder after the search entries of `stage` were recorded.
pub open spec fn search_infos_recorded(
    state: RecorderModel,
    stage: Seq<char>,
    infos: Seq<SearchInfoModel>,
    cache_state: Seq<char>,
) -> RecorderModel {
    stage_recorded(
        state,
        stage,
        state.inventory_generation,
        Seq::new(
            infos.len(),
            |i: int|
                enriched(
                    state.identity_by_tool_name,
                    tool_identity::search_info_identity(infos[i]),
                ),
        ),
        MetadataModel { cache_state: Some(cache_state), ..no_metadata() },
        Seq::empty(),
    )
}

/// At most the last `max` elements of `s`.
pub open spec fn latest<A>(s: Seq<A>, max: nat) -> Seq<A> {
    if s.len() > max {
        s.skip(s.len() - max)
    } else {
        s
    }
}

/// The snapshot of a search.
pub open spec fn search_snapshot(
    state: RecorderModel,
    query: Seq<char>,
    requested_limit: usize,
    returned_count: usize,
    results: Seq<ResultModel>,
) -> SearchModel {
    SearchModel {
        stage: "bm25_search_results"@,
        inventory_generation: state.inventory_generation,
        query: text::bounded_text(query, MAX_QUERY_CHARS as nat),
        requested_limit,
        returned_count,
        results: first(
            Seq::new(
                results.len(),
                |i: int|
                    ResultModel {
                        identity: enriched(state.identity_by_tool_name, results[i].identity),
                        ..results[i]
                    },
            ),
            MAX_SEARCH_RESULTS as nat,
        ),
        results_truncated: results.len() > MAX_SEARCH_RESULTS,
    }
}

/// The recorder after a search was recorded.
pub open spec fn search_recorded(
    state: RecorderModel,
    query: Seq<char>,
    requested_limit: usize,
    returned_count: usize,
    results: Seq<ResultModel>,
) -> RecorderModel {
    RecorderModel {
        searches: latest(
            state.searches.push(
                search_snapshot(state, query, requested_limit, returned_count, results),
            ),
            MAX_SEARCHES as nat,
        ),
        ..state
    }
}

/// The limits that the recorder keeps to.
#[derive(Clone, Copy, Debug, PartialEq, Eq)]
pub struct FeedbackLimits {
    pub max_stage_identities: usize,
    pub max_stage_changes: usize,
    pub max_excluded_identities: usize,
    pub max_searches: usize,
    pub max_search_results: usize,
    pub max_identity_chars: usize,
    pub max_query_chars: usize,
}

pub open spec fn feedback_limits() -> FeedbackLimits {
    FeedbackLimits {
        max_stage_identities: MAX_STAGE_IDENTITIES,
        max_stage_changes: MAX_STAGE_CHANGES,
        max_excluded_identities: MAX_EXCLUDED_IDENTITIES,
        max_searches: MAX_SEARCHES,
        max_search_results: MAX_SEARCH_RESULTS,
        max_identity_chars: MAX_IDENTITY_CHARS,
        max_query_chars: MAX_QUERY_CHARS,
    }
}

/// What is attached to a feedback report.
#[derive(Debug, PartialEq, Eq)]
pub struct FeedbackSnapshot {
    pub version: u8,
    pub thread_id: String,
    pub session_id: String,
    pub inventory_generation: String,
    pub limits: FeedbackLimits,
    pub stages: Vec<StageSnapshot>,
    pub searches: Vec<SearchSnapshot>,
}

pub struct FeedbackModel {
    pub version: u8,
    pub thread_id: Seq<char>,
    pub session_id: Seq<char>,
    pub inventory_generation: Seq<char>,
    pub limits: FeedbackLimits,
    pub stages: Seq<StageModel>,
    pub searches: Seq<SearchModel>,
}

impl DeepView for FeedbackSnapshot {
    type V = FeedbackModel;

    open spec fn deep_view(&self) -> FeedbackModel {
        FeedbackModel {
            version: self.version,
            thread_id: self.thread_id@,
            session_id: self.session_id@,
            inventory_generation: self.inventory_generation@,
            limits: self.limits,
            stages: self.stages.deep_view(),
            searches: self.searches.deep_view(),
        }
    }
}

/// What the recorder reports: nothing where it has seen nothing, else the
/// stages in the order of their names and the searches, oldest first.
pub open spec fn feedback(
    state: RecorderModel,
    thread_id: Seq<char>,
    session_id: Seq<char>,
) -> Option<FeedbackModel> {
    let stages = text_map::ordered_keys(state.stages);
    if stages.len() == 0 && state.searches.len() == 0 {
        None
    } else {
        Some(
            FeedbackModel {
                version: 1,
                thread_id,
                session_id,
                inventory_generation: state.inventory_generation,
                limits: feedback_limits(),
                stages: Seq::new(stages.len(), |i: int| state.stages[stages[i]]),
                searches: state.searches,
            },
        )
    }
}

fn source_name(source: ToolSearchToolsListSource) -> (name: &'static str)
    ensures
        name@ == source_text(source),
{
    match source {
        ToolSearchToolsListSource::LiveResponse => "LiveResponse",
        ToolSearchToolsListSource::CachedToolsWithoutLiveResponse => {
            "CachedToolsWithoutLiveResponse"
        },
        ToolSearchToolsListSource::NotObserved => "NotObserved",
    }
}

proof fn lemma_total_grows(responses: Seq<ResponseModel>, i: int)
    requires
        0 <= i <= responses.len(),
    ensures
        raw_total(responses.take(i)) <= raw_total(responses),
    decreases responses.len() - i,
{
    if i < responses.len() {
        lemma_total_grows(responses, i + 1);
        assert(responses.take(i + 1).drop_last() =~= responses.take(i));
    } else {
        assert(responses.take(i) =~= responses);
    }
}

/// What the recorder takes from the `tools/list` responses: the identities, and
/// the metadata of the stage, which has no server counts yet.
fn gather_responses(mcp: &ToolSearchMcpDiagnosticsSnapshot) -> (gathered: (
    Vec<DiagnosticToolIdentity>,
    StageMetadata,
))
    requires
        raw_total(mcp.deep_view().tools_list_responses) <= usize::MAX,
    ensures
        gathered.0.deep_view() == raw_identities(mcp.deep_view().tools_list_responses),
        gathered.1.deep_view() == (MetadataModel {
            observation_sources: observations(mcp.deep_view().tools_list_responses),
            total_count_override: Some(
                raw_total(mcp.deep_view().tools_list_responses) as usize,
            ),
            upstream_identities_truncated: any_truncated(mcp.deep_view().tools_list_responses),
            fingerprint_override: Some(
                digest::fingerprint_text(response_bytes(mcp.deep_view().tools_list_responses)),
            ),
            ..no_metadata()
        }),
{
    let ghost models = mcp.tools_list_responses.deep_view();
    let mut identities: Vec<DiagnosticToolIdentity> = Vec::new();
    let mut sources: Vec<String> = Vec::new();
    let mut total: usize = 0;
    let mut truncated = false;
    let mut data: Vec<u8> = Vec::new();
    let mut i: usize = 0;
    assert(identities.deep_view() =~= Seq::<DiagnosticModel>::empty());
    while i < mcp.tools_list_responses.len()
        invariant
            i <= mcp.tools_list_responses@.len(),
            models == mcp.tools_list_responses.deep_view(),
            raw_total(models) <= usize::MAX,
            identities.deep_view() == raw_identities(models.take(i as int)),
            total == raw_total(models.take(i as int)),
            data@ == response_bytes(models.take(i as int)),
            truncated <==> exists|j: int|
                0 <= j < i && (#[trigger] models[j]).identities_truncated,
            sources@.len() == i,
            forall|j: int|
                0 <= j < i ==> (#[trigger] sources@[j])@ == models[j].server_name + "="@
                    + source_text(models[j].source),
        decreases mcp.tools_list_responses@.len() - i,
    {
        let response = &mcp.tools_list_responses[i];
        let ghost model = models[i as int];
        assert(models.take(i + 1).drop_last() =~= models.take(i as int));
        proof {
            lemma_total_grows(models, i + 1);
        }
        let ghost before = identities.deep_view();
        let mut j: usize = 0;
        assert(identities.deep_view() =~= before + Seq::new(
            0,
            |k: int| tool_identity::diagnostic_identity(model.identities[k]),
        ));
        while j < response.identities.len()
            invariant
                j <= response.identities@.len(),
                model == response.deep_view(),
                identities.deep_view() == before + Seq::new(
                    j as nat,
                    |k: int| tool_identity::diagnostic_identity(model.identities[k]),
                ),
            decreases response.identities@.len() - j,
        {
            let ghost reached = identities.deep_view();
            identities.push(
                DiagnosticToolIdentity::from_mcp_identity(response.identities[j].clone()),
            );
            assert(model.identities[j as int] == response.identities@[j as int].deep_view());
            assert(identities.deep_view() =~= reached.push(
                tool_identity::diagnostic_identity(model.identities[j as int]),
            ));
            assert(identities.deep_view() =~= before + Seq::new(
                (j + 1) as nat,
                |k: int| tool_identity::diagnostic_identity(model.identities[k]),
            ));
            j += 1;
        }
        total = total + response.total_count;
        let ghost was_truncated = truncated;
        truncated = truncated || response.identities_truncated;
        assert(truncated <==> exists|j: int|
            0 <= j < i + 1 && (#[trigger] models[j]).identities_truncated) by {
            if truncated && !was_truncated {
                assert(models[i as int].identities_truncated);
            }
        }
        let mut server = order::text_key(response.server_name.as_str());
        let mut stamp = order::text_key(response.fingerprint.as_str());
        let ghost old_data = data@;
        data.append(&mut server);
        data.push(0);
        data.append(&mut stamp);
        data.push(0);
        assert(data@ =~= old_data + encode_utf8(model.server_name).push(0) + encode_utf8(
            model.fingerprint,
        ).push(0));
        let mut source = response.server_name.clone();
        source.append("=");
        source.append(source_name(response.source));
        sources.push(source);
        i += 1;
    }
    assert(models.take(models.len() as int) =~= models);
    assert(sources.deep_view() =~= observations(models));
    let mut metadata = StageMetadata::default();
    metadata.observation_sources = sources;
    metadata.total_count_override = Some(total);
    metadata.upstream_identities_truncated = truncated;
    metadata.fingerprint_override = Some(digest::fingerprint_of(&data));
    (identities, metadata)
}

/// The recorder of one session.
pub struct ToolSearchPipelineDiagnostics {
    pub state: RecorderState,
}

impl DeepView for ToolSearchPipelineDiagnostics {
    type V = RecorderModel;

    open spec fn deep_view(&self) -> RecorderModel {
        self.state.deep_view()
    }
}

impl Default for ToolSearchPipelineDiagnostics {
    fn default() -> (recorder: Self)
        ensures
            recorder.deep_view() == empty_recorder(),
    {
        ToolSearchPipelineDiagnostics { state: RecorderState::default() }
    }
}

impl ToolSearchPipelineDiagnostics {
    /// Records what the MCP servers returned and the inventory made of it. The
    /// tools that the responses report must be countable in a `usize`.
    pub fn record_mcp_snapshot(
        &mut self,
        mcp: &ToolSearchMcpDiagnosticsSnapshot,
        inventory: &Vec<ToolInfo>,
    )
        requires
            raw_total(mcp.deep_view().tools_list_responses) <= usize::MAX,
        ensures
            final(self).deep_view() == mcp_recorded(
                old(self).deep_view(),
                mcp.deep_view(),
                inventory.deep_view(),
            ),
    {
        let ghost before = self.deep_view();
        let (raw, gathered) = gather_responses(mcp);
        let mut observed = gathered;
        observed.server_count = Some(mcp.server_count);
        observed.cached_server_count = Some(mcp.cached_server_count);
        observed.startup_complete_server_count = Some(mcp.startup_complete_server_count);
        let mut identities: Vec<DiagnosticToolIdentity> = Vec::new();
        let mut i: usize = 0;
        while i < inventory.len()
            invariant
                i <= inventory@.len(),
                identities@.len() == i,
                forall|j: int|
                    0 <= j < i ==> (#[trigger] identities@[j]).deep_view()
                        == tool_identity::diagnostic_identity(
                        mcp_diagnostics::tool_identity(inventory@[j].deep_view()),
                    ),
            decreases inventory@.len() - i,
        {
            identities.push(DiagnosticToolIdentity::from_tool_info(&inventory[i]));
            i += 1;
        }
        assert(identities.deep_view() =~= inventory_identities(inventory.deep_view()));
        let generation = fingerprint(&identities);
        self.state.inventory_generation = generation.clone();
        self.state.identity_by_tool_name.clear();
        assert(self.state.deep_view() == (RecorderModel {
            inventory_generation: generation@,
            identity_by_tool_name: Map::empty(),
            ..before
        }));
        let none_excluded: Vec<ToolExposureDecision> = Vec::new();
        assert(none_excluded.deep_view() =~= Seq::<DecisionModel>::empty());
        record_stage(
            &mut self.state,
            "mcp_tools_list_response",
            generation.as_str(),
            raw,
            observed,
            none_excluded,
        );
        let mut counted = StageMetadata::default();
        counted.server_count = Some(mcp.server_count);
        counted.cached_server_count = Some(mcp.cached_server_count);
        counted.startup_complete_server_count = Some(mcp.startup_complete_server_count);
        let none_excluded: Vec<ToolExposureDecision> = Vec::new();
        assert(none_excluded.deep_view() =~= Seq::<DecisionModel>::empty());
        record_stage(
            &mut self.state,
            "mcp_inventory_snapshot",
            generation.as_str(),
            identities,
            counted,
            none_excluded,
        );
    }

    /// Records which tools were exposed to the model and which were left out.
    pub fn record_exposure(
        &mut self,
        decisions: Vec<ToolExposureDecision>,
        search_tool_enabled: bool,
    )
        ensures
            final(self).deep_view() == exposure_recorded(
                old(self).deep_view(),
                decisions.deep_view(),
                search_tool_enabled,
            ),
    {
        let ghost models = decisions.deep_view();
        let mut identities: Vec<DiagnosticToolIdentity> = Vec::new();
        let mut excluded: Vec<ToolExposureDecision> = Vec::new();
        let mut included_count: usize = 0;
        let mut i: usize = 0;
        assert(excluded.deep_view() =~= Seq::<DecisionModel>::empty());
        while i < decisions.len()
            invariant
                i <= decisions@.len(),
                models == decisions.deep_view(),
                identities@.len() == i,
                forall|j: int|
                    0 <= j < i ==> (#[trigger] identities@[j]).deep_view() == models[j].identity,
                excluded.deep_view() == excluded_decisions(models.take(i as int)),
                included_count + excluded@.len() == i,
            decreases decisions@.len() - i,
        {
            let decision = &decisions[i];
            assert(models.take(i + 1).drop_last() =~= models.take(i as int));
            assert(models[i as int] == decision.deep_view());
            identities.push(decision.identity.clone());
            if decision.included {
                included_count += 1;
            } else {
                let ghost before = excluded.deep_view();
                excluded.push(decision.clone());
                assert(excluded.deep_view() =~= before.push(models[i as int]));
            }
            i += 1;
        }
        assert(models.take(models.len() as int) =~= models);
        assert(identities.deep_view() =~= decided_identities(models));
        let mut metadata = StageMetadata::default();
        metadata.included_count = Some(included_count);
        metadata.search_tool_enabled = Some(search_tool_enabled);
        let generation = self.state.inventory_generation.clone();
        record_stage(
            &mut self.state,
            "mcp_exposure_filter",
            generation.as_str(),
            identities,
            metadata,
            excluded,
        );
    }

    /// Records the search entries of the tools whose loading is deferred.
    pub fn record_deferred(&mut self, search_infos: &Vec<ToolSearchInfo>, cache_state: &str)
        ensures
            final(self).deep_view() == search_infos_recorded(
                old(self).deep_view(),
                "deferred_tool_search_info"@,
                search_infos.deep_view(),
                cache_state@,
            ),
    {
        self.record_search_info_stage("deferred_tool_search_info", search_infos, cache_state);
    }

    /// Records the search entries that the search index holds.
    pub fn record_index(&mut self, search_infos: &Vec<ToolSearchInfo>, cache_state: &str)
        ensures
            final(self).deep_view() == search_infos_recorded(
                old(self).deep_view(),
                "bm25_index_cache"@,
                search_infos.deep_view(),
                cache_state@,
            ),
    {
        self.record_search_info_stage("bm25_index_cache", search_infos, cache_state);
    }

    /// Records a search and its results.
    pub fn record_search(
        &mut self,
        query: &str,
        requested_limit: usize,
        returned_count: usize,
        results: Vec<SearchResultDiagnostic>,
    )
        ensures
            final(self).deep_view() == search_recorded(
                old(self).deep_view(),
                query@,
                requested_limit,
                returned_count,
                results.deep_view(),
            ),
    {
        let ghost before = self.deep_view();
        let ghost models = results.deep_view();
        let mut kept: Vec<SearchResultDiagnostic> = Vec::new();
        let results_truncated = results.len() > MAX_SEARCH_RESULTS;
        let mut i: usize = 0;
        while i < results.len() && i < MAX_SEARCH_RESULTS
            invariant
                i <= results@.len(),
                i <= MAX_SEARCH_RESULTS,
                models == results.deep_view(),
                before == self.deep_view(),
                kept@.len() == i,
                forall|j: int|
                    0 <= j < i ==> (#[trigger] kept@[j]).deep_view() == (ResultModel {
                        identity: enriched(before.identity_by_tool_name, models[j].identity),
                        ..models[j]
                    }),
            decreases results@.len() - i,
        {
            let mut result = results[i].clone();
            assert(models[i as int] == results@[i as int].deep_view());
            enrich_identity(&self.state, &mut result.identity);
            kept.push(result);
            i += 1;
        }
        let snapshot = SearchSnapshot {
            stage: "bm25_search_results".to_string(),
            inventory_generation: self.state.inventory_generation.clone(),
            query: tool_identity::bounded(query.to_string(), MAX_QUERY_CHARS),
            requested_limit,
            returned_count,
            results: kept,
            results_truncated,
        };
        let ghost model = search_snapshot(before, query@, requested_limit, returned_count, models);
        assert(snapshot.results.deep_view() =~= model.results);
        assert(snapshot.deep_view() == model);
        self.state.searches.push_back(snapshot);
        let ghost grown = before.searches.push(model);
        assert(self.deep_view().searches =~= grown);
        assert(grown.skip(0) =~= grown);
        while self.state.searches.len() > MAX_SEARCHES
            invariant
                self.deep_view() == (RecorderModel {
                    searches: grown.skip(grown.len() - self.deep_view().searches.len()),
                    ..before
                }),
                self.deep_view().searches.len() <= grown.len(),
                self.deep_view().searches.len() == self.state.searches@.len(),
                self.deep_view().searches.len() >= MAX_SEARCHES || self.deep_view().searches.len()
                    == grown.len(),
            decreases self.state.searches@.len(),
        {
            let ghost kept_models = self.deep_view().searches;
            let _oldest = self.state.searches.pop_front();
            assert(self.deep_view().searches =~= kept_models.drop_first());
            assert(self.deep_view().searches =~= grown.skip(
                grown.len() - self.deep_view().searches.len(),
            ));
        }
        assert(self.deep_view().searches =~= latest(grown, MAX_SEARCHES as nat));
    }

    /// What the recorder reports for the thread `thread_id` of the session
    /// `session_id`.
    pub fn feedback_snapshot(&self, thread_id: String, session_id: String) -> (report: Option<
        FeedbackSnapshot,
    >)
        ensures
            report.deep_view() == feedback(self.deep_view(), thread_id@, session_id@),
    {
        let count = self.state.stages.len();
        if count == 0 && self.state.searches.len() == 0 {
            return None;
        }
        let ghost state = self.deep_view();
        let ghost names = text_map::ordered_keys(state.stages);
        let mut stages: Vec<StageSnapshot> = Vec::new();
        let mut i: usize = 0;
        while i < count
            invariant
                i <= count,
                count == names.len(),
                state == self.deep_view(),
                names == text_map::ordered_keys(state.stages),
                stages@.len() == i,
                forall|j: int|
                    0 <= j < i ==> (#[trigger] stages@[j]).deep_view() == state.stages[names[j]],
            decreases count - i,
        {
            stages.push(self.state.stages.value_at(i).clone());
            i += 1;
        }
        assert(stages.deep_view() =~= Seq::new(names.len(), |i: int| state.stages[names[i]]));
        let mut searches: Vec<SearchSnapshot> = Vec::new();
        let mut k: usize = 0;
        while k < self.state.searches.len()
            invariant
                k <= self.state.searches@.len(),
                state == self.deep_view(),
                searches@.len() == k,
                forall|j: int|
                    0 <= j < k ==> (#[trigger] searches@[j]).deep_view() == state.searches[j],
            decreases self.state.searches@.len() - k,
        {
            searches.push(self.state.searches[k].clone());
            k += 1;
        }
        assert(searches.deep_view() =~= state.searches);
        Some(
            FeedbackSnapshot {
                version: 1,
                thread_id,
                session_id,
                inventory_generation: self.state.inventory_generation.clone(),
                limits: FeedbackLimits {
                    max_stage_identities: MAX_STAGE_IDENTITIES,
                    max_stage_changes: MAX_STAGE_CHANGES,
                    max_excluded_identities: MAX_EXCLUDED_IDENTITIES,
                    max_searches: MAX_SEARCHES,
                    max_search_results: MAX_SEARCH_RESULTS,
                    max_identity_chars: MAX_IDENTITY_CHARS,
                    max_query_chars: MAX_QUERY_CHARS,
                },
                stages,
                searches,
            },
        )
    }

    fn record_search_info_stage(
        &mut self,
        stage: &str,
        search_infos: &Vec<ToolSearchInfo>,
        cache_state: &str,
    )
        ensures
            final(self).deep_view() == search_infos_recorded(
                old(self).deep_view(),
                stage@,
                search_infos.deep_view(),
                cache_state@,
            ),
    {
        let ghost before = self.deep_view();
        let ghost models = search_infos.deep_view();
        let mut identities: Vec<DiagnosticToolIdentity> = Vec::new();
        let mut i: usize = 0;
        while i < search_infos.len()
            invariant
                i <= search_infos@.len(),
                models == search_infos.deep_view(),
                before == self.deep_view(),
                identities@.len() == i,
                forall|j: int|
                    0 <= j < i ==> (#[trigger] identities@[j]).deep_view() == enriched(
                        before.identity_by_tool_name,
                        tool_identity::search_info_identity(models[j]),
                    ),
            decreases search_infos@.len() - i,
        {
            let mut identity = DiagnosticToolIdentity::from_search_info(&search_infos[i]);
            assert(models[i as int] == search_infos@[i as int].deep_view());
            enrich_identity(&self.state, &mut identity);
            identities.push(identity);
            i += 1;
        }
        assert(identities.deep_view() =~= Seq::new(
            models.len(),
            |i: int|
                enriched(
                    before.identity_by_tool_name,
                    tool_identity::search_info_identity(models[i]),
                ),
        ));
        let mut metadata = StageMetadata::default();
        metadata.cache_state = Some(cache_state.to_string());
        let none_excluded: Vec<ToolExposureDecision> = Vec::new();
        assert(none_excluded.deep_view() =~= Seq::<DecisionModel>::empty());
        let generation = self.state.inventory_generation.clone();
        record_stage(
            &mut self.state,
            stage,
            generation.as_str(),
            identities,
            metadata,
            none_excluded,
        );
    }
}

}
