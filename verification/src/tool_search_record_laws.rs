//! What the tool-search diagnostics record, operation by operation.

use vstd::prelude::*;
use vstd::utf8::*;
use crate::digest;
use crate::mcp_diagnostics::{self, McpDiagnosticsModel, ResponseModel, ToolSearchToolsListSource};
use crate::order;
use crate::text_map;
use crate::tool_identity::{
    self, DiagnosticModel, DiagnosticToolIdentity, SearchInfoModel,
};
use crate::tool_identity_laws;
use crate::tool_info::ToolInfoModel;
use crate::tool_search_laws;
use crate::tool_search_recorder::{
    self, DecisionModel, MetadataModel, RecorderModel, ResultModel,
};

verus! {

/// The identity was completed from the index: where the index holds its tool name,
/// it has the server, the names, the connector and the plugins of the entry, and
/// its own connector name only where the entry has none. Else it is as it was.
pub open spec fn is_completed(
    identity: DiagnosticModel,
    given: DiagnosticModel,
    index: Map<Seq<char>, DiagnosticModel>,
) -> bool {
    &&& given.tool_name matches Some(name) ==> index.dom().contains(name) ==> {
        &&& identity.server_name == index[name].server_name
        &&& identity.raw_tool_name == index[name].raw_tool_name
        &&& identity.tool_name == index[name].tool_name
        &&& identity.connector_id == index[name].connector_id
        &&& identity.plugin_display_names == index[name].plugin_display_names
        &&& index[name].connector_name is Some ==> identity.connector_name
            == index[name].connector_name
        &&& index[name].connector_name is None ==> identity.connector_name == given.connector_name
    }
    &&& given.tool_name matches Some(name) ==> !index.dom().contains(name) ==> identity == given
    &&& given.tool_name is None ==> identity == given
}

/// Completing an identity takes over what the index knows of the tool.
pub proof fn identities_are_completed_from_the_index(
    index: Map<Seq<char>, DiagnosticModel>,
    given: DiagnosticModel,
)
    ensures
        is_completed(tool_search_recorder::enriched(index, given), given, index),
{
}

/// A search is recorded as the latest, with its query, its limits and the first
/// hundred of its results. Every kept result has the rank, the score and the document
/// that it came with, and its identity is completed from the index.
pub proof fn searches_tell_which_tools_were_found(
    state: RecorderModel,
    query: Seq<char>,
    requested_limit: usize,
    returned_count: usize,
    results: Seq<ResultModel>,
)
    ensures
        ({
            let next = tool_search_recorder::search_recorded(
                state,
                query,
                requested_limit,
                returned_count,
                results,
            );
            let search = next.searches[next.searches.len() - 1];
            &&& next.searches.len() >= 1
            &&& search.stage == "bm25_search_results"@
            &&& search.inventory_generation == state.inventory_generation
            &&& tool_identity_laws::keeps(search.query, query, 256)
            &&& search.requested_limit == requested_limit
            &&& search.returned_count == returned_count
            &&& search.results.len() == (if results.len() < 100 {
                results.len() as int
            } else {
                100
            })
            &&& search.results_truncated <==> results.len() > 100
            &&& forall|i: int|
                0 <= i < search.results.len() ==> {
                    &&& (#[trigger] search.results[i]).rank == results[i].rank
                    &&& search.results[i].score_bits == results[i].score_bits
                    &&& search.results[i].document_index == results[i].document_index
                    &&& is_completed(
                        search.results[i].identity,
                        results[i].identity,
                        state.identity_by_tool_name,
                    )
                }
        }),
{
}

/// Recording a search keeps the searches before it, but for the oldest where there
/// would be more than 32, and leaves all else as it is.
pub proof fn the_latest_searches_are_kept(
    state: RecorderModel,
    query: Seq<char>,
    requested_limit: usize,
    returned_count: usize,
    results: Seq<ResultModel>,
)
    ensures
        ({
            let next = tool_search_recorder::search_recorded(
                state,
                query,
                requested_limit,
                returned_count,
                results,
            );
            let before = state.searches.len();
            &&& before < 32 ==> next.searches.len() == before + 1 && forall|i: int|
                0 <= i < before ==> #[trigger] next.searches[i] == state.searches[i]
            &&& before >= 32 ==> next.searches.len() == 32 && forall|i: int|
                0 <= i < 31 ==> #[trigger] next.searches[i] == state.searches[before - 31 + i]
            &&& next.stages == state.stages
            &&& next.identity_by_tool_name == state.identity_by_tool_name
            &&& next.inventory_generation == state.inventory_generation
        }),
{
}

/// A stage that was recorded tells the generation, the metadata and the first of the
/// exclusions, as many as there are up to 256. It counts the distinct identities,
/// unless its metadata gives another count.
pub proof fn stages_tell_what_they_were_given(
    state: RecorderModel,
    stage: Seq<char>,
    generation: Seq<char>,
    identities: Seq<DiagnosticModel>,
    metadata: MetadataModel,
    excluded: Seq<DecisionModel>,
)
    requires
        identities.len() <= usize::MAX,
    ensures
        ({
            let next = tool_search_recorder::stage_recorded(
                state,
                stage,
                generation,
                identities,
                metadata,
                excluded,
            );
            let snapshot = next.stages[stage];
            let listing = order::sorted_distinct::<DiagnosticToolIdentity>(identities);
            &&& next.stages.dom() == state.stages.dom().insert(stage)
            &&& snapshot.inventory_generation == generation
            &&& snapshot.metadata == metadata
            &&& metadata.total_count_override matches Some(count) ==> snapshot.total_count == count
            &&& metadata.total_count_override is None ==> snapshot.total_count == listing.len()
            &&& snapshot.identities_truncated <==> metadata.upstream_identities_truncated
                || listing.len() > 256
            &&& snapshot.excluded.len() == (if excluded.len() < 256 {
                excluded.len() as int
            } else {
                256
            })
            &&& forall|i: int|
                0 <= i < snapshot.excluded.len() ==> #[trigger] snapshot.excluded[i] == excluded[i]
            &&& snapshot.excluded_truncated <==> excluded.len() > 256
            &&& next.searches == state.searches
            &&& next.inventory_generation == state.inventory_generation
            &&& forall|name: Seq<char>| #[trigger]
                state.stages.dom().contains(name) && name != stage ==> next.stages[name]
                    == state.stages[name]
        }),
{
    order::every_sequence_has_a_listing::<DiagnosticToolIdentity>(identities);
}

/// The fingerprint by which a stage is told apart: the one that its metadata gives,
/// or the digest over the keys of its distinct identities.
pub open spec fn stamp_of(
    identities: Seq<DiagnosticModel>,
    metadata: MetadataModel,
    stamp: Seq<char>,
) -> bool {
    &&& metadata.fingerprint_override matches Some(given) ==> stamp == given
    &&& metadata.fingerprint_override is None ==> stamp
        == tool_search_recorder::identities_fingerprint(
        order::sorted_distinct::<DiagnosticToolIdentity>(identities),
    )
}

/// A stage with a new fingerprint lists the first of its distinct identities in
/// order, as many as there are up to 256, under its name and its fingerprint. Every
/// listed identity with a tool name can be looked up under it, and what is looked up
/// under the name of a listed identity is a listed identity of that name. Nothing
/// else in the index changes.
pub proof fn new_stages_list_and_index_their_identities(
    state: RecorderModel,
    stage: Seq<char>,
    generation: Seq<char>,
    identities: Seq<DiagnosticModel>,
    metadata: MetadataModel,
    excluded: Seq<DecisionModel>,
    stamp: Seq<char>,
)
    requires
        stamp_of(identities, metadata, stamp),
        !state.stages.dom().contains(stage) || state.stages[stage].fingerprint != stamp,
    ensures
        ({
            let next = tool_search_recorder::stage_recorded(
                state,
                stage,
                generation,
                identities,
                metadata,
                excluded,
            );
            let snapshot = next.stages[stage];
            let listing = order::sorted_distinct::<DiagnosticToolIdentity>(identities);
            let index = next.identity_by_tool_name;
            &&& snapshot.stage == stage
            &&& snapshot.fingerprint == stamp
            &&& snapshot.identities.len() == (if listing.len() < 256 {
                listing.len() as int
            } else {
                256
            })
            &&& forall|i: int|
                0 <= i < snapshot.identities.len() ==> #[trigger] snapshot.identities[i]
                    == listing[i]
            &&& forall|i: int|
                0 <= i < snapshot.identities.len() ==> ((
                #[trigger] snapshot.identities[i]).tool_name matches Some(name) ==> {
                    &&& index.dom().contains(name)
                    &&& index[name].tool_name == Some(name)
                    &&& snapshot.identities.contains(index[name])
                })
            &&& forall|name: Seq<char>|
                (forall|i: int|
                    0 <= i < snapshot.identities.len() ==> (
                    #[trigger] snapshot.identities[i]).tool_name != Some(name)) ==> (
                #[trigger] index.dom().contains(name)
                    <==> state.identity_by_tool_name.dom().contains(name)) && index[name]
                    == state.identity_by_tool_name[name]
        }),
{
    let listing = order::sorted_distinct::<DiagnosticToolIdentity>(identities);
    let kept = tool_search_recorder::first(listing, 256);
    let next = tool_search_recorder::stage_recorded(
        state,
        stage,
        generation,
        identities,
        metadata,
        excluded,
    );
    assert(next.stages[stage].identities == kept);
    assert(next.identity_by_tool_name == tool_search_recorder::indexed(
        state.identity_by_tool_name,
        kept,
    ));
    lemma_indexed(state.identity_by_tool_name, kept);
}

proof fn lemma_indexed(index: Map<Seq<char>, DiagnosticModel>, kept: Seq<DiagnosticModel>)
    ensures
        ({
            let grown = tool_search_recorder::indexed(index, kept);
            &&& forall|i: int|
                0 <= i < kept.len() ==> ((#[trigger] kept[i]).tool_name matches Some(name) ==> {
                    &&& grown.dom().contains(name)
                    &&& grown[name].tool_name == Some(name)
                    &&& kept.contains(grown[name])
                })
            &&& forall|name: Seq<char>|
                (forall|i: int|
                    0 <= i < kept.len() ==> (#[trigger] kept[i]).tool_name != Some(name)) ==> (
                #[trigger] grown.dom().contains(name) <==> index.dom().contains(name))
                    && grown[name] == index[name]
        }),
    decreases kept.len(),
{
    let grown = tool_search_recorder::indexed(index, kept);
    if kept.len() > 0 {
        let front = kept.drop_last();
        let rest = tool_search_recorder::indexed(index, front);
        let last = kept.len() - 1;
        lemma_indexed(index, front);
        assert forall|i: int| 0 <= i < kept.len() implies ((#[trigger] kept[i]).tool_name matches
            Some(name) ==> {
            &&& grown.dom().contains(name)
            &&& grown[name].tool_name == Some(name)
            &&& kept.contains(grown[name])
        }) by {
            if kept[i].tool_name is Some {
                let name = kept[i].tool_name->Some_0;
                if kept[last].tool_name == Some(name) {
                    assert(grown[name] == kept[last]);
                } else {
                    assert(i < last);
                    assert(front[i] == kept[i]);
                    assert(front.contains(rest[name]));
                    let k = choose|k: int| 0 <= k < front.len() && front[k] == rest[name];
                    assert(kept[k] == rest[name]);
                    assert(grown[name] == rest[name]);
                }
            }
        }
        assert forall|name: Seq<char>|
            (forall|i: int|
                0 <= i < kept.len() ==> (#[trigger] kept[i]).tool_name != Some(name)) implies (
        #[trigger] grown.dom().contains(name) <==> index.dom().contains(name)) && grown[name]
            == index[name] by {
            assert(kept[last].tool_name != Some(name));
            assert forall|i: int| 0 <= i < front.len() implies (#[trigger] front[i]).tool_name
                != Some(name) by {
                assert(front[i] == kept[i]);
            }
            assert(rest.dom().contains(name) <==> index.dom().contains(name));
        }
    }
}

/// Of the listed identities with one tool name the last is the one that is looked up.
pub proof fn the_last_identity_of_a_name_is_looked_up(
    index: Map<Seq<char>, DiagnosticModel>,
    kept: Seq<DiagnosticModel>,
    i: int,
)
    requires
        0 <= i < kept.len(),
        kept[i].tool_name is Some,
        forall|j: int| i < j < kept.len() ==> (#[trigger] kept[j]).tool_name != kept[i].tool_name,
    ensures
        tool_search_recorder::indexed(index, kept).dom().contains(kept[i].tool_name->Some_0),
        tool_search_recorder::indexed(index, kept)[kept[i].tool_name->Some_0] == kept[i],
    decreases kept.len(),
{
    if i < kept.len() - 1 {
        let front = kept.drop_last();
        assert(kept[kept.len() - 1].tool_name != kept[i].tool_name);
        assert(front[i] == kept[i]);
        the_last_identity_of_a_name_is_looked_up(index, front, i);
    }
}

/// A stage whose fingerprint did not change keeps what it listed and which changes
/// it told, and the index stays as it is.
pub proof fn unchanged_stages_keep_their_identities(
    state: RecorderModel,
    stage: Seq<char>,
    generation: Seq<char>,
    identities: Seq<DiagnosticModel>,
    metadata: MetadataModel,
    excluded: Seq<DecisionModel>,
    stamp: Seq<char>,
)
    requires
        stamp_of(identities, metadata, stamp),
        state.stages.dom().contains(stage),
        state.stages[stage].fingerprint == stamp,
    ensures
        ({
            let next = tool_search_recorder::stage_recorded(
                state,
                stage,
                generation,
                identities,
                metadata,
                excluded,
            );
            let before = state.stages[stage];
            let snapshot = next.stages[stage];
            &&& snapshot.stage == before.stage
            &&& snapshot.fingerprint == stamp
            &&& snapshot.identities == before.identities
            &&& snapshot.added == before.added
            &&& snapshot.removed == before.removed
            &&& snapshot.changes_truncated == before.changes_truncated
            &&& next.identity_by_tool_name == state.identity_by_tool_name
        }),
{
}

/// The key is that of one of the identities.
pub open spec fn has_key(identities: Seq<DiagnosticModel>, key: Seq<char>) -> bool {
    exists|i: int|
        0 <= i < identities.len() && tool_identity::identity_key(#[trigger] identities[i]) == key
}

/// A stage with a new fingerprint tells which keys came, and which went, since it was
/// recorded before. It tells the first 128 of each in order: every key that is told
/// came, or went, and one that came and is not told comes behind 128 that are.
pub proof fn new_stages_tell_what_changed(
    state: RecorderModel,
    stage: Seq<char>,
    generation: Seq<char>,
    identities: Seq<DiagnosticModel>,
    metadata: MetadataModel,
    excluded: Seq<DecisionModel>,
    stamp: Seq<char>,
    held: Seq<DiagnosticModel>,
)
    requires
        stamp_of(identities, metadata, stamp),
        !state.stages.dom().contains(stage) ==> held.len() == 0,
        state.stages.dom().contains(stage) ==> held == state.stages[stage].identities
            && state.stages[stage].fingerprint != stamp,
    ensures
        ({
            let snapshot = tool_search_recorder::stage_recorded(
                state,
                stage,
                generation,
                identities,
                metadata,
                excluded,
            ).stages[stage];
            let given = snapshot.identities;
            &&& snapshot.added.len() <= 128
            &&& snapshot.removed.len() <= 128
            &&& forall|key: Seq<char>| #[trigger]
                snapshot.added.contains(key) ==> has_key(given, key) && !has_key(held, key)
            &&& forall|key: Seq<char>| #[trigger]
                snapshot.removed.contains(key) ==> has_key(held, key) && !has_key(given, key)
            &&& forall|key: Seq<char>|
                has_key(given, key) && !has_key(held, key) ==> #[trigger] snapshot.added.contains(
                    key,
                ) || (snapshot.added.len() == 128 && snapshot.changes_truncated && forall|i: int|
                    0 <= i < 128 ==> order::precedes::<String>(
                        #[trigger] snapshot.added[i],
                        key,
                    ))
            &&& forall|key: Seq<char>|
                has_key(held, key) && !has_key(given, key)
                    ==> #[trigger] snapshot.removed.contains(key) || (snapshot.removed.len() == 128
                    && snapshot.changes_truncated && forall|i: int|
                    0 <= i < 128 ==> order::precedes::<String>(
                        #[trigger] snapshot.removed[i],
                        key,
                    ))
            &&& forall|i: int, j: int|
                0 <= i < j < snapshot.added.len() ==> order::precedes::<String>(
                    #[trigger] snapshot.added[i],
                    #[trigger] snapshot.added[j],
                )
            &&& forall|i: int, j: int|
                0 <= i < j < snapshot.removed.len() ==> order::precedes::<String>(
                    #[trigger] snapshot.removed[i],
                    #[trigger] snapshot.removed[j],
                )
            &&& snapshot.changes_truncated ==> metadata.upstream_identities_truncated
                || snapshot.added.len() == 128 || snapshot.removed.len() == 128
            &&& metadata.upstream_identities_truncated ==> snapshot.changes_truncated
        }),
{
    let listing = order::sorted_distinct::<DiagnosticToolIdentity>(identities);
    let given = tool_search_recorder::first(listing, 256);
    let now = tool_search_recorder::keys_of(given);
    let then = tool_search_recorder::keys_of(held);
    let snapshot = tool_search_recorder::stage_recorded(
        state,
        stage,
        generation,
        identities,
        metadata,
        excluded,
    ).stages[stage];
    assert(snapshot.identities == given);
    assert(tool_search_recorder::retained_before(state, stage) =~= then);
    let came = tool_search_recorder::new_keys(now, then);
    let went = tool_search_recorder::new_keys(then, now);
    assert(snapshot.added == tool_search_recorder::first(came, 128));
    assert(snapshot.removed == tool_search_recorder::first(went, 128));
    lemma_first_of_listing(now, then);
    lemma_first_of_listing(then, now);
    assert forall|key: Seq<char>| has_key(given, key) <==> #[trigger] now.contains(key) by {
        lemma_keys(given, key);
    }
    assert forall|key: Seq<char>| has_key(held, key) <==> #[trigger] then.contains(key) by {
        lemma_keys(held, key);
    }
    assert forall|key: Seq<char>| #[trigger] snapshot.added.contains(key) implies has_key(
        given,
        key,
    ) && !has_key(held, key) by {
        assert(came.contains(key));
        assert(now.contains(key) && !then.contains(key));
    }
    assert forall|key: Seq<char>| #[trigger] snapshot.removed.contains(key) implies has_key(
        held,
        key,
    ) && !has_key(given, key) by {
        assert(went.contains(key));
        assert(then.contains(key) && !now.contains(key));
    }
    assert forall|key: Seq<char>|
        has_key(given, key) && !has_key(held, key) implies #[trigger] snapshot.added.contains(key)
        || (snapshot.added.len() == 128 && snapshot.changes_truncated && forall|i: int|
        0 <= i < 128 ==> order::precedes::<String>(#[trigger] snapshot.added[i], key)) by {
        assert(now.contains(key) && !then.contains(key));
        assert(came.contains(key));
    }
    assert forall|key: Seq<char>|
        has_key(held, key) && !has_key(given, key) implies #[trigger] snapshot.removed.contains(
        key,
    ) || (snapshot.removed.len() == 128 && snapshot.changes_truncated && forall|i: int|
        0 <= i < 128 ==> order::precedes::<String>(#[trigger] snapshot.removed[i], key)) by {
        assert(then.contains(key) && !now.contains(key));
        assert(went.contains(key));
    }
}

proof fn lemma_keys(identities: Seq<DiagnosticModel>, key: Seq<char>)
    ensures
        has_key(identities, key) <==> tool_search_recorder::keys_of(identities).contains(key),
{
    let keys = tool_search_recorder::keys_of(identities);
    if has_key(identities, key) {
        let i = choose|i: int|
            0 <= i < identities.len() && tool_identity::identity_key(#[trigger] identities[i])
                == key;
        assert(keys[i] == key);
    }
    if keys.contains(key) {
        let i = choose|i: int| 0 <= i < keys.len() && keys[i] == key;
        assert(tool_identity::identity_key(identities[i]) == key);
    }
}

proof fn lemma_first_of_listing(keys: Seq<Seq<char>>, others: Seq<Seq<char>>)
    ensures
        ({
            let all = tool_search_recorder::new_keys(keys, others);
            let told = tool_search_recorder::first(all, 128);
            &&& forall|key: Seq<char>| #[trigger]
                all.contains(key) <==> keys.contains(key) && !others.contains(key)
            &&& forall|key: Seq<char>| #[trigger] told.contains(key) ==> all.contains(key)
            &&& forall|key: Seq<char>|
                all.contains(key) ==> #[trigger] told.contains(key) || (told.len() == 128
                    && all.len() > 128 && forall|i: int|
                    0 <= i < 128 ==> order::precedes::<String>(#[trigger] told[i], key))
            &&& forall|i: int, j: int|
                0 <= i < j < told.len() ==> order::precedes::<String>(
                    #[trigger] told[i],
                    #[trigger] told[j],
                )
        }),
{
    let all = tool_search_recorder::new_keys(keys, others);
    let told = tool_search_recorder::first(all, 128);
    tool_search_laws::changes_are_the_difference(keys, others);
    assert forall|key: Seq<char>| #[trigger] told.contains(key) implies all.contains(key) by {
        let i = choose|i: int| 0 <= i < told.len() && told[i] == key;
        assert(all[i] == key);
    }
    assert forall|key: Seq<char>| all.contains(key) implies #[trigger] told.contains(key) || (
    told.len() == 128 && all.len() > 128 && forall|i: int|
        0 <= i < 128 ==> order::precedes::<String>(#[trigger] told[i], key)) by {
        let k = choose|k: int| 0 <= k < all.len() && all[k] == key;
        if k < told.len() {
            assert(told[k] == key);
        } else {
            assert forall|i: int| 0 <= i < 128 implies order::precedes::<String>(
                #[trigger] told[i],
                key,
            ) by {
                assert(order::precedes::<String>(all[i], all[k]));
            }
        }
    }
    assert forall|i: int, j: int| 0 <= i < j < told.len() implies order::precedes::<String>(
        #[trigger] told[i],
        #[trigger] told[j],
    ) by {
        assert(order::precedes::<String>(all[i], all[j]));
    }
}

/// Each identity adds its key, and a zero behind it, to the bytes under a
/// fingerprint.
pub proof fn each_key_adds_its_bytes(identities: Seq<DiagnosticModel>, identity: DiagnosticModel)
    ensures
        tool_search_recorder::identities_fingerprint(identities) == digest::fingerprint_text(
            tool_search_recorder::key_bytes(identities),
        ),
        tool_search_recorder::key_bytes(Seq::empty()).len() == 0,
        tool_search_recorder::key_bytes(identities.push(identity))
            == tool_search_recorder::key_bytes(identities) + encode_utf8(
            tool_identity::identity_key(identity),
        ).push(0),
{
    assert(identities.push(identity).drop_last() =~= identities);
}

/// Hexadecimal text has two digits for each byte, the upper half first, in lower
/// case, and a fingerprint is that of the digest.
pub proof fn fingerprints_are_digests_in_hexadecimal(data: Seq<u8>, i: int)
    requires
        0 <= i < data.len(),
    ensures
        digest::fingerprint_text(data) == digest::hex(digest::sha1_digest(data)),
        ({
            let told = digest::hex(data);
            let high = data[i] / 16;
            let low = data[i] % 16;
            &&& told.len() == 2 * data.len()
            &&& told[2 * i] as u32 == (if high < 10 {
                48 + high
            } else {
                87 + high
            })
            &&& told[2 * i + 1] as u32 == (if low < 10 {
                48 + low
            } else {
                87 + low
            })
        }),
{
}

/// One response more adds its tools to the count, its identities behind those of the
/// others, and its server and its fingerprint to the bytes.
pub proof fn each_response_adds_to_what_was_observed(
    responses: Seq<ResponseModel>,
    response: ResponseModel,
)
    ensures
        tool_search_recorder::raw_total(Seq::empty()) == 0,
        tool_search_recorder::raw_total(responses.push(response))
            == tool_search_recorder::raw_total(responses) + response.total_count,
        tool_search_recorder::raw_identities(Seq::empty()).len() == 0,
        ({
            let before = tool_search_recorder::raw_identities(responses);
            let after = tool_search_recorder::raw_identities(responses.push(response));
            &&& after.len() == before.len() + response.identities.len()
            &&& forall|i: int| 0 <= i < before.len() ==> #[trigger] after[i] == before[i]
            &&& forall|i: int|
                before.len() <= i < after.len() ==> #[trigger] after[i]
                    == tool_identity::diagnostic_identity(response.identities[i - before.len()])
        }),
        tool_search_recorder::response_bytes(Seq::empty()).len() == 0,
        tool_search_recorder::response_bytes(responses.push(response))
            == tool_search_recorder::response_bytes(responses) + encode_utf8(
            response.server_name,
        ).push(0) + encode_utf8(response.fingerprint).push(0),
{
    assert(responses.push(response).drop_last() =~= responses);
}

/// The name by which a source is told.
pub open spec fn told_source(source: ToolSearchToolsListSource) -> Seq<char> {
    match source {
        ToolSearchToolsListSource::LiveResponse => "LiveResponse"@,
        ToolSearchToolsListSource::CachedToolsWithoutLiveResponse => {
            "CachedToolsWithoutLiveResponse"@
        },
        ToolSearchToolsListSource::NotObserved => "NotObserved"@,
    }
}

/// The listed identities are the first of the distinct given ones in order, as many as
/// there are up to 256.
pub open spec fn lists_first(listed: Seq<DiagnosticModel>, given: Seq<DiagnosticModel>) -> bool {
    let listing = order::sorted_distinct::<DiagnosticToolIdentity>(given);
    &&& listed.len() == (if listing.len() < 256 {
        listing.len() as int
    } else {
        256
    })
    &&& forall|i: int| 0 <= i < listed.len() ==> #[trigger] listed[i] == listing[i]
}

/// An MCP snapshot makes two stages, what the servers returned and the inventory,
/// under the fingerprint of the inventory as the new generation. Both tell how many
/// servers there are, and the first also what came of each, how many tools there were,
/// and whether some were left out. The other stages and the searches stay.
pub proof fn snapshots_record_responses_and_inventory(
    state: RecorderModel,
    mcp: McpDiagnosticsModel,
    inventory: Seq<ToolInfoModel>,
)
    requires
        tool_search_recorder::raw_total(mcp.tools_list_responses) <= usize::MAX,
        inventory.len() <= usize::MAX,
    ensures
        ({
            let next = tool_search_recorder::mcp_recorded(state, mcp, inventory);
            let responses = mcp.tools_list_responses;
            let observed = next.stages["mcp_tools_list_response"@];
            let listed = next.stages["mcp_inventory_snapshot"@];
            let identities = Seq::new(
                inventory.len(),
                |i: int|
                    tool_identity::diagnostic_identity(
                        mcp_diagnostics::tool_identity(inventory[i]),
                    ),
            );
            &&& next.stages.dom() == state.stages.dom().insert("mcp_tools_list_response"@).insert(
                "mcp_inventory_snapshot"@,
            )
            &&& next.inventory_generation == tool_search_recorder::identities_fingerprint(
                identities,
            )
            &&& observed.inventory_generation == next.inventory_generation
            &&& listed.inventory_generation == next.inventory_generation
            &&& observed.metadata.server_count == Some(mcp.server_count)
            &&& observed.metadata.cached_server_count == Some(mcp.cached_server_count)
            &&& observed.metadata.startup_complete_server_count == Some(
                mcp.startup_complete_server_count,
            )
            &&& listed.metadata == reports(
                Some(mcp.server_count),
                Some(mcp.cached_server_count),
                Some(mcp.startup_complete_server_count),
                None,
                None,
                None,
            )
            &&& observed.total_count == tool_search_recorder::raw_total(responses)
            &&& listed.total_count == order::sorted_distinct::<DiagnosticToolIdentity>(
                identities,
            ).len()
            &&& observed.metadata.observation_sources.len() == responses.len()
            &&& forall|i: int|
                0 <= i < responses.len() ==> #[trigger] observed.metadata.observation_sources[i]
                    == responses[i].server_name + "="@ + told_source(responses[i].source)
            &&& observed.identities_truncated <==> (exists|i: int|
                0 <= i < responses.len() && (#[trigger] responses[i]).identities_truncated)
                || order::sorted_distinct::<DiagnosticToolIdentity>(
                tool_search_recorder::raw_identities(responses),
            ).len() > 256
            &&& listed.identities_truncated <==> order::sorted_distinct::<DiagnosticToolIdentity>(
                identities,
            ).len() > 256
            &&& !state.stages.dom().contains("mcp_tools_list_response"@) ==> lists_first(
                observed.identities,
                tool_search_recorder::raw_identities(responses),
            )
            &&& !state.stages.dom().contains("mcp_inventory_snapshot"@) ==> lists_first(
                listed.identities,
                identities,
            )
            &&& observed.fingerprint == digest::fingerprint_text(
                tool_search_recorder::response_bytes(responses),
            )
            &&& listed.metadata.fingerprint_override is None
            &&& observed.metadata.included_count is None
            &&& observed.metadata.search_tool_enabled is None
            &&& observed.metadata.cache_state is None
            &&& observed.metadata.upstream_identities_truncated <==> exists|i: int|
                0 <= i < responses.len() && (#[trigger] responses[i]).identities_truncated
            &&& observed.excluded.len() == 0
            &&& listed.excluded.len() == 0
            &&& next.searches == state.searches
            &&& forall|name: Seq<char>| #[trigger]
                state.stages.dom().contains(name) && name != "mcp_tools_list_response"@ && name
                    != "mcp_inventory_snapshot"@ ==> next.stages[name] == state.stages[name]
        }),
{
    let identities = Seq::new(
        inventory.len(),
        |i: int|
            tool_identity::diagnostic_identity(mcp_diagnostics::tool_identity(inventory[i])),
    );
    assert(identities =~= tool_search_recorder::inventory_identities(inventory));
    order::every_sequence_has_a_listing::<DiagnosticToolIdentity>(identities);
    reveal_strlit("mcp_tools_list_response");
    reveal_strlit("mcp_inventory_snapshot");
    assert("mcp_tools_list_response"@.len() != "mcp_inventory_snapshot"@.len());
}

/// What an MCP snapshot leaves to be looked up is of this snapshot: every entry is an
/// identity that a response or the inventory holds, under its own tool name. Nothing
/// of an earlier inventory is left.
pub proof fn earlier_inventories_are_forgotten(
    state: RecorderModel,
    mcp: McpDiagnosticsModel,
    inventory: Seq<ToolInfoModel>,
    name: Seq<char>,
)
    ensures
        ({
            let index = tool_search_recorder::mcp_recorded(
                state,
                mcp,
                inventory,
            ).identity_by_tool_name;
            let identities = Seq::new(
                inventory.len(),
                |i: int|
                    tool_identity::diagnostic_identity(
                        mcp_diagnostics::tool_identity(inventory[i]),
                    ),
            );
            index.dom().contains(name) ==> index[name].tool_name == Some(name) && (
            tool_search_recorder::raw_identities(mcp.tools_list_responses).contains(index[name])
                || identities.contains(index[name]))
        }),
{
    let raw = tool_search_recorder::raw_identities(mcp.tools_list_responses);
    let identities = tool_search_recorder::inventory_identities(inventory);
    assert(identities =~= Seq::new(
        inventory.len(),
        |i: int|
            tool_identity::diagnostic_identity(mcp_diagnostics::tool_identity(inventory[i])),
    ));
    let none = Map::<Seq<char>, DiagnosticModel>::empty();
    let first = tool_search_recorder::first(
        order::sorted_distinct::<DiagnosticToolIdentity>(raw),
        256,
    );
    let second = tool_search_recorder::first(
        order::sorted_distinct::<DiagnosticToolIdentity>(identities),
        256,
    );
    lemma_listed_is_given(raw);
    lemma_listed_is_given(identities);
    let index = tool_search_recorder::mcp_recorded(state, mcp, inventory).identity_by_tool_name;
    let early = tool_search_recorder::indexed(none, first);
    assert(index == none || index == early || index == tool_search_recorder::indexed(none, second)
        || index == tool_search_recorder::indexed(early, second));
    lemma_entry(none, first, name);
    lemma_entry(none, second, name);
    lemma_entry(early, second, name);
}

proof fn lemma_listed_is_given(given: Seq<DiagnosticModel>)
    ensures
        ({
            let kept = tool_search_recorder::first(
                order::sorted_distinct::<DiagnosticToolIdentity>(given),
                256,
            );
            forall|x: DiagnosticModel| #[trigger] kept.contains(x) ==> given.contains(x)
        }),
{
    let listing = order::sorted_distinct::<DiagnosticToolIdentity>(given);
    let kept = tool_search_recorder::first(listing, 256);
    order::every_sequence_has_a_listing::<DiagnosticToolIdentity>(given);
    assert forall|x: DiagnosticModel| #[trigger] kept.contains(x) implies given.contains(x) by {
        let k = choose|k: int| 0 <= k < kept.len() && kept[k] == x;
        assert(listing[k] == x);
        assert(listing.contains(x));
    }
}

proof fn lemma_entry(
    index: Map<Seq<char>, DiagnosticModel>,
    kept: Seq<DiagnosticModel>,
    name: Seq<char>,
)
    ensures
        ({
            let grown = tool_search_recorder::indexed(index, kept);
            grown.dom().contains(name) ==> (grown[name].tool_name == Some(name) && kept.contains(
                grown[name],
            )) || (index.dom().contains(name) && grown[name] == index[name])
        }),
{
    lemma_indexed(index, kept);
    if exists|i: int| 0 <= i < kept.len() && (#[trigger] kept[i]).tool_name == Some(name) {
        let i = choose|i: int|
            0 <= i < kept.len() && (#[trigger] kept[i]).tool_name == Some(name);
        assert(kept[i].tool_name == Some(name));
    } else {
        assert forall|i: int| 0 <= i < kept.len() implies (#[trigger] kept[i]).tool_name != Some(
            name,
        ) by {}
        let grown = tool_search_recorder::indexed(index, kept);
        assert(grown.dom().contains(name) <==> index.dom().contains(name));
    }
}

/// Once a recorder that knows no inventory yet has seen one, every tool among the
/// first 256 identities of the inventory can be looked up under the name by which the
/// model calls it, and what is found is the identity of a tool of the inventory with
/// that name.
pub proof fn inventories_can_be_looked_up(
    state: RecorderModel,
    mcp: McpDiagnosticsModel,
    inventory: Seq<ToolInfoModel>,
    i: int,
)
    requires
        !state.stages.dom().contains("mcp_inventory_snapshot"@),
        inventory.len() <= 256,
        0 <= i < inventory.len(),
    ensures
        ({
            let index = tool_search_recorder::mcp_recorded(
                state,
                mcp,
                inventory,
            ).identity_by_tool_name;
            let identity = tool_identity::diagnostic_identity(
                mcp_diagnostics::tool_identity(inventory[i]),
            );
            let name = identity.tool_name->Some_0;
            &&& identity.tool_name is Some
            &&& index.dom().contains(name)
            &&& exists|j: int|
                0 <= j < inventory.len() && index[name] == tool_identity::diagnostic_identity(
                    mcp_diagnostics::tool_identity(#[trigger] inventory[j]),
                )
            &&& index[name].tool_name == Some(name)
        }),
{
    let identities = tool_search_recorder::inventory_identities(inventory);
    let listing = order::sorted_distinct::<DiagnosticToolIdentity>(identities);
    order::every_sequence_has_a_listing::<DiagnosticToolIdentity>(identities);
    let kept = tool_search_recorder::first(listing, 256);
    assert(kept == listing);
    let next = tool_search_recorder::mcp_recorded(state, mcp, inventory);
    let index = next.identity_by_tool_name;
    reveal_strlit("mcp_tools_list_response");
    reveal_strlit("mcp_inventory_snapshot");
    assert("mcp_tools_list_response"@.len() != "mcp_inventory_snapshot"@.len());
    let identity = identities[i];
    assert(identities.contains(identity));
    assert(listing.contains(identity));
    let k = choose|k: int| 0 <= k < listing.len() && listing[k] == identity;
    assert(exists|before: Map<Seq<char>, DiagnosticModel>|
        index == #[trigger] tool_search_recorder::indexed(before, kept));
    let before = choose|before: Map<Seq<char>, DiagnosticModel>|
        index == #[trigger] tool_search_recorder::indexed(before, kept);
    lemma_indexed(before, kept);
    assert(kept[k].tool_name is Some);
    let name = identity.tool_name->Some_0;
    assert(kept.contains(index[name]));
    assert(identities.contains(index[name]));
    let j = choose|j: int| 0 <= j < identities.len() && identities[j] == index[name];
    assert(index[name] == tool_identity::diagnostic_identity(
        mcp_diagnostics::tool_identity(inventory[j]),
    ));
}

/// A search whose result goes by the name of a tool of the inventory tells the server,
/// the raw name and the connector of that tool, where no other tool of the inventory
/// goes by the same name.
pub proof fn found_tools_are_told_from_the_inventory(
    state: RecorderModel,
    mcp: McpDiagnosticsModel,
    inventory: Seq<ToolInfoModel>,
    i: int,
    query: Seq<char>,
    requested_limit: usize,
    returned_count: usize,
    results: Seq<ResultModel>,
    k: int,
)
    requires
        !state.stages.dom().contains("mcp_inventory_snapshot"@),
        inventory.len() <= 256,
        0 <= i < inventory.len(),
        0 <= k < results.len(),
        k < 100,
        results[k].identity.tool_name == tool_identity::diagnostic_identity(
            mcp_diagnostics::tool_identity(inventory[i]),
        ).tool_name,
        forall|j: int|
            0 <= j < inventory.len() && j != i ==> tool_identity::diagnostic_identity(
                mcp_diagnostics::tool_identity(#[trigger] inventory[j]),
            ).tool_name != results[k].identity.tool_name,
    ensures
        ({
            let known = tool_search_recorder::mcp_recorded(state, mcp, inventory);
            let next = tool_search_recorder::search_recorded(
                known,
                query,
                requested_limit,
                returned_count,
                results,
            );
            let told = next.searches[next.searches.len() - 1].results[k];
            let tool = inventory[i];
            &&& tool_identity_laws::keeps(told.identity.server_name, tool.server_name, 160)
            &&& tool_identity_laws::keeps(told.identity.raw_tool_name, tool.tool.name, 160)
            &&& tool_identity_laws::keeps_option(
                told.identity.connector_id,
                tool.connector_id,
                160,
            )
            &&& tool.connector_name is Some ==> tool_identity_laws::keeps_option(
                told.identity.connector_name,
                tool.connector_name,
                160,
            )
            &&& told.identity.tool_name == results[k].identity.tool_name
            &&& told.rank == results[k].rank
            &&& told.score_bits == results[k].score_bits
            &&& told.document_index == results[k].document_index
        }),
{
    let known = tool_search_recorder::mcp_recorded(state, mcp, inventory);
    let index = known.identity_by_tool_name;
    let tool = inventory[i];
    let identity = tool_identity::diagnostic_identity(mcp_diagnostics::tool_identity(tool));
    let name = identity.tool_name->Some_0;
    inventories_can_be_looked_up(state, mcp, inventory, i);
    let j = choose|j: int|
        0 <= j < inventory.len() && index[name] == tool_identity::diagnostic_identity(
            mcp_diagnostics::tool_identity(#[trigger] inventory[j]),
        );
    assert(j == i);
    searches_tell_which_tools_were_found(known, query, requested_limit, returned_count, results);
    tool_identity_laws::inventory_identities_tell_the_tool(tool);
    tool_identity_laws::diagnostic_identities_keep_every_field(
        mcp_diagnostics::tool_identity(tool),
    );
    let next = tool_search_recorder::search_recorded(
        known,
        query,
        requested_limit,
        returned_count,
        results,
    );
    let told = next.searches[next.searches.len() - 1].results[k];
    assert(is_completed(told.identity, results[k].identity, index));
}

/// Metadata that reports nothing but the given counts and states.
pub open spec fn reports(
    server_count: Option<usize>,
    cached_server_count: Option<usize>,
    startup_complete_server_count: Option<usize>,
    included_count: Option<usize>,
    search_tool_enabled: Option<bool>,
    cache_state: Option<Seq<char>>,
) -> MetadataModel {
    MetadataModel {
        observation_sources: Seq::empty(),
        server_count,
        cached_server_count,
        startup_complete_server_count,
        included_count,
        search_tool_enabled,
        cache_state,
        total_count_override: None,
        upstream_identities_truncated: false,
        fingerprint_override: None,
    }
}

/// The exposure stage is recorded with the identities that were decided on, how many
/// are included, and whether the search tool is enabled. What it excludes are the
/// decisions against a tool, in order.
pub proof fn exposures_record_the_decisions(
    state: RecorderModel,
    decisions: Seq<DecisionModel>,
    search_tool_enabled: bool,
) -> (at: Seq<int>)
    requires
        decisions.len() <= usize::MAX,
    ensures
        forall|j: int, k: int| 0 <= j < k < at.len() ==> #[trigger] at[j] < #[trigger] at[k],
        forall|i: int| #[trigger]
            at.contains(i) <==> 0 <= i < decisions.len() && !decisions[i].included,
        at.len() <= decisions.len(),
        tool_search_recorder::exposure_recorded(state, decisions, search_tool_enabled)
            == tool_search_recorder::stage_recorded(
            state,
            "mcp_exposure_filter"@,
            state.inventory_generation,
            Seq::new(decisions.len(), |i: int| decisions[i].identity),
            reports(
                None,
                None,
                None,
                Some((decisions.len() - at.len()) as usize),
                Some(search_tool_enabled),
                None,
            ),
            Seq::new(at.len(), |k: int| decisions[at[k]]),
        ),
{
    let at = excluded_positions(decisions);
    assert(Seq::new(decisions.len(), |i: int| decisions[i].identity)
        =~= tool_search_recorder::decided_identities(decisions));
    assert(Seq::new(at.len(), |k: int| decisions[at[k]])
        =~= tool_search_recorder::excluded_decisions(decisions));
    assert(reports(
        None,
        None,
        None,
        Some((decisions.len() - at.len()) as usize),
        Some(search_tool_enabled),
        None,
    ) == (MetadataModel {
        included_count: Some((decisions.len() - at.len()) as usize),
        search_tool_enabled: Some(search_tool_enabled),
        ..tool_search_recorder::no_metadata()
    }));
    at
}

/// The decisions against a tool stand at certain ascending positions, and these are
/// the positions of all decisions that do not include their tool.
pub proof fn excluded_positions(decisions: Seq<DecisionModel>) -> (at: Seq<int>)
    ensures
        forall|j: int, k: int| 0 <= j < k < at.len() ==> #[trigger] at[j] < #[trigger] at[k],
        forall|i: int| #[trigger]
            at.contains(i) <==> 0 <= i < decisions.len() && !decisions[i].included,
        tool_search_recorder::excluded_decisions(decisions).len() == at.len(),
        at.len() <= decisions.len(),
        forall|k: int|
            0 <= k < at.len() ==> (#[trigger] tool_search_recorder::excluded_decisions(
                decisions,
            )[k]) == decisions[at[k]],
    decreases decisions.len(),
{
    let kept = tool_search_recorder::excluded_decisions(decisions);
    if decisions.len() == 0 {
        Seq::empty()
    } else {
        let front = decisions.drop_last();
        let last = decisions.len() - 1;
        let fewer = excluded_positions(front);
        assert forall|k: int| 0 <= k < fewer.len() implies 0 <= #[trigger] fewer[k] < last by {
            assert(fewer.contains(fewer[k]));
        }
        if decisions[last].included {
            assert forall|i: int| #[trigger] fewer.contains(i) <==> 0 <= i < decisions.len()
                && !decisions[i].included by {
                if 0 <= i < last {
                    assert(front[i] == decisions[i]);
                }
            }
            fewer
        } else {
            let at = fewer.push(last);
            assert forall|i: int| #[trigger] at.contains(i) <==> 0 <= i < decisions.len()
                && !decisions[i].included by {
                if fewer.contains(i) {
                    let k = choose|k: int| 0 <= k < fewer.len() && fewer[k] == i;
                    assert(at[k] == i);
                    assert(front[i] == decisions[i]);
                }
                if i == last {
                    assert(at[fewer.len() as int] == i);
                }
                if 0 <= i < last {
                    assert(front[i] == decisions[i]);
                    assert(fewer.contains(i) || decisions[i].included);
                }
            }
            assert forall|k: int| 0 <= k < at.len() implies #[trigger] kept[k]
                == decisions[at[k]] by {
                if k < fewer.len() {
                    assert(at[k] == fewer[k]);
                }
            }
            at
        }
    }
}

/// Search entries are recorded as a stage of their identities, each completed from
/// the index, with the state of the cache.
pub proof fn search_entries_are_recorded_completed(
    state: RecorderModel,
    stage: Seq<char>,
    infos: Seq<SearchInfoModel>,
    cache_state: Seq<char>,
) -> (identities: Seq<DiagnosticModel>)
    requires
        infos.len() <= usize::MAX,
    ensures
        identities.len() == infos.len(),
        forall|i: int|
            0 <= i < infos.len() ==> is_completed(
                #[trigger] identities[i],
                tool_identity::search_info_identity(infos[i]),
                state.identity_by_tool_name,
            ),
        ({
            let next = tool_search_recorder::search_infos_recorded(
                state,
                stage,
                infos,
                cache_state,
            );
            let snapshot = next.stages[stage];
            &&& snapshot.metadata == reports(None, None, None, None, None, Some(cache_state))
            &&& snapshot.inventory_generation == state.inventory_generation
            &&& snapshot.excluded.len() == 0
            &&& snapshot.total_count == order::sorted_distinct::<DiagnosticToolIdentity>(
                identities,
            ).len()
            &&& next == tool_search_recorder::stage_recorded(
                state,
                stage,
                state.inventory_generation,
                identities,
                snapshot.metadata,
                Seq::empty(),
            )
        }),
{
    let identities = Seq::new(
        infos.len(),
        |i: int|
            tool_search_recorder::enriched(
                state.identity_by_tool_name,
                tool_identity::search_info_identity(infos[i]),
            ),
    );
    order::every_sequence_has_a_listing::<DiagnosticToolIdentity>(identities);
    assert forall|i: int| 0 <= i < infos.len() implies is_completed(
        #[trigger] identities[i],
        tool_identity::search_info_identity(infos[i]),
        state.identity_by_tool_name,
    ) by {
        identities_are_completed_from_the_index(
            state.identity_by_tool_name,
            tool_identity::search_info_identity(infos[i]),
        );
    }
    identities
}

/// A report tells the thread, the session, the generation and the limits, every
/// stage that was recorded, in the order of the names, and every search that was kept,
/// oldest first. There is one where anything was recorded.
pub proof fn reports_tell_all_that_was_recorded(
    state: RecorderModel,
    thread_id: Seq<char>,
    session_id: Seq<char>,
)
    requires
        state.stages.dom().finite(),
    ensures
        ({
            let report = tool_search_recorder::feedback(state, thread_id, session_id);
            &&& report is None <==> state.searches.len() == 0 && forall|name: Seq<char>|
                !(#[trigger] state.stages.dom().contains(name))
            &&& report matches Some(told) ==> {
                &&& told.version == 1
                &&& told.thread_id == thread_id
                &&& told.session_id == session_id
                &&& told.inventory_generation == state.inventory_generation
                &&& told.searches == state.searches
                &&& forall|name: Seq<char>| #[trigger]
                    state.stages.dom().contains(name) ==> told.stages.contains(state.stages[name])
                &&& forall|i: int|
                    0 <= i < told.stages.len() ==> exists|name: Seq<char>| #[trigger]
                        state.stages.dom().contains(name) && #[trigger] told.stages[i]
                            == state.stages[name]
                &&& told.stages.len() == state.stages.dom().len()
                &&& told.limits.max_stage_identities == 256
                &&& told.limits.max_stage_changes == 128
                &&& told.limits.max_excluded_identities == 256
                &&& told.limits.max_searches == 32
                &&& told.limits.max_search_results == 100
                &&& told.limits.max_identity_chars == 160
                &&& told.limits.max_query_chars == 256
            }
        }),
{
    let keys = text_map::ordered_keys(state.stages);
    text_map::finite_maps_have_a_key_listing(state.stages);
    let report = tool_search_recorder::feedback(state, thread_id, session_id);
    if keys.len() > 0 {
        assert(keys.contains(keys[0]));
    }
    assert forall|name: Seq<char>| #[trigger] state.stages.dom().contains(name) implies keys.len()
        > 0 by {
        assert(keys.contains(name));
    }
    if report is Some {
        let told = report->Some_0;
        assert forall|name: Seq<char>| #[trigger] state.stages.dom().contains(name) implies
            told.stages.contains(state.stages[name]) by {
            assert(keys.contains(name));
            let k = choose|k: int| 0 <= k < keys.len() && keys[k] == name;
            assert(told.stages[k] == state.stages[name]);
        }
        assert forall|i: int| 0 <= i < told.stages.len() implies exists|name: Seq<char>| #[trigger]
            state.stages.dom().contains(name) && #[trigger] told.stages[i]
                == state.stages[name] by {
            assert(keys.contains(keys[i]));
            assert(state.stages.dom().contains(keys[i]) && told.stages[i]
                == state.stages[keys[i]]);
        }
        assert(keys.no_duplicates()) by {
            assert forall|i: int, j: int|
                0 <= i < keys.len() && 0 <= j < keys.len() && i != j implies keys[i]
                != keys[j] by {
                order::rank_lt_irreflexive(seq![encode_utf8(keys[i])]);
                if i < j {
                    assert(order::precedes::<String>(keys[i], keys[j]));
                } else {
                    assert(order::precedes::<String>(keys[j], keys[i]));
                }
            }
        }
        keys.unique_seq_to_set();
        assert(keys.to_set() =~= state.stages.dom());
    }
}

/// A recorder that has seen nothing has nothing to report.
pub proof fn new_recorders_report_nothing(thread_id: Seq<char>, session_id: Seq<char>)
    ensures
        ({
            let state = tool_search_recorder::empty_recorder();
            &&& state.searches.len() == 0
            &&& forall|name: Seq<char>| !(#[trigger] state.stages.dom().contains(name))
            &&& forall|name: Seq<char>|
                !(#[trigger] state.identity_by_tool_name.dom().contains(name))
            &&& state.inventory_generation.len() == 0
            &&& tool_search_recorder::feedback(state, thread_id, session_id) is None
        }),
{
    reports_tell_all_that_was_recorded(
        tool_search_recorder::empty_recorder(),
        thread_id,
        session_id,
    );
}

}
