//! What holds of the `app/list` request as a whole.

use vstd::prelude::*;
use crate::app_info::AppModel;
use crate::apps_list::{
    self, GateAction, ListAction, ListHappening, ListModel, ListPhaseModel, LoadModel, MergeModel,
};
use crate::decimal;

verus! {

/// A page holds as many apps as were asked for, or all that are left where those
/// are fewer. One app is the least that can be asked for. Without a limit, a page
/// holds all that are left, as long as the apps can be numbered with 32 bits.
pub proof fn pages_hold_as_many_as_asked(apps: Seq<AppModel>, start: nat, limit: Option<u32>)
    requires
        start <= apps.len(),
    ensures
        ({
            let size = apps_list::page(apps, start, limit).data.len();
            let left = apps.len() - start;
            &&& limit matches Some(asked) ==> asked >= 1 ==> size == (if asked < left {
                asked as int
            } else {
                left
            })
            &&& limit == Some(0u32) ==> size == (if 1 < left {
                1
            } else {
                left
            })
            &&& limit is None && apps.len() < 0x1_0000_0000 ==> size == left
            &&& limit is None && apps.len() >= 0x1_0000_0000 ==> ({
                let wrapped = apps.len() % 0x1_0000_0000;
                &&& wrapped == 0 ==> size == (if 1 < left {
                    1
                } else {
                    left
                })
                &&& wrapped > 0 ==> size == (if wrapped < left {
                    wrapped as int
                } else {
                    left
                })
            })
        }),
{
}

/// The apps of a page are those from its start on, in order. It has a cursor
/// exactly where it does not hold all that are left, and the cursor is the position
/// of the first app that is not on it.
pub proof fn pages_go_on_where_they_end(apps: Seq<AppModel>, start: nat, limit: Option<u32>)
    requires
        start <= apps.len() <= usize::MAX,
    ensures
        ({
            let found = apps_list::page(apps, start, limit);
            &&& start + found.data.len() <= apps.len()
            &&& forall|i: int|
                0 <= i < found.data.len() ==> #[trigger] found.data[i] == apps[start + i]
            &&& found.next_cursor is None <==> start + found.data.len() == apps.len()
            &&& found.next_cursor matches Some(cursor) ==> found.data.len() >= 1
                && decimal::count_value(cursor) == Some((start + found.data.len()) as usize)
                && cursor == decimal::numeral(start + found.data.len())
        }),
{
    let end = apps_list::page_end(apps.len(), start, limit);
    decimal::numeral_reads_back(end as usize);
}

/// A start behind the end of the list is refused with both numbers.
pub proof fn starts_behind_the_end_are_refused(start: nat, total: nat)
    ensures
        ({
            let error = apps_list::beyond_error(start, total);
            &&& error.kind is InvalidRequest
            &&& error.message == "cursor "@ + decimal::numeral(start) + " exceeds total apps "@
                + decimal::numeral(total)
        }),
{
}

/// A request without a cursor begins at the start, one with a cursor where that
/// says, and a cursor that is no count is refused with its text.
pub proof fn cursors_are_counts(cursor: Seq<char>)
    ensures
        apps_list::cursor_position(None) == Some(0usize),
        apps_list::cursor_position(Some(cursor)) == decimal::count_value(cursor),
        apps_list::cursor_error(cursor).kind is InvalidRequest,
        apps_list::cursor_error(cursor).message == "invalid cursor: "@ + cursor,
{
}

/// Apps are loaded exactly where they are enabled and the workspace was asked and
/// did not forbid them.
pub proof fn forbidden_apps_are_not_loaded(apps_enabled: bool, workspace: Option<Option<bool>>)
    ensures
        apps_list::gate(apps_enabled, workspace) == GateAction::Load <==> apps_enabled && workspace
            is Some && workspace != Some(Some(false)),
        apps_list::gate(apps_enabled, workspace) == GateAction::AskWorkspace <==> apps_enabled
            && workspace is None,
        apps_list::workspace_allows(None),
        apps_list::workspace_allows(Some(true)),
        !apps_list::workspace_allows(Some(false)),
{
}

/// A request is repeated exactly where it was answered while the apps server was not
/// ready, and was no refetch. Every answer has its duration recorded.
pub proof fn unready_answers_are_repeated_once(ready: Option<bool>, force_refetch: bool)
    ensures
        apps_list::following(ready, force_refetch).retry <==> ready == Some(false)
            && !force_refetch,
        apps_list::following(ready, force_refetch).record_duration <==> ready is Some,
{
}

/// What is merged of two lists is the lists themselves, and a list that is missing
/// counts as empty.
pub proof fn merges_take_the_lists_as_they_are(
    all: Option<Seq<AppModel>>,
    accessible: Option<Seq<AppModel>>,
)
    ensures
        ({
            let input = apps_list::merge_of(all, accessible);
            &&& all matches Some(apps) ==> input.all == apps
            &&& all is None ==> input.all.len() == 0
            &&& accessible matches Some(apps) ==> input.accessible == apps
            &&& accessible is None ==> input.accessible.len() == 0
            &&& input.all_connectors_loaded <==> all is Some
        }),
{
}

/// A list is announced exactly where it holds an accessible app, at any position, or
/// both lists were loaded, and it is not the one that was announced last. It is
/// announced whole, and remembered.
pub proof fn announcements_are_whole_lists(request: ListModel, merged: Seq<AppModel>)
    ensures
        ({
            let announced = apps_list::announcement(request, merged);
            let next = apps_list::merged_into(request, merged);
            let waits = request.phase is MergeCached || request.phase is MergeLoaded;
            &&& announced is Some <==> request.last_announced != Some(merged) && ((exists|i: int|
                0 <= i < merged.len() && (#[trigger] merged[i]).is_accessible)
                || request.accessible_loaded && request.all_loaded)
            &&& announced matches Some(apps) ==> apps == merged
            &&& waits && announced is Some ==> next.last_announced == Some(merged)
            &&& waits && announced is None ==> next.last_announced == request.last_announced
            &&& !waits ==> next == request
        }),
{
}

/// A list is worth announcing exactly where some app of it is accessible, at any
/// position, or both lists were loaded.
pub proof fn accessible_apps_are_worth_announcing(
    apps: Seq<AppModel>,
    accessible_loaded: bool,
    all_loaded: bool,
)
    ensures
        apps_list::worth_announcing(apps, accessible_loaded, all_loaded) <==> (exists|i: int|
            0 <= i < apps.len() && (#[trigger] apps[i]).is_accessible) || accessible_loaded
            && all_loaded,
{
}

/// A list that was merged once both lists were loaded answers the request: with the
/// page from the start of the request on, of the size that it asked for, or with a
/// refusal where that start is behind the end. A list that was merged earlier
/// does not, and the request waits on.
pub proof fn complete_lists_answer_the_request(request: ListModel, merged: Seq<AppModel>)
    requires
        request.phase is MergeCached || request.phase is MergeLoaded,
    ensures
        ({
            let next = apps_list::merged_into(request, merged);
            let left = merged.len() - request.start;
            &&& !(request.accessible_loaded && request.all_loaded) ==> next.phase is Wait
            &&& request.accessible_loaded && request.all_loaded && request.start <= merged.len()
                ==> (next.phase matches ListPhaseModel::Answered { response } && ({
                &&& request.limit matches Some(asked) ==> asked >= 1 ==> response.data.len()
                    == (if asked < left {
                    asked as int
                } else {
                    left
                })
                &&& request.limit is None && merged.len() < 0x1_0000_0000 ==> response.data.len()
                    == left
                &&& forall|i: int|
                    0 <= i < response.data.len() ==> #[trigger] response.data[i]
                        == merged[request.start + i]
                &&& response.next_cursor == (if request.start + response.data.len()
                    == merged.len() {
                    None
                } else {
                    Some(decimal::numeral((request.start + response.data.len()) as nat))
                })
            }))
            &&& request.accessible_loaded && request.all_loaded && request.start > merged.len()
                ==> (next.phase matches ListPhaseModel::Refused { error } && error.kind
                is InvalidRequest && error.message == "cursor "@ + decimal::numeral(
                request.start as nat,
            ) + " exceeds total apps "@ + decimal::numeral(merged.len()))
            &&& next.start == request.start
            &&& next.limit == request.limit
            &&& next.force_refetch == request.force_refetch
            &&& next.cached_all == request.cached_all
            &&& next.accessible == request.accessible
            &&& next.all == request.all
            &&& next.accessible_loaded == request.accessible_loaded
            &&& next.all_loaded == request.all_loaded
            &&& next.codex_apps_ready == request.codex_apps_ready
        }),
{
}

/// What the loading brings to a request that waits for it: a list takes the place of
/// the one that was known, the other stays as it was, and a failure ends the request
/// with its reason. A request that does not wait is not changed.
pub proof fn loaded_lists_are_taken_up(
    request: ListModel,
    apps: Seq<AppModel>,
    ready: bool,
    reason: Seq<char>,
    event: LoadModel,
)
    ensures
        !(request.phase is Wait) ==> apps_list::loaded(request, event) == request,
        request.phase is Wait ==> ({
            let access = LoadModel::Accessible { connectors: apps, codex_apps_ready: ready };
            let first = apps_list::loaded(request, access);
            let second = apps_list::loaded(request, LoadModel::Directory { connectors: apps });
            let failed = apps_list::loaded(request, LoadModel::AccessibleFailed { reason });
            let lost = apps_list::loaded(request, LoadModel::DirectoryFailed { reason });
            let closed = apps_list::loaded(request, LoadModel::Closed);
            let late = apps_list::loaded(request, LoadModel::TimedOut);
            &&& first == (ListModel {
                accessible: Some(apps),
                accessible_loaded: true,
                codex_apps_ready: ready,
                phase: ListPhaseModel::MergeLoaded,
                ..request
            })
            &&& second == (ListModel {
                all: Some(apps),
                all_loaded: true,
                phase: ListPhaseModel::MergeLoaded,
                ..request
            })
            &&& failed.phase matches ListPhaseModel::Refused { error } && error.kind is Internal
                && error.message == "failed to load accessible apps: "@ + reason
            &&& lost.phase matches ListPhaseModel::Refused { error } && error.kind is Internal
                && error.message == "failed to list apps: "@ + reason
            &&& closed.phase matches ListPhaseModel::Refused { error } && error.kind is Internal
                && error.message == "failed to load app lists"@
            &&& late.phase matches ListPhaseModel::Refused { error } && error.kind is Internal
                && error.message == "timed out waiting for app lists after "@ + decimal::numeral(
                90,
            ) + " seconds"@
        }),
{
}

/// What is merged at any time. Before anything was loaded it is what was cached. A
/// refetch that is under way shows the cached directory, where there is one, and no
/// accessible apps that were not fetched anew. Else it is what is known.
pub proof fn merges_take_what_is_known(request: ListModel)
    ensures
        ({
            let input = apps_list::merge_inputs(request);
            let interim = request.force_refetch && request.phase is MergeLoaded && !(
            request.accessible_loaded && request.all_loaded);
            &&& interim && request.cached_all is Some ==> Some(input.all) == request.cached_all
                && input.all_connectors_loaded
            &&& !(interim && request.cached_all is Some) ==> (request.all matches Some(apps)
                ==> input.all == apps && input.all_connectors_loaded)
            &&& !(interim && request.cached_all is Some) && request.all is None ==> input.all.len()
                == 0 && !input.all_connectors_loaded
            &&& interim && !request.accessible_loaded ==> input.accessible.len() == 0
            &&& !(interim && !request.accessible_loaded) ==> (request.accessible matches Some(apps)
                ==> input.accessible == apps)
            &&& request.accessible is None ==> input.accessible.len() == 0
        }),
{
}

/// A new request shows what was cached, where anything was, and has loaded nothing.
/// It waits to merge or to load, and only an answer or a refusal lets it respond.
pub proof fn requests_begin_with_what_was_cached(
    start: usize,
    limit: Option<u32>,
    force_refetch: bool,
    cached_accessible: Option<Seq<AppModel>>,
    cached_all: Option<Seq<AppModel>>,
)
    ensures
        ({
            let request = apps_list::loading(
                start,
                limit,
                force_refetch,
                cached_accessible,
                cached_all,
            );
            let input = apps_list::merge_inputs(request);
            &&& request.start == start && request.limit == limit && request.force_refetch
                == force_refetch
            &&& !request.accessible_loaded && !request.all_loaded
            &&& request.last_announced is None
            &&& request.codex_apps_ready
            &&& apps_list::list_awaited(request) == (if cached_accessible is None && cached_all
                is None {
                ListAction::Wait
            } else {
                ListAction::Merge
            })
            &&& cached_accessible matches Some(apps) ==> input.accessible == apps
            &&& cached_all matches Some(apps) ==> input.all == apps
            &&& cached_accessible is None ==> input.accessible.len() == 0
            &&& cached_all is None ==> input.all.len() == 0
            &&& input.all_connectors_loaded == cached_all is Some
        }),
{
}

/// What a request waits for follows from how far it has come.
pub proof fn answers_and_refusals_are_what_responds(request: ListModel)
    ensures
        apps_list::list_awaited(request) is Respond <==> request.phase is Answered || request.phase
            is Refused,
        apps_list::list_awaited(request) is Wait <==> request.phase is Wait,
{
}

/// A request whose two lists came in, in either order, is answered with a page of
/// the list that was merged from just these two, and tells whether the apps server
/// was ready.
pub proof fn requests_are_answered_from_both_lists(
    start: usize,
    limit: Option<u32>,
    force_refetch: bool,
    accessible: Seq<AppModel>,
    ready: bool,
    all: Seq<AppModel>,
    interim: Seq<AppModel>,
    merged: Seq<AppModel>,
    first: LoadModel,
    second: LoadModel,
)
    requires
        start <= merged.len(),
        ({
            let access = LoadModel::Accessible { connectors: accessible, codex_apps_ready: ready };
            let directory = LoadModel::Directory { connectors: all };
            first == access && second == directory || first == directory && second == access
        }),
    ensures
        ({
            let begun = apps_list::loading(start, limit, force_refetch, None, None);
            let one = apps_list::loaded(begun, first);
            let two = apps_list::loaded(apps_list::merged_into(one, interim), second);
            let end = apps_list::merged_into(two, merged);
            &&& apps_list::merge_inputs(two) == (MergeModel {
                all,
                accessible,
                all_connectors_loaded: true,
            })
            &&& end.codex_apps_ready == ready
            &&& end.last_announced == Some(merged)
            &&& end.phase matches ListPhaseModel::Answered { response } && (forall|i: int|
                0 <= i < response.data.len() ==> #[trigger] response.data[i] == merged[start + i])
                && (limit matches Some(asked) ==> asked >= 1 ==> response.data.len() == (
            if asked < merged.len() - start {
                asked as int
            } else {
                merged.len() - start
            }))
        }),
{
}

/// Every request whose lists were loaded was answered from them: once it is
/// answered, both lists are there.
pub proof fn no_answer_before_both_lists(
    start: usize,
    limit: Option<u32>,
    force_refetch: bool,
    cached_accessible: Option<Seq<AppModel>>,
    cached_all: Option<Seq<AppModel>>,
    happenings: Seq<ListHappening>,
)
    ensures
        ({
            let begun = apps_list::loading(
                start,
                limit,
                force_refetch,
                cached_accessible,
                cached_all,
            );
            let end = apps_list::list_run(begun, happenings);
            &&& end.phase is Answered ==> exists|i: int, j: int|
                0 <= i < happenings.len() && 0 <= j < happenings.len() && (
                #[trigger] happenings[i] matches ListHappening::Loaded(
                    LoadModel::Accessible { .. },
                )) && (#[trigger] happenings[j] matches ListHappening::Loaded(
                    LoadModel::Directory { .. },
                ))
            &&& end.start == start && end.limit == limit
        }),
{
    lemma_loads_are_marked(
        start,
        limit,
        force_refetch,
        cached_accessible,
        cached_all,
        happenings,
    );
    apps_list::list_requests_are_sound(
        start,
        limit,
        force_refetch,
        cached_accessible,
        cached_all,
        happenings,
    );
}

proof fn lemma_loads_are_marked(
    start: usize,
    limit: Option<u32>,
    force_refetch: bool,
    cached_accessible: Option<Seq<AppModel>>,
    cached_all: Option<Seq<AppModel>>,
    happenings: Seq<ListHappening>,
)
    ensures
        ({
            let begun = apps_list::loading(
                start,
                limit,
                force_refetch,
                cached_accessible,
                cached_all,
            );
            let end = apps_list::list_run(begun, happenings);
            &&& end.accessible_loaded ==> exists|i: int|
                0 <= i < happenings.len() && (#[trigger] happenings[i] matches
                ListHappening::Loaded(LoadModel::Accessible { .. }))
            &&& end.all_loaded ==> exists|i: int|
                0 <= i < happenings.len() && (#[trigger] happenings[i] matches
                ListHappening::Loaded(LoadModel::Directory { .. }))
            &&& end.start == start && end.limit == limit
        }),
    decreases happenings.len(),
{
    if happenings.len() > 0 {
        let front = happenings.drop_last();
        lemma_loads_are_marked(
            start,
            limit,
            force_refetch,
            cached_accessible,
            cached_all,
            front,
        );
        let last = happenings[happenings.len() - 1];
        assert forall|i: int| 0 <= i < front.len() implies #[trigger] front[i] == happenings[i] by {}
        let begun = apps_list::loading(
            start,
            limit,
            force_refetch,
            cached_accessible,
            cached_all,
        );
        let before = apps_list::list_run(begun, front);
        if before.accessible_loaded {
            let i = choose|i: int|
                0 <= i < front.len() && (#[trigger] front[i] matches ListHappening::Loaded(
                    LoadModel::Accessible { .. },
                ));
            assert(happenings[i] == front[i]);
        }
        if before.all_loaded {
            let i = choose|i: int|
                0 <= i < front.len() && (#[trigger] front[i] matches ListHappening::Loaded(
                    LoadModel::Directory { .. },
                ));
            assert(happenings[i] == front[i]);
        }
    }
}

}
