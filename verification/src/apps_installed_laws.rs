//! What holds of the `app/installed` request as a whole.

use vstd::prelude::*;
use crate::apps_installed::{
    self, EventModel, InstalledAction, PhaseModel, RefreshDisposition, RequestModel, ResponseSize,
};
use crate::apps_list;
use crate::connector_runtime::SnapshotModel;
use crate::metrics::{self, MetricValue};
use crate::rpc_error::ErrorModel;

verus! {

/// A request whose configuration was loaded, and for which apps are enabled.
pub open spec fn signed_in(reload: bool) -> RequestModel {
    let configured = apps_installed::advanced(
        apps_installed::started(reload),
        EventModel::ConfigLoaded { runtime_state_enabled: true },
    );
    apps_installed::advanced(configured, EventModel::AuthRead { apps_enabled: true })
}

/// A request whose configuration was loaded, and for which apps are not enabled.
pub open spec fn signed_out(reload: bool) -> RequestModel {
    let configured = apps_installed::advanced(
        apps_installed::started(reload),
        EventModel::ConfigLoaded { runtime_state_enabled: true },
    );
    apps_installed::advanced(configured, EventModel::AuthRead { apps_enabled: false })
}

/// The request after the installed apps, the apps that can be called, and the
/// answers of the configuration were listed.
pub open spec fn told_all(
    request: RequestModel,
    ids: Seq<Seq<char>>,
    callable: Seq<Seq<char>>,
    enabled: Seq<bool>,
) -> RequestModel {
    let listed = apps_installed::advanced(request, EventModel::InstalledListed { ids });
    let called = apps_installed::advanced(listed, EventModel::CallableListed { ids: callable });
    apps_installed::advanced(called, EventModel::EnabledRead { answers: enabled })
}

/// The answer tells each installed app, in order, enabled exactly where the
/// configuration enables it, and callable exactly where it is among the apps that can
/// be called.
pub open spec fn tells_what_is_known(
    request: RequestModel,
    ids: Seq<Seq<char>>,
    callable: Seq<Seq<char>>,
    enabled: Seq<bool>,
) -> bool {
    request.phase matches PhaseModel::Answered { apps } && apps.len() == ids.len() && forall|
        i: int,
    |
        0 <= i < ids.len() ==> {
            &&& (#[trigger] apps[i]).id == ids[i]
            &&& apps[i].enabled == enabled[i]
            &&& apps[i].callable <==> exists|k: int|
                0 <= k < callable.len() && #[trigger] callable[k] == ids[i]
        }
}

/// The answer tells each installed app, in order, as disabled and not callable.
pub open spec fn tells_all_disabled(request: RequestModel, ids: Seq<Seq<char>>) -> bool {
    request.phase matches PhaseModel::Answered { apps } && apps.len() == ids.len() && forall|
        i: int,
    |
        0 <= i < ids.len() ==> {
            &&& (#[trigger] apps[i]).id == ids[i]
            &&& !apps[i].enabled
            &&& !apps[i].callable
        }
}

/// The age of the snapshot and the number of its tools are noted.
pub open spec fn notes_snapshot(request: RequestModel, snapshot: SnapshotModel, now: int) -> bool {
    &&& snapshot.tools.len() <= usize::MAX ==> request.snapshot_tool_count == snapshot.tools.len()
    &&& request.snapshot_age matches Some(age) && (0 <= now - snapshot.refreshed_at <= u128::MAX
        ==> age == now - snapshot.refreshed_at) && (now < snapshot.refreshed_at ==> age == 0)
}

/// A cached read, where apps are enabled and the policy that was cached allows them,
/// answers from the current snapshot with what is known of each app.
pub proof fn allowed_cached_reads_tell_what_is_known(
    snapshot: SnapshotModel,
    now: int,
    ids: Seq<Seq<char>>,
    callable: Seq<Seq<char>>,
    enabled: Seq<bool>,
)
    requires
        enabled.len() == ids.len(),
    ensures
        ({
            let asked = signed_in(false);
            let allowed = apps_installed::advanced(
                asked,
                EventModel::PolicyCached { enabled: Some(true) },
            );
            let found = apps_installed::advanced(
                allowed,
                EventModel::PreviousSnapshot { current: Some(snapshot), now },
            );
            let end = told_all(found, ids, callable, enabled);
            &&& apps_installed::awaited(asked) is ReadCachedPolicy
            &&& apps_installed::awaited(allowed) is ReadPreviousSnapshot
            &&& apps_installed::awaited(found) is ListInstalled
            &&& tells_what_is_known(end, ids, callable, enabled)
            &&& notes_snapshot(end, snapshot, now)
            &&& end.refresh_disposition is NotRequested
            &&& !end.retained_previous_snapshot
        }),
{
    let asked = signed_in(false);
    let allowed = apps_installed::advanced(asked, EventModel::PolicyCached { enabled: Some(true) });
    let found = apps_installed::advanced(
        allowed,
        EventModel::PreviousSnapshot { current: Some(snapshot), now },
    );
    lemma_told_all(found, ids, callable, enabled);
}

/// A reload, where apps are enabled and the workspace allows them, answers from the
/// snapshot that was fetched anew with what is known of each app, whatever snapshot
/// there was before.
pub proof fn allowed_reloads_tell_what_is_known(
    previous: Option<SnapshotModel>,
    earlier: int,
    snapshot: SnapshotModel,
    now: int,
    ids: Seq<Seq<char>>,
    callable: Seq<Seq<char>>,
    enabled: Seq<bool>,
)
    requires
        enabled.len() == ids.len(),
    ensures
        ({
            let asked = signed_in(true);
            let allowed = apps_installed::advanced(
                asked,
                EventModel::PolicyRefreshed { enabled: Some(true) },
            );
            let read = apps_installed::advanced(
                allowed,
                EventModel::PreviousSnapshot { current: previous, now: earlier },
            );
            let found = apps_installed::advanced(
                read,
                EventModel::SnapshotRefreshed { snapshot, now },
            );
            let end = told_all(found, ids, callable, enabled);
            &&& apps_installed::awaited(asked) is RefreshPolicy
            &&& apps_installed::awaited(allowed) is ReadPreviousSnapshot
            &&& apps_installed::awaited(read) is RefreshSnapshot
            &&& apps_installed::awaited(found) is ListInstalled
            &&& tells_what_is_known(end, ids, callable, enabled)
            &&& notes_snapshot(end, snapshot, now)
            &&& end.refresh_disposition is Success
            &&& !end.retained_previous_snapshot
        }),
{
    let asked = signed_in(true);
    let allowed = apps_installed::advanced(
        asked,
        EventModel::PolicyRefreshed { enabled: Some(true) },
    );
    let read = apps_installed::advanced(
        allowed,
        EventModel::PreviousSnapshot { current: previous, now: earlier },
    );
    let found = apps_installed::advanced(read, EventModel::SnapshotRefreshed { snapshot, now });
    lemma_told_all(found, ids, callable, enabled);
}

proof fn lemma_told_all(
    request: RequestModel,
    ids: Seq<Seq<char>>,
    callable: Seq<Seq<char>>,
    enabled: Seq<bool>,
)
    requires
        request.phase is ListInstalled,
        request.runtime_enabled,
        enabled.len() == ids.len(),
    ensures
        tells_what_is_known(told_all(request, ids, callable, enabled), ids, callable, enabled),
        told_all(request, ids, callable, enabled) == (RequestModel {
            phase: told_all(request, ids, callable, enabled).phase,
            ..request
        }),
{
    let end = told_all(request, ids, callable, enabled);
    assert(end.phase == (PhaseModel::Answered {
        apps: apps_installed::known_apps(ids, callable, enabled),
    }));
}

/// While the apps are listed, the request waits for one thing after the other, and
/// nothing but its answer comes of it.
pub proof fn listing_goes_step_by_step(
    snapshot: SnapshotModel,
    now: int,
    ids: Seq<Seq<char>>,
    callable: Seq<Seq<char>>,
    reload: bool,
)
    ensures
        ({
            let found = if reload {
                apps_installed::advanced(
                    apps_installed::advanced(
                        apps_installed::advanced(
                            signed_in(true),
                            EventModel::PolicyRefreshed { enabled: Some(true) },
                        ),
                        EventModel::PreviousSnapshot { current: None, now },
                    ),
                    EventModel::SnapshotRefreshed { snapshot, now },
                )
            } else {
                apps_installed::advanced(
                    apps_installed::advanced(
                        signed_in(false),
                        EventModel::PolicyCached { enabled: Some(true) },
                    ),
                    EventModel::PreviousSnapshot { current: Some(snapshot), now },
                )
            };
            let listed = apps_installed::advanced(found, EventModel::InstalledListed { ids });
            let called = apps_installed::advanced(
                listed,
                EventModel::CallableListed { ids: callable },
            );
            &&& apps_installed::awaited(apps_installed::started(reload)) is LoadConfig
            &&& apps_installed::awaited(listed) is ListCallable
            &&& apps_installed::awaited(called) is ReadEnabled
            &&& listed.phase == (PhaseModel::ListCallable { ids })
            &&& called.phase == (PhaseModel::ReadEnabled { ids, callable })
        }),
{
}

/// A reload whose fetch fails is refused with the reason, and notes whether there is
/// a snapshot still.
pub proof fn failed_fetches_refuse_the_reload(
    previous: Option<SnapshotModel>,
    now: int,
    reason: Seq<char>,
    present: bool,
)
    ensures
        ({
            let read = apps_installed::advanced(
                apps_installed::advanced(
                    signed_in(true),
                    EventModel::PolicyRefreshed { enabled: Some(true) },
                ),
                EventModel::PreviousSnapshot { current: previous, now },
            );
            let failed = apps_installed::advanced(read, EventModel::RefreshFailed { reason });
            let end = apps_installed::advanced(failed, EventModel::SnapshotPeeked { present });
            &&& apps_installed::awaited(failed) is PeekSnapshot
            &&& end.phase matches PhaseModel::Refused { error } && error.kind is Internal
                && error.message == "failed to refresh installed connector runtime state: "@
                + reason
            &&& end.refresh_disposition is Error
            &&& end.retained_previous_snapshot == present
        }),
{
}

/// Where apps are not enabled, a request reads the current snapshot and nothing
/// else, tells all apps in it as disabled, and tells none where there is none. A
/// reload notes that it was skipped.
pub proof fn signed_out_requests_tell_all_disabled(
    reload: bool,
    snapshot: SnapshotModel,
    now: int,
    ids: Seq<Seq<char>>,
)
    ensures
        ({
            let asked = signed_out(reload);
            let found = apps_installed::advanced(
                asked,
                EventModel::PreviousSnapshot { current: Some(snapshot), now },
            );
            let end = apps_installed::advanced(found, EventModel::InstalledListed { ids });
            let none = apps_installed::advanced(
                asked,
                EventModel::PreviousSnapshot { current: None, now },
            );
            &&& apps_installed::awaited(asked) is ReadPreviousSnapshot
            &&& apps_installed::awaited(found) is ListInstalled
            &&& tells_all_disabled(end, ids)
            &&& notes_snapshot(end, snapshot, now)
            &&& tells_all_disabled(none, Seq::empty())
            &&& none.snapshot_age is None && none.snapshot_tool_count == 0
            &&& end.refresh_disposition == (if reload {
                RefreshDisposition::SkippedAppsDisabled
            } else {
                RefreshDisposition::NotRequested
            })
            &&& none.refresh_disposition == end.refresh_disposition
            &&& end.retained_previous_snapshot == reload
            &&& !none.retained_previous_snapshot
        }),
{
}

/// Where the workspace forbids apps, or its policy is not known, a request tells all
/// apps in the current snapshot as disabled, and tells none where there is none. A
/// reload notes why it was skipped.
pub proof fn forbidden_requests_tell_all_disabled(
    reload: bool,
    policy: Option<bool>,
    snapshot: SnapshotModel,
    now: int,
    ids: Seq<Seq<char>>,
)
    requires
        policy != Some(true),
    ensures
        ({
            let answered = if reload {
                EventModel::PolicyRefreshed { enabled: policy }
            } else {
                EventModel::PolicyCached { enabled: policy }
            };
            let known = apps_installed::advanced(signed_in(reload), answered);
            let found = apps_installed::advanced(
                known,
                EventModel::PreviousSnapshot { current: Some(snapshot), now },
            );
            let end = apps_installed::advanced(found, EventModel::InstalledListed { ids });
            let none = apps_installed::advanced(
                known,
                EventModel::PreviousSnapshot { current: None, now },
            );
            &&& apps_installed::awaited(known) is ReadPreviousSnapshot
            &&& apps_installed::awaited(found) is ListInstalled
            &&& tells_all_disabled(end, ids)
            &&& notes_snapshot(end, snapshot, now)
            &&& tells_all_disabled(none, Seq::empty())
            &&& none.snapshot_age is None && none.snapshot_tool_count == 0
            &&& end.refresh_disposition == (if !reload {
                RefreshDisposition::NotRequested
            } else if policy is None {
                RefreshDisposition::SkippedWorkspacePolicyError
            } else {
                RefreshDisposition::SkippedWorkspaceDisabled
            })
            &&& none.refresh_disposition == end.refresh_disposition
            &&& end.retained_previous_snapshot == reload
            &&& !none.retained_previous_snapshot
        }),
{
    let answered = if reload {
        EventModel::PolicyRefreshed { enabled: policy }
    } else {
        EventModel::PolicyCached { enabled: policy }
    };
    let known = apps_installed::advanced(signed_in(reload), answered);
    let found = apps_installed::advanced(
        known,
        EventModel::PreviousSnapshot { current: Some(snapshot), now },
    );
    let end = apps_installed::advanced(found, EventModel::InstalledListed { ids });
    assert(found.phase is ListInstalled);
    assert(end.phase == (PhaseModel::Answered { apps: apps_installed::disabled_apps(ids) }));
}

/// A server without the feature refuses the request, and so does a configuration
/// that cannot be loaded, with its own error.
pub proof fn requests_need_a_configuration(reload: bool, failure: ErrorModel)
    ensures
        ({
            let off = apps_installed::advanced(
                apps_installed::started(reload),
                EventModel::ConfigLoaded { runtime_state_enabled: false },
            );
            let broken = apps_installed::advanced(
                apps_installed::started(reload),
                EventModel::ConfigFailed { error: failure },
            );
            &&& off.phase matches PhaseModel::Refused { error } && error.kind is MethodNotFound
                && error.message == "app/installed is not enabled for this app-server"@
            &&& broken.phase == (PhaseModel::Refused { error: failure })
            &&& apps_installed::awaited(off) is Respond
            &&& apps_installed::awaited(broken) is Respond
        }),
{
}

/// The event is what may come of the action.
pub open spec fn comes_of(event: EventModel, action: InstalledAction) -> bool {
    match event {
        EventModel::ConfigLoaded { .. } => action is LoadConfig,
        EventModel::ConfigFailed { .. } => action is LoadConfig,
        EventModel::AuthRead { .. } => action is ReadAuth,
        EventModel::PolicyRefreshed { .. } => action is RefreshPolicy,
        EventModel::PolicyCached { .. } => action is ReadCachedPolicy,
        EventModel::PreviousSnapshot { .. } => action is ReadPreviousSnapshot,
        EventModel::SnapshotRefreshed { .. } => action is RefreshSnapshot,
        EventModel::RefreshFailed { .. } => action is RefreshSnapshot,
        EventModel::SnapshotPeeked { .. } => action is PeekSnapshot,
        EventModel::InstalledListed { .. } => action is ListInstalled,
        EventModel::CallableListed { .. } => action is ListCallable,
        EventModel::EnabledRead { .. } => action is ReadEnabled,
    }
}

/// What cannot come of the action that the request waits for changes nothing, and
/// what comes of it leads on, but for answers of the configuration that are not as
/// many as the apps.
pub proof fn only_awaited_events_lead_on(request: RequestModel, event: EventModel)
    ensures
        !comes_of(event, apps_installed::awaited(request)) ==> apps_installed::advanced(
            request,
            event,
        ) == request,
        comes_of(event, apps_installed::awaited(request)) && !(event is EnabledRead)
            ==> apps_installed::advanced(request, event).phase != request.phase,
        apps_installed::advanced(request, event).reload == request.reload,
        event matches EventModel::EnabledRead { answers } ==> request.phase
            matches PhaseModel::ReadEnabled { ids, .. } ==> answers.len() != ids.len()
            ==> apps_installed::advanced(request, event) == request,
{
}

/// Every way that a refresh can go has a text of its own.
pub proof fn dispositions_have_their_texts()
    ensures
        apps_installed::disposition_text(RefreshDisposition::NotRequested) == "not_requested"@,
        apps_installed::disposition_text(RefreshDisposition::NotStarted) == "not_started"@,
        apps_installed::disposition_text(RefreshDisposition::Success) == "success"@,
        apps_installed::disposition_text(RefreshDisposition::Error) == "error"@,
        apps_installed::disposition_text(RefreshDisposition::SkippedAppsDisabled)
            == "skipped_apps_disabled"@,
        apps_installed::disposition_text(RefreshDisposition::SkippedWorkspacePolicyError)
            == "skipped_workspace_policy_error"@,
        apps_installed::disposition_text(RefreshDisposition::SkippedWorkspaceDisabled)
            == "skipped_workspace_disabled"@,
{
}

/// Only asking the workspace settings service and fetching the tools go over the
/// network.
pub proof fn two_actions_are_remote(action: InstalledAction)
    ensures
        apps_installed::is_remote(action) <==> action == InstalledAction::RefreshPolicy || action
            == InstalledAction::RefreshSnapshot,
{
}

/// Installed apps are told with what is known of each where the runtime is enabled,
/// and all as disabled where it is not.
pub proof fn listed_apps_are_disabled_or_known(
    request: RequestModel,
    ids: Seq<Seq<char>>,
    callable: Seq<Seq<char>>,
    enabled: Seq<bool>,
)
    requires
        request.phase is ListInstalled,
        enabled.len() == ids.len(),
    ensures
        request.runtime_enabled ==> tells_what_is_known(
            told_all(request, ids, callable, enabled),
            ids,
            callable,
            enabled,
        ),
        !request.runtime_enabled ==> tells_all_disabled(
            apps_installed::advanced(request, EventModel::InstalledListed { ids }),
            ids,
        ),
{
    if request.runtime_enabled {
        lemma_told_all(request, ids, callable, enabled);
    }
}

/// The metrics of a request. The first tells how long it took, with whether it was a
/// reload, how the refresh went, whether it was answered, and whether the snapshot
/// was retained. Those of an answer also tell its length, where it is known, the
/// number of apps and of tools, and the age of the snapshot, where it is known.
pub proof fn metrics_tell_what_happened(
    reload: bool,
    retained: bool,
    disposition: RefreshDisposition,
    age: Option<u128>,
    tools: usize,
    response: Option<ResponseSize>,
)
    ensures
        ({
            let records = apps_installed::installed_metrics(
                reload,
                retained,
                disposition,
                age,
                tools,
                response,
            );
            let with_bytes: int = if response is Some && response->Some_0.bytes is Some {
                1
            } else {
                0
            };
            let with_age: int = if response is Some && age is Some {
                1
            } else {
                0
            };
            &&& records.len() == (if response is Some {
                3 + with_bytes + with_age
            } else {
                1
            })
            &&& records[0].name == "codex.apps.installed.duration_ms"@
            &&& records[0].value == MetricValue::Elapsed
            &&& records[0].tags.len() == 5
            &&& records[0].tags[0] == metrics::tag_of("path"@, "new"@)
            &&& records[0].tags[1] == metrics::tag_of("reload"@, metrics::flag_text(reload))
            &&& records[0].tags[2] == metrics::tag_of(
                "refresh"@,
                apps_installed::disposition_text(disposition),
            )
            &&& records[0].tags[3].name == "outcome"@
            &&& records[0].tags[3].value == (if response is Some {
                "success"@
            } else {
                "error"@
            })
            &&& records[0].tags[4] == metrics::tag_of(
                "retained_previous_snapshot"@,
                metrics::flag_text(retained),
            )
            &&& response matches Some(size) ==> {
                &&& size.bytes matches Some(bytes) ==> records[1].name
                    == "codex.apps.installed.response_bytes"@ && (bytes <= i64::MAX
                    ==> records[1].value == MetricValue::Count(bytes as i64))
                &&& records[1 + with_bytes].name == "codex.apps.installed.connector_count"@
                &&& size.apps <= i64::MAX ==> records[1 + with_bytes].value == MetricValue::Count(
                    size.apps as i64,
                )
                &&& records[2 + with_bytes].name == "codex.apps.installed.tool_count"@
                &&& tools <= i64::MAX ==> records[2 + with_bytes].value == MetricValue::Count(
                    tools as i64,
                )
                &&& age matches Some(span) ==> records[3 + with_bytes].name
                    == "codex.apps.snapshot.age_ms"@ && records[3 + with_bytes].value
                    == MetricValue::Nanoseconds(span)
            }
        }),
{
}

/// A flag is told as `true` or `false`, a name and a value make a tag, and a number
/// that is too great for a metric is told as the greatest.
pub proof fn tags_and_numbers_are_told_as_they_are(
    name: Seq<char>,
    value: Seq<char>,
    number: nat,
    reload: bool,
)
    ensures
        metrics::flag_text(true) == "true"@,
        metrics::flag_text(false) == "false"@,
        metrics::tag_of(name, value).name == name,
        metrics::tag_of(name, value).value == value,
        number <= i64::MAX ==> metrics::saturated(number) == number,
        number > i64::MAX ==> metrics::saturated(number) == i64::MAX,
        ({
            let record = apps_list::legacy_duration_metric(reload);
            &&& record.name == "codex.apps.installed.duration_ms"@
            &&& record.value == MetricValue::Elapsed
            &&& record.tags.len() == 2
            &&& record.tags[0] == metrics::tag_of("path"@, "legacy"@)
            &&& record.tags[1].name == "reload"@
            &&& record.tags[1].value == (if reload {
                "true"@
            } else {
                "false"@
            })
        }),
{
}

}
