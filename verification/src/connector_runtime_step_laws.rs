//! What each operation on the connector runtime does.

use vstd::prelude::*;
use crate::connector_runtime::{
    self, ActiveModel, CodexAppsToolsFetchSource, KeyModel, PublicationModel, RuntimeIdentityModel,
    RuntimeModel, SnapshotModel,
};

verus! {

/// Activating the identity that is active leaves the manager as it is. Activating any
/// other makes it the active one, under the next number, with what was persisted and
/// no accepted fetch, and keeps the numbers of the fetches of all contexts before.
pub proof fn activations_start_with_what_was_persisted(
    state: RuntimeModel,
    identity: RuntimeIdentityModel,
    persisted: Option<SnapshotModel>,
)
    ensures
        ({
            let next = connector_runtime::activated(state, identity, persisted);
            let active = state.active matches Some(now) && now.identity == identity;
            &&& active ==> next == state
            &&& !active ==> {
                &&& next.active == Some(
                    ActiveModel {
                        identity,
                        activation: state.fetches.len() + 1,
                        current_snapshot: persisted,
                        last_accepted_generation: 0,
                    },
                )
                &&& next.fetches.len() == state.fetches.len() + 1
                &&& next.fetches[state.fetches.len() as int] == 0
                &&& forall|i: int|
                    0 <= i < state.fetches.len() ==> #[trigger] next.fetches[i] == state.fetches[i]
            }
        }),
{
}

/// A handle reads the snapshot of the active context where it is of that one, and
/// nothing where it is of another.
pub proof fn handles_read_their_own_context(state: RuntimeModel, activation: nat)
    ensures
        state.active matches Some(now) ==> now.activation == activation
            ==> connector_runtime::readable(state, activation) == now.current_snapshot
            && connector_runtime::is_current(state, activation),
        state.active matches Some(now) ==> now.activation != activation
            ==> connector_runtime::readable(state, activation) is None
            && !connector_runtime::is_current(state, activation),
        state.active is None ==> connector_runtime::readable(state, activation) is None
            && !connector_runtime::is_current(state, activation),
        connector_runtime::was_activated(state, activation) <==> 1 <= activation
            <= state.fetches.len(),
{
}

/// The active identity is known as such, and no other.
pub proof fn one_identity_is_active(state: RuntimeModel, identity: RuntimeIdentityModel)
    ensures
        connector_runtime::has_identity(state, identity) <==> (state.active matches Some(now)
            && now.identity == identity),
{
}

/// Beginning a fetch numbers it one higher than the one before under the same
/// context, and changes nothing else.
pub proof fn fetches_are_numbered_one_by_one(state: RuntimeModel, activation: nat)
    requires
        1 <= activation <= state.fetches.len(),
        state.fetches[activation - 1] < u64::MAX,
    ensures
        ({
            let next = connector_runtime::fetch_begun(state, activation);
            &&& next.active == state.active
            &&& next.fetches.len() == state.fetches.len()
            &&& next.fetches[activation - 1] == state.fetches[activation - 1] + 1
            &&& forall|i: int|
                0 <= i < state.fetches.len() && i != activation - 1 ==> #[trigger] next.fetches[i]
                    == state.fetches[i]
        }),
{
}

/// What becomes of a fetch. Under another context it is discarded. Under the active
/// one it is published where its number is higher than that of the last accepted
/// fetch, and then it is what the context reads. Else it is stale, and is answered with
/// what the context reads.
pub proof fn fetches_are_published_where_they_are_newer(
    state: RuntimeModel,
    activation: nat,
    generation: u64,
    snapshot: SnapshotModel,
)
    ensures
        ({
            let next = connector_runtime::published(state, activation, generation, snapshot);
            let told = connector_runtime::publication(state, activation, generation, snapshot);
            &&& !(state.active matches Some(now) && now.activation == activation) ==> told
                == PublicationModel::Discarded && next == state
            &&& state.active matches Some(now) ==> now.activation == activation ==> {
                &&& generation > now.last_accepted_generation ==> {
                    &&& told == PublicationModel::Published(snapshot)
                    &&& next.active == Some(
                        ActiveModel {
                            identity: now.identity,
                            activation,
                            current_snapshot: Some(snapshot),
                            last_accepted_generation: generation,
                        },
                    )
                    &&& next.fetches == state.fetches
                }
                &&& generation <= now.last_accepted_generation ==> {
                    &&& told == PublicationModel::Stale(now.current_snapshot)
                    &&& next == state
                }
            }
        }),
{
}

/// A new manager has nothing active.
pub proof fn new_managers_are_idle()
    ensures
        connector_runtime::idle_runtime().active is None,
        connector_runtime::idle_runtime().fetches.len() == 0,
{
}

/// The key of an account is made of all three parts of it, and the key of nobody of
/// none.
pub proof fn keys_tell_accounts_apart(account: KeyModel)
    ensures
        ({
            let key = connector_runtime::context_key(Some(account));
            &&& key.account_id == account.account_id
            &&& key.chatgpt_user_id == account.chatgpt_user_id
            &&& key.is_workspace_account == account.is_workspace_account
        }),
        ({
            let key = connector_runtime::context_key(None);
            &&& key.account_id is None
            &&& key.chatgpt_user_id is None
            &&& !key.is_workspace_account
        }),
{
}

/// The metric of a publication tells why the fetch was made, and what became of it.
pub proof fn publications_are_tagged(
    source: CodexAppsToolsFetchSource,
    told: PublicationModel,
)
    ensures
        ({
            let tags = connector_runtime::publication_tags(source, told);
            &&& tags.len() == 2
            &&& tags[0].name == "source"@
            &&& tags[0].value == (match source {
                CodexAppsToolsFetchSource::Startup => "startup"@,
                CodexAppsToolsFetchSource::HardRefresh => "hard_refresh"@,
            })
            &&& tags[1].name == "result"@
            &&& tags[1].value == (match told {
                PublicationModel::Discarded => "discarded"@,
                PublicationModel::Stale(_) => "stale"@,
                PublicationModel::Published(_) => "published"@,
            })
        }),
        connector_runtime::publish_metric() == "codex.mcp.tools.cache_publish.duration_ms"@,
        connector_runtime::discarded_text() == "connector runtime context was discarded"@,
{
}

}
