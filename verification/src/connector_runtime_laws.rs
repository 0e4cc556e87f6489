//! What holds of the connector runtime over any run.

use vstd::prelude::*;
use crate::connector_runtime::{
    self, PublicationModel, RuntimeIdentityModel, RuntimeModel, SnapshotModel,
};

verus! {

/// One change of a connector runtime manager.
pub enum Step {
    Activate { identity: RuntimeIdentityModel, persisted: Option<SnapshotModel> },
    BeginFetch { activation: nat },
    Publish { activation: nat, generation: u64, snapshot: SnapshotModel },
}

/// The manager is able to take the step: fetches are begun under contexts that
/// were activated and that can number one more.
pub open spec fn can_take(state: RuntimeModel, step: Step) -> bool {
    match step {
        Step::Activate { .. } => true,
        Step::BeginFetch { activation } => connector_runtime::was_activated(state, activation)
            && state.fetches[activation - 1] < u64::MAX,
        Step::Publish { .. } => true,
    }
}

pub open spec fn after(state: RuntimeModel, step: Step) -> RuntimeModel {
    match step {
        Step::Activate { identity, persisted } => connector_runtime::activated(
            state,
            identity,
            persisted,
        ),
        Step::BeginFetch { activation } => connector_runtime::fetch_begun(state, activation),
        Step::Publish { activation, generation, snapshot } => connector_runtime::published(
            state,
            activation,
            generation,
            snapshot,
        ),
    }
}

/// The manager after `steps`.
pub open spec fn run(state: RuntimeModel, steps: Seq<Step>) -> RuntimeModel
    decreases steps.len(),
{
    if steps.len() == 0 {
        state
    } else {
        after(run(state, steps.drop_last()), steps.last())
    }
}

/// The manager is able to take `steps` one after the other.
pub open spec fn can_run(state: RuntimeModel, steps: Seq<Step>) -> bool
    decreases steps.len(),
{
    steps.len() > 0 ==> can_run(state, steps.drop_last()) && can_take(
        run(state, steps.drop_last()),
        steps.last(),
    )
}

/// No run makes a manager inconsistent or forgets an activation.
pub proof fn runs_stay_consistent(state: RuntimeModel, steps: Seq<Step>)
    requires
        connector_runtime::is_consistent(state),
        can_run(state, steps),
    ensures
        connector_runtime::is_consistent(run(state, steps)),
        run(state, steps).fetches.len() >= state.fetches.len(),
    decreases steps.len(),
{
    if steps.len() > 0 {
        runs_stay_consistent(state, steps.drop_last());
    }
}

/// A context that was discarded stays so over any run: its handles read nothing,
/// and what they publish is refused and changes nothing.
pub proof fn discarded_contexts_stay_discarded(
    state: RuntimeModel,
    activation: nat,
    steps: Seq<Step>,
)
    requires
        connector_runtime::is_consistent(state),
        connector_runtime::was_activated(state, activation),
        !connector_runtime::is_current(state, activation),
        can_run(state, steps),
    ensures
        !connector_runtime::is_current(run(state, steps), activation),
        connector_runtime::readable(run(state, steps), activation) is None,
        forall|generation: u64, snapshot: SnapshotModel|
            #![trigger connector_runtime::publication(
                run(state, steps),
                activation,
                generation,
                snapshot,
            )]
            connector_runtime::publication(run(state, steps), activation, generation, snapshot)
                == PublicationModel::Discarded && connector_runtime::published(
                run(state, steps),
                activation,
                generation,
                snapshot,
            ) == run(state, steps),
    decreases steps.len(),
{
    runs_stay_consistent(state, steps);
    if steps.len() > 0 {
        discarded_contexts_stay_discarded(state, activation, steps.drop_last());
        runs_stay_consistent(state, steps.drop_last());
    }
}

/// Activating another identity discards the context that was active, and what
/// the new one reads is what was persisted for it, never the state of the old.
pub proof fn another_identity_discards(
    state: RuntimeModel,
    activation: nat,
    identity: RuntimeIdentityModel,
    persisted: Option<SnapshotModel>,
)
    requires
        connector_runtime::is_consistent(state),
        connector_runtime::is_current(state, activation),
        !connector_runtime::has_identity(state, identity),
    ensures
        ({
            let next = connector_runtime::activated(state, identity, persisted);
            &&& !connector_runtime::is_current(next, activation)
            &&& connector_runtime::readable(next, activation) is None
            &&& next.active matches Some(active) && active.identity == identity
                && active.activation != activation && active.current_snapshot == persisted
        }),
{
}

/// Activating the active identity again changes nothing, whatever was persisted
/// meanwhile.
pub proof fn activating_again_changes_nothing(
    state: RuntimeModel,
    identity: RuntimeIdentityModel,
    persisted: Option<SnapshotModel>,
    persisted_later: Option<SnapshotModel>,
)
    ensures
        connector_runtime::activated(
            connector_runtime::activated(state, identity, persisted),
            identity,
            persisted_later,
        ) == connector_runtime::activated(state, identity, persisted),
{
}

/// The step activates no identity but `identity`.
pub open spec fn activates_no_other(step: Step, identity: RuntimeIdentityModel) -> bool {
    step matches Step::Activate { identity: other, .. } ==> other == identity
}

/// A context stays the active one over any run that activates no other identity,
/// and activating it again then gives the same context, which reads what is
/// published, not what was persisted.
pub proof fn contexts_stay_active_until_another_is_activated(
    state: RuntimeModel,
    activation: nat,
    identity: RuntimeIdentityModel,
    steps: Seq<Step>,
    persisted: Option<SnapshotModel>,
)
    requires
        connector_runtime::is_current(state, activation),
        connector_runtime::has_identity(state, identity),
        forall|i: int| 0 <= i < steps.len() ==> activates_no_other(#[trigger] steps[i], identity),
    ensures
        connector_runtime::is_current(run(state, steps), activation),
        connector_runtime::has_identity(run(state, steps), identity),
        connector_runtime::activated(run(state, steps), identity, persisted) == run(state, steps),
    decreases steps.len(),
{
    if steps.len() > 0 {
        let front = steps.drop_last();
        assert forall|i: int| 0 <= i < front.len() implies activates_no_other(
            #[trigger] front[i],
            identity,
        ) by {
            assert(front[i] == steps[i]);
        }
        contexts_stay_active_until_another_is_activated(
            state,
            activation,
            identity,
            front,
            persisted,
        );
        assert(activates_no_other(steps[steps.len() - 1], identity));
    }
}

/// An identity that is activated again after another gets a new context, which
/// begins with what was persisted. The handles to its earlier context stay without
/// anything to read, whatever the new context reads.
pub proof fn returning_identities_get_a_new_context(
    state: RuntimeModel,
    activation: nat,
    identity: RuntimeIdentityModel,
    other: RuntimeIdentityModel,
    others_persisted: Option<SnapshotModel>,
    persisted: Option<SnapshotModel>,
)
    requires
        connector_runtime::is_consistent(state),
        connector_runtime::is_current(state, activation),
        connector_runtime::has_identity(state, identity),
        other != identity,
    ensures
        ({
            let between = connector_runtime::activated(state, other, others_persisted);
            let end = connector_runtime::activated(between, identity, persisted);
            &&& !connector_runtime::is_current(end, activation)
            &&& connector_runtime::readable(end, activation) is None
            &&& end.active matches Some(active) && active.identity == identity
                && active.activation != activation && active.current_snapshot == persisted
                && connector_runtime::is_current(end, active.activation)
        }),
{
}

/// While a context stays active, the generation that it accepted last never
/// falls.
pub proof fn accepted_generations_never_fall(
    state: RuntimeModel,
    activation: nat,
    steps: Seq<Step>,
)
    requires
        connector_runtime::is_consistent(state),
        connector_runtime::is_current(state, activation),
        can_run(state, steps),
        connector_runtime::is_current(run(state, steps), activation),
    ensures
        run(state, steps).active->Some_0.last_accepted_generation
            >= state.active->Some_0.last_accepted_generation,
        run(state, steps).active->Some_0.identity == state.active->Some_0.identity,
    decreases steps.len(),
{
    if steps.len() > 0 {
        let front = steps.drop_last();
        runs_stay_consistent(state, front);
        if !connector_runtime::is_current(run(state, front), activation) {
            let one = seq![steps.last()];
            assert(one.drop_last() =~= Seq::<Step>::empty());
            reveal_with_fuel(run, 2);
            reveal_with_fuel(can_run, 2);
            discarded_contexts_stay_discarded(run(state, front), activation, one);
        }
        accepted_generations_never_fall(state, activation, front);
    }
}

/// The numbers of the fetches of a context only grow, so that no two of its
/// tickets have the same.
pub proof fn fetch_numbers_never_fall(state: RuntimeModel, activation: nat, steps: Seq<Step>)
    requires
        connector_runtime::is_consistent(state),
        connector_runtime::was_activated(state, activation),
        can_run(state, steps),
    ensures
        run(state, steps).fetches[activation - 1] >= state.fetches[activation - 1],
    decreases steps.len(),
{
    if steps.len() > 0 {
        let front = steps.drop_last();
        runs_stay_consistent(state, front);
        fetch_numbers_never_fall(state, activation, front);
    }
}

/// An older fetch that arrives after a newer one is refused: the newer one's
/// tools stay, and its publisher is handed them.
pub proof fn newer_fetches_win(
    state: RuntimeModel,
    activation: nat,
    older: u64,
    older_snapshot: SnapshotModel,
    newer: u64,
    newer_snapshot: SnapshotModel,
)
    requires
        older <= newer,
        connector_runtime::is_accepted(state, activation, newer),
    ensures
        ({
            let next = connector_runtime::published(state, activation, newer, newer_snapshot);
            &&& connector_runtime::readable(next, activation) == Some(newer_snapshot)
            &&& connector_runtime::published(next, activation, older, older_snapshot) == next
            &&& connector_runtime::publication(next, activation, older, older_snapshot)
                == PublicationModel::Stale(Some(newer_snapshot))
        }),
{
}

/// The steps that publish `fetches` under one context.
pub open spec fn publishing(activation: nat, fetches: Seq<(u64, SnapshotModel)>) -> Seq<Step> {
    Seq::new(
        fetches.len(),
        |i: int|
            Step::Publish { activation, generation: fetches[i].0, snapshot: fetches[i].1 },
    )
}

/// In whatever order fetches are published, the active context ends with the
/// newest: either all were older than what it had accepted and nothing changed,
/// or it reads the snapshot of a fetch that none of the others exceeds.
pub proof fn the_newest_fetch_is_kept_in_any_order(
    state: RuntimeModel,
    activation: nat,
    fetches: Seq<(u64, SnapshotModel)>,
)
    requires
        connector_runtime::is_current(state, activation),
    ensures
        ({
            let end = run(state, publishing(activation, fetches));
            &&& connector_runtime::is_current(end, activation)
            &&& end.fetches == state.fetches
            &&& forall|i: int|
                0 <= i < fetches.len() ==> (#[trigger] fetches[i]).0
                    <= end.active->Some_0.last_accepted_generation
            &&& end == state || exists|i: int|
                0 <= i < fetches.len() && (#[trigger] fetches[i]).0
                    == end.active->Some_0.last_accepted_generation
                    && connector_runtime::readable(end, activation) == Some(fetches[i].1)
        }),
    decreases fetches.len(),
{
    let steps = publishing(activation, fetches);
    if fetches.len() > 0 {
        let front = fetches.drop_last();
        the_newest_fetch_is_kept_in_any_order(state, activation, front);
        assert(steps.drop_last() =~= publishing(activation, front));
        let middle = run(state, publishing(activation, front));
        let end = run(state, steps);
        let last = fetches.last();
        assert(end == connector_runtime::published(middle, activation, last.0, last.1));
        assert forall|i: int| 0 <= i < fetches.len() implies (#[trigger] fetches[i]).0
            <= end.active->Some_0.last_accepted_generation by {
            if i < front.len() {
                assert(front[i] == fetches[i]);
            }
        }
        if end == middle && end != state {
            let i = choose|i: int|
                0 <= i < front.len() && (#[trigger] front[i]).0
                    == middle.active->Some_0.last_accepted_generation
                    && connector_runtime::readable(middle, activation) == Some(front[i].1);
            assert(fetches[i] == front[i]);
        } else if end != middle {
            assert(fetches[fetches.len() - 1] == last);
        }
    }
}

/// A refused older fetch is still answered with a snapshot: the tickets of a
/// context are numbered from one up.
pub proof fn stale_fetches_are_answered(
    state: RuntimeModel,
    activation: nat,
    generation: u64,
    snapshot: SnapshotModel,
)
    requires
        connector_runtime::is_consistent(state),
        generation >= 1,
    ensures
        connector_runtime::publication(state, activation, generation, snapshot)
            != PublicationModel::Stale(None),
{
}

/// A fetch that was begun and never published, because it failed, leaves what
/// every handle reads as it was.
pub proof fn unpublished_fetches_change_nothing(
    state: RuntimeModel,
    fetching: nat,
    reading: nat,
)
    ensures
        connector_runtime::readable(
            connector_runtime::fetch_begun(state, fetching),
            reading,
        ) == connector_runtime::readable(state, reading),
{
}

/// A published fetch is read back as it was: the same tools, in the same order.
pub proof fn published_fetches_are_read_back(
    state: RuntimeModel,
    activation: nat,
    generation: u64,
    snapshot: SnapshotModel,
)
    requires
        connector_runtime::is_accepted(state, activation, generation),
    ensures
        connector_runtime::readable(
            connector_runtime::published(state, activation, generation, snapshot),
            activation,
        ) == Some(snapshot),
{
}

}
