//! Classifying an incoming snapshot against the cached prior one.

use crate::event::{EventSnapshot, EventStatus};
use crate::store::{loaded, SnapshotStore};
use vstd::prelude::*;

verus! {

/// How an incoming snapshot relates to the cached prior snapshot of the
/// same event.
#[derive(Clone, Copy, PartialEq, Eq, Structural, Debug)]
pub enum Transition {
    /// The event arrived active with no cached predecessor; nothing can be
    /// said about how it got there. Not an error, just an outcome.
    NoPrior,
    /// Any change other than the one watched edge: a non-active arrival, an
    /// active state re-observed, or an event already completed or canceled.
    Irrelevant,
    /// The cached snapshot was scheduled and the incoming one is active:
    /// the sole edge that triggers absentee resolution.
    ScheduledToActive,
}

/// The cached prior snapshot for `id`, if the cache holds one.
pub open spec fn stored_prior(m: Map<u64, EventSnapshot>, id: u64) -> Option<EventSnapshot> {
    if m.contains_key(id) {
        Some(m[id])
    } else {
        None
    }
}

/// What classification an incoming snapshot gets, given the cached prior
/// snapshot for its id. Only an arrival into the active state is of
/// interest; of those, only the one coming from a cached scheduled state is
/// the watched edge. Rollbacks and direct jumps to a terminal state are
/// never flagged.
pub open spec fn classification(
    prior: Option<EventSnapshot>,
    incoming: EventSnapshot,
) -> Transition {
    if incoming.status != EventStatus::Active {
        Transition::Irrelevant
    } else {
        match prior {
            None => Transition::NoPrior,
            Some(p) => if p.status == EventStatus::Scheduled {
                Transition::ScheduledToActive
            } else {
                Transition::Irrelevant
            },
        }
    }
}

/// Classifies `incoming` against the cached prior snapshot for its id, then
/// records `incoming` in the store — in every branch, exactly once, after
/// the read used for classification, so the store always reflects the
/// latest observed state.
pub fn classify(store: &mut SnapshotStore, incoming: EventSnapshot) -> (t: Transition)
    ensures
        t == classification(stored_prior(old(store)@, incoming.id), incoming),
        final(store)@ == old(store)@.insert(incoming.id, incoming),
        t == Transition::ScheduledToActive <==> (incoming.status == EventStatus::Active
            && old(store)@.contains_key(incoming.id)
            && old(store)@[incoming.id].status == EventStatus::Scheduled),
        (incoming.status == EventStatus::Active && !old(store)@.contains_key(incoming.id)) ==> t
            == Transition::NoPrior,
{
    let t = if incoming.status != EventStatus::Active {
        Transition::Irrelevant
    } else {
        match store.get(incoming.id) {
            None => Transition::NoPrior,
            Some(prior) => {
                if prior.status == EventStatus::Scheduled {
                    Transition::ScheduledToActive
                } else {
                    Transition::Irrelevant
                }
            },
        }
    };
    store.put(incoming);
    t
}

/// Replays a whole run of incoming snapshots through `classify`, in
/// delivery order, discarding the classifications. Afterwards the store is
/// exactly the fold of one insert per snapshot: for every id it holds the
/// last snapshot of the run with that id (see
/// `crate::store::lemma_last_write_wins`), and for an id the run never
/// touched, whatever it held before.
pub fn classify_run(store: &mut SnapshotStore, incoming: &Vec<EventSnapshot>)
    ensures
        final(store)@ == loaded(old(store)@, incoming@),
{
    let ghost m0 = store@;
    let n: usize = incoming.len();
    let mut i: usize = 0;
    while i < n
        invariant
            i <= n,
            n == incoming@.len(),
            store@ == loaded(m0, incoming@.take(i as int)),
        decreases n - i,
    {
        classify(store, incoming[i]);
        proof {
            assert(incoming@.take(i + 1).drop_last() =~= incoming@.take(i as int));
        }
        i = i + 1;
    }
    proof {
        assert(incoming@.take(n as int) =~= incoming@);
    }
}

/// First-observation law: an active snapshot whose id has no cached
/// predecessor is always classified `NoPrior`, whatever its channel or any
/// other field. (A first observation that is not active falls under the
/// status test instead and is `Irrelevant`.)
pub proof fn lemma_first_observation(m: Map<u64, EventSnapshot>, incoming: EventSnapshot)
    requires
        !m.contains_key(incoming.id),
        incoming.status == EventStatus::Active,
    ensures
        classification(stored_prior(m, incoming.id), incoming) == Transition::NoPrior,
{
}

} // verus!
