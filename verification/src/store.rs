//! The snapshot cache: the last recorded snapshot per event id.

use std::collections::HashMap;
use crate::event::EventSnapshot;
use vstd::prelude::*;

verus! {

broadcast use vstd::std_specs::hash::group_hash_axioms;

/// What a bulk load leaves in a cache that started as `m`: every snapshot of
/// `snapshots` inserted in order, keyed by its id, so a later snapshot for
/// the same id overwrites an earlier one.
pub open spec fn loaded(
    m: Map<u64, EventSnapshot>,
    snapshots: Seq<EventSnapshot>,
) -> Map<u64, EventSnapshot>
    decreases snapshots.len(),
{
    if snapshots.len() == 0 {
        m
    } else {
        loaded(m, snapshots.drop_last()).insert(snapshots.last().id, snapshots.last())
    }
}

/// Keyed cache mapping event id to the last-known snapshot of that event.
/// At most one snapshot is retained per id: every write overwrites.
///
/// The store itself is single-threaded; a caller that handles notifications
/// concurrently owns one instance behind a lock and keeps each hold short.
pub struct SnapshotStore {
    map: HashMap<u64, EventSnapshot>,
}

impl View for SnapshotStore {
    type V = Map<u64, EventSnapshot>;

    closed spec fn view(&self) -> Map<u64, EventSnapshot> {
        self.map@
    }
}

impl SnapshotStore {
    /// An empty cache: no event has been observed yet.
    pub fn new() -> (s: SnapshotStore)
        ensures
            s@ == Map::<u64, EventSnapshot>::empty(),
    {
        SnapshotStore { map: HashMap::new() }
    }

    /// Bulk-inserts all given snapshots, keyed by id. Meant to seed the
    /// cache once at startup, before any update is processed; calling it
    /// again just overwrites, entry by entry.
    pub fn initialize(&mut self, snapshots: &Vec<EventSnapshot>)
        ensures
            final(self)@ == loaded(old(self)@, snapshots@),
    {
        let ghost m0 = self@;
        let n = snapshots.len();
        let mut i: usize = 0;
        while i < n
            invariant
                i <= n,
                n == snapshots@.len(),
                self@ == loaded(m0, snapshots@.take(i as int)),
            decreases n - i,
        {
            let s = snapshots[i];
            self.map.insert(s.id, s);
            proof {
                assert(snapshots@.take(i + 1).drop_last() =~= snapshots@.take(i as int));
                assert(snapshots@.take(i + 1).last() == snapshots@[i as int]);
            }
            i = i + 1;
        }
        proof {
            assert(snapshots@.take(n as int) =~= snapshots@);
        }
    }

    /// The last recorded snapshot for `id`, or `None` if this id has never
    /// been observed.
    pub fn get(&self, id: u64) -> (r: Option<EventSnapshot>)
        ensures
            r == if self@.contains_key(id) {
                Some(self@[id])
            } else {
                None::<EventSnapshot>
            },
    {
        match self.map.get(&id) {
            Some(s) => Some(*s),
            None => None,
        }
    }

    /// Unconditionally overwrites the entry for `snapshot.id`.
    pub fn put(&mut self, snapshot: EventSnapshot)
        ensures
            final(self)@ == old(self)@.insert(snapshot.id, snapshot),
    {
        self.map.insert(snapshot.id, snapshot);
    }

    /// How many event ids have a cached snapshot.
    pub fn len(&self) -> (n: usize)
        ensures
            n == self@.dom().len(),
    {
        self.map.len()
    }
}

/// Last write wins: after any non-empty run of writes that all carry the
/// same event id, the cache holds exactly the last snapshot written for that
/// id. Each write — `put`, one step of `initialize`, or the record step of
/// `classify` — inserts one snapshot keyed by its id, so a whole run leaves
/// the cache at `loaded(m, snapshots)`.
pub proof fn lemma_last_write_wins(
    m: Map<u64, EventSnapshot>,
    snapshots: Seq<EventSnapshot>,
    id: u64,
)
    requires
        snapshots.len() > 0,
        forall|i: int| 0 <= i < snapshots.len() ==> snapshots[i].id == id,
    ensures
        loaded(m, snapshots).contains_key(id),
        loaded(m, snapshots)[id] == snapshots.last(),
{
    assert(snapshots.last().id == id);
}

/// A run of writes never disturbs an id it does not carry: for such an id
/// the cache keeps exactly what it held before, present or absent.
pub proof fn lemma_untouched_id(
    m: Map<u64, EventSnapshot>,
    snapshots: Seq<EventSnapshot>,
    id: u64,
)
    requires
        forall|i: int| 0 <= i < snapshots.len() ==> snapshots[i].id != id,
    ensures
        loaded(m, snapshots).contains_key(id) == m.contains_key(id),
        m.contains_key(id) ==> loaded(m, snapshots)[id] == m[id],
    decreases snapshots.len(),
{
    if snapshots.len() > 0 {
        lemma_untouched_id(m, snapshots.drop_last(), id);
    }
}

} // verus!
