use event_relay::detector::{classify, classify_run, Transition};
use event_relay::event::{EventSnapshot, EventStatus};
use event_relay::resolver::{compute_absentees, resolution_channel, resolve_absentees};
use event_relay::store::SnapshotStore;

fn snap(id: u64, status: EventStatus, channel_id: Option<u64>) -> EventSnapshot {
    EventSnapshot { id, status, channel_id }
}

#[test]
fn scheduled_to_active_fires_and_updates_store() {
    // Store seeded with {id=1, status=Scheduled}; an active update with
    // channel 42 arrives: the watched edge fires and the store now holds
    // the active snapshot.
    let mut store = SnapshotStore::new();
    store.put(snap(1, EventStatus::Scheduled, Some(42)));

    let incoming = snap(1, EventStatus::Active, Some(42));
    let t = classify(&mut store, incoming);

    assert_eq!(t, Transition::ScheduledToActive);
    assert_eq!(store.get(1), Some(incoming));
    // The resolver would be consulted with the linked channel 42.
    assert_eq!(resolution_channel(&incoming), Some(42));
}

#[test]
fn duplicate_active_update_is_irrelevant() {
    // Store seeded with {id=2, status=Active}; a duplicate active update
    // arrives: no transition is flagged.
    let mut store = SnapshotStore::new();
    store.put(snap(2, EventStatus::Active, Some(7)));

    let incoming = snap(2, EventStatus::Active, Some(7));
    let t = classify(&mut store, incoming);

    assert_eq!(t, Transition::Irrelevant);
    assert_eq!(store.get(2), Some(incoming));
}

#[test]
fn first_active_observation_is_no_prior() {
    // No prior snapshot exists for id=9; an active notification arrives:
    // classified NoPrior, store updated, resolver not invoked.
    let mut store = SnapshotStore::new();

    let incoming = snap(9, EventStatus::Active, Some(3));
    let t = classify(&mut store, incoming);

    assert_eq!(t, Transition::NoPrior);
    assert_eq!(store.get(9), Some(incoming));
}

#[test]
fn first_non_active_observation_is_irrelevant() {
    // A first observation that is not active falls under the status test:
    // Irrelevant, and the store is still updated.
    let mut store = SnapshotStore::new();

    let incoming = snap(5, EventStatus::Scheduled, None);
    let t = classify(&mut store, incoming);

    assert_eq!(t, Transition::Irrelevant);
    assert_eq!(store.get(5), Some(incoming));
}

#[test]
fn rollback_and_terminal_edges_never_flagged() {
    // Active -> Scheduled (rollback), Scheduled -> Completed and
    // Scheduled -> Canceled (direct jumps) are all silent.
    let mut store = SnapshotStore::new();
    store.put(snap(1, EventStatus::Active, Some(4)));
    assert_eq!(
        classify(&mut store, snap(1, EventStatus::Scheduled, Some(4))),
        Transition::Irrelevant
    );

    store.put(snap(2, EventStatus::Scheduled, Some(4)));
    assert_eq!(
        classify(&mut store, snap(2, EventStatus::Completed, Some(4))),
        Transition::Irrelevant
    );

    store.put(snap(3, EventStatus::Scheduled, Some(4)));
    assert_eq!(
        classify(&mut store, snap(3, EventStatus::Canceled, Some(4))),
        Transition::Irrelevant
    );
}

#[test]
fn completed_to_active_is_irrelevant() {
    // The prior must be Scheduled for the edge to fire; Completed -> Active
    // is not the watched edge.
    let mut store = SnapshotStore::new();
    store.put(snap(6, EventStatus::Completed, Some(4)));
    assert_eq!(
        classify(&mut store, snap(6, EventStatus::Active, Some(4))),
        Transition::Irrelevant
    );
}

#[test]
fn store_keeps_last_write_per_id() {
    // Feeding a run of snapshots for one id through the detector leaves
    // exactly the last one cached, whatever each was classified as.
    let mut store = SnapshotStore::new();
    let run = vec![
        snap(11, EventStatus::Scheduled, Some(1)),
        snap(11, EventStatus::Active, Some(1)),
        snap(11, EventStatus::Completed, Some(1)),
        snap(11, EventStatus::Canceled, None),
    ];
    classify_run(&mut store, &run);
    assert_eq!(store.get(11), Some(snap(11, EventStatus::Canceled, None)));
    assert_eq!(store.len(), 1);
}

#[test]
fn classify_run_leaves_other_ids_alone() {
    let mut store = SnapshotStore::new();
    store.put(snap(50, EventStatus::Scheduled, None));
    let run = vec![
        snap(60, EventStatus::Scheduled, Some(2)),
        snap(60, EventStatus::Active, Some(2)),
    ];
    classify_run(&mut store, &run);
    assert_eq!(store.get(50), Some(snap(50, EventStatus::Scheduled, None)));
    assert_eq!(store.get(60), Some(snap(60, EventStatus::Active, Some(2))));
    assert_eq!(store.len(), 2);
}

#[test]
fn get_on_unknown_id_is_none() {
    let store = SnapshotStore::new();
    assert_eq!(store.get(123), None);
    assert_eq!(store.len(), 0);
}

#[test]
fn initialize_seeds_every_event() {
    let mut store = SnapshotStore::new();
    let seed = vec![
        snap(1, EventStatus::Scheduled, Some(10)),
        snap(2, EventStatus::Active, None),
        snap(3, EventStatus::Completed, Some(30)),
    ];
    store.initialize(&seed);
    assert_eq!(store.len(), 3);
    assert_eq!(store.get(1), Some(seed[0]));
    assert_eq!(store.get(2), Some(seed[1]));
    assert_eq!(store.get(3), Some(seed[2]));
}

#[test]
fn initialize_twice_overwrites() {
    // A second bulk load just overwrites, entry by entry.
    let mut store = SnapshotStore::new();
    store.initialize(&vec![snap(1, EventStatus::Scheduled, Some(10))]);
    store.initialize(&vec![snap(1, EventStatus::Active, Some(10))]);
    assert_eq!(store.len(), 1);
    assert_eq!(store.get(1), Some(snap(1, EventStatus::Active, Some(10))));
}

#[test]
fn initialize_with_duplicate_ids_keeps_last() {
    let mut store = SnapshotStore::new();
    let seed = vec![
        snap(4, EventStatus::Scheduled, None),
        snap(4, EventStatus::Active, Some(8)),
    ];
    store.initialize(&seed);
    assert_eq!(store.len(), 1);
    assert_eq!(store.get(4), Some(seed[1]));
}

#[test]
fn absentees_are_interested_minus_present() {
    // interested = {A,B,C}, present = {B,D} -> absent = {A,C}.
    let interested = vec![1, 2, 3];
    let present = vec![2, 4];
    assert_eq!(compute_absentees(&interested, &present), vec![1, 3]);
}

#[test]
fn absentees_ignore_order_and_duplicates() {
    // The absentee set depends only on which users appear in each list.
    let a = compute_absentees(&vec![3, 1, 2, 1], &vec![4, 2, 2]);
    let b = compute_absentees(&vec![1, 2, 3], &vec![2, 4]);
    let mut a_sorted = a.clone();
    a_sorted.sort();
    let mut b_sorted = b.clone();
    b_sorted.sort();
    assert_eq!(a_sorted, b_sorted);
    assert_eq!(a_sorted, vec![1, 3]);
}

#[test]
fn absentees_of_empty_interest_is_empty() {
    assert_eq!(compute_absentees(&vec![], &vec![5, 6]), Vec::<u64>::new());
}

#[test]
fn absentees_with_nobody_present_is_everyone_once() {
    assert_eq!(compute_absentees(&vec![7, 7, 8], &vec![]), vec![7, 8]);
}

#[test]
fn absentees_when_all_present_is_empty() {
    assert_eq!(compute_absentees(&vec![1, 2], &vec![2, 1, 9]), Vec::<u64>::new());
}

#[test]
fn resolution_skipped_without_linked_channel() {
    // An event with no linked channel has no presence concept: resolution
    // is skipped before any fetch.
    let external = snap(20, EventStatus::Active, None);
    assert_eq!(resolution_channel(&external), None);
}

#[test]
fn resolution_aborts_when_membership_unavailable() {
    // A failed membership fetch aborts the resolution with no result.
    let interested = vec![1, 2];
    assert_eq!(resolve_absentees(None, &interested), None);
}

#[test]
fn resolution_with_membership_returns_absentees() {
    let interested = vec![1, 2, 3];
    let present = vec![2, 4];
    assert_eq!(resolve_absentees(Some(&present), &interested), Some(vec![1, 3]));
}
