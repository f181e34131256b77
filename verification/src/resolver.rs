//! Computing the absentees of an event that just became active: the users
//! who marked interest but are not present in the event's linked channel.
//!
//! The two membership fetches are network calls and stay with the caller:
//! it asks `resolution_channel` whether there is anything to fetch, performs
//! the fetches, and hands the plain id lists to `resolve_absentees`.

use crate::event::EventSnapshot;
use vstd::prelude::*;

verus! {

/// The absentees of an event, as a set: every user who appears among the
/// interested but not among the present, regardless of order or duplicates
/// in either list.
pub open spec fn absentee_set(interested: Seq<u64>, present: Seq<u64>) -> Set<u64> {
    interested.to_set().difference(present.to_set())
}

/// No id occurs twice in `s`.
pub open spec fn distinct(s: Seq<u64>) -> bool {
    forall|i: int, j: int| 0 <= i < j < s.len() ==> s[i] != s[j]
}

/// The channel whose membership resolution must consult, if any. An event
/// without a linked channel has no presence concept (it is externally
/// located): resolution is skipped outright and neither membership nor
/// interest is fetched.
pub fn resolution_channel(event: &EventSnapshot) -> (r: Option<u64>)
    ensures
        r == event.channel_id,
{
    event.channel_id
}

/// Whether `x` occurs in `v`.
fn contains_id(v: &Vec<u64>, x: u64) -> (r: bool)
    ensures
        r == v@.contains(x),
{
    let mut i: usize = 0;
    while i < v.len()
        invariant
            i <= v@.len(),
            forall|j: int| 0 <= j < i ==> v@[j] != x,
        decreases v@.len() - i,
    {
        if v[i] == x {
            assert(v@.contains(x));
            return true;
        }
        i = i + 1;
    }
    false
}

/// `interested − present`, by user id: the returned list holds exactly the
/// users who appear in `interested` but not in `present`, each once, in the
/// order of their first occurrence in `interested`.
pub fn compute_absentees(interested: &Vec<u64>, present: &Vec<u64>) -> (r: Vec<u64>)
    ensures
        forall|u: u64| r@.contains(u) <==> (interested@.contains(u) && !present@.contains(u)),
        r@.to_set() == absentee_set(interested@, present@),
        distinct(r@),
{
    let mut r: Vec<u64> = Vec::new();
    let mut i: usize = 0;
    while i < interested.len()
        invariant
            i <= interested@.len(),
            distinct(r@),
            forall|j: int| 0 <= j < r@.len() ==> interested@.contains(#[trigger] r@[j])
                && !present@.contains(r@[j]),
            forall|u: u64| (interested@.take(i as int).contains(u) && !present@.contains(u))
                ==> r@.contains(u),
        decreases interested@.len() - i,
    {
        let u = interested[i];
        let ghost r_before = r@;
        if !contains_id(present, u) && !contains_id(&r, u) {
            r.push(u);
            proof {
                assert(interested@.contains(u)) by {
                    assert(interested@[i as int] == u);
                }
                assert(forall|j: int| 0 <= j < r_before.len() ==> r_before[j] != u);
            }
        }
        proof {
            assert(forall|j: int| 0 <= j < r_before.len() ==> r@[j] == r_before[j]);
            assert forall|v: u64|
                interested@.take(i + 1).contains(v) && !present@.contains(v) implies r@.contains(
                v,
            ) by {
                let j = choose|j: int|
                    0 <= j < interested@.take(i + 1).len() && #[trigger] interested@.take(
                        i + 1,
                    )[j] == v;
                if j < i {
                    assert(interested@.take(i as int)[j] == v);
                    assert(interested@.take(i as int).contains(v));
                    assert(r_before.contains(v));
                    let k = choose|k: int| 0 <= k < r_before.len() && r_before[k] == v;
                    assert(r@[k] == v);
                } else {
                    assert(v == u);
                    if r_before.contains(u) {
                        let k = choose|k: int| 0 <= k < r_before.len() && r_before[k] == u;
                        assert(r@[k] == u);
                    } else {
                        assert(r@[r_before.len() as int] == u);
                    }
                }
            }
        }
        i = i + 1;
    }
    proof {
        assert(interested@.take(interested@.len() as int) =~= interested@);
        assert forall|u: u64| #[trigger] r@.contains(u) implies (interested@.contains(u)
            && !present@.contains(u)) by {
            let j = choose|j: int| 0 <= j < r@.len() && r@[j] == u;
            assert(interested@.contains(r@[j]));
        }
        assert(r@.to_set() =~= absentee_set(interested@, present@));
    }
    r
}

/// One resolution step, fail-soft: if the membership fetch failed or the
/// channel's members could not be enumerated (`members` is `None`),
/// resolution aborts and surfaces no result; otherwise the absentees are
/// exactly `interested − present`.
pub fn resolve_absentees(members: Option<&Vec<u64>>, interested: &Vec<u64>) -> (r: Option<
    Vec<u64>,
>)
    ensures
        r is Some <==> members is Some,
        members matches Some(p) ==> (r matches Some(a) && a@.to_set() == absentee_set(
            interested@,
            p@,
        ) && distinct(a@) && forall|u: u64|
            a@.contains(u) <==> (interested@.contains(u) && !p@.contains(u))),
{
    match members {
        None => None,
        Some(present) => Some(compute_absentees(interested, present)),
    }
}

/// Order independence: the absentee set depends only on which users appear
/// in each list, never on the order or multiplicity in which they were
/// enumerated.
pub proof fn lemma_absentees_order_independent(
    interested_a: Seq<u64>,
    interested_b: Seq<u64>,
    present_a: Seq<u64>,
    present_b: Seq<u64>,
)
    requires
        interested_a.to_set() == interested_b.to_set(),
        present_a.to_set() == present_b.to_set(),
    ensures
        absentee_set(interested_a, present_a) == absentee_set(interested_b, present_b),
{
}

/// Membership law: a user is an absentee exactly when interested and not
/// present; in particular, every user in both lists is excluded.
pub proof fn lemma_absentee_membership(u: u64, interested: Seq<u64>, present: Seq<u64>)
    ensures
        absentee_set(interested, present).contains(u) <==> (interested.contains(u)
            && !present.contains(u)),
        (interested.contains(u) && present.contains(u)) ==> !absentee_set(
            interested,
            present,
        ).contains(u),
{
}

} // verus!
