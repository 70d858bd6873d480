//! State observation: classifying observed replicas as running or dead.
//!
//! One record per container labeled with the service name is handed in by the
//! caller, fresh each tick. The hybrid classification rule marks a replica
//! running when either its structured lifecycle state says so or its
//! free-text status mentions being up; the union of both signals minimizes
//! false "dead" classifications when a runtime reports them inconsistently.

use vstd::prelude::*;
use crate::textscan::{contains_ci, has_substring_ci};

verus! {

/// Structured lifecycle state a runtime reports for one container.
/// States the classifier does not recognise map to `Unknown`.
#[derive(Clone, Copy, PartialEq, Eq, Structural, Debug)]
pub enum LifecycleState {
    Running,
    Created,
    Paused,
    Restarting,
    Exited,
    Removing,
    Dead,
    Unknown,
}

/// One replica as observed on a single tick: its identifier, its structured
/// lifecycle state, and the free-text status string. Missing fields default
/// to empty/unknown rather than failing the whole observation.
#[derive(Debug)]
pub struct ReplicaRecord {
    pub id: String,
    pub state: LifecycleState,
    pub status: String,
}

/// The word "up" looked for in status text.
pub open spec fn up_needle() -> Seq<char> {
    seq!['u', 'p']
}

/// The word "running" looked for in status text.
pub open spec fn running_needle() -> Seq<char> {
    seq!['r', 'u', 'n', 'n', 'i', 'n', 'g']
}

/// The hybrid classification rule: a replica is running when its structured
/// state equals `Running`, or its status text contains "up" or "running"
/// ignoring case; otherwise it is dead.
pub open spec fn spec_is_running(r: ReplicaRecord) -> bool {
    ||| r.state == LifecycleState::Running
    ||| has_substring_ci(r.status@, up_needle())
    ||| has_substring_ci(r.status@, running_needle())
}

/// Identifiers of the records the rule classifies as running, in observed order.
pub open spec fn running_ids(rs: Seq<ReplicaRecord>) -> Seq<Seq<char>>
    decreases rs.len(),
{
    if rs.len() == 0 {
        Seq::empty()
    } else if spec_is_running(rs.last()) {
        running_ids(rs.drop_last()).push(rs.last().id@)
    } else {
        running_ids(rs.drop_last())
    }
}

/// Identifiers of the records the rule classifies as dead, in observed order.
pub open spec fn dead_ids(rs: Seq<ReplicaRecord>) -> Seq<Seq<char>>
    decreases rs.len(),
{
    if rs.len() == 0 {
        Seq::empty()
    } else if !spec_is_running(rs.last()) {
        dead_ids(rs.drop_last()).push(rs.last().id@)
    } else {
        dead_ids(rs.drop_last())
    }
}

/// All observed identifiers, in observed order.
pub open spec fn all_ids(rs: Seq<ReplicaRecord>) -> Seq<Seq<char>> {
    rs.map_values(|r: ReplicaRecord| r.id@)
}

/// No identifier is observed twice.
pub open spec fn distinct_ids(rs: Seq<ReplicaRecord>) -> bool {
    forall|i: int, j: int|
        0 <= i < rs.len() && 0 <= j < rs.len() && i != j ==> rs[i].id@ != rs[j].id@
}

/// The derived view of one observation: the observed identifiers split into
/// two ordered sequences, `running` and `dead`, partitioning the whole set.
#[derive(Debug)]
pub struct ClassifiedInventory {
    pub running: Vec<String>,
    pub dead: Vec<String>,
}

/// Apply the hybrid classification rule to one observed replica.
pub fn is_running_replica(r: &ReplicaRecord) -> (b: bool)
    ensures
        b == spec_is_running(*r),
{
    if r.state == LifecycleState::Running {
        return true;
    }
    let in_status_up = contains_ci(r.status.as_str(), "up");
    proof {
        reveal_strlit("up");
        assert("up"@ =~= up_needle());
    }
    if in_status_up {
        return true;
    }
    let in_status_running = contains_ci(r.status.as_str(), "running");
    proof {
        reveal_strlit("running");
        assert("running"@ =~= running_needle());
    }
    in_status_running
}

/// Split one tick's observed records into running and dead identifier
/// sequences, in observed order, by the hybrid classification rule.
pub fn classify_inventory(records: &Vec<ReplicaRecord>) -> (inv: ClassifiedInventory)
    ensures
        inv.running.deep_view() == running_ids(records@),
        inv.dead.deep_view() == dead_ids(records@),
{
    let mut running: Vec<String> = Vec::new();
    let mut dead: Vec<String> = Vec::new();
    let mut i: usize = 0;
    proof {
        assert(records@.take(0) =~= Seq::<ReplicaRecord>::empty());
        assert(running.deep_view() =~= running_ids(records@.take(0)));
        assert(dead.deep_view() =~= dead_ids(records@.take(0)));
    }
    while i < records.len()
        invariant
            i <= records@.len(),
            running.deep_view() == running_ids(records@.take(i as int)),
            dead.deep_view() == dead_ids(records@.take(i as int)),
        decreases records@.len() - i,
    {
        let r = &records[i];
        proof {
            assert(records@.take(i + 1).drop_last() =~= records@.take(i as int));
            assert(records@.take(i + 1).last() == records@[i as int]);
        }
        if is_running_replica(r) {
            let ghost before = running.deep_view();
            running.push(r.id.clone());
            proof {
                assert(running.deep_view() =~= before.push(records@[i as int].id@));
            }
        } else {
            let ghost before = dead.deep_view();
            dead.push(r.id.clone());
            proof {
                assert(dead.deep_view() =~= before.push(records@[i as int].id@));
            }
        }
        i += 1;
    }
    proof {
        assert(records@.take(records@.len() as int) =~= records@);
    }
    ClassifiedInventory { running, dead }
}

/// An identifier is among the running ones exactly when some observed record
/// carries it and classifies as running.
pub proof fn lemma_running_ids_membership(rs: Seq<ReplicaRecord>, x: Seq<char>)
    ensures
        running_ids(rs).contains(x) <==> exists|i: int|
            0 <= i < rs.len() && rs[i].id@ == x && spec_is_running(rs[i]),
    decreases rs.len(),
{
    broadcast use vstd::seq_lib::lemma_seq_contains_after_push;

    if rs.len() == 0 {
    } else {
        lemma_running_ids_membership(rs.drop_last(), x);
        let prev = rs.drop_last();
        assert(forall|i: int| 0 <= i < prev.len() ==> prev[i] == rs[i]);
        if exists|i: int| 0 <= i < rs.len() && rs[i].id@ == x && spec_is_running(rs[i]) {
            let i = choose|i: int| 0 <= i < rs.len() && rs[i].id@ == x && spec_is_running(rs[i]);
            if i < rs.len() - 1 {
                assert(prev[i].id@ == x && spec_is_running(prev[i]));
            } else {
                assert(spec_is_running(rs.last()) && rs.last().id@ == x);
            }
            assert(running_ids(rs).contains(x));
        }
        if running_ids(rs).contains(x) {
            if spec_is_running(rs.last()) && rs.last().id@ == x {
                assert(rs[rs.len() - 1].id@ == x && spec_is_running(rs[rs.len() - 1]));
            } else {
                assert(running_ids(prev).contains(x));
                let i = choose|i: int| 0 <= i < prev.len() && prev[i].id@ == x && spec_is_running(prev[i]);
                assert(rs[i].id@ == x && spec_is_running(rs[i]));
            }
        }
    }
}

/// An identifier is among the dead ones exactly when some observed record
/// carries it and classifies as dead.
pub proof fn lemma_dead_ids_membership(rs: Seq<ReplicaRecord>, x: Seq<char>)
    ensures
        dead_ids(rs).contains(x) <==> exists|i: int|
            0 <= i < rs.len() && rs[i].id@ == x && !spec_is_running(rs[i]),
    decreases rs.len(),
{
    broadcast use vstd::seq_lib::lemma_seq_contains_after_push;

    if rs.len() == 0 {
    } else {
        lemma_dead_ids_membership(rs.drop_last(), x);
        let prev = rs.drop_last();
        assert(forall|i: int| 0 <= i < prev.len() ==> prev[i] == rs[i]);
        if exists|i: int| 0 <= i < rs.len() && rs[i].id@ == x && !spec_is_running(rs[i]) {
            let i = choose|i: int| 0 <= i < rs.len() && rs[i].id@ == x && !spec_is_running(rs[i]);
            if i < rs.len() - 1 {
                assert(prev[i].id@ == x && !spec_is_running(prev[i]));
            } else {
                assert(!spec_is_running(rs.last()) && rs.last().id@ == x);
            }
            assert(dead_ids(rs).contains(x));
        }
        if dead_ids(rs).contains(x) {
            if !spec_is_running(rs.last()) && rs.last().id@ == x {
                assert(rs[rs.len() - 1].id@ == x && !spec_is_running(rs[rs.len() - 1]));
            } else {
                assert(dead_ids(prev).contains(x));
                let i = choose|i: int| 0 <= i < prev.len() && prev[i].id@ == x && !spec_is_running(prev[i]);
                assert(rs[i].id@ == x && !spec_is_running(rs[i]));
            }
        }
    }
}

/// Partition law: the running and dead identifier sequences together carry
/// exactly the observed identifiers (as a multiset), every observed
/// identifier lies in one of the two, and when identifiers are distinct the
/// two sequences share none.
pub proof fn lemma_inventory_partition(rs: Seq<ReplicaRecord>)
    ensures
        running_ids(rs).to_multiset().add(dead_ids(rs).to_multiset())
            == all_ids(rs).to_multiset(),
        forall|x: Seq<char>|
            all_ids(rs).contains(x) <==> running_ids(rs).contains(x) || dead_ids(rs).contains(x),
        distinct_ids(rs) ==> forall|x: Seq<char>|
            !(running_ids(rs).contains(x) && dead_ids(rs).contains(x)),
    decreases rs.len(),
{
    broadcast use vstd::seq_lib::group_to_multiset_ensures;

    lemma_partition_multiset(rs);
    assert forall|x: Seq<char>|
        all_ids(rs).contains(x) <==> running_ids(rs).contains(x) || dead_ids(rs).contains(x) by {
        lemma_running_ids_membership(rs, x);
        lemma_dead_ids_membership(rs, x);
        if all_ids(rs).contains(x) {
            let i = choose|i: int| 0 <= i < all_ids(rs).len() && all_ids(rs)[i] == x;
            assert(rs[i].id@ == x);
        }
        if exists|i: int| 0 <= i < rs.len() && rs[i].id@ == x {
            let i = choose|i: int| 0 <= i < rs.len() && rs[i].id@ == x;
            assert(all_ids(rs)[i] == x);
        }
    }
    if distinct_ids(rs) {
        assert forall|x: Seq<char>|
            !(running_ids(rs).contains(x) && dead_ids(rs).contains(x)) by {
            lemma_running_ids_membership(rs, x);
            lemma_dead_ids_membership(rs, x);
            if running_ids(rs).contains(x) && dead_ids(rs).contains(x) {
                let i = choose|i: int|
                    0 <= i < rs.len() && rs[i].id@ == x && spec_is_running(rs[i]);
                let j = choose|j: int|
                    0 <= j < rs.len() && rs[j].id@ == x && !spec_is_running(rs[j]);
                assert(i != j);
                assert(rs[i].id@ != rs[j].id@);
            }
        }
    }
}

/// The multiset half of the partition law, proved by induction over the
/// observed records.
proof fn lemma_partition_multiset(rs: Seq<ReplicaRecord>)
    ensures
        running_ids(rs).to_multiset().add(dead_ids(rs).to_multiset())
            == all_ids(rs).to_multiset(),
    decreases rs.len(),
{
    broadcast use vstd::seq_lib::group_to_multiset_ensures;
    broadcast use vstd::multiset::group_multiset_axioms;

    if rs.len() == 0 {
        assert(running_ids(rs).to_multiset() =~= Seq::<Seq<char>>::empty().to_multiset());
        assert(all_ids(rs) =~= Seq::<Seq<char>>::empty());
        assert(running_ids(rs).to_multiset().add(dead_ids(rs).to_multiset())
            =~= all_ids(rs).to_multiset());
    } else {
        lemma_partition_multiset(rs.drop_last());
        let prev = rs.drop_last();
        let x = rs.last().id@;
        let run_prev = running_ids(prev).to_multiset();
        let dead_prev = dead_ids(prev).to_multiset();
        let all_prev = all_ids(prev).to_multiset();
        assert(all_ids(rs) =~= all_ids(prev).push(x));
        assert(all_ids(rs).to_multiset() == all_prev.insert(x));
        if spec_is_running(rs.last()) {
            assert(running_ids(rs) == running_ids(prev).push(x));
            assert(running_ids(rs).to_multiset() == run_prev.insert(x));
            assert(dead_ids(rs) == dead_ids(prev));
            assert forall|e: Seq<char>|
                run_prev.insert(x).add(dead_prev).count(e) == all_prev.insert(x).count(e) by {
                if e == x {
                    vstd::multiset::lemma_insert_increases_count_by_1(run_prev, x);
                    vstd::multiset::lemma_insert_increases_count_by_1(all_prev, x);
                } else {
                    vstd::multiset::lemma_insert_other_elements_unchanged(run_prev, x, e);
                    vstd::multiset::lemma_insert_other_elements_unchanged(all_prev, x, e);
                }
            }
            assert(run_prev.insert(x).add(dead_prev) =~= all_prev.insert(x));
        } else {
            assert(dead_ids(rs) == dead_ids(prev).push(x));
            assert(dead_ids(rs).to_multiset() == dead_prev.insert(x));
            assert(running_ids(rs) == running_ids(prev));
            assert forall|e: Seq<char>|
                run_prev.add(dead_prev.insert(x)).count(e) == all_prev.insert(x).count(e) by {
                if e == x {
                    vstd::multiset::lemma_insert_increases_count_by_1(dead_prev, x);
                    vstd::multiset::lemma_insert_increases_count_by_1(all_prev, x);
                } else {
                    vstd::multiset::lemma_insert_other_elements_unchanged(dead_prev, x, e);
                    vstd::multiset::lemma_insert_other_elements_unchanged(all_prev, x, e);
                }
            }
            assert(run_prev.add(dead_prev.insert(x)) =~= all_prev.insert(x));
        }
    }
}

} // verus!
