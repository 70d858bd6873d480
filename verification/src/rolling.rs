//! Rolling-update sequencing.
//!
//! Each outdated replica is replaced in observed order: a replacement is
//! spawned first, a fixed settle delay lets it become healthy, and only then
//! is the old replica gracefully removed. This spawn-before-kill ordering
//! keeps at least the initial number of replicas available throughout the
//! update, at the cost of transient over-provisioning by one replica.

use vstd::prelude::*;

verus! {

/// Seconds to wait after starting a replacement before removing its
/// predecessor.
pub const SETTLE_DELAY_SECS: u64 = 3;

/// One primitive step of a rolling update, to be performed in sequence.
#[derive(Debug, PartialEq)]
pub enum UpdateAction {
    /// Create and start one fresh replica with the desired image.
    SpawnReplacement,
    /// Wait the settle delay so the replacement can become healthy.
    Settle,
    /// Gracefully remove this old replica.
    RemoveOld(String),
}

/// The mathematical shape of one rolling-update step.
pub enum UpdateStepModel {
    SpawnReplacement,
    Settle,
    RemoveOld(Seq<char>),
}

impl View for UpdateAction {
    type V = UpdateStepModel;

    open spec fn view(&self) -> UpdateStepModel {
        match self {
            UpdateAction::SpawnReplacement => UpdateStepModel::SpawnReplacement,
            UpdateAction::Settle => UpdateStepModel::Settle,
            UpdateAction::RemoveOld(id) => UpdateStepModel::RemoveOld(id@),
        }
    }
}

impl DeepView for UpdateAction {
    type V = UpdateStepModel;

    open spec fn deep_view(&self) -> UpdateStepModel {
        self.view()
    }
}

/// The action sequence that replaces `old_ids` in order: for each old
/// replica, spawn a replacement, settle, then remove it.
pub open spec fn spec_update_steps(old_ids: Seq<Seq<char>>) -> Seq<UpdateStepModel>
    decreases old_ids.len(),
{
    if old_ids.len() == 0 {
        Seq::empty()
    } else {
        spec_update_steps(old_ids.drop_last())
            + seq![
            UpdateStepModel::SpawnReplacement,
            UpdateStepModel::Settle,
            UpdateStepModel::RemoveOld(old_ids.last()),
        ]
    }
}

/// How many steps of a sequence spawn a replacement.
pub open spec fn spawn_count(acts: Seq<UpdateStepModel>) -> int
    decreases acts.len(),
{
    if acts.len() == 0 {
        0
    } else {
        spawn_count(acts.drop_last()) + match acts.last() {
            UpdateStepModel::SpawnReplacement => 1int,
            _ => 0int,
        }
    }
}

/// How many steps of a sequence remove an old replica.
pub open spec fn remove_count(acts: Seq<UpdateStepModel>) -> int
    decreases acts.len(),
{
    if acts.len() == 0 {
        0
    } else {
        remove_count(acts.drop_last()) + match acts.last() {
            UpdateStepModel::RemoveOld(_) => 1int,
            _ => 0int,
        }
    }
}

/// Build the ordered action sequence that replaces `replace` one by one,
/// spawn-before-kill with a settle delay between the two.
pub fn rolling_update_actions(replace: &Vec<String>) -> (acts: Vec<UpdateAction>)
    ensures
        acts.deep_view() == spec_update_steps(replace.deep_view()),
{
    let ghost ids = replace.deep_view();
    let mut acts: Vec<UpdateAction> = Vec::new();
    let mut i: usize = 0;
    proof {
        assert(ids.take(0) =~= Seq::<Seq<char>>::empty());
        assert(acts.deep_view() =~= spec_update_steps(ids.take(0)));
    }
    while i < replace.len()
        invariant
            i <= replace@.len(),
            ids == replace.deep_view(),
            ids.len() == replace@.len(),
            acts.deep_view() == spec_update_steps(ids.take(i as int)),
        decreases replace@.len() - i,
    {
        let ghost before = acts.deep_view();
        acts.push(UpdateAction::SpawnReplacement);
        acts.push(UpdateAction::Settle);
        acts.push(UpdateAction::RemoveOld(replace[i].clone()));
        proof {
            assert(ids.take(i + 1).drop_last() =~= ids.take(i as int));
            assert(ids.take(i + 1).last() == ids[i as int]);
            assert(ids[i as int] == replace@[i as int]@);
            assert(acts.deep_view() =~= before + seq![
                UpdateStepModel::SpawnReplacement,
                UpdateStepModel::Settle,
                UpdateStepModel::RemoveOld(ids[i as int]),
            ]);
        }
        i += 1;
    }
    proof {
        assert(ids.take(replace@.len() as int) =~= ids);
    }
    acts
}

/// Spawns and removals add over concatenation of step sequences.
proof fn lemma_counts_concat(a: Seq<UpdateStepModel>, b: Seq<UpdateStepModel>)
    ensures
        spawn_count(a + b) == spawn_count(a) + spawn_count(b),
        remove_count(a + b) == remove_count(a) + remove_count(b),
    decreases b.len(),
{
    if b.len() == 0 {
        assert(a + b =~= a);
    } else {
        lemma_counts_concat(a, b.drop_last());
        assert((a + b).drop_last() =~= a + b.drop_last());
        assert((a + b).last() == b.last());
    }
}

/// A full rolling-update sequence holds exactly one spawn and one removal
/// per replaced replica, in three steps per replica.
pub proof fn lemma_update_steps_totals(old_ids: Seq<Seq<char>>)
    ensures
        spec_update_steps(old_ids).len() == 3 * old_ids.len(),
        spawn_count(spec_update_steps(old_ids)) == old_ids.len(),
        remove_count(spec_update_steps(old_ids)) == old_ids.len(),
    decreases old_ids.len(),
{
    if old_ids.len() == 0 {
    } else {
        lemma_update_steps_totals(old_ids.drop_last());
        let tail = seq![
            UpdateStepModel::SpawnReplacement,
            UpdateStepModel::Settle,
            UpdateStepModel::RemoveOld(old_ids.last()),
        ];
        lemma_counts_concat(spec_update_steps(old_ids.drop_last()), tail);
        lemma_triple_counts(old_ids.last());
    }
}

/// Spawns and removals in one replacement triple and each of its prefixes.
proof fn lemma_triple_counts(x: Seq<char>)
    ensures
        spawn_count(seq![UpdateStepModel::SpawnReplacement]) == 1,
        remove_count(seq![UpdateStepModel::SpawnReplacement]) == 0,
        spawn_count(seq![UpdateStepModel::SpawnReplacement, UpdateStepModel::Settle]) == 1,
        remove_count(seq![UpdateStepModel::SpawnReplacement, UpdateStepModel::Settle]) == 0,
        spawn_count(
            seq![
                UpdateStepModel::SpawnReplacement,
                UpdateStepModel::Settle,
                UpdateStepModel::RemoveOld(x),
            ],
        ) == 1,
        remove_count(
            seq![
                UpdateStepModel::SpawnReplacement,
                UpdateStepModel::Settle,
                UpdateStepModel::RemoveOld(x),
            ],
        ) == 1,
{
    reveal_with_fuel(spawn_count, 5);
    reveal_with_fuel(remove_count, 5);
    let s1 = seq![UpdateStepModel::SpawnReplacement];
    let s2 = seq![UpdateStepModel::SpawnReplacement, UpdateStepModel::Settle];
    let s3 = seq![
        UpdateStepModel::SpawnReplacement,
        UpdateStepModel::Settle,
        UpdateStepModel::RemoveOld(x),
    ];
    assert(s1.drop_last() =~= Seq::<UpdateStepModel>::empty());
    assert(s2.drop_last() =~= s1);
    assert(s3.drop_last() =~= s2);
}

/// Spawn-before-kill: in every prefix of a rolling-update action sequence,
/// at least as many replacements have been spawned as old replicas removed.
/// With every replaced replica running at the start, the number of live
/// replicas after any prefix — initial plus spawns minus removals — therefore
/// never drops below the initial count.
pub proof fn lemma_spawn_before_kill(old_ids: Seq<Seq<char>>, k: int)
    requires
        0 <= k <= spec_update_steps(old_ids).len(),
    ensures
        remove_count(spec_update_steps(old_ids).take(k))
            <= spawn_count(spec_update_steps(old_ids).take(k)),
    decreases old_ids.len(),
{
    let steps = spec_update_steps(old_ids);
    lemma_update_steps_totals(old_ids);
    if old_ids.len() == 0 {
        assert(steps.take(k) =~= Seq::<UpdateStepModel>::empty());
    } else {
        let prev = spec_update_steps(old_ids.drop_last());
        let tail = seq![
            UpdateStepModel::SpawnReplacement,
            UpdateStepModel::Settle,
            UpdateStepModel::RemoveOld(old_ids.last()),
        ];
        lemma_update_steps_totals(old_ids.drop_last());
        if k <= prev.len() {
            assert(steps.take(k) =~= prev.take(k));
            lemma_spawn_before_kill(old_ids.drop_last(), k);
        } else {
            let d = k - prev.len();
            assert(steps.take(k) =~= prev + tail.take(d));
            lemma_counts_concat(prev, tail.take(d));
            lemma_triple_counts(old_ids.last());
            let s1 = seq![UpdateStepModel::SpawnReplacement];
            let s2 = seq![UpdateStepModel::SpawnReplacement, UpdateStepModel::Settle];
            if d == 1 {
                assert(tail.take(d) =~= s1);
            } else if d == 2 {
                assert(tail.take(d) =~= s2);
            } else {
                assert(tail.take(d) =~= tail);
            }
        }
    }
}

} // verus!
