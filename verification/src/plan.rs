//! Per-tick reconciliation planning.
//!
//! Each tick, after the observed replicas are classified and dead ones
//! scheduled for cleanup, the reconciler decides exactly one of: rolling
//! update (version drift always preempts scale adjustments), scale-up
//! (suppressed while the backoff gate is closed), scale-down from the head
//! of the running sequence, or steady state.

use vstd::prelude::*;
use crate::backoff::BackoffState;

verus! {

/// Seconds the loop sleeps between reconciliation passes.
pub const TICK_INTERVAL_SECS: u64 = 5;

/// Grace period handed to the runtime's stop operation before removal.
pub const STOP_GRACE_SECS: u64 = 5;

/// Immutable declared configuration: the service identifier, the target
/// image reference, and the desired replica count. Set once, never mutated.
pub struct DesiredState {
    pub service: String,
    pub image: String,
    pub replicas: usize,
}

/// A version label differs from the desired image when it is absent or when
/// its text is not exactly the image reference.
pub open spec fn version_differs(version: Option<Seq<char>>, image: Seq<char>) -> bool {
    match version {
        Some(v) => v != image,
        None => true,
    }
}

/// Some running replica carries a version label that differs from the
/// desired image: the whole service counts as outdated.
pub open spec fn spec_has_drift(versions: Seq<Option<Seq<char>>>, image: Seq<char>) -> bool {
    exists|i: int| 0 <= i < versions.len() && version_differs(versions[i], image)
}

/// The single action one tick takes after cleanup, at most one of which is
/// ever issued per tick.
#[derive(Debug, PartialEq)]
pub enum TickAction {
    /// Replace every currently-running replica, in observed order.
    RollingUpdate(Vec<String>),
    /// Create and start this many new replicas.
    Spawn(usize),
    /// Scale-up was due but the backoff gate is closed; do nothing, successfully.
    SpawnSuppressed,
    /// Gracefully remove exactly these replicas, taken from the head of the
    /// running sequence.
    ScaleDown(Vec<String>),
    /// Desired state is satisfied; no action.
    Steady,
}

/// The mathematical shape of a tick action, over plain sequences.
pub enum TickActionModel {
    RollingUpdate(Seq<Seq<char>>),
    Spawn(nat),
    SpawnSuppressed,
    ScaleDown(Seq<Seq<char>>),
    Steady,
}

impl View for TickAction {
    type V = TickActionModel;

    open spec fn view(&self) -> TickActionModel {
        match self {
            TickAction::RollingUpdate(ids) => TickActionModel::RollingUpdate(ids.deep_view()),
            TickAction::Spawn(n) => TickActionModel::Spawn(*n as nat),
            TickAction::SpawnSuppressed => TickActionModel::SpawnSuppressed,
            TickAction::ScaleDown(ids) => TickActionModel::ScaleDown(ids.deep_view()),
            TickAction::Steady => TickActionModel::Steady,
        }
    }
}

/// The tick decision rule. Priority order: version drift first, then
/// scale-up (gated by backoff), then scale-down from the head, else steady.
pub open spec fn spec_plan(
    running: Seq<Seq<char>>,
    versions: Seq<Option<Seq<char>>>,
    desired_count: nat,
    desired_image: Seq<char>,
    backoff: BackoffState,
    now: u64,
) -> TickActionModel {
    if spec_has_drift(versions, desired_image) {
        TickActionModel::RollingUpdate(running)
    } else if running.len() < desired_count {
        if backoff.spec_in_backoff(now) {
            TickActionModel::SpawnSuppressed
        } else {
            TickActionModel::Spawn((desired_count - running.len()) as nat)
        }
    } else if running.len() > desired_count {
        TickActionModel::ScaleDown(running.take(running.len() - desired_count))
    } else {
        TickActionModel::Steady
    }
}

/// Whether any running replica's version label differs from the desired
/// image reference. `versions` holds one entry per running replica, in the
/// order the replicas were observed.
pub fn any_version_drift(versions: &Vec<Option<String>>, image: &String) -> (b: bool)
    ensures
        b == spec_has_drift(versions.deep_view(), image@),
{
    let ghost vs = versions.deep_view();
    let mut i: usize = 0;
    while i < versions.len()
        invariant
            i <= versions@.len(),
            vs == versions.deep_view(),
            vs.len() == versions@.len(),
            forall|j: int| 0 <= j < i ==> !version_differs(vs[j], image@),
        decreases versions@.len() - i,
    {
        let differs = match &versions[i] {
            Some(v) => !v.eq(image),
            None => true,
        };
        proof {
            assert(vs[i as int] == versions@[i as int].deep_view());
        }
        if differs {
            proof {
                assert(version_differs(vs[i as int], image@));
            }
            return true;
        }
        i += 1;
    }
    false
}

/// Decide this tick's single action from what was observed. `running` holds
/// the running replica identifiers in observed order and `versions` the
/// version label of each, aligned index by index.
pub fn plan_tick_action(
    running: Vec<String>,
    versions: &Vec<Option<String>>,
    desired: &DesiredState,
    backoff: &BackoffState,
    now: u64,
) -> (action: TickAction)
    requires
        versions@.len() == running@.len(),
        backoff.time_wf(now),
    ensures
        action@ == spec_plan(
            running.deep_view(),
            versions.deep_view(),
            desired.replicas as nat,
            desired.image@,
            *backoff,
            now,
        ),
{
    let ghost rv = running.deep_view();
    let running_count = running.len();
    if any_version_drift(versions, &desired.image) {
        return TickAction::RollingUpdate(running);
    }
    if running_count < desired.replicas {
        if backoff.in_backoff(now) {
            return TickAction::SpawnSuppressed;
        }
        return TickAction::Spawn(desired.replicas - running_count);
    }
    if running_count > desired.replicas {
        let to_kill = running_count - desired.replicas;
        let mut head = running;
        head.truncate(to_kill);
        proof {
            assert(head.deep_view() =~= rv.take(to_kill as int));
        }
        return TickAction::ScaleDown(head);
    }
    TickAction::Steady
}

/// Idempotence of the converged state: when the running count equals the
/// desired count and no running replica's version drifts, the tick plans no
/// action — and so does any immediately following tick that observes the
/// same inventory, whatever the backoff tracker did in between.
pub proof fn lemma_converged_tick_is_idempotent(
    running: Seq<Seq<char>>,
    versions: Seq<Option<Seq<char>>>,
    desired_count: nat,
    desired_image: Seq<char>,
    first_backoff: BackoffState,
    first_now: u64,
    second_backoff: BackoffState,
    second_now: u64,
)
    requires
        running.len() == desired_count,
        !spec_has_drift(versions, desired_image),
    ensures
        spec_plan(running, versions, desired_count, desired_image, first_backoff, first_now)
            == TickActionModel::Steady,
        spec_plan(running, versions, desired_count, desired_image, second_backoff, second_now)
            == TickActionModel::Steady,
{
}

/// The backoff gate suppresses exactly the scale-up branch: a tick that is
/// under-scaled, drift-free, and inside the backoff window plans
/// `SpawnSuppressed` — a successful no-op — never a spawn.
pub proof fn lemma_backoff_suppresses_spawn(
    running: Seq<Seq<char>>,
    versions: Seq<Option<Seq<char>>>,
    desired_count: nat,
    desired_image: Seq<char>,
    backoff: BackoffState,
    now: u64,
)
    requires
        running.len() < desired_count,
        !spec_has_drift(versions, desired_image),
        backoff.spec_in_backoff(now),
    ensures
        spec_plan(running, versions, desired_count, desired_image, backoff, now)
            == TickActionModel::SpawnSuppressed,
{
}

/// The backoff tracker influences nothing but the scale-up branch: unless
/// the tick is drift-free and under-scaled, the planned action is the same
/// whatever the tracker holds — rolling updates and scale-down are never
/// suppressed.
pub proof fn lemma_backoff_gates_only_scale_up(
    running: Seq<Seq<char>>,
    versions: Seq<Option<Seq<char>>>,
    desired_count: nat,
    desired_image: Seq<char>,
    first_backoff: BackoffState,
    first_now: u64,
    second_backoff: BackoffState,
    second_now: u64,
)
    requires
        spec_has_drift(versions, desired_image) || running.len() >= desired_count,
    ensures
        spec_plan(running, versions, desired_count, desired_image, first_backoff, first_now)
            == spec_plan(running, versions, desired_count, desired_image, second_backoff, second_now),
{
}

} // verus!
