use replica_reconciler::backoff::BackoffState;
use replica_reconciler::observe::{classify_inventory, LifecycleState, ReplicaRecord};
use replica_reconciler::naming::{fresh_replica_name, replica_labels};
use replica_reconciler::plan::{plan_tick_action, DesiredState, TickAction};
use replica_reconciler::rolling::{rolling_update_actions, UpdateAction};

fn s(x: &str) -> String {
    x.to_string()
}

fn rec(id: &str, state: LifecycleState, status: &str) -> ReplicaRecord {
    ReplicaRecord { id: s(id), state, status: s(status) }
}

fn desired(image: &str, replicas: usize) -> DesiredState {
    DesiredState { service: s("web"), image: s(image), replicas }
}

fn fresh_backoff() -> BackoffState {
    BackoffState { consecutive_failures: 0, last_failure: None }
}

fn ok_versions(image: &str, n: usize) -> Vec<Option<String>> {
    (0..n).map(|_| Some(s(image))).collect()
}

#[test]
fn classification_up_status_counts_running() {
    // A replica with status text "Up 3 seconds" and an unrecognised state
    // classifies as running.
    let inv = classify_inventory(&vec![rec("a", LifecycleState::Unknown, "Up 3 seconds")]);
    assert_eq!(inv.running, vec![s("a")]);
    assert!(inv.dead.is_empty());
}

#[test]
fn classification_exited_counts_dead() {
    // A replica with state "exited" and status "Exited (1)" classifies as dead.
    let inv = classify_inventory(&vec![rec("b", LifecycleState::Exited, "Exited (1)")]);
    assert!(inv.running.is_empty());
    assert_eq!(inv.dead, vec![s("b")]);
}

#[test]
fn classification_state_enum_alone_counts_running() {
    let inv = classify_inventory(&vec![rec("c", LifecycleState::Running, "")]);
    assert_eq!(inv.running, vec![s("c")]);
    assert!(inv.dead.is_empty());
}

#[test]
fn classification_is_case_insensitive() {
    let inv = classify_inventory(&vec![
        rec("a", LifecycleState::Unknown, "UP 10 minutes"),
        rec("b", LifecycleState::Unknown, "currently RUNNING"),
    ]);
    assert_eq!(inv.running, vec![s("a"), s("b")]);
    assert!(inv.dead.is_empty());
}

#[test]
fn classification_empty_fields_count_dead() {
    let inv = classify_inventory(&vec![rec("", LifecycleState::Unknown, "")]);
    assert!(inv.running.is_empty());
    assert_eq!(inv.dead, vec![s("")]);
}

#[test]
fn inventory_partitions_observed_set() {
    // Every observed identifier lands in exactly one of the two sequences,
    // in observed order.
    let records = vec![
        rec("r1", LifecycleState::Running, "Up 2 hours"),
        rec("d1", LifecycleState::Exited, "Exited (0)"),
        rec("r2", LifecycleState::Unknown, "Up 1 second"),
        rec("d2", LifecycleState::Dead, ""),
    ];
    let inv = classify_inventory(&records);
    assert_eq!(inv.running, vec![s("r1"), s("r2")]);
    assert_eq!(inv.dead, vec![s("d1"), s("d2")]);
    assert_eq!(inv.running.len() + inv.dead.len(), records.len());
    for id in &inv.running {
        assert!(!inv.dead.contains(id));
    }
}

#[test]
fn backoff_threshold_gates_respawn() {
    // Enough failing ticks in quick succession suppress respawning: an
    // under-scaled tick then plans no spawn and still succeeds.
    let mut b = fresh_backoff();
    for tick in 0..5u64 {
        b.register_failure(tick * 5);
    }
    assert_eq!(b.consecutive_failures, 5);
    assert!(b.in_backoff(25));
    let action = plan_tick_action(
        vec![s("r1")],
        &ok_versions("nginx:alpine", 1),
        &desired("nginx:alpine", 3),
        &b,
        25,
    );
    assert_eq!(action, TickAction::SpawnSuppressed);
}

#[test]
fn backoff_below_threshold_keeps_gate_open() {
    let mut b = fresh_backoff();
    for tick in 0..4u64 {
        b.register_failure(tick * 5);
    }
    assert!(!b.in_backoff(16));
}

#[test]
fn backoff_window_expiry_reopens_gate() {
    let mut b = fresh_backoff();
    for tick in 0..5u64 {
        b.register_failure(tick);
    }
    // The latest failure is stamped at time 4, so from time 34 on the
    // suppression window has passed and spawning resumes.
    assert!(b.in_backoff(33));
    assert!(!b.in_backoff(34));
    let action = plan_tick_action(
        vec![s("r1")],
        &ok_versions("nginx:alpine", 1),
        &desired("nginx:alpine", 3),
        &b,
        34,
    );
    assert_eq!(action, TickAction::Spawn(2));
}

#[test]
fn backoff_resets_after_quiet_window() {
    // After more than 300 seconds with zero failures the counter resets.
    let mut b = fresh_backoff();
    b.register_failure(0);
    b.register_failure(1);
    b.maybe_reset(301);
    assert_eq!(b.consecutive_failures, 2, "the quiet window has not yet elapsed");
    b.maybe_reset(302);
    assert_eq!(b.consecutive_failures, 0);
    assert_eq!(b.last_failure, None);
}

#[test]
fn note_inventory_registers_and_resets() {
    let mut b = fresh_backoff();
    b.note_inventory(2, 10);
    assert_eq!(b.consecutive_failures, 1);
    assert_eq!(b.last_failure, Some(10));
    b.note_inventory(0, 20);
    assert_eq!(b.consecutive_failures, 1, "quiet window not yet elapsed");
    b.note_inventory(0, 311);
    assert_eq!(b.consecutive_failures, 0);
    assert_eq!(b.last_failure, None);
}

#[test]
fn steady_tick_plans_no_action_twice() {
    // Reconciling twice in immediate succession with the running count at
    // the desired count and no drift issues zero spawn/remove actions both
    // times.
    let d = desired("nginx:alpine", 2);
    let running = vec![s("r1"), s("r2")];
    let versions = ok_versions("nginx:alpine", 2);
    let mut b = fresh_backoff();
    b.note_inventory(0, 100);
    let first = plan_tick_action(running.clone(), &versions, &d, &b, 100);
    assert_eq!(first, TickAction::Steady);
    b.note_inventory(0, 105);
    let second = plan_tick_action(running, &versions, &d, &b, 105);
    assert_eq!(second, TickAction::Steady);
}

#[test]
fn scale_up_spawns_exact_deficit() {
    // desired=3, running=1: exactly 2 spawns, no removals.
    let action = plan_tick_action(
        vec![s("r1")],
        &ok_versions("nginx:alpine", 1),
        &desired("nginx:alpine", 3),
        &fresh_backoff(),
        0,
    );
    assert_eq!(action, TickAction::Spawn(2));
}

#[test]
fn scale_down_removes_from_head() {
    // desired=3, running=5: exactly 2 removals, taken from the head of the
    // running sequence, no spawns.
    let action = plan_tick_action(
        vec![s("r1"), s("r2"), s("r3"), s("r4"), s("r5")],
        &ok_versions("nginx:alpine", 5),
        &desired("nginx:alpine", 3),
        &fresh_backoff(),
        0,
    );
    assert_eq!(action, TickAction::ScaleDown(vec![s("r1"), s("r2")]));
}

#[test]
fn drift_triggers_rolling_update_of_all_running() {
    // desired=2, both running replicas report a stale version label: the
    // whole running set is replaced, in observed order.
    let action = plan_tick_action(
        vec![s("old1"), s("old2")],
        &vec![Some(s("nginx:1.24")), Some(s("nginx:1.24"))],
        &desired("nginx:alpine", 2),
        &fresh_backoff(),
        0,
    );
    assert_eq!(action, TickAction::RollingUpdate(vec![s("old1"), s("old2")]));
}

#[test]
fn drift_preempts_scale_adjustment() {
    // Version drift takes priority over the scale-up branch.
    let action = plan_tick_action(
        vec![s("old1")],
        &vec![Some(s("nginx:1.24"))],
        &desired("nginx:alpine", 3),
        &fresh_backoff(),
        0,
    );
    assert_eq!(action, TickAction::RollingUpdate(vec![s("old1")]));
}

#[test]
fn missing_version_label_counts_as_drift() {
    let action = plan_tick_action(
        vec![s("r1"), s("r2")],
        &vec![Some(s("nginx:alpine")), None],
        &desired("nginx:alpine", 2),
        &fresh_backoff(),
        0,
    );
    assert_eq!(action, TickAction::RollingUpdate(vec![s("r1"), s("r2")]));
}

#[test]
fn rolling_update_sequences_spawn_before_kill() {
    // Two outdated replicas: exactly two spawn+settle+remove cycles, each
    // spawn strictly before the removal it covers for.
    let acts = rolling_update_actions(&vec![s("old1"), s("old2")]);
    assert_eq!(
        acts,
        vec![
            UpdateAction::SpawnReplacement,
            UpdateAction::Settle,
            UpdateAction::RemoveOld(s("old1")),
            UpdateAction::SpawnReplacement,
            UpdateAction::Settle,
            UpdateAction::RemoveOld(s("old2")),
        ]
    );
    // At every prefix, spawns so far are at least removals so far.
    let mut spawns = 0i64;
    let mut removes = 0i64;
    for a in &acts {
        match a {
            UpdateAction::SpawnReplacement => spawns += 1,
            UpdateAction::Settle => {}
            UpdateAction::RemoveOld(_) => removes += 1,
        }
        assert!(removes <= spawns);
    }
    assert_eq!(spawns, 2);
    assert_eq!(removes, 2);
}

#[test]
fn rolling_update_of_nothing_is_empty() {
    let acts = rolling_update_actions(&Vec::new());
    assert!(acts.is_empty());
}

#[test]
fn fresh_replica_names_carry_service_prefix() {
    let name = fresh_replica_name("web");
    assert!(name.starts_with("web-"));
    assert_eq!(name.chars().count(), 3 + 1 + 36);
    let other = fresh_replica_name("web");
    assert_ne!(name, other, "suffixes are random and must differ");
}

#[test]
fn replica_labels_record_service_and_version() {
    let labels = replica_labels("web", "nginx:alpine");
    assert_eq!(
        labels,
        vec![
            (s("service"), s("web")),
            (s("managed-by"), s("bollard-orchestrator")),
            (s("version"), s("nginx:alpine")),
        ]
    );
}

#[test]
fn default_backoff_state_is_clean() {
    let b = BackoffState::default();
    assert_eq!(b.consecutive_failures, 0);
    assert_eq!(b.last_failure, None);
    assert!(!b.in_backoff(0));
}

#[test]
fn scale_down_proceeds_despite_backoff() {
    // The suppression window gates only scale-up: removals still happen.
    let mut b = fresh_backoff();
    for tick in 0..5u64 {
        b.register_failure(tick);
    }
    assert!(b.in_backoff(10));
    let action = plan_tick_action(
        vec![s("r1"), s("r2"), s("r3"), s("r4"), s("r5")],
        &ok_versions("nginx:alpine", 5),
        &desired("nginx:alpine", 3),
        &b,
        10,
    );
    assert_eq!(action, TickAction::ScaleDown(vec![s("r1"), s("r2")]));
}

#[test]
fn rolling_update_proceeds_despite_backoff() {
    // Version drift preempts everything, including the suppression window.
    let mut b = fresh_backoff();
    for tick in 0..5u64 {
        b.register_failure(tick);
    }
    assert!(b.in_backoff(10));
    let action = plan_tick_action(
        vec![s("old1")],
        &vec![None],
        &desired("nginx:alpine", 3),
        &b,
        10,
    );
    assert_eq!(action, TickAction::RollingUpdate(vec![s("old1")]));
}
