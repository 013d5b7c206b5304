//! The watchdog over each role.

use echod::control::HealthState;
use echod::handoff::UPGRADE_COMMIT_EXIT_CODE;
use echod::time::Span;
use echod::watchdog::{
    watchdog_health_state, watchdog_record, watchdog_record_exit, watchdogs_init,
    watchdogs_snapshot, WatchdogEvent, WatchdogState, WATCHDOG_FAIL_THRESHOLD,
    WATCHDOG_FLAP_THRESHOLD, WATCHDOG_HEALTHY_UPTIME, WATCHDOG_INITIAL_BACKOFF,
    WATCHDOG_MAX_BACKOFF,
};

const ZERO: Span = Span { nanos: 0 };

fn fast_exit() -> Option<i32> {
    Some(1)
}

fn commit_exit() -> Option<i32> {
    Some(UPGRADE_COMMIT_EXIT_CODE)
}

#[test]
fn fresh_watchdog_is_healthy() {
    let w = WatchdogState::new();
    assert_eq!(w.health_state(0), HealthState::Healthy);
    assert_eq!(w.consecutive_fast_exits, 0);
}

#[test]
fn fast_exits_double_the_backoff() {
    let mut w = WatchdogState::new();
    let b1 = w.apply_exit(fast_exit(), ZERO);
    let b2 = w.apply_exit(fast_exit(), ZERO);
    let b3 = w.apply_exit(fast_exit(), ZERO);
    assert_eq!(b1, Span::from_millis(400));
    assert_eq!(b2, Span::from_millis(800));
    assert_eq!(b3, Span::from_millis(1600));
}

#[test]
fn fast_exits_progress_through_states() {
    let mut w = WatchdogState::new();
    for _ in 0..(WATCHDOG_FLAP_THRESHOLD - 1) {
        w.apply_exit(fast_exit(), ZERO);
        assert_eq!(w.health_state(0), HealthState::Backoff);
    }
    w.apply_exit(fast_exit(), ZERO);
    assert_eq!(w.health_state(0), HealthState::Flapping);
    while !w.is_failed() {
        w.apply_exit(fast_exit(), ZERO);
    }
    assert_eq!(w.health_state(0), HealthState::Failed);
}

#[test]
fn healthy_uptime_resets_counter() {
    let mut w = WatchdogState::new();
    for _ in 0..3 {
        w.apply_exit(fast_exit(), ZERO);
    }
    assert!(w.consecutive_fast_exits > 0);
    w.apply_exit(fast_exit(), Span { nanos: WATCHDOG_HEALTHY_UPTIME + 1_000_000_000 });
    assert_eq!(w.consecutive_fast_exits, 0);
    assert_eq!(w.next_backoff.nanos, WATCHDOG_INITIAL_BACKOFF);
}

#[test]
fn upgrade_commit_exit_does_not_count() {
    let mut w = WatchdogState::new();
    for _ in 0..3 {
        w.apply_exit(fast_exit(), ZERO);
    }
    let before = w.consecutive_fast_exits;
    w.apply_exit(commit_exit(), ZERO);
    assert!(w.consecutive_fast_exits < before);
    assert_eq!(w.consecutive_fast_exits, 0);
}

#[test]
fn backoff_caps_at_max() {
    let mut w = WatchdogState::new();
    for _ in 0..30 {
        w.apply_exit(fast_exit(), ZERO);
    }
    assert!(w.next_backoff.nanos <= WATCHDOG_MAX_BACKOFF);
    assert_eq!(w.next_backoff.nanos, WATCHDOG_MAX_BACKOFF);
}

#[test]
fn watchdogs_init_seeds_all_four_roles() {
    let wd = watchdogs_init();
    let snap = watchdogs_snapshot(&wd, 0);
    assert_eq!(snap.len(), 4);
    let roles: Vec<&str> = snap.iter().map(|r| r.role.as_str()).collect();
    for expected in &["processor", "plain", "tls", "scanner"] {
        assert!(roles.contains(expected), "missing role {expected}");
    }
}

#[test]
fn watchdog_snapshot_reflects_fresh_state() {
    let wd = watchdogs_init();
    for s in watchdogs_snapshot(&wd, 0) {
        assert_eq!(s.state, HealthState::Healthy);
        assert_eq!(s.consecutive_fast_exits, 0);
        assert_eq!(s.total_restarts, 0);
    }
}

#[test]
fn watchdog_record_exit_increments_counter_and_transitions_state() {
    let mut wd = watchdogs_init();
    watchdog_record_exit(&mut wd, "plain", fast_exit(), 0);
    assert_eq!(watchdog_health_state(&wd, "plain", 0), HealthState::Backoff);
}

#[test]
fn watchdog_record_exit_reaches_failed_at_threshold() {
    let mut wd = watchdogs_init();
    for _ in 0..WATCHDOG_FAIL_THRESHOLD {
        watchdog_record_exit(&mut wd, "scanner", fast_exit(), 0);
    }
    assert_eq!(watchdog_health_state(&wd, "scanner", 0), HealthState::Failed);
}

#[test]
fn watchdog_record_exit_commit_code_resets_counter() {
    let mut wd = watchdogs_init();
    watchdog_record_exit(&mut wd, "tls", fast_exit(), 0);
    watchdog_record_exit(&mut wd, "tls", fast_exit(), 0);
    watchdog_record_exit(&mut wd, "tls", commit_exit(), 0);
    assert_eq!(watchdog_health_state(&wd, "tls", 0), HealthState::Healthy);
}

#[test]
fn watchdog_health_state_returns_healthy_for_fresh_role() {
    let wd = watchdogs_init();
    assert_eq!(watchdog_health_state(&wd, "processor", 0), HealthState::Healthy);
}

#[test]
fn watchdog_health_state_returns_healthy_for_unknown_role() {
    let wd = watchdogs_init();
    assert_eq!(watchdog_health_state(&wd, "does-not-exist", 0), HealthState::Healthy);
}

#[test]
fn snapshot_method_round_trips_state() {
    let mut w = WatchdogState::new();
    w.apply_exit(fast_exit(), ZERO);
    let s = w.snapshot("myrole", 0);
    assert_eq!(s.role, "myrole");
    assert_eq!(s.state, HealthState::Backoff);
    assert_eq!(s.consecutive_fast_exits, 1);
    assert_eq!(s.total_restarts, 0);
    assert_eq!(s.next_backoff_ms, 400);
}

#[test]
fn watchdog_record_spawn_increments_total_restarts() {
    let mut wd = watchdogs_init();
    watchdog_record(&mut wd, "processor", WatchdogEvent::Spawn, 7, 1_700_000_000_000);
    let snap = watchdogs_snapshot(&wd, 7);
    let s = snap.iter().find(|s| s.role == "processor").unwrap();
    assert_eq!(s.total_restarts, 1);
    assert_eq!(s.last_restart_at_unix_ms, Some(1_700_000_000_000));
}

#[test]
fn watchdog_record_adoption_does_not_increment_restarts() {
    let mut wd = watchdogs_init();
    watchdog_record(&mut wd, "plain", WatchdogEvent::Adoption, 7, 0);
    let snap = watchdogs_snapshot(&wd, 7);
    let s = snap.iter().find(|s| s.role == "plain").unwrap();
    assert_eq!(s.total_restarts, 0);
}

#[test]
fn signal_counts_as_a_crash() {
    let mut w = WatchdogState::new();
    w.apply_exit(None, ZERO);
    assert_eq!(w.consecutive_fast_exits, 1);
}

#[test]
fn exit_after_a_long_run_is_no_fast_exit() {
    let mut wd = watchdogs_init();
    watchdog_record(&mut wd, "tls", WatchdogEvent::Spawn, 0, 0);
    let (wait, note) = watchdog_record_exit(&mut wd, "tls", fast_exit(), 6_000_000_000);
    assert_eq!(wait.nanos, WATCHDOG_INITIAL_BACKOFF);
    assert!(note.is_none());
    assert_eq!(wd.state_of("tls").consecutive_fast_exits, 0);
}

#[test]
fn failed_role_waits_the_longest_time() {
    let mut wd = watchdogs_init();
    let mut waits = Vec::new();
    for _ in 0..7 {
        let (wait, note) = watchdog_record_exit(&mut wd, "scanner", fast_exit(), 0);
        waits.push((wait.nanos / 1_000_000, note.unwrap().failed));
    }
    assert_eq!(
        waits,
        vec![
            (400, false),
            (800, false),
            (1600, false),
            (3200, false),
            (30_000, true),
            (30_000, true),
            (30_000, true),
        ]
    );
    let snap = watchdogs_snapshot(&wd, 0);
    let s = snap.iter().find(|s| s.role == "scanner").unwrap();
    assert_eq!(s.state, HealthState::Failed);
    assert_eq!(s.next_backoff_ms, 30_000);
    let (wait, _) = watchdog_record_exit(&mut wd, "scanner", commit_exit(), 0);
    assert_eq!(wait.nanos, WATCHDOG_INITIAL_BACKOFF);
}
