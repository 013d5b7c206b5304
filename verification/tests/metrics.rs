//! The metrics file.

use echod::control::{HealthState, RateLimiterStats, RoleHealth, WorkerStatus};
use echod::metrics::{unix_ms_as_seconds, MetricsSnapshot, UpgradeCounters};

fn worker(stats: Option<RateLimiterStats>) -> WorkerStatus {
    WorkerStatus {
        role: "processor".into(),
        pid: 4242,
        generation: 3,
        started_at_unix_ms: 1_700_000_000_000,
        in_flight: 17,
        listener_addr: Some("/tmp/x.sock".into()),
        rate_limiter_stats: stats,
    }
}

fn sample(stats: Option<RateLimiterStats>) -> MetricsSnapshot {
    let healths = vec![RoleHealth {
        role: "processor".into(),
        state: HealthState::Backoff,
        consecutive_fast_exits: 2,
        next_backoff_ms: 800,
        total_restarts: 12,
        last_restart_at_unix_ms: Some(1_700_000_005_000),
    }];
    let mut upgrades = UpgradeCounters::new();
    upgrades.incr_committed("processor");
    upgrades.incr_canary_aborted("plain");
    MetricsSnapshot::from_parts(7, 1_700_000_000_000, &vec![worker(stats)], &healths, &upgrades)
}

#[test]
fn render_contains_all_metric_families() {
    let text = sample(None).render();
    for needle in [
        "fdpass_supervisor_generation 7",
        "fdpass_worker_generation{role=\"processor\"} 3",
        "fdpass_worker_in_flight{role=\"processor\"} 17",
        "fdpass_worker_pid{role=\"processor\"} 4242",
        "fdpass_worker_health{role=\"processor\"} 1",
        "fdpass_worker_consecutive_fast_exits{role=\"processor\"} 2",
        "fdpass_worker_restarts_total{role=\"processor\"} 12",
        "fdpass_upgrade_total{role=\"processor\",outcome=\"committed\"} 1",
        "fdpass_upgrade_total{role=\"plain\",outcome=\"canary_aborted\"} 1",
        "fdpass_upgrade_total{role=\"scanner\",outcome=\"timed_out\"} 0",
    ] {
        assert!(text.contains(needle), "missing line {needle:?}\n--- got ---\n{text}");
    }
}

#[test]
fn each_metric_has_help_and_type() {
    let text = sample(None).render();
    for family in [
        "fdpass_supervisor_generation",
        "fdpass_worker_generation",
        "fdpass_worker_in_flight",
        "fdpass_worker_pid",
        "fdpass_worker_health",
        "fdpass_worker_consecutive_fast_exits",
        "fdpass_worker_restarts_total",
        "fdpass_worker_last_restart_seconds",
        "fdpass_upgrade_total",
        "fdpass_ratelimit_tracked_ips",
        "fdpass_ratelimit_evictions_total",
    ] {
        assert!(text.contains(&format!("# HELP {family} ")), "no HELP for {family}");
        assert!(text.contains(&format!("# TYPE {family} ")), "no TYPE for {family}");
    }
}

#[test]
fn seconds_have_three_decimals() {
    assert_eq!(unix_ms_as_seconds(1_700_000_005_000), "1700000005.000");
    assert_eq!(unix_ms_as_seconds(42), "0.042");
    let text = sample(None).render();
    assert!(text.contains("fdpass_supervisor_started_at_seconds 1700000000.000\n"));
    assert!(text.contains("fdpass_worker_last_restart_seconds{role=\"processor\"} 1700000005.000\n"));
}

#[test]
fn limiter_figures_appear_where_a_worker_has_them() {
    let text = sample(Some(RateLimiterStats {
        tracked_ips: 5,
        idle_evictions: 6,
        lru_evictions: 7,
        cap_refused: 8,
    }))
    .render();
    assert!(text.contains("fdpass_ratelimit_tracked_ips{role=\"processor\"} 5\n"));
    for line in [
        "fdpass_ratelimit_evictions_total{role=\"processor\",reason=\"idle\"} 6\n",
        "fdpass_ratelimit_evictions_total{role=\"processor\",reason=\"lru\"} 7\n",
        "fdpass_ratelimit_evictions_total{role=\"processor\",reason=\"cap_refused\"} 8\n",
    ] {
        assert!(text.contains(line), "{text}");
    }
    assert!(!sample(None).render().contains("fdpass_ratelimit_tracked_ips{"));
}

#[test]
fn upgrades_of_unknown_roles_are_not_counted() {
    let mut c = UpgradeCounters::new();
    c.incr_timed_out("nobody");
    c.incr_skipped("tls");
    c.incr_skipped("tls");
    assert_eq!(c.timed_out, UpgradeCounters::new().timed_out);
    assert_eq!(c.skipped.tls, 2);
}
