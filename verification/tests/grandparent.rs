//! The process above the supervisor.

use echod::grandparent::{
    next_backoff, restart_wait, Grandparent, NextStep, Outcome, HEALTHY_UPTIME, MAX_BACKOFF,
    MIN_BACKOFF,
};
use echod::time::Span;

#[test]
fn backoff_doubles_until_max() {
    let mut b = Span { nanos: MIN_BACKOFF };
    let mut seen = vec![b.nanos];
    for _ in 0..20 {
        b = next_backoff(b);
        seen.push(b.nanos);
    }
    assert_eq!(seen[0], MIN_BACKOFF);
    assert_eq!(*seen.last().unwrap(), MAX_BACKOFF);
    assert!(seen.windows(2).all(|w| w[1] >= w[0]));
    assert_eq!(seen[1], 2 * MIN_BACKOFF);
}

#[test]
fn healthy_uptime_threshold_resets_backoff() {
    let uptime_ok = Span::from_secs(120);
    let uptime_bad = Span::from_secs(5);
    assert_eq!(restart_wait(Span::from_secs(8), uptime_ok).nanos, MIN_BACKOFF);
    assert_eq!(restart_wait(Span::from_secs(8), uptime_bad), Span::from_secs(8));
}

#[test]
fn exactly_the_threshold_does_not_reset() {
    let at = Span { nanos: HEALTHY_UPTIME };
    assert_eq!(restart_wait(Span::from_secs(8), at), Span::from_secs(8));
}

#[test]
fn supervisor_is_respawned_with_growing_waits() {
    let mut g = Grandparent::new();
    let crash = Outcome::Exited { success: false, uptime: Span::from_secs(1) };
    assert_eq!(g.run_ended(crash), NextStep::RespawnAfter(Span::from_millis(500)));
    assert_eq!(g.run_ended(crash), NextStep::RespawnAfter(Span::from_millis(1000)));
    assert_eq!(g.run_ended(crash), NextStep::RespawnAfter(Span::from_millis(2000)));
    let late = Outcome::Exited { success: false, uptime: Span::from_secs(61) };
    assert_eq!(g.run_ended(late), NextStep::RespawnAfter(Span::from_millis(500)));
}

#[test]
fn clean_exit_and_signal_end_the_run() {
    let mut g = Grandparent::new();
    let clean = Outcome::Exited { success: true, uptime: Span::from_secs(1) };
    assert_eq!(g.run_ended(clean), NextStep::Stop);
    assert_eq!(g.run_ended(Outcome::Signaled), NextStep::ForwardAndStop);
}
