//! The supervisor's decisions about its workers.

use echod::auth::PeerAllowlist;
use echod::config::Config;
use echod::control::{AdminResp, ControlMsg, HealthState, UpgradePhase, WorkerStatus};
use echod::fault_inject::Failure;
use echod::link::{ends_connection, upgrade_order, Route, WorkerLink};
use echod::metrics::UpgradeCounters;
use echod::roles::WorkerRole;
use echod::rolling::{
    closing_frame, handle_admin_request, health_state_rank, reload_supervisor_allowlist,
    shutdown_orders, status_reply, AdminPlan, RollingUpgradeRequest, Walk, WalkAction, WalkEvent,
    WorkerOrder,
};
use echod::self_upgrade::{
    env_value, handle_spawn_request, hangup_upgrades, listener_source, open_supervisor_listeners,
    self_upgrade_env, snapshot_workers, AdoptedState, ControlFds, ListenerSource, Place,
    SpawnReply, SpawnerFds, SupervisorPaths, WorkerSlot,
};
use echod::supervise::{
    alive_after_probe, is_process_alive, wait_adopted, wait_for_successor, AcceptorRole, ExitSeen, LinkLook,
    MonitorOutcome, RoleRun, RoleStep, SuccessorMonitor, SuccessorOutcome, WaitPoll,
    SUCCESSOR_LOSS_GRACE,
};
use echod::systemd::SdListeners;
use echod::time::Span;
use echod::watchdog::watchdogs_init;

const SEC: u64 = 1_000_000_000;

fn look(now: u64, connected: bool, last_generation: Option<u64>) -> LinkLook {
    LinkLook { now, connected, last_pid: None, last_generation }
}

/// Watches a worker through a series of looks and says when the watch ended, and how.
fn watched(generation: u64, looks: &[LinkLook]) -> Option<(u64, MonitorOutcome)> {
    let mut monitor = SuccessorMonitor::new(generation);
    let mut pid = None;
    for l in looks {
        if let Some(outcome) = monitor.observe(*l, SUCCESSOR_LOSS_GRACE, &mut pid) {
            return Some((l.now, outcome));
        }
    }
    None
}

/// A look every 100 ms from `from` to `to`, both in milliseconds.
fn looks(from: u64, to: u64, connected: bool, generation: Option<u64>) -> Vec<LinkLook> {
    (from / 100..to / 100).map(|i| look(i * 100_000_000, connected, generation)).collect()
}

fn request(include_tls: bool, canary_secs: Option<u64>, only: Option<&str>) -> RollingUpgradeRequest {
    RollingUpgradeRequest {
        binary_path: None,
        include_tls,
        canary_secs,
        only_role: only.map(str::to_string),
    }
}

#[test]
fn canary_only_aborts_when_health_worsens() {
    assert!(health_state_rank(HealthState::Healthy) < health_state_rank(HealthState::Backoff));
    assert!(health_state_rank(HealthState::Backoff) < health_state_rank(HealthState::Flapping));
    assert!(health_state_rank(HealthState::Flapping) < health_state_rank(HealthState::Failed));
    assert!(health_state_rank(HealthState::Healthy) <= health_state_rank(HealthState::Healthy));
    assert!(health_state_rank(HealthState::Healthy) <= health_state_rank(HealthState::Backoff));
    assert!(health_state_rank(HealthState::Backoff) <= health_state_rank(HealthState::Backoff));
    assert!(health_state_rank(HealthState::Healthy) <= health_state_rank(HealthState::Flapping));
    assert!(health_state_rank(HealthState::Backoff) > health_state_rank(HealthState::Healthy));
}

#[test]
fn reload_supervisor_allowlist_replaces_current_policy() {
    let mut allow = PeerAllowlist::from_uids(&vec![999_999]);
    let configured = reload_supervisor_allowlist(&mut allow, Ok(vec![42, 7])).unwrap();
    assert_eq!(configured, vec![42, 7]);
    assert!(allow.contains(42));
    assert!(allow.contains(7));
    assert!(!allow.contains(999_999));
}

#[test]
fn failed_reload_keeps_the_policy() {
    let mut allow = PeerAllowlist::from_uids(&vec![999_999]);
    assert!(reload_supervisor_allowlist(&mut allow, Err(Failure::new("no file"))).is_err());
    assert!(allow.contains(999_999));
}

#[test]
fn successor_wait_adopts_on_generation_bump() {
    assert_eq!(wait_for_successor(None, 0, SEC, 5 * SEC), None);
    assert_eq!(
        wait_for_successor(Some(1), 0, SEC, 5 * SEC),
        Some(SuccessorOutcome::Adopted(1))
    );
}

#[test]
fn successor_wait_times_out_with_no_signal() {
    assert_eq!(wait_for_successor(None, 0, 5 * SEC - 1, 5 * SEC), None);
    assert_eq!(wait_for_successor(None, 0, 5 * SEC, 5 * SEC), Some(SuccessorOutcome::Timeout));
}

#[test]
fn successor_wait_rejects_stale_generation() {
    assert_eq!(wait_for_successor(Some(1), 1, SEC, 5 * SEC), None);
    assert_eq!(
        wait_for_successor(Some(1), 1, 5 * SEC, 5 * SEC),
        Some(SuccessorOutcome::Timeout),
        "stale gen-1 must not be adopted when old_gen=1"
    );
}

#[test]
fn monitor_returns_when_writer_lost_for_grace() {
    let mut all = looks(0, 500, true, None);
    all.extend(looks(500, 10_000, false, None));
    let (at, outcome) = watched(0, &all).unwrap();
    assert_eq!(outcome, MonitorOutcome::Lost);
    assert!(at >= 3_500_000_000, "monitor returned at {at}, expected >= 3.5s");
    assert!(at < 5 * SEC, "monitor took too long: {at}");
}

#[test]
fn probe_decides_within_the_range_of_process_ids() {
    assert!(alive_after_probe(7, false));
    assert!(!alive_after_probe(7, true));
    assert!(!alive_after_probe(u32::MAX, false));
}

#[test]
fn is_process_alive_recognizes_current_process() {
    assert!(is_process_alive(u32::try_from(nix::unistd::getpid().as_raw()).unwrap()));
}

#[test]
fn impossible_process_is_not_alive() {
    assert!(!is_process_alive(u32::MAX));
    assert!(!is_process_alive(i32::MAX as u32));
}

#[test]
fn acceptor_role_arg_returns_correct_strings() {
    assert_eq!(AcceptorRole::Plain.arg(), "plain");
    assert_eq!(AcceptorRole::Tls.arg(), "tls");
}

#[test]
fn monitor_ignores_brief_disconnect() {
    let mut all = looks(0, 500, true, None);
    all.extend(looks(500, 1500, false, None));
    all.extend(looks(1500, 5500, true, None));
    assert!(
        watched(0, &all).is_none(),
        "monitor returned despite the disconnect being inside the grace window"
    );
}

#[test]
fn monitor_readopts_on_generation_advance() {
    let mut all = looks(0, 200, true, Some(5));
    all.extend(looks(200, 400, true, Some(6)));
    assert_eq!(watched(5, &all).unwrap().1, MonitorOutcome::Readopted(6));
}

#[test]
fn monitor_readopts_when_successor_arrives_within_grace() {
    let mut all = looks(0, 300, true, Some(5));
    all.extend(looks(300, 1300, false, None));
    all.extend(looks(1300, 1500, true, Some(6)));
    assert_eq!(watched(5, &all).unwrap().1, MonitorOutcome::Readopted(6));
}

#[test]
fn monitor_follows_the_reported_process() {
    let mut monitor = SuccessorMonitor::new(1);
    let mut pid = Some(7);
    let l = LinkLook { now: 0, connected: true, last_pid: Some(9), last_generation: Some(1) };
    assert_eq!(monitor.observe(l, SUCCESSOR_LOSS_GRACE, &mut pid), None);
    assert_eq!(pid, Some(9));
}

#[test]
fn adopted_process_is_waited_for() {
    assert_eq!(wait_adopted(WaitPoll::StillAlive), None);
    assert_eq!(wait_adopted(WaitPoll::Terminated), Some(0));
    assert_eq!(wait_adopted(WaitPoll::NotOurs { gone: false }), None);
    assert_eq!(wait_adopted(WaitPoll::NotOurs { gone: true }), Some(0));
    assert_eq!(wait_adopted(WaitPoll::Failed { errno: 5 }), Some(5));
}

#[test]
fn crashed_worker_is_restarted_after_a_wait() {
    let mut wd = watchdogs_init();
    let mut run = RoleRun::begin(None, 0, false, &mut wd, "plain", 0);
    assert_eq!(run.next_start(false, &mut wd, "plain", 0, 0), RoleStep::Spawn);
    run.started(Some(42), None);
    assert_eq!(run.current_pid, Some(42));
    let (step, note) = run.exited(ExitSeen::Code(1), false, &mut wd, "plain", SEC);
    assert_eq!(step, RoleStep::Pause(Span::from_millis(400)));
    assert_eq!(note.unwrap().consecutive_fast_exits, 1);
    assert_eq!(run.current_pid, None);
    assert_eq!(run.next_start(true, &mut wd, "plain", SEC, 0), RoleStep::Stop);
}

#[test]
fn failed_worker_is_restarted_after_the_longest_wait() {
    let mut wd = watchdogs_init();
    let mut run = RoleRun::begin(None, 0, false, &mut wd, "plain", 0);
    let mut last = RoleStep::Stop;
    for _ in 0..5 {
        assert_eq!(run.next_start(false, &mut wd, "plain", 0, 0), RoleStep::Spawn);
        run.started(Some(42), None);
        last = run.exited(ExitSeen::Signal, false, &mut wd, "plain", SEC).0;
    }
    assert_eq!(last, RoleStep::Pause(Span::from_secs(30)));
    assert_eq!(run.backoff, Span::from_secs(30));
}

#[test]
fn replaced_worker_is_followed_by_its_successor() {
    let mut wd = watchdogs_init();
    let mut run = RoleRun::begin(Some(7), 3, true, &mut wd, "tls", 0);
    assert_eq!(run.next_start(false, &mut wd, "tls", 0, 0), RoleStep::Adopt(7));
    run.started(Some(7), None);
    let (step, note) = run.exited(ExitSeen::Code(23), false, &mut wd, "tls", SEC);
    assert_eq!(step, RoleStep::AwaitSuccessor(3));
    assert!(note.is_none());
    let step = run.successor_awaited(SuccessorOutcome::Adopted(4), Some(8), &mut wd, "tls", SEC);
    assert_eq!(step, RoleStep::Supervise(4));
    assert_eq!(run.current_pid, Some(8));
    let step =
        run.successor_monitored(MonitorOutcome::Readopted(5), Some(9), &mut wd, "tls", SEC);
    assert_eq!(step, RoleStep::Supervise(5));
    let step = run.successor_monitored(MonitorOutcome::Lost, None, &mut wd, "tls", SEC);
    assert_eq!(step, RoleStep::Again);
    assert_eq!(run.current_pid, None);
    assert_eq!(wd.state_of("tls").total_restarts, 0);
}

#[test]
fn missing_successor_leads_to_a_restart() {
    let mut wd = watchdogs_init();
    let mut run = RoleRun::begin(None, 0, false, &mut wd, "plain", 0);
    assert_eq!(run.next_start(false, &mut wd, "plain", 0, 0), RoleStep::Spawn);
    let (step, _) = run.exited(ExitSeen::Code(23), false, &mut wd, "plain", SEC);
    assert_eq!(step, RoleStep::AwaitSuccessor(0));
    let step = run.successor_awaited(SuccessorOutcome::Timeout, None, &mut wd, "plain", SEC);
    assert_eq!(step, RoleStep::Pause(Span::from_millis(200)));
}

#[test]
fn walk_upgrades_role_by_role() {
    let mut c = UpgradeCounters::new();
    let mut w = Walk::begin(&request(false, None, None), false);
    assert_eq!(w.due(), WalkAction::ReadHealth);
    for role in [WorkerRole::Processor, WorkerRole::Plain, WorkerRole::Scanner] {
        assert_eq!(w.role(), Some(role));
        let (_, a) = w.step(WalkEvent::Health(HealthState::Healthy), &mut c);
        assert_eq!(a, WalkAction::Query);
        let (frame, a) = w.step(WalkEvent::Status(Some(1)), &mut c);
        assert_eq!(a, WalkAction::SendUpgrade);
        assert!(matches!(
            frame,
            Some(AdminResp::UpgradeStep { phase: UpgradePhase::Starting, ok: true, .. })
        ));
        let (_, a) = w.step(WalkEvent::Clock(0), &mut c);
        assert_eq!(a, WalkAction::ReadClock);
        let (_, a) = w.step(WalkEvent::Clock(0), &mut c);
        assert_eq!(a, WalkAction::Query);
        let (_, a) = w.step(WalkEvent::Status(Some(1)), &mut c);
        assert_eq!(a, WalkAction::PauseThenClock(100));
        let (_, a) = w.step(WalkEvent::Clock(SEC), &mut c);
        assert_eq!(a, WalkAction::Query);
        let (frame, _) = w.step(WalkEvent::Status(Some(2)), &mut c);
        match frame {
            Some(AdminResp::UpgradeStep { worker, phase, generation_after, .. }) => {
                assert_eq!(worker, role.name());
                assert_eq!(phase, UpgradePhase::Done);
                assert_eq!(generation_after, Some(2));
            }
            _ => panic!("the upgrade is done"),
        }
    }
    assert_eq!(w.due(), WalkAction::Finish { all_ok: true });
    assert_eq!(c.committed.processor, 1);
    assert_eq!(c.committed.tls, 0);
}

#[test]
fn walk_stops_at_a_worker_that_does_not_come_back() {
    let mut c = UpgradeCounters::new();
    let mut w = Walk::begin(&request(false, None, None), false);
    w.step(WalkEvent::Health(HealthState::Healthy), &mut c);
    w.step(WalkEvent::Status(Some(1)), &mut c);
    w.step(WalkEvent::Clock(0), &mut c);
    let (frame, a) = w.step(WalkEvent::Clock(5 * SEC + 1), &mut c);
    assert!(matches!(
        frame,
        Some(AdminResp::UpgradeStep { phase: UpgradePhase::Timeout, ok: false, .. })
    ));
    assert_eq!(a, WalkAction::Finish { all_ok: false });
    assert_eq!(c.timed_out.processor, 1);
}

#[test]
fn walk_stops_at_a_worker_that_does_not_answer() {
    let mut c = UpgradeCounters::new();
    let mut w = Walk::begin(&request(true, None, Some("tls")), false);
    w.step(WalkEvent::Health(HealthState::Healthy), &mut c);
    let (frame, a) = w.step(WalkEvent::Status(None), &mut c);
    match frame {
        Some(AdminResp::UpgradeStep { worker, phase, message, .. }) => {
            assert_eq!((worker.as_str(), phase), ("tls", UpgradePhase::Skipped));
            assert_eq!(message.as_deref(), Some("no control connection"));
        }
        _ => panic!("the role is skipped"),
    }
    assert_eq!(a, WalkAction::Finish { all_ok: false });
    assert_eq!(c.skipped.tls, 1);
}

#[test]
fn canary_watches_the_role_that_was_upgraded() {
    let mut c = UpgradeCounters::new();
    let mut w = Walk::begin(&request(false, Some(2), Some("plain")), false);
    w.step(WalkEvent::Health(HealthState::Backoff), &mut c);
    w.step(WalkEvent::Status(Some(1)), &mut c);
    w.step(WalkEvent::Clock(0), &mut c);
    w.step(WalkEvent::Clock(0), &mut c);
    let (_, a) = w.step(WalkEvent::Status(Some(2)), &mut c);
    assert_eq!(a, WalkAction::ReadClock);
    let (_, a) = w.step(WalkEvent::Clock(SEC), &mut c);
    assert_eq!(a, WalkAction::PauseThenHealth(200));
    let (_, a) = w.step(WalkEvent::Health(HealthState::Backoff), &mut c);
    assert_eq!(a, WalkAction::ReadClock);
    let (_, a) = w.step(WalkEvent::Clock(2 * SEC), &mut c);
    assert_eq!(a, WalkAction::PauseThenHealth(200));
    let (frame, a) = w.step(WalkEvent::Health(HealthState::Flapping), &mut c);
    assert!(matches!(
        frame,
        Some(AdminResp::UpgradeStep { phase: UpgradePhase::CanaryAborted, ok: false, .. })
    ));
    assert_eq!(a, WalkAction::Finish { all_ok: false });
    assert_eq!(c.canary_aborted.plain, 1);
}

#[test]
fn walk_over_an_unknown_role_or_a_second_walk_fails_at_once() {
    assert_eq!(
        Walk::begin(&request(false, None, Some("nobody")), false).due(),
        WalkAction::Finish { all_ok: false }
    );
    assert_eq!(
        Walk::begin(&request(false, None, None), true).due(),
        WalkAction::Finish { all_ok: false }
    );
    assert_eq!(request(true, None, None).targets().unwrap().len(), 4);
}

#[test]
fn admin_requests_become_orders() {
    match handle_admin_request(ControlMsg::Shutdown { grace_ms: 1000 }) {
        AdminPlan::Send { orders, reload, answer } => {
            assert!(!reload);
            assert!(matches!(answer, AdminResp::Okay));
            assert_eq!(
                orders,
                vec![
                    (WorkerRole::Plain, WorkerOrder::Shutdown { grace_ms: 1000 }),
                    (WorkerRole::Tls, WorkerOrder::Shutdown { grace_ms: 1000 }),
                    (WorkerRole::Scanner, WorkerOrder::Shutdown { grace_ms: 500 }),
                    (WorkerRole::Processor, WorkerOrder::Shutdown { grace_ms: 500 }),
                ]
            );
        }
        _ => panic!("a shutdown is sent on"),
    }
    assert_eq!(shutdown_orders(100)[2].1, WorkerOrder::Shutdown { grace_ms: 100 });
    assert!(matches!(handle_admin_request(ControlMsg::Status), AdminPlan::Status));
    match handle_admin_request(ControlMsg::Drain) {
        AdminPlan::Send { orders, .. } => assert_eq!(orders.len(), 2),
        _ => panic!("a drain is sent on"),
    }
    match handle_admin_request(ControlMsg::Reload) {
        AdminPlan::Send { orders, reload, answer } => {
            assert!(reload);
            assert!(matches!(answer, AdminResp::Okay));
            assert_eq!(orders.len(), 4);
        }
        _ => panic!("a reload is sent on"),
    }
}

#[test]
fn drain_leaves_every_connection_open() {
    let AdminPlan::Send { orders, reload, answer } = handle_admin_request(ControlMsg::Drain) else {
        panic!("a drain is sent on");
    };
    assert!(!reload);
    assert!(matches!(answer, AdminResp::Okay));
    assert_eq!(
        orders,
        vec![(WorkerRole::Plain, WorkerOrder::Drain), (WorkerRole::Tls, WorkerOrder::Drain)]
    );
    for (_, order) in orders {
        let mut link: WorkerLink<&str, u8> = WorkerLink::new();
        assert!(matches!(link.begin_send(&order.message()), Route::NoConnection));
        link.connect("conn");
        link.begin_query(1);
        assert!(matches!(order.message(), ControlMsg::Drain));
        assert!(matches!(link.begin_send(&order.message()), Route::Stays));
        assert_eq!(link.writer, Some("conn"));
        assert_eq!(link.pending_status, Some(1));
    }
}

#[test]
fn shutdown_and_upgrade_end_the_connection() {
    for msg in [WorkerOrder::Shutdown { grace_ms: 5 }.message(), upgrade_order(None)] {
        assert!(ends_connection(&msg));
        let mut link: WorkerLink<&str, u8> = WorkerLink::new();
        link.connect("conn");
        link.begin_query(1);
        assert!(matches!(link.begin_send(&msg), Route::Last("conn")));
        assert_eq!(link.writer, None);
        assert_eq!(link.pending_status, None);
        assert!(matches!(link.begin_send(&msg), Route::NoConnection));
    }
    assert!(!ends_connection(&WorkerOrder::Reload.message()));
    assert!(!ends_connection(&ControlMsg::Status));
}

#[test]
fn walk_is_closed_by_one_frame() {
    assert!(matches!(closing_frame(true), AdminResp::UpgradeComplete { all_ok: true }));
    assert!(matches!(closing_frame(false), AdminResp::UpgradeComplete { all_ok: false }));
}

#[test]
fn status_lists_the_workers_that_answered() {
    let s = WorkerStatus {
        role: "plain".into(),
        pid: 1,
        generation: 0,
        started_at_unix_ms: 0,
        in_flight: 0,
        listener_addr: None,
        rate_limiter_stats: None,
    };
    match status_reply(vec![None, Some(s), None], vec![]) {
        AdminResp::Status { workers, health } => {
            assert_eq!(workers.len(), 1);
            assert_eq!(workers[0].role, "plain");
            assert!(health.is_empty());
        }
        _ => panic!("a status is due"),
    }
}

#[test]
fn replaced_connection_cannot_disturb_its_successor() {
    let mut link: WorkerLink<&str, u8> = WorkerLink::new();
    let first = link.connect("old");
    link.begin_query(1);
    assert_eq!(link.record_report(4, 100), Some(1));
    let second = link.connect("new");
    assert_ne!(first, second);
    link.disconnect(first);
    assert_eq!(link.writer, Some("new"));
    link.disconnect(second);
    assert_eq!(link.writer, None);
    assert_eq!(link.last_generation, None);
    assert!(matches!(
        upgrade_order(Some("/x".into())),
        ControlMsg::Upgrade { binary_path: Some(p), include_tls: false, .. } if p == "/x"
    ));
}

fn some_fds() -> ControlFds {
    ControlFds::from_opened(&vec![3, 4, 5, 6, 7, 8, 9, 10, 11, 12, 13])
}

#[test]
fn every_inherited_listener_stays_open() {
    let fds = some_fds();
    let kept = fds.to_inherit();
    assert_eq!(kept.len(), 11);
    assert_eq!(kept[0], (3, "ctrl-admin"));
    assert_eq!(kept[7], (10, "listener-processor"));
    assert_eq!(kept[8], (12, "listener-plain"));
    assert_eq!(kept[9], (13, "listener-tls"));
    assert_eq!(kept[10], (11, "listener-scanner"));
    let pids = AdoptedState::from_env(&vec![]);
    let env = self_upgrade_env(&fds, &pids, 0, 20);
    for fd in 3..14 {
        assert!(kept.iter().any(|k| k.0 == fd));
        assert!(env.iter().any(|(_, v)| *v == fd.to_string()));
    }
}

#[test]
fn last_message_takes_writer_and_query_along() {
    let mut link: WorkerLink<&str, u8> = WorkerLink::new();
    let epoch = link.connect("conn");
    link.begin_query(1);
    link.abandon_query();
    assert_eq!(link.record_report(4, 100), None);
    link.begin_query(2);
    assert_eq!(link.take_writer(), Some("conn"));
    assert_eq!(link.pending_status, None);
    assert_eq!(link.take_writer(), None);
    assert_eq!(link.last_generation, Some(4));
    assert_eq!(link.conn_epoch, epoch);
}

#[test]
fn supervisor_hands_everything_to_its_successor() {
    let fds = some_fds();
    let pids = snapshot_workers(
        WorkerSlot { pid: Some(100), last_generation: Some(2) },
        WorkerSlot { pid: None, last_generation: Some(9) },
        WorkerSlot { pid: Some(300), last_generation: None },
        WorkerSlot { pid: None, last_generation: None },
    );
    let env = self_upgrade_env(&fds, &pids, 4, 20);
    let back = AdoptedState::from_env(&env);
    assert_eq!(back.processor, Some(100));
    assert_eq!(back.processor_gen, 2);
    assert_eq!(back.plain, None);
    assert_eq!(back.tls, Some(300));
    assert_eq!(back.tls_gen, 0);
    assert_eq!(env_value(&env, "FDPASS_SUP_GENERATION"), Some("5"));
    assert_eq!(env_value(&env, "FDPASS_READY_FD"), Some("20"));

    let paths = SupervisorPaths::from_config(&Config::default());
    let specs = open_supervisor_listeners(&paths, 7070, 7071);
    let mut sd = SdListeners::from_env(None, None, "", 1).unwrap();
    let opened: Vec<i32> = specs
        .iter()
        .map(|s| {
            match listener_source(&mut sd, s.sd_name, s.env_key, env_value(&env, s.env_key), true) {
                Ok(ListenerSource::Inherited(fd)) => fd,
                other => panic!("{} was not handed on: {other:?}", s.env_key),
            }
        })
        .collect();
    assert_eq!(ControlFds::from_opened(&opened), fds);
}

#[test]
fn listeners_are_bound_in_their_places() {
    let paths = SupervisorPaths::from_config(&Config::default());
    let specs = open_supervisor_listeners(&paths, 7070, 7071);
    let names: Vec<&str> = specs.iter().map(|s| s.sd_name).collect();
    assert_eq!(
        names,
        vec![
            "admin", "ctrl-processor", "ctrl-plain", "ctrl-tls", "ctrl-scanner", "drainer",
            "spawner", "processor", "scanner", "plain", "tls",
        ]
    );
    let owned: Vec<&str> = specs.iter().filter(|s| s.owner_only).map(|s| s.sd_name).collect();
    assert_eq!(owned, vec!["processor", "scanner"]);
    assert!(matches!(&specs[0].place, Place::Path(p) if p == "/tmp/fdpass-admin.sock"));
    assert!(matches!(&specs[7].place, Place::Path(p) if p == "/tmp/fdpass-proc.sock"));
    assert!(matches!(specs[9].place, Place::Port(7070)));
    assert!(matches!(specs[10].place, Place::Port(7071)));
    assert_eq!(paths.cleanup_list().len(), 9);
}

#[test]
fn listener_comes_from_the_first_that_offers_it() {
    let mut sd = SdListeners::from_env(Some("1"), Some("1"), "plain", 1).unwrap();
    let r = listener_source(&mut sd, "plain", "K", Some("9"), true);
    assert!(matches!(r, Ok(ListenerSource::Activated(3))));
    let r = listener_source(&mut sd, "plain", "K", Some("9"), true);
    assert!(matches!(r, Ok(ListenerSource::Inherited(9))));
    let r = listener_source(&mut sd, "plain", "K", None, true);
    assert!(matches!(r, Ok(ListenerSource::Bind { unlink: false })));
    let r = listener_source(&mut sd, "plain", "K", None, false);
    assert!(matches!(r, Ok(ListenerSource::Bind { unlink: true })));
    let r = listener_source(&mut sd, "plain", "K", Some("x"), false);
    assert_eq!(r.unwrap_err().to_text(), "K");
}

#[test]
fn worker_gets_its_own_listener() {
    let fds = SpawnerFds { processor: 1, plain: 2, tls: 3, scanner: 4 };
    assert!(matches!(handle_spawn_request("processor", &fds), SpawnReply::Listener(1)));
    assert!(matches!(handle_spawn_request("plain", &fds), SpawnReply::Listener(2)));
    assert!(matches!(handle_spawn_request("tls", &fds), SpawnReply::Listener(3)));
    assert!(matches!(handle_spawn_request("scanner", &fds), SpawnReply::Listener(4)));
    assert!(matches!(
        handle_spawn_request("cook", &fds),
        SpawnReply::Refusal(m) if m == "err: unknown role cook\n"
    ));
}

#[test]
fn hangup_upgrades_only_without_a_grandparent() {
    assert!(hangup_upgrades(false));
    assert!(!hangup_upgrades(true));
}
