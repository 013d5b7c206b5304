//! What the workers have in common.

use echod::control::ControlMsg;
use echod::fault_inject::{ErrorKind, InjectedFault};
use echod::worker_common::{
    acquire_listener, dial_delay_ms, inherited_listener, judge_received, judge_reply_text,
    judge_sent, judge_spawner_reply, Acquisition, DIAL_ATTEMPTS,
};
use echod::worker_control::{
    is_terminal, run_control_client, worker_loop_step, ControlStep, StatusCtx, UpgradeReq,
    WorkerEvent, WorkerKind, WorkerStep,
};

#[test]
fn recv_fd_reports_eof_when_peer_closes_without_sending() {
    let err = judge_received(None, 0, None).expect_err("expected EOF");
    assert_eq!(err.kind, ErrorKind::UnexpectedEof);
}

#[test]
fn recv_fd_errors_when_reply_has_no_scm_attachment() {
    let err = judge_received(None, 3, None).expect_err("expected missing-attachment error");
    assert_eq!(err.kind, ErrorKind::InvalidData);
}

#[test]
fn received_descriptor_is_handed_on_unless_a_fault_fires() {
    assert_eq!(judge_received(None, 3, Some(9)).unwrap(), 9);
    let err = judge_received(Some(InjectedFault::Skip), 3, Some(9)).unwrap_err();
    assert_eq!(err.message, "fault: skip");
    assert_eq!(err.kind, ErrorKind::Other);
    let fault = InjectedFault::IoError(ErrorKind::UnexpectedEof, "gone".into());
    let err = judge_received(Some(fault), 3, Some(9)).unwrap_err();
    assert_eq!((err.kind, err.message.as_str()), (ErrorKind::UnexpectedEof, "gone"));
}

#[test]
fn short_send_is_an_error() {
    assert!(judge_sent(3, 3).is_ok());
    let err = judge_sent(1, 3).unwrap_err();
    assert_eq!(err.kind, ErrorKind::WriteZero);
    assert_eq!(err.message, "short SCM_RIGHTS send: sent 1 of 3 payload bytes");
}

#[test]
fn spawner_reply_must_begin_with_ok() {
    assert!(judge_spawner_reply(&b"ok\n".to_vec()).is_ok());
    assert_eq!(
        judge_spawner_reply(&b"err: unknown role cook\n".to_vec()).unwrap_err().to_text(),
        "spawner replied: err: unknown role cook"
    );
    assert_eq!(
        judge_spawner_reply(&b" \xff".to_vec()).unwrap_err().to_text(),
        "spawner replied: \u{fffd}"
    );
    assert_eq!(
        judge_reply_text("no", "trimmed").unwrap_err().to_text(),
        "spawner replied: trimmed"
    );
}

#[test]
fn dialing_is_tried_a_fixed_number_of_times() {
    let mut attempt = 0;
    while dial_delay_ms(attempt).is_some() {
        attempt += 1;
    }
    assert_eq!(attempt, DIAL_ATTEMPTS);
    assert_eq!(DIAL_ATTEMPTS, 50);
}

#[test]
fn listener_is_inherited_received_or_bound() {
    assert_eq!(inherited_listener(None).unwrap(), None);
    assert_eq!(inherited_listener(Some("4")).unwrap(), Some(4));
    assert!(inherited_listener(Some("x")).is_err());
    assert_eq!(acquire_listener(Some(4), Some(5)), Acquisition::Inherited(4));
    assert_eq!(acquire_listener(None, Some(5)), Acquisition::Received(5));
    assert_eq!(acquire_listener(None, None), Acquisition::Bind);
}

#[test]
fn control_messages_become_steps() {
    assert!(matches!(
        run_control_client(WorkerKind::Acceptor, Some(ControlMsg::Drain)),
        ControlStep::Drain
    ));
    assert!(matches!(
        run_control_client(WorkerKind::Inner, Some(ControlMsg::Drain)),
        ControlStep::Nothing
    ));
    assert!(matches!(
        run_control_client(WorkerKind::Acceptor, Some(ControlMsg::Reload)),
        ControlStep::ReloadCert
    ));
    assert!(matches!(
        run_control_client(WorkerKind::Inner, Some(ControlMsg::Reload)),
        ControlStep::ReloadAllowlist
    ));
    assert!(matches!(
        run_control_client(WorkerKind::Inner, Some(ControlMsg::Status)),
        ControlStep::Report
    ));
    let stop = run_control_client(WorkerKind::Inner, Some(ControlMsg::Shutdown { grace_ms: 9 }));
    assert!(matches!(stop, ControlStep::Shutdown { grace_ms: 9 }));
    assert!(is_terminal(&stop));
    assert!(!is_terminal(&ControlStep::Report));
    assert!(matches!(run_control_client(WorkerKind::Inner, None), ControlStep::Nothing));
}

#[test]
fn worker_loop_stops_or_upgrades_when_told() {
    assert!(matches!(worker_loop_step(WorkerEvent::Signal), WorkerStep::Stop));
    assert!(matches!(worker_loop_step(WorkerEvent::Shutdown(true)), WorkerStep::Stop));
    assert!(matches!(worker_loop_step(WorkerEvent::Shutdown(false)), WorkerStep::Go));
    assert!(matches!(worker_loop_step(WorkerEvent::Upgrade(None)), WorkerStep::Go));
    let req = UpgradeReq { binary_path: Some("/x".into()) };
    assert!(matches!(
        worker_loop_step(WorkerEvent::Upgrade(Some(req))),
        WorkerStep::Upgrade(r) if r.binary_path.as_deref() == Some("/x")
    ));
}

#[test]
fn status_is_reported_in_full() {
    let ctx = StatusCtx {
        role: "plain".into(),
        generation: 2,
        started_at_unix_ms: 3,
        listener_addr: "127.0.0.1:7070".into(),
    };
    let s = ctx.snapshot(11, 4, Some((5, 6, 7, 8)));
    assert_eq!((s.role.as_str(), s.pid, s.generation), ("plain", 11, 2));
    assert_eq!((s.started_at_unix_ms, s.in_flight), (3, 4));
    assert_eq!(s.listener_addr.as_deref(), Some("127.0.0.1:7070"));
    let r = s.rate_limiter_stats.unwrap();
    assert_eq!(
        (r.tracked_ips, r.idle_evictions, r.lru_evictions, r.cap_refused),
        (5, 6, 7, 8)
    );
    assert!(ctx.snapshot(11, 4, None).rate_limiter_stats.is_none());
}
