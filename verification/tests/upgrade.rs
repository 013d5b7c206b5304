//! The replacement of a worker.

use echod::control::SessionMetadata;
use echod::fault_inject::{ErrorKind, Failure, InjectedFault};
use echod::handoff::{ReadyOutcome, SessionHandoff, Transport};
use echod::processor::{Adoption, SessionRegistry};
use echod::upgrade::{
    await_session_handoff, drain_session_handoffs, finish_upgrade_attempt, plan_launch, Delivery,
    Finish, HandoffWait, HANDOFF_FAULT_DELAY_MS,
};

fn handoff(fd: i32, peer: &str) -> SessionHandoff {
    SessionHandoff {
        uds_fd: fd,
        transport: Transport::Uds,
        partial_line_bytes: b"half".to_vec(),
        pending_write_bytes: b"out".to_vec(),
        lines_echoed: 2,
        connected_at_unix_ms: 1,
        peer: peer.into(),
        ident: None,
        trace_id: "t".into(),
        version: 1,
    }
}

fn delivery(fd: i32, wait: HandoffWait, inheritable: bool) -> Delivery {
    Delivery { wait, handoff: Some(handoff(fd, "p")), inheritable }
}

#[test]
fn launch_names_binary_role_and_variables() {
    let names = vec!["HOME".to_string(), "FDPASS_READY_FD".to_string()];
    let l = plan_launch("processor", None, "/opt/echod", &names, 5, Some(6), 0, Some(7));
    assert_eq!((l.exe.as_str(), l.arg.as_str()), ("/opt/echod", "processor"));
    assert!(l.own_image);
    assert_eq!(l.remove, vec!["FDPASS_READY_FD"]);
    assert_eq!(l.env.len(), 4);
    assert_eq!(l.env[2], ("FDPASS_GENERATION".to_string(), "1".to_string()));
    let l = plan_launch("tls", Some("/new".into()), "/opt/echod", &names, 5, None, 8, None);
    assert_eq!((l.exe.as_str(), l.own_image), ("/new", false));
    assert_eq!(
        l.env,
        vec![
            ("FDPASS_LISTENER_FD".to_string(), "5".to_string()),
            ("FDPASS_GENERATION".to_string(), "9".to_string()),
        ]
    );
}

#[test]
fn faults_discard_or_delay_a_session() {
    assert_eq!(await_session_handoff(&None), HandoffWait::Take);
    assert_eq!(await_session_handoff(&Some(InjectedFault::Skip)), HandoffWait::Discard);
    assert_eq!(
        await_session_handoff(&Some(InjectedFault::IoError(ErrorKind::Other, "x".into()))),
        HandoffWait::TakeAfter { ms: HANDOFF_FAULT_DELAY_MS }
    );
    assert_eq!(HANDOFF_FAULT_DELAY_MS, 2000);
}

#[test]
fn delivered_sessions_are_sorted() {
    let mut registry = SessionRegistry::new();
    registry.register("p".into());
    assert!(registry.store_metadata_if_session_active(SessionMetadata {
        peer: "p".into(),
        ident: Some("alice".into()),
        trace_id: "t".into(),
    }));
    let (kept, close) = drain_session_handoffs(
        &registry,
        vec![
            delivery(1, HandoffWait::Take, true),
            delivery(2, HandoffWait::Discard, true),
            delivery(3, HandoffWait::Take, false),
            Delivery { wait: HandoffWait::Take, handoff: None, inheritable: true },
            delivery(4, HandoffWait::TakeAfter { ms: 2000 }, true),
        ],
    );
    assert_eq!(kept.iter().map(|h| h.uds_fd).collect::<Vec<_>>(), vec![1, 4]);
    assert!(kept.iter().all(|h| h.ident.as_deref() == Some("alice")));
    assert_eq!(close, vec![2, 3]);
}

#[test]
fn ready_successor_ends_this_process() {
    let mut registry = SessionRegistry::new();
    let f = finish_upgrade_attempt(
        &mut registry,
        None,
        Some(ReadyOutcome::Ready),
        Ok(()),
        vec![handoff(1, "p")],
    );
    assert!(matches!(f, Finish::Exit(23)));
    let f = finish_upgrade_attempt(
        &mut registry,
        None,
        Some(ReadyOutcome::Ready),
        Err(Failure::new("broken pipe")),
        vec![],
    );
    assert!(matches!(f, Finish::Broken(e) if e.to_text() == "broken pipe"));
}

#[test]
fn rolled_back_upgrade_serves_every_session_on() {
    for (fault, waited) in [
        (None, None),
        (None, Some(ReadyOutcome::Closed)),
        (None, Some(ReadyOutcome::NotOk)),
        (Some(InjectedFault::Skip), Some(ReadyOutcome::Ready)),
    ] {
        let mut registry = SessionRegistry::new();
        let f = finish_upgrade_attempt(
            &mut registry,
            fault,
            waited,
            Ok(()),
            vec![handoff(1, "p"), handoff(2, "q")],
        );
        let Finish::RolledBack(adopted) = f else {
            panic!("the successor was not ready");
        };
        assert_eq!(adopted.len(), 2);
        match &adopted[1] {
            Adoption::Resume { fd, session, peer, .. } => {
                assert_eq!((*fd, peer.as_str()), (2, "q"));
                assert_eq!(session.pending, b"out");
                assert_eq!(session.received, b"half");
                assert_eq!(session.lines_echoed, 2);
            }
            Adoption::Decline { .. } => panic!("a session over a Unix socket goes on"),
        }
    }
}
