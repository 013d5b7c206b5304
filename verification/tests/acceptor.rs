//! The acceptors and their bridges.

use echod::acceptor::{
    handle_acceptor_accept, idle_check_interval, release_slot, reload_message, session_preamble,
    AcceptorAction, AcceptorEvent, AcceptorState, Admission, Bridge, BridgeExit, ClientRegistry,
    CopyDirection, CopyStep, ReloadTrigger, Role, TlsAction, TlsEvent, TlsStage,
};
use echod::config::{Config, LimitsConfig};
use echod::control::ProcessorPreamble;
use echod::limits::{AcceptorLimits, ClientIp};
use echod::time::Span;

#[test]
fn idle_zero_bridges_without_timeout() {
    assert_eq!(idle_check_interval(Span { nanos: 0 }), None);
    let mut bridge = Bridge::new(0);
    let mut copy = CopyDirection::new();
    assert_eq!(copy.next(bridge.stopping), CopyStep::Take);
    copy.taken(b"hello".to_vec());
    assert_eq!(copy.next(bridge.stopping), CopyStep::Give);
    assert_eq!(copy.frame, b"hello");
    copy.given(true);
    bridge.moved(5);
    copy.taken(Vec::new());
    bridge.side_closed();
    assert_eq!(copy.next(bridge.stopping), CopyStep::Stop);
    assert!(matches!(bridge.exit(), BridgeExit::Ended));
}

#[test]
fn cancel_stops_bridge_and_reports_cancelled() {
    let mut bridge = Bridge::new(0);
    let mut copy = CopyDirection::new();
    copy.taken(b"ping".to_vec());
    bridge.upgrade_requested();
    // What was taken still goes out.
    assert_eq!(copy.next(bridge.stopping), CopyStep::Give);
    copy.given(true);
    assert_eq!(copy.next(bridge.stopping), CopyStep::Stop);
    assert!(matches!(bridge.exit(), BridgeExit::Cancelled));
}

#[test]
fn idle_timeout_closes_silent_bridge() {
    let idle = Span::from_millis(200);
    assert_eq!(idle_check_interval(idle), Some(Span::from_millis(100)));
    let mut bridge = Bridge::new(0);
    assert!(!bridge.check_idle(200, idle));
    assert!(bridge.check_idle(201, idle));
    assert!(bridge.stopping);
    assert!(matches!(bridge.exit(), BridgeExit::Ended));
}

#[test]
fn keepalive_holds_bridge_open() {
    let idle = Span::from_millis(300);
    let mut bridge = Bridge::new(0);
    for i in 1..=5 {
        bridge.moved(i * 100);
        assert!(!bridge.check_idle(i * 100 + 99, idle), "bridge exited despite keepalive");
    }
    assert_eq!(idle_check_interval(Span::from_secs(300)), Some(Span::from_secs(75)));
}

#[test]
fn upgrade_gets_no_streams_of_a_bridge_that_ends() {
    let mut bridge = Bridge::new(0);
    bridge.side_closed();
    bridge.upgrade_requested();
    assert!(matches!(bridge.exit(), BridgeExit::Ended));
}

#[test]
fn failed_tls_handshake_does_not_open_processor_session() {
    let mut stage = TlsStage::Handshake;
    assert_eq!(stage.run_tls_client(TlsEvent::Failed), TlsAction::Forget);
    assert_eq!(stage, TlsStage::Over);
}

#[test]
fn tls_client_runs_its_course() {
    let mut stage = TlsStage::Handshake;
    assert_eq!(stage.run_tls_client(TlsEvent::Succeeded), TlsAction::OpenSession);
    assert_eq!(stage.run_tls_client(TlsEvent::Succeeded), TlsAction::Bridge);
    assert_eq!(
        stage.run_tls_client(TlsEvent::BridgeDone(BridgeExit::Cancelled)),
        TlsAction::HandOver
    );
    let mut stage = TlsStage::Bridging;
    assert_eq!(
        stage.run_tls_client(TlsEvent::BridgeDone(BridgeExit::Ended)),
        TlsAction::Forget
    );
}

#[test]
fn clients_are_admitted_within_the_limits() {
    let mut limits = AcceptorLimits::from_config(&LimitsConfig {
        max_in_flight_per_role: 1,
        accept_rate_per_ip: 1,
        accept_rate_burst: 2,
        ..LimitsConfig::default()
    });
    let ip = ClientIp::V4(1);
    assert!(matches!(handle_acceptor_accept(true, &mut limits, 0, ip), Admission::Drained));
    let guard = match handle_acceptor_accept(false, &mut limits, 0, ip) {
        Admission::Serve(guard) => guard,
        other => panic!("the first client is served: {other:?}"),
    };
    assert!(matches!(handle_acceptor_accept(false, &mut limits, 0, ip), Admission::CapReached));
    assert!(matches!(handle_acceptor_accept(false, &mut limits, 0, ip), Admission::RateLimited));
    release_slot(&mut limits, guard);
    assert_eq!(limits.sessions.current(), 0);
    assert!(matches!(
        handle_acceptor_accept(false, &mut limits, 0, ClientIp::V4(2)),
        Admission::Serve(_)
    ));
}

#[test]
fn drained_acceptor_stays_drained() {
    let mut s = AcceptorState { drained: false, has_tls: true };
    assert_eq!(s.step(AcceptorEvent::Drain(true)), AcceptorAction::Nothing);
    assert_eq!(s.step(AcceptorEvent::Drain(false)), AcceptorAction::Nothing);
    assert!(s.drained);
    assert_eq!(s.step(AcceptorEvent::Shutdown(Some(7))), AcceptorAction::StopAfter(7));
    assert_eq!(s.step(AcceptorEvent::Shutdown(None)), AcceptorAction::StopAfter(0));
    assert_eq!(s.step(AcceptorEvent::Upgrade { requested: true }), AcceptorAction::StartUpgrade);
    assert_eq!(s.step(AcceptorEvent::Upgrade { requested: false }), AcceptorAction::Nothing);
    assert_eq!(
        s.step(AcceptorEvent::Hangup),
        AcceptorAction::ReloadCert(ReloadTrigger::Hangup)
    );
    let mut plain = AcceptorState { drained: false, has_tls: false };
    assert_eq!(plain.step(AcceptorEvent::Reload), AcceptorAction::Nothing);
    assert_eq!(reload_message(ReloadTrigger::Hangup), "TLS cert/key reloaded on SIGHUP");
    assert_eq!(reload_message(ReloadTrigger::Admin), "TLS cert/key reloaded via admin reload");
}

#[test]
fn clients_are_registered_by_number() {
    let mut r: ClientRegistry<&str> = ClientRegistry::new();
    let a = r.insert("a");
    let b = r.insert("b");
    assert_ne!(a, b);
    r.remove(a);
    r.remove(99);
    assert_eq!(r.len(), 1);
    assert_eq!(r.take_all(), vec![(b, "b")]);
    assert_eq!(r.len(), 0);
    assert_eq!(r.insert("c"), 2);
}

#[test]
fn roles_name_their_port() {
    let config = Config::default();
    assert_eq!((Role::Plain.name(), Role::Plain.arg()), ("plain", "plain"));
    assert_eq!((Role::Tls.name(), Role::Tls.arg()), ("tls", "tls"));
    assert_eq!(Role::Plain.port(&config), 7070);
    assert_eq!(Role::Tls.port(&config), 7071);
    assert!(matches!(
        session_preamble(Role::Tls, "p".into(), "t".into()),
        ProcessorPreamble::Session { role, .. } if role == "tls"
    ));
}

#[test]
fn failed_write_or_read_closes_a_direction() {
    let mut copy = CopyDirection::new();
    copy.taken(b"x".to_vec());
    copy.given(false);
    assert_eq!(copy.next(false), CopyStep::Stop);
    let mut copy = CopyDirection::new();
    copy.source_failed();
    assert_eq!(copy.next(false), CopyStep::Stop);
}
