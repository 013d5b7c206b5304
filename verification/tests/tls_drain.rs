//! The drain of a TLS session after a fork.

use echod::control::{DrainerEvent, SessionOutcome};
use echod::tls_drain::{Drain, DrainAction, DrainEvent, DrainStage, DrainerLedger, IoOutcome};

type Event = DrainEvent<&'static str>;

fn run(events: Vec<(Event, u64)>) -> (Drain<&'static str>, Vec<DrainAction>) {
    let mut d = Drain::new(0);
    let mut actions = vec![d.due()];
    for (e, now) in events {
        let (next, action) = d.drain_one_tls_session(e, now);
        d = next;
        actions.push(action);
    }
    (d, actions)
}

#[test]
fn client_bytes_reach_the_processor_whole() {
    let (_, actions) = run(vec![
        (DrainEvent::Wants(false), 1),
        (DrainEvent::Wants(false), 1),
        (DrainEvent::Ready { tcp: true, uds: false }, 2),
        (DrainEvent::Io(IoOutcome::Count(30)), 2),
        (DrainEvent::Io(IoOutcome::Count(0)), 2),
        (DrainEvent::Io(IoOutcome::Count(10)), 2),
        (DrainEvent::Io(IoOutcome::Count(4)), 3),
        (DrainEvent::Io(IoOutcome::WouldBlock("not ready")), 3),
        (DrainEvent::Io(IoOutcome::Count(6)), 4),
        (DrainEvent::Io(IoOutcome::WouldBlock("not ready")), 4),
    ]);
    assert_eq!(
        actions,
        vec![
            DrainAction::AskWantsWrite,
            DrainAction::AskWantsWrite,
            DrainAction::Poll { out: false },
            DrainAction::ReadTls,
            DrainAction::ProcessPackets,
            DrainAction::ReadPlain,
            DrainAction::Forward { from: 0, frame: 10 },
            DrainAction::Forward { from: 4, frame: 10 },
            DrainAction::PauseThenForward { from: 4, frame: 10 },
            DrainAction::ReadPlain,
            DrainAction::AskWantsWrite,
        ]
    );
}

#[test]
fn processor_bytes_are_encrypted_and_flushed() {
    let (d, actions) = run(vec![
        (DrainEvent::Wants(false), 1),
        (DrainEvent::Wants(true), 1),
        (DrainEvent::Ready { tcp: false, uds: true }, 2),
        (DrainEvent::Io(IoOutcome::Count(12)), 2),
        (DrainEvent::Io(IoOutcome::Count(12)), 9),
        (DrainEvent::Wants(true), 9),
        (DrainEvent::Io(IoOutcome::Count(40)), 9),
        (DrainEvent::Wants(false), 9),
    ]);
    assert_eq!(
        actions[3..],
        [
            DrainAction::ReadUds,
            DrainAction::Encrypt { frame: 12 },
            DrainAction::AskWantsWrite,
            DrainAction::WriteTls,
            DrainAction::AskWantsWrite,
            DrainAction::AskWantsWrite,
        ]
    );
    assert_eq!(d.last_progress, 9);
}

#[test]
fn silent_session_ends_after_its_time() {
    let quiet = |now| {
        run(vec![
            (DrainEvent::Wants(false), 0),
            (DrainEvent::Wants(false), 0),
            (DrainEvent::PollTimedOut, now),
        ])
        .0
    };
    assert!(matches!(quiet(1_500_000_000).stage, DrainStage::Flush));
    assert!(matches!(quiet(1_500_000_001).stage, DrainStage::Drained));
}

#[test]
fn closed_or_failed_sides_end_the_drain() {
    let (d, actions) = run(vec![
        (DrainEvent::Wants(false), 0),
        (DrainEvent::Wants(false), 0),
        (DrainEvent::Ready { tcp: true, uds: true }, 0),
        (DrainEvent::Io(IoOutcome::Count(0)), 0),
    ]);
    assert!(matches!(d.stage, DrainStage::Drained));
    assert_eq!(*actions.last().unwrap(), DrainAction::Finish);
    let (d, _) = run(vec![
        (DrainEvent::Wants(true), 0),
        (DrainEvent::Io(IoOutcome::Failed("reset")), 0),
        (DrainEvent::Wants(false), 0),
    ]);
    assert!(matches!(d.stage, DrainStage::Failed("reset")));
}

#[test]
fn blocked_tls_engine_ends_the_drain() {
    let (d, actions) = run(vec![
        (DrainEvent::Wants(false), 1),
        (DrainEvent::Wants(false), 1),
        (DrainEvent::Ready { tcp: false, uds: true }, 2),
        (DrainEvent::Io(IoOutcome::Count(12)), 2),
        (DrainEvent::Io(IoOutcome::WouldBlock("full")), 3),
    ]);
    assert!(matches!(d.stage, DrainStage::Failed("full")));
    assert_eq!(*actions.last().unwrap(), DrainAction::Finish);
    let (d, _) = run(vec![
        (DrainEvent::Wants(false), 1),
        (DrainEvent::Wants(false), 1),
        (DrainEvent::Ready { tcp: true, uds: false }, 2),
        (DrainEvent::Io(IoOutcome::Count(30)), 2),
        (DrainEvent::Io(IoOutcome::WouldBlock("odd")), 2),
    ]);
    assert!(matches!(d.stage, DrainStage::Failed("odd")));
}

#[test]
fn ledger_reports_every_session() {
    let (mut ledger, hello) = DrainerLedger::begin(2, 77, 3);
    assert!(matches!(
        hello,
        DrainerEvent::Hello { role, pid: 77, generation: 3, session_count: 2 } if role == "tls"
    ));
    assert!(matches!(
        ledger.session_done("p".into(), None),
        DrainerEvent::SessionDone { peer, outcome: SessionOutcome::CleanEof } if peer == "p"
    ));
    assert!(matches!(ledger.deadline(), DrainerEvent::DeadlineExit { remaining: 1 }));
    assert!(matches!(
        ledger.session_done("q".into(), Some("reset".into())),
        DrainerEvent::SessionDone { outcome: SessionOutcome::Error { message }, .. }
            if message == "reset"
    ));
    assert_eq!(ledger.remaining, 0);
}
