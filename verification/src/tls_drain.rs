//! Draining TLS sessions after a handover: the forked child serves what is in flight and then goes.

use vstd::prelude::*;

use crate::control::{DrainerEvent, SessionOutcome};
use crate::limits::since;

verus! {

/// A session that has not moved for longer than this many nanoseconds counts as drained: 1.5 s.
pub const DRAIN_IDLE_TIMEOUT: u64 = 1_500_000_000;

/// Milliseconds that one wait for the streams takes.
pub const DRAIN_POLL_MS: u64 = 250;

/// Milliseconds until a write that the processor could not take is tried again.
pub const DRAIN_RETRY_MS: u64 = 5;

/// Milliseconds after which the child goes whatever is left.
pub const DRAIN_DEADLINE_MS: u64 = 5000;

/// Most bytes that are moved at once.
pub const DRAIN_FRAME_BYTES: usize = 8192;

/// How a read, a write or a step of the TLS engine went. An error that says that the stream is not
/// ready comes as `WouldBlock`.
#[derive(Debug)]
pub enum IoOutcome<E> {
    Count(usize),
    WouldBlock(E),
    Failed(E),
}

/// Where the draining of one session stands.
#[allow(inconsistent_fields)]
#[derive(Debug)]
pub enum DrainStage<E> {
    /// Whether there are records to send is to be asked.
    Flush,
    /// Records are being sent.
    FlushTls,
    /// Whether records are left is to be asked, for the wait.
    Interest,
    /// The streams are waited for; with `out`, until the client takes records too.
    Poll { out: bool },
    /// Records are being received.
    ReadTls { uds_ready: bool },
    /// Records are being decrypted.
    Process { uds_ready: bool },
    /// What was decrypted is being taken out.
    ReadPlain { uds_ready: bool },
    /// `frame` bytes go to the processor, and `sent` of them are there.
    Forward { uds_ready: bool, frame: usize, sent: usize, blocked: bool },
    /// The processor is being read.
    ReadUds,
    /// What it sent is being encrypted.
    Encrypt { frame: usize },
    /// Whether the records are sent is to be asked.
    FlushCheck,
    /// They are being sent.
    FlushAfter,
    /// The session has ended in good order.
    Drained,
    Failed(E),
}

/// What the draining is told.
#[derive(Debug)]
pub enum DrainEvent<E> {
    /// Whether the TLS engine has records to send.
    Wants(bool),
    Io(IoOutcome<E>),
    /// The wait found streams that are ready.
    Ready { tcp: bool, uds: bool },
    PollTimedOut,
    PollInterrupted,
    PollFailed(E),
}

/// What the draining asks for.
#[allow(inconsistent_fields)]
#[derive(Clone, Copy, Debug, PartialEq, Eq, Structural)]
pub enum DrainAction {
    AskWantsWrite,
    WriteTls,
    Poll { out: bool },
    ReadTls,
    ProcessPackets,
    ReadPlain,
    /// Write the frame to the processor from this place on.
    Forward { from: usize, frame: usize },
    /// Wait a little, then do so.
    PauseThenForward { from: usize, frame: usize },
    ReadUds,
    /// Hand the frame to the TLS engine.
    Encrypt { frame: usize },
    Finish,
}

/// What is asked for in a stage.
pub open spec fn drain_due<E>(stage: DrainStage<E>) -> DrainAction {
    match stage {
        DrainStage::Flush => DrainAction::AskWantsWrite,
        DrainStage::FlushTls => DrainAction::WriteTls,
        DrainStage::Interest => DrainAction::AskWantsWrite,
        DrainStage::Poll { out } => DrainAction::Poll { out },
        DrainStage::ReadTls { .. } => DrainAction::ReadTls,
        DrainStage::Process { .. } => DrainAction::ProcessPackets,
        DrainStage::ReadPlain { .. } => DrainAction::ReadPlain,
        DrainStage::Forward { uds_ready, frame, sent, blocked } => if blocked {
            DrainAction::PauseThenForward { from: sent, frame }
        } else {
            DrainAction::Forward { from: sent, frame }
        },
        DrainStage::ReadUds => DrainAction::ReadUds,
        DrainStage::Encrypt { frame } => DrainAction::Encrypt { frame },
        DrainStage::FlushCheck => DrainAction::AskWantsWrite,
        DrainStage::FlushAfter => DrainAction::WriteTls,
        DrainStage::Drained => DrainAction::Finish,
        DrainStage::Failed(_) => DrainAction::Finish,
    }
}

/// Once the client's side is served, the processor's side is, if it is ready.
pub open spec fn after_client<E>(uds_ready: bool) -> DrainStage<E> {
    if uds_ready {
        DrainStage::ReadUds
    } else {
        DrainStage::Flush
    }
}

/// The draining of one session.
#[derive(Debug)]
pub struct Drain<E> {
    pub stage: DrainStage<E>,
    /// When bytes last moved, in nanoseconds.
    pub last_progress: u64,
}

/// One move of the draining. An event that it does not wait for changes nothing.
pub open spec fn drain_move<E>(d: Drain<E>, e: DrainEvent<E>, now: u64) -> Drain<E> {
    match (d.stage, e) {
        (DrainStage::Flush, DrainEvent::Wants(w)) => Drain {
            stage: (if w {
                DrainStage::FlushTls
            } else {
                DrainStage::Interest
            }),
            ..d
        },
        (DrainStage::FlushTls, DrainEvent::Io(io)) => match io {
            IoOutcome::Count(_) => Drain { stage: DrainStage::Interest, last_progress: now },
            IoOutcome::WouldBlock(_) => Drain { stage: DrainStage::Interest, ..d },
            IoOutcome::Failed(x) => Drain { stage: DrainStage::Failed(x), ..d },
        },
        (DrainStage::Interest, DrainEvent::Wants(w)) => Drain {
            stage: DrainStage::Poll { out: w },
            ..d
        },
        (DrainStage::Poll { .. }, DrainEvent::PollInterrupted) => Drain {
            stage: DrainStage::Flush,
            ..d
        },
        (DrainStage::Poll { .. }, DrainEvent::PollFailed(x)) => Drain {
            stage: DrainStage::Failed(x),
            ..d
        },
        (DrainStage::Poll { .. }, DrainEvent::PollTimedOut) => Drain {
            stage: (if since(now, d.last_progress) > DRAIN_IDLE_TIMEOUT {
                DrainStage::Drained
            } else {
                DrainStage::Flush
            }),
            ..d
        },
        (DrainStage::Poll { .. }, DrainEvent::Ready { tcp, uds }) => Drain {
            stage: (if tcp {
                DrainStage::ReadTls { uds_ready: uds }
            } else {
                after_client(uds)
            }),
            ..d
        },
        (DrainStage::ReadTls { uds_ready }, DrainEvent::Io(io)) => match io {
            IoOutcome::Count(n) => Drain {
                stage: (if n == 0 {
                    DrainStage::Drained
                } else {
                    DrainStage::Process { uds_ready }
                }),
                ..d
            },
            IoOutcome::WouldBlock(_) => Drain { stage: after_client(uds_ready), ..d },
            IoOutcome::Failed(x) => Drain { stage: DrainStage::Failed(x), ..d },
        },
        (DrainStage::Process { uds_ready }, DrainEvent::Io(io)) => match io {
            IoOutcome::Count(_) => Drain { stage: DrainStage::ReadPlain { uds_ready }, ..d },
            IoOutcome::WouldBlock(x) | IoOutcome::Failed(x) => Drain {
                stage: DrainStage::Failed(x),
                ..d
            },
        },
        (DrainStage::ReadPlain { uds_ready }, DrainEvent::Io(io)) => match io {
            IoOutcome::Count(n) => Drain {
                stage: (if n == 0 {
                    after_client(uds_ready)
                } else {
                    DrainStage::Forward { uds_ready, frame: n, sent: 0, blocked: false }
                }),
                ..d
            },
            IoOutcome::WouldBlock(_) => Drain { stage: after_client(uds_ready), ..d },
            IoOutcome::Failed(x) => Drain { stage: DrainStage::Failed(x), ..d },
        },
        (DrainStage::Forward { uds_ready, frame, sent, blocked }, DrainEvent::Io(io)) => match io {
            IoOutcome::Count(m) => if m == 0 {
                Drain { stage: DrainStage::Drained, ..d }
            } else if sent + m >= frame {
                Drain { stage: DrainStage::ReadPlain { uds_ready }, last_progress: now }
            } else {
                Drain {
                    stage: DrainStage::Forward {
                        uds_ready,
                        frame,
                        sent: (sent + m) as usize,
                        blocked: false,
                    },
                    ..d
                }
            },
            IoOutcome::WouldBlock(_) => Drain {
                stage: DrainStage::Forward { uds_ready, frame, sent, blocked: true },
                ..d
            },
            IoOutcome::Failed(x) => Drain { stage: DrainStage::Failed(x), ..d },
        },
        (DrainStage::ReadUds, DrainEvent::Io(io)) => match io {
            IoOutcome::Count(n) => Drain {
                stage: (if n == 0 {
                    DrainStage::Drained
                } else {
                    DrainStage::Encrypt { frame: n }
                }),
                ..d
            },
            IoOutcome::WouldBlock(_) => Drain { stage: DrainStage::Flush, ..d },
            IoOutcome::Failed(x) => Drain { stage: DrainStage::Failed(x), ..d },
        },
        (DrainStage::Encrypt { .. }, DrainEvent::Io(io)) => match io {
            IoOutcome::Count(_) => Drain { stage: DrainStage::FlushCheck, last_progress: now },
            IoOutcome::WouldBlock(x) | IoOutcome::Failed(x) => Drain {
                stage: DrainStage::Failed(x),
                ..d
            },
        },
        (DrainStage::FlushCheck, DrainEvent::Wants(w)) => Drain {
            stage: (if w {
                DrainStage::FlushAfter
            } else {
                DrainStage::Flush
            }),
            ..d
        },
        (DrainStage::FlushAfter, DrainEvent::Io(io)) => match io {
            IoOutcome::Count(_) => Drain { stage: DrainStage::FlushCheck, ..d },
            IoOutcome::WouldBlock(_) => Drain { stage: DrainStage::Flush, ..d },
            IoOutcome::Failed(x) => Drain { stage: DrainStage::Failed(x), ..d },
        },
        _ => d,
    }
}

impl<E> Drain<E> {
    pub fn new(now: u64) -> (d: Self)
        ensures
            d == (Drain { stage: DrainStage::<E>::Flush, last_progress: now }),
    {
        Drain { stage: DrainStage::Flush, last_progress: now }
    }

    /// What is asked for.
    pub fn due(&self) -> (a: DrainAction)
        ensures
            a == drain_due(self.stage),
    {
        match &self.stage {
            DrainStage::Flush => DrainAction::AskWantsWrite,
            DrainStage::FlushTls => DrainAction::WriteTls,
            DrainStage::Interest => DrainAction::AskWantsWrite,
            DrainStage::Poll { out } => DrainAction::Poll { out: *out },
            DrainStage::ReadTls { .. } => DrainAction::ReadTls,
            DrainStage::Process { .. } => DrainAction::ProcessPackets,
            DrainStage::ReadPlain { .. } => DrainAction::ReadPlain,
            DrainStage::Forward { uds_ready: _, frame, sent, blocked } => if *blocked {
                DrainAction::PauseThenForward { from: *sent, frame: *frame }
            } else {
                DrainAction::Forward { from: *sent, frame: *frame }
            },
            DrainStage::ReadUds => DrainAction::ReadUds,
            DrainStage::Encrypt { frame } => DrainAction::Encrypt { frame: *frame },
            DrainStage::FlushCheck => DrainAction::AskWantsWrite,
            DrainStage::FlushAfter => DrainAction::WriteTls,
            DrainStage::Drained => DrainAction::Finish,
            DrainStage::Failed(_) => DrainAction::Finish,
        }
    }

    fn after_client(uds_ready: bool) -> (s: DrainStage<E>)
        ensures
            s == after_client::<E>(uds_ready),
    {
        if uds_ready {
            DrainStage::ReadUds
        } else {
            DrainStage::Flush
        }
    }

    /// Takes one move; the result is what to do next.
    pub fn drain_one_tls_session(self, event: DrainEvent<E>, now: u64) -> (r: (Self, DrainAction))
        requires
            self.stage matches DrainStage::Forward { uds_ready, frame, sent, blocked } ==> sent
                < frame,
        ensures
            r.0 == drain_move(self, event, now),
            r.1 == drain_due(r.0.stage),
            r.0.stage matches DrainStage::Forward { uds_ready, frame, sent, blocked } ==> sent
                < frame,
    {
        let mut last: u64 = self.last_progress;
        let stage: DrainStage<E> = match (self.stage, event) {
            (DrainStage::Flush, DrainEvent::Wants(w)) => if w {
                DrainStage::FlushTls
            } else {
                DrainStage::Interest
            },
            (DrainStage::FlushTls, DrainEvent::Io(io)) => match io {
                IoOutcome::Count(_) => {
                    last = now;
                    DrainStage::Interest
                },
                IoOutcome::WouldBlock(_) => DrainStage::Interest,
                IoOutcome::Failed(x) => DrainStage::Failed(x),
            },
            (DrainStage::Interest, DrainEvent::Wants(w)) => DrainStage::Poll { out: w },
            (DrainStage::Poll { .. }, DrainEvent::PollInterrupted) => DrainStage::Flush,
            (DrainStage::Poll { .. }, DrainEvent::PollFailed(x)) => DrainStage::Failed(x),
            (DrainStage::Poll { .. }, DrainEvent::PollTimedOut) => if now.saturating_sub(last)
                > DRAIN_IDLE_TIMEOUT {
                DrainStage::Drained
            } else {
                DrainStage::Flush
            },
            (DrainStage::Poll { .. }, DrainEvent::Ready { tcp, uds }) => if tcp {
                DrainStage::ReadTls { uds_ready: uds }
            } else {
                Self::after_client(uds)
            },
            (DrainStage::ReadTls { uds_ready }, DrainEvent::Io(io)) => match io {
                IoOutcome::Count(n) => if n == 0 {
                    DrainStage::Drained
                } else {
                    DrainStage::Process { uds_ready }
                },
                IoOutcome::WouldBlock(_) => Self::after_client(uds_ready),
                IoOutcome::Failed(x) => DrainStage::Failed(x),
            },
            (DrainStage::Process { uds_ready }, DrainEvent::Io(io)) => match io {
                IoOutcome::Count(_) => DrainStage::ReadPlain { uds_ready },
                IoOutcome::WouldBlock(x) | IoOutcome::Failed(x) => DrainStage::Failed(x),
            },
            (DrainStage::ReadPlain { uds_ready }, DrainEvent::Io(io)) => match io {
                IoOutcome::Count(n) => if n == 0 {
                    Self::after_client(uds_ready)
                } else {
                    DrainStage::Forward { uds_ready, frame: n, sent: 0, blocked: false }
                },
                IoOutcome::WouldBlock(_) => Self::after_client(uds_ready),
                IoOutcome::Failed(x) => DrainStage::Failed(x),
            },
            (
                DrainStage::Forward { uds_ready, frame, sent, blocked: _ },
                DrainEvent::Io(io),
            ) => match io {
                IoOutcome::Count(m) => if m == 0 {
                    DrainStage::Drained
                } else if m >= frame - sent {
                    last = now;
                    DrainStage::ReadPlain { uds_ready }
                } else {
                    DrainStage::Forward { uds_ready, frame, sent: sent + m, blocked: false }
                },
                IoOutcome::WouldBlock(_) => DrainStage::Forward {
                    uds_ready,
                    frame,
                    sent,
                    blocked: true,
                },
                IoOutcome::Failed(x) => DrainStage::Failed(x),
            },
            (DrainStage::ReadUds, DrainEvent::Io(io)) => match io {
                IoOutcome::Count(n) => if n == 0 {
                    DrainStage::Drained
                } else {
                    DrainStage::Encrypt { frame: n }
                },
                IoOutcome::WouldBlock(_) => DrainStage::Flush,
                IoOutcome::Failed(x) => DrainStage::Failed(x),
            },
            (DrainStage::Encrypt { .. }, DrainEvent::Io(io)) => match io {
                IoOutcome::Count(_) => {
                    last = now;
                    DrainStage::FlushCheck
                },
                IoOutcome::WouldBlock(x) | IoOutcome::Failed(x) => DrainStage::Failed(x),
            },
            (DrainStage::FlushCheck, DrainEvent::Wants(w)) => if w {
                DrainStage::FlushAfter
            } else {
                DrainStage::Flush
            },
            (DrainStage::FlushAfter, DrainEvent::Io(io)) => match io {
                IoOutcome::Count(_) => DrainStage::FlushCheck,
                IoOutcome::WouldBlock(_) => DrainStage::Flush,
                IoOutcome::Failed(x) => DrainStage::Failed(x),
            },
            (other, _) => other,
        };
        let next = Drain { stage, last_progress: last };
        let action = next.due();
        (next, action)
    }
}

/// What the child reports of its sessions, and how many are left.
#[derive(Clone, Copy, Debug, PartialEq, Eq, Structural)]
pub struct DrainerLedger {
    pub remaining: usize,
}

impl DrainerLedger {
    /// The child takes over `sessions` sessions.
    pub fn begin(sessions: usize, pid: u32, generation: u64) -> (r: (Self, DrainerEvent))
        ensures
            r.0.remaining == sessions,
            match r.1 {
                DrainerEvent::Hello { role, pid: p, generation: g, session_count } => role@
                    == "tls"@ && p == pid && g == generation && session_count == sessions,
                _ => false,
            },
    {
        (
            DrainerLedger { remaining: sessions },
            DrainerEvent::Hello {
                role: "tls".to_owned(),
                pid,
                generation,
                session_count: sessions,
            },
        )
    }

    /// A session has ended, in good order or with an error.
    pub fn session_done(&mut self, peer: String, error: Option<String>) -> (e: DrainerEvent)
        requires
            old(self).remaining > 0,
        ensures
            final(self).remaining == old(self).remaining - 1,
            e == (DrainerEvent::SessionDone {
                peer,
                outcome: (match error {
                    Some(message) => SessionOutcome::Error { message },
                    None => SessionOutcome::CleanEof,
                }),
            }),
    {
        self.remaining = self.remaining - 1;
        DrainerEvent::SessionDone {
            peer,
            outcome: match error {
                Some(message) => SessionOutcome::Error { message },
                None => SessionOutcome::CleanEof,
            },
        }
    }

    /// No session is being served any more, and the child goes.
    pub fn complete(&self) -> (e: DrainerEvent)
        ensures
            e == DrainerEvent::Complete,
    {
        DrainerEvent::Complete
    }

    /// The deadline has passed.
    pub fn deadline(&self) -> (e: DrainerEvent)
        ensures
            e == (DrainerEvent::DeadlineExit { remaining: self.remaining }),
    {
        DrainerEvent::DeadlineExit { remaining: self.remaining }
    }
}

// Laws
/// What was decrypted for the processor reaches it whole before anything else is done: a frame is
/// left behind only when it was written to its end, the processor took no more, or a write failed.
pub proof fn frame_is_forwarded_whole<E>(d: Drain<E>, e: DrainEvent<E>, now: u64)
    requires
        d.stage is Forward,
        d.stage->sent < d.stage->Forward_frame,
    ensures
        ({
            let n = drain_move(d, e, now).stage;
            ||| n matches DrainStage::Forward { frame, sent, .. } && frame == d.stage->Forward_frame
                && sent >= d.stage->sent
            ||| e matches DrainEvent::Io(IoOutcome::Count(m)) && n is ReadPlain && d.stage->sent + m
                >= d.stage->Forward_frame
            ||| e matches DrainEvent::Io(IoOutcome::Count(m)) && n is Drained && m == 0
            ||| e matches DrainEvent::Io(IoOutcome::Failed(x)) && n == DrainStage::Failed(x)
        }),
{
}

/// A wait ends the session only after it has not moved for longer than the idle time.
pub proof fn quiet_session_gets_its_time<E>(d: Drain<E>, e: DrainEvent<E>, now: u64)
    requires
        d.stage is Poll,
        drain_move(d, e, now).stage is Drained,
    ensures
        since(now, d.last_progress) > DRAIN_IDLE_TIMEOUT,
{
}

/// A session that has ended stays so.
pub proof fn ended_drain_stays_ended<E>(d: Drain<E>, e: DrainEvent<E>, now: u64)
    requires
        d.stage is Drained || d.stage is Failed,
    ensures
        drain_move(d, e, now) == d,
{
}

/// What is read from the processor is handed to the TLS engine whole, and what is decrypted for
/// the processor is written to it whole, from its first byte: the frame that is asked for next is
/// as long as what was read. A write that took only a part is followed by the rest.
pub proof fn frames_are_as_long_as_what_was_read<E>(d: Drain<E>, n: usize, now: u64)
    requires
        n > 0,
    ensures
        ({
            let next = drain_move(d, DrainEvent::Io(IoOutcome::Count(n)), now);
            &&& d.stage is ReadUds ==> drain_due(next.stage) == (DrainAction::Encrypt { frame: n })
            &&& d.stage is ReadPlain ==> drain_due(next.stage) == (DrainAction::Forward {
                from: 0,
                frame: n,
            })
            &&& d.stage matches DrainStage::Forward { frame, sent, .. } ==> (if sent + n < frame {
                drain_due(next.stage) == (DrainAction::Forward { from: (sent + n) as usize, frame })
            } else {
                drain_due(next.stage) == DrainAction::ReadPlain
            })
        }),
{
}

/// What a session has moved so far, by what it asked for and what came of it.
pub struct DrainBytes {
    /// Read from the processor.
    pub from_processor: nat,
    /// Handed to the TLS engine.
    pub encrypted: nat,
    /// Decrypted for the processor.
    pub decrypted: nat,
    /// Written to the processor.
    pub to_processor: nat,
}

/// The bytes that one event on a session moves.
pub open spec fn bytes_moved<E>(action: DrainAction, e: DrainEvent<E>) -> DrainBytes {
    let none = DrainBytes { from_processor: 0, encrypted: 0, decrypted: 0, to_processor: 0 };
    match (action, e) {
        (DrainAction::ReadUds, DrainEvent::Io(IoOutcome::Count(n))) => DrainBytes {
            from_processor: n as nat,
            ..none
        },
        (DrainAction::Encrypt { frame }, DrainEvent::Io(IoOutcome::Count(_))) => DrainBytes {
            encrypted: frame as nat,
            ..none
        },
        (DrainAction::ReadPlain, DrainEvent::Io(IoOutcome::Count(n))) => DrainBytes {
            decrypted: n as nat,
            ..none
        },
        (DrainAction::Forward { .. }, DrainEvent::Io(IoOutcome::Count(n))) => DrainBytes {
            to_processor: n as nat,
            ..none
        },
        (DrainAction::PauseThenForward { .. }, DrainEvent::Io(IoOutcome::Count(n))) => DrainBytes {
            to_processor: n as nat,
            ..none
        },
        _ => none,
    }
}

/// The session after a series of events, each with its time.
pub open spec fn drained_through<E>(d: Drain<E>, events: Seq<(DrainEvent<E>, u64)>) -> Drain<E>
    decreases events.len(),
{
    if events.len() == 0 {
        d
    } else {
        drain_move(
            drained_through(d, events.drop_last()),
            events.last().0,
            events.last().1,
        )
    }
}

/// What a series of events moved.
pub open spec fn total_moved<E>(d: Drain<E>, events: Seq<(DrainEvent<E>, u64)>) -> DrainBytes
    decreases events.len(),
{
    if events.len() == 0 {
        DrainBytes { from_processor: 0, encrypted: 0, decrypted: 0, to_processor: 0 }
    } else {
        let so_far = total_moved(d, events.drop_last());
        let step = bytes_moved(
            drain_due(drained_through(d, events.drop_last()).stage),
            events.last().0,
        );
        DrainBytes {
            from_processor: so_far.from_processor + step.from_processor,
            encrypted: so_far.encrypted + step.encrypted,
            decrypted: so_far.decrypted + step.decrypted,
            to_processor: so_far.to_processor + step.to_processor,
        }
    }
}

/// No write takes more than it was given.
pub open spec fn writes_are_honest<E>(d: Drain<E>, events: Seq<(DrainEvent<E>, u64)>) -> bool {
    forall|i: int|
        0 <= i < events.len() ==> match (
            drain_due(drained_through(d, #[trigger] events.take(i)).stage),
            events[i].0,
        ) {
            (
                DrainAction::Forward { from, frame },
                DrainEvent::Io(IoOutcome::Count(n)),
            ) => from + n <= frame,
            (
                DrainAction::PauseThenForward { from, frame },
                DrainEvent::Io(IoOutcome::Count(n)),
            ) => from + n <= frame,
            _ => true,
        }
}

/// Over any series of events, every byte that came from the processor went to the TLS engine, and
/// every byte that was decrypted went to the processor, but for the frame that is on its way; only
/// a session that has ended can have left such a frame behind.
pub proof fn drain_moves_every_byte<E>(start: u64, events: Seq<(DrainEvent<E>, u64)>)
    requires
        writes_are_honest(Drain { stage: DrainStage::<E>::Flush, last_progress: start }, events),
    ensures
        ({
            let d = Drain { stage: DrainStage::<E>::Flush, last_progress: start };
            let at = drained_through(d, events).stage;
            let moved = total_moved(d, events);
            &&& !(at is Failed) ==> moved.from_processor == moved.encrypted + (match at {
                DrainStage::Encrypt { frame } => frame as nat,
                _ => 0,
            })
            &&& !(at is Failed) && !(at is Drained) ==> moved.decrypted == moved.to_processor + (
            match at {
                DrainStage::Forward { frame, sent, .. } => frame - sent,
                _ => 0,
            })
            &&& moved.encrypted <= moved.from_processor
            &&& moved.to_processor <= moved.decrypted
            &&& at matches DrainStage::Forward { frame, sent, .. } ==> sent < frame
        }),
    decreases events.len(),
{
    let d = Drain { stage: DrainStage::<E>::Flush, last_progress: start };
    if events.len() > 0 {
        let before = events.drop_last();
        assert forall|i: int| 0 <= i < before.len() implies match (
            drain_due(drained_through(d, #[trigger] before.take(i)).stage),
            before[i].0,
        ) {
            (
                DrainAction::Forward { from, frame },
                DrainEvent::Io(IoOutcome::Count(n)),
            ) => from + n <= frame,
            (
                DrainAction::PauseThenForward { from, frame },
                DrainEvent::Io(IoOutcome::Count(n)),
            ) => from + n <= frame,
            _ => true,
        } by {
            assert(before.take(i) =~= events.take(i));
            assert(before[i] == events[i]);
        }
        drain_moves_every_byte(start, before);
        assert(events.take(events.len() - 1) =~= before);
    }
}

/// A session ends in good order exactly when one side has closed, the processor takes no more, or
/// nothing moved for longer than a second and a half before a wait ran out; nothing else ends it
/// so.
pub proof fn session_ends_only_for_a_reason<E>(d: Drain<E>, e: DrainEvent<E>, now: u64)
    requires
        !(d.stage is Drained),
        d.last_progress <= now,
    ensures
        drain_move(d, e, now).stage is Drained <==> ({
            ||| d.stage is ReadTls && e == DrainEvent::<E>::Io(IoOutcome::Count(0))
            ||| d.stage is ReadUds && e == DrainEvent::<E>::Io(IoOutcome::Count(0))
            ||| d.stage is Forward && e == DrainEvent::<E>::Io(IoOutcome::Count(0))
            ||| d.stage is Poll && e is PollTimedOut && now - d.last_progress > 1_500_000_000
        }),
{
}

/// An error that is none of waiting ends the session, and is reported as it is.
pub proof fn errors_end_the_session<E>(d: Drain<E>, x: E, now: u64)
    ensures
        ({
            let io = drain_move(d, DrainEvent::Io(IoOutcome::Failed(x)), now).stage;
            let poll = drain_move(d, DrainEvent::PollFailed(x), now).stage;
            let blocked = drain_move(d, DrainEvent::Io(IoOutcome::WouldBlock(x)), now).stage;
            &&& d.stage is FlushTls || d.stage is ReadTls || d.stage is Process
                || d.stage is ReadPlain || d.stage is Forward || d.stage is ReadUds
                || d.stage is Encrypt || d.stage is FlushAfter ==> io == DrainStage::Failed(x)
            &&& d.stage is Poll ==> poll == DrainStage::Failed(x)
            &&& d.stage is Encrypt || d.stage is Process ==> blocked == DrainStage::Failed(x)
            &&& d.stage is FlushTls || d.stage is ReadTls || d.stage is ReadPlain
                || d.stage is Forward || d.stage is ReadUds || d.stage is FlushAfter ==> !(
            blocked is Failed) && !(blocked is Drained)
        }),
{
}

/// The clock of the idle time starts anew exactly when bytes moved: records went out, a frame
/// reached the processor to its end, or a frame was encrypted.
pub proof fn progress_is_what_restarts_the_idle_time<E>(d: Drain<E>, e: DrainEvent<E>, now: u64)
    ensures
        ({
            let moved = match (d.stage, e) {
                (DrainStage::FlushTls, DrainEvent::Io(IoOutcome::Count(_))) => true,
                (DrainStage::Encrypt { .. }, DrainEvent::Io(IoOutcome::Count(_))) => true,
                (
                    DrainStage::Forward { frame, sent, .. },
                    DrainEvent::Io(IoOutcome::Count(n)),
                ) => n > 0 && sent + n >= frame,
                _ => false,
            };
            drain_move(d, e, now).last_progress == (if moved {
                now
            } else {
                d.last_progress
            })
        }),
{
}

/// A round serves every side that is ready, the client first: what the wait found ready at the
/// processor is read before the next wait, unless the session ends before.
pub proof fn ready_sides_are_served<E>(d: Drain<E>, e: DrainEvent<E>, tcp: bool, uds: bool, now: u64)
    ensures
        d.stage is Poll ==> ({
            let next = drain_move(d, DrainEvent::Ready { tcp, uds }, now).stage;
            &&& tcp ==> next == (DrainStage::<E>::ReadTls { uds_ready: uds })
            &&& !tcp && uds ==> next == DrainStage::<E>::ReadUds
            &&& !tcp && !uds ==> next == DrainStage::<E>::Flush
        }),
        ({
            let next = drain_move(d, e, now).stage;
            let waiting = d.stage is ReadTls && d.stage->ReadTls_uds_ready || d.stage is Process
                && d.stage->Process_uds_ready || d.stage is ReadPlain
                && d.stage->ReadPlain_uds_ready || d.stage is Forward
                && d.stage->Forward_uds_ready;
            waiting ==> {
                ||| next is ReadUds
                ||| next is Drained
                ||| next is Failed
                ||| next is ReadTls && next->ReadTls_uds_ready
                ||| next is Process && next->Process_uds_ready
                ||| next is ReadPlain && next->ReadPlain_uds_ready
                ||| next is Forward && next->Forward_uds_ready
            }
        }),
{
}

/// Records that the TLS engine has are sent before each wait and after each frame, and the wait
/// asks for room only while records are left; what was received is decrypted and taken out until
/// nothing is left of it.
pub proof fn records_are_sent_and_taken_out<E>(d: Drain<E>, wants: bool, n: usize, now: u64)
    ensures
        ({
            let told = drain_due(drain_move(d, DrainEvent::Wants(wants), now).stage);
            let went = drain_due(
                drain_move(d, DrainEvent::Io(IoOutcome::Count(n)), now).stage,
            );
            &&& d.stage is Flush || d.stage is Interest || d.stage is FlushCheck ==> drain_due(
                d.stage,
            ) == DrainAction::AskWantsWrite
            &&& d.stage is Flush && wants ==> told == DrainAction::WriteTls
            &&& d.stage is Flush && !wants ==> drain_move(
                d,
                DrainEvent::Wants(wants),
                now,
            ).stage is Interest
            &&& d.stage is FlushTls ==> drain_move(
                d,
                DrainEvent::Io(IoOutcome::Count(n)),
                now,
            ).stage is Interest
            &&& d.stage is Interest ==> told == (DrainAction::Poll { out: wants })
            &&& d.stage is FlushCheck && wants ==> told == DrainAction::WriteTls
            &&& d.stage is FlushCheck && !wants ==> drain_move(
                d,
                DrainEvent::Wants(wants),
                now,
            ).stage is Flush
            &&& d.stage is FlushAfter ==> drain_move(
                d,
                DrainEvent::Io(IoOutcome::Count(n)),
                now,
            ).stage is FlushCheck
            &&& d.stage is Encrypt ==> drain_move(
                d,
                DrainEvent::Io(IoOutcome::Count(n)),
                now,
            ).stage is FlushCheck
            &&& d.stage is ReadTls && n > 0 ==> went == DrainAction::ProcessPackets
            &&& d.stage is Process ==> went == DrainAction::ReadPlain
        }),
{
}

/// A write that the processor cannot take yet is tried again after a pause, from the same place.
pub proof fn blocked_write_is_tried_again<E>(d: Drain<E>, x: E, now: u64)
    requires
        d.stage is Forward,
    ensures
        drain_due(drain_move(d, DrainEvent::Io(IoOutcome::WouldBlock(x)), now).stage) == (
        DrainAction::PauseThenForward { from: d.stage->sent, frame: d.stage->Forward_frame }),
{
}

} // verus!
