//! The acceptors: admission of clients, the accept loop's decisions, and the bridge between a
//! client and the processor.

use vstd::prelude::*;

use crate::config::Config;
use crate::control::ProcessorPreamble;
use crate::limits::{attempt, AcceptorLimits, ClientIp, SessionGuard};
use crate::scanner::ScanRequest;
use crate::time::{duration_millis_u64, millis_of, Span};

verus! {

/// What an acceptor speaks with its clients.
#[derive(Clone, Copy, Debug, PartialEq, Eq, Structural)]
pub enum Role {
    Plain,
    Tls,
}

/// The name of a role.
pub open spec fn acceptor_name(role: Role) -> Seq<char> {
    match role {
        Role::Plain => "plain"@,
        Role::Tls => "tls"@,
    }
}

impl Role {
    pub fn name(self) -> (s: &'static str)
        ensures
            s@ == acceptor_name(self),
    {
        match self {
            Role::Plain => "plain",
            Role::Tls => "tls",
        }
    }

    /// The subcommand that runs it.
    pub fn arg(self) -> (s: &'static str)
        ensures
            s@ == acceptor_name(self),
    {
        self.name()
    }

    pub fn port(self, config: &Config) -> (p: u16)
        ensures
            p == (match self {
                Role::Plain => config.plain_port,
                Role::Tls => config.tls_port,
            }),
    {
        match self {
            Role::Plain => config.plain_port,
            Role::Tls => config.tls_port,
        }
    }
}

/// What becomes of a client that connects.
#[derive(Debug)]
pub enum Admission {
    /// Nobody is taken in any more.
    Drained,
    /// The address has no token left.
    RateLimited,
    /// All slots are taken.
    CapReached,
    /// It is served, and holds a slot.
    Serve(SessionGuard),
}

/// A slot is free.
pub open spec fn has_slot(l: AcceptorLimits) -> bool {
    l.sessions.limit() == 0 || l.sessions.held() < l.sessions.limit()
}

/// Decides about a client from `ip` at `now`. A drained acceptor asks nothing of the limits; a
/// client without a token costs no slot.
pub fn handle_acceptor_accept(
    drained: bool,
    limits: &mut AcceptorLimits,
    now: u64,
    ip: ClientIp,
) -> (a: Admission)
    requires
        old(limits).sessions.limit() == 0 ==> old(limits).sessions.held() < u64::MAX,
    ensures
        final(limits).sessions.limit() == old(limits).sessions.limit(),
        final(limits).rate.settings() == old(limits).rate.settings(),
        ({
            let (rate, granted) = attempt(
                old(limits).rate.state(),
                old(limits).rate.settings(),
                now,
                ip,
            );
            &&& a is Drained <==> drained
            &&& a is RateLimited <==> !drained && !granted
            &&& a is CapReached <==> !drained && granted && !has_slot(*old(limits))
            &&& a is Serve <==> !drained && granted && has_slot(*old(limits))
            &&& final(limits).rate.state() == (if drained {
                old(limits).rate.state()
            } else {
                rate
            })
            &&& final(limits).sessions.held() == old(limits).sessions.held() + (if a is Serve {
                1int
            } else {
                0
            })
        }),
{
    if drained {
        return Admission::Drained;
    }
    if !limits.rate.try_take(now, ip) {
        return Admission::RateLimited;
    }
    match limits.sessions.try_acquire() {
        Some(guard) => Admission::Serve(guard),
        None => Admission::CapReached,
    }
}

/// Takes a slot back when its session ends.
pub fn release_slot(limits: &mut AcceptorLimits, guard: SessionGuard)
    requires
        old(limits).sessions.held() > 0,
    ensures
        final(limits).sessions.held() == old(limits).sessions.held() - 1,
        final(limits).sessions.limit() == old(limits).sessions.limit(),
        final(limits).rate == old(limits).rate,
{
    limits.sessions.release(guard);
}

/// What the scanner is told of a client.
pub fn scan_request(
    role: Role,
    client_ip: String,
    client_port: u16,
    server_port: u16,
    trace_id: String,
) -> (r: ScanRequest)
    ensures
        match r {
            ScanRequest::SessionObserved {
                client_ip: ip,
                client_port: cp,
                server_port: sp,
                role: name,
                trace_id: t,
            } => ip == client_ip && cp == client_port && sp == server_port && name@
                == acceptor_name(role) && t == trace_id,
        },
{
    ScanRequest::SessionObserved {
        client_ip,
        client_port,
        server_port,
        role: role.name().to_owned(),
        trace_id,
    }
}

/// The line with which a session is opened at the processor.
pub fn session_preamble(role: Role, peer: String, trace_id: String) -> (p: ProcessorPreamble)
    ensures
        match p {
            ProcessorPreamble::Session { peer: a, role: name, trace_id: t } => a == peer && name@
                == acceptor_name(role) && t == trace_id,
            _ => false,
        },
{
    ProcessorPreamble::Session { peer, role: role.name().to_owned(), trace_id }
}

/// What reaches the accept loop besides clients.
#[derive(Clone, Copy, Debug, PartialEq, Eq, Structural)]
pub enum AcceptorEvent {
    /// A shutdown with this many milliseconds of grace, if it says so.
    Shutdown(Option<u64>),
    /// An upgrade, if one was asked for.
    Upgrade { requested: bool },
    Drain(bool),
    Reload,
    Hangup,
}

/// What the accept loop does about it.
#[derive(Clone, Copy, Debug, PartialEq, Eq, Structural)]
pub enum AcceptorAction {
    Nothing,
    /// Stop after this many milliseconds.
    StopAfter(u64),
    StartUpgrade,
    ReloadCert(ReloadTrigger),
}

/// Why the certificate is loaded again.
#[derive(Clone, Copy, Debug, PartialEq, Eq, Structural)]
pub enum ReloadTrigger {
    Hangup,
    Admin,
}

/// The accept loop's own state.
#[derive(Clone, Copy, Debug, PartialEq, Eq, Structural)]
pub struct AcceptorState {
    pub drained: bool,
    /// There is a certificate to load again.
    pub has_tls: bool,
}

impl AcceptorState {
    /// Decides about an event. Once drained, an acceptor stays so.
    pub fn step(&mut self, event: AcceptorEvent) -> (a: AcceptorAction)
        ensures
            final(self).has_tls == old(self).has_tls,
            final(self).drained == (old(self).drained || event == AcceptorEvent::Drain(true)),
            (*final(self), a) == acceptor_move(*old(self), event),
            a == (match event {
                AcceptorEvent::Shutdown(grace) => AcceptorAction::StopAfter(
                    match grace {
                        Some(ms) => ms,
                        None => 0,
                    },
                ),
                AcceptorEvent::Upgrade { requested } => if requested {
                    AcceptorAction::StartUpgrade
                } else {
                    AcceptorAction::Nothing
                },
                AcceptorEvent::Drain(_) => AcceptorAction::Nothing,
                AcceptorEvent::Reload => if old(self).has_tls {
                    AcceptorAction::ReloadCert(ReloadTrigger::Admin)
                } else {
                    AcceptorAction::Nothing
                },
                AcceptorEvent::Hangup => if old(self).has_tls {
                    AcceptorAction::ReloadCert(ReloadTrigger::Hangup)
                } else {
                    AcceptorAction::Nothing
                },
            }),
    {
        match event {
            AcceptorEvent::Shutdown(grace) => AcceptorAction::StopAfter(
                match grace {
                    Some(ms) => ms,
                    None => 0,
                },
            ),
            AcceptorEvent::Upgrade { requested } => {
                if requested {
                    AcceptorAction::StartUpgrade
                } else {
                    AcceptorAction::Nothing
                }
            },
            AcceptorEvent::Drain(on) => {
                if on {
                    self.drained = true;
                }
                AcceptorAction::Nothing
            },
            AcceptorEvent::Reload => {
                if self.has_tls {
                    AcceptorAction::ReloadCert(ReloadTrigger::Admin)
                } else {
                    AcceptorAction::Nothing
                }
            },
            AcceptorEvent::Hangup => {
                if self.has_tls {
                    AcceptorAction::ReloadCert(ReloadTrigger::Hangup)
                } else {
                    AcceptorAction::Nothing
                }
            },
        }
    }
}

/// What is logged when the certificate was loaded again.
pub fn reload_message(trigger: ReloadTrigger) -> (s: &'static str)
    ensures
        s@ == (match trigger {
            ReloadTrigger::Hangup => "TLS cert/key reloaded on SIGHUP"@,
            ReloadTrigger::Admin => "TLS cert/key reloaded via admin reload"@,
        }),
{
    match trigger {
        ReloadTrigger::Hangup => "TLS cert/key reloaded on SIGHUP",
        ReloadTrigger::Admin => "TLS cert/key reloaded via admin reload",
    }
}

/// The clients that a TLS acceptor serves, by number.
pub struct ClientRegistry<H> {
    next_id: u64,
    clients: Vec<(u64, H)>,
}

/// Numbers rise strictly, and none has been given out beyond `next`.
pub open spec fn rising<H>(c: Seq<(u64, H)>, next: u64) -> bool {
    &&& forall|i: int, j: int| 0 <= i < j < c.len() ==> (#[trigger] c[i]).0 < (#[trigger] c[j]).0
    &&& forall|i: int| 0 <= i < c.len() ==> (#[trigger] c[i]).0 < next
}

/// The clients without number `id`.
pub open spec fn without<H>(c: Seq<(u64, H)>, id: u64) -> Seq<(u64, H)>
    decreases c.len(),
{
    if c.len() == 0 {
        seq![]
    } else if c.last().0 == id {
        without(c.drop_last(), id)
    } else {
        without(c.drop_last(), id).push(c.last())
    }
}

impl<H> ClientRegistry<H> {
    /// The clients in the order in which they came.
    pub closed spec fn entries(&self) -> Seq<(u64, H)> {
        self.clients@
    }

    /// The number that the next client gets.
    pub closed spec fn next(&self) -> u64 {
        self.next_id
    }

    #[verifier::type_invariant]
    spec fn well_formed(self) -> bool {
        rising(self.clients@, self.next_id)
    }

    pub fn new() -> (r: Self)
        ensures
            r.entries().len() == 0,
            r.next() == 0,
    {
        ClientRegistry { next_id: 0, clients: Vec::new() }
    }

    /// Adds a client; its number has not been used before.
    pub fn insert(&mut self, handle: H) -> (id: u64)
        requires
            old(self).next() < u64::MAX,
        ensures
            id == old(self).next(),
            final(self).next() == old(self).next() + 1,
            final(self).entries() == old(self).entries().push((id, handle)),
            forall|i: int|
                0 <= i < old(self).entries().len() ==> (#[trigger] old(self).entries()[i]).0 != id,
    {
        proof {
            use_type_invariant(&*self);
        }
        let id: u64 = self.next_id;
        let mut clients: Vec<(u64, H)> = Vec::new();
        std::mem::swap(&mut clients, &mut self.clients);
        clients.push((id, handle));
        self.next_id = id + 1;
        self.clients = clients;
        id
    }

    /// Removes a client; one that is not there is no matter.
    pub fn remove(&mut self, id: u64)
        ensures
            final(self).next() == old(self).next(),
            final(self).entries() == without(old(self).entries(), id),
    {
        proof {
            use_type_invariant(&*self);
        }
        let mut clients: Vec<(u64, H)> = Vec::new();
        std::mem::swap(&mut clients, &mut self.clients);
        let ghost all = clients@;
        let ghost next = self.next_id;
        let mut kept: Vec<(u64, H)> = Vec::new();
        proof {
            assert(all.take(0) =~= seq![]);
        }
        for entry in it: clients
            invariant
                it.seq() == all,
                rising(all, next),
                kept@ == without(all.take(it.index() as int), id),
        {
            proof {
                let after = all.take(it.index() as int + 1);
                assert(after.drop_last() =~= all.take(it.index() as int));
                assert(after.last() == entry);
            }
            if entry.0 != id {
                kept.push(entry);
            }
        }
        proof {
            assert(all.take(all.len() as int) =~= all);
            lemma_without_rising(all, id, next);
        }
        self.clients = kept;
    }

    /// Hands out every client.
    pub fn take_all(&mut self) -> (v: Vec<(u64, H)>)
        ensures
            v@ == old(self).entries(),
            final(self).entries().len() == 0,
            final(self).next() == old(self).next(),
    {
        let mut clients: Vec<(u64, H)> = Vec::new();
        std::mem::swap(&mut clients, &mut self.clients);
        clients
    }

    pub fn len(&self) -> (n: usize)
        ensures
            n == self.entries().len(),
    {
        self.clients.len()
    }
}

proof fn lemma_without_rising<H>(c: Seq<(u64, H)>, id: u64, next: u64)
    requires
        rising(c, next),
    ensures
        rising(without(c, id), next),
        c.len() > 0 ==> forall|i: int|
            0 <= i < without(c, id).len() ==> (#[trigger] without(c, id)[i]).0 <= c.last().0,
    decreases c.len(),
{
    if c.len() > 0 {
        let d = c.drop_last();
        assert(rising(d, next)) by {
            assert forall|i: int, j: int| 0 <= i < j < d.len() implies (#[trigger] d[i]).0 < (
            #[trigger] d[j]).0 by {
                assert(c[i].0 < c[j].0);
            }
            assert forall|i: int| 0 <= i < d.len() implies (#[trigger] d[i]).0 < next by {
                assert(c[i].0 < next);
            }
        }
        lemma_without_rising(d, id, next);
        let w = without(d, id);
        assert forall|i: int| 0 <= i < w.len() implies (#[trigger] w[i]).0 < c.last().0 by {
            if d.len() > 0 {
                assert(w[i].0 <= d.last().0);
                assert(c[d.len() - 1].0 < c[c.len() - 1].0);
            }
        }
        assert(c[c.len() - 1].0 < next);
    }
}

/// Why a bridge stopped.
#[derive(Clone, Copy, Debug, PartialEq, Eq, Structural)]
pub enum BridgeExit {
    /// One side closed, or nothing moved for too long.
    Ended,
    /// An upgrade asked for the streams, and nothing is in flight between them.
    Cancelled,
}

/// Milliseconds that a write gets to finish once the bridge is to stop.
pub const BRIDGE_DRAIN_GRACE_MS: u64 = 500;

/// Most bytes that are copied at once.
pub const BRIDGE_FRAME_BYTES: usize = 8192;

/// How often an idle bridge is looked for: four times per idle time, but not more often than
/// every 100 ms. An idle time of zero means never.
pub open spec fn idle_interval(idle: Span) -> Option<Span> {
    if idle.nanos == 0 {
        None
    } else if idle.nanos / 4 >= 100_000_000 {
        Some(Span { nanos: idle.nanos / 4 })
    } else {
        Some(Span { nanos: 100_000_000 })
    }
}

/// How often an idle bridge is looked for.
pub fn idle_check_interval(idle: Span) -> (r: Option<Span>)
    ensures
        r == idle_interval(idle),
{
    if idle.nanos == 0 {
        None
    } else {
        let quarter: u128 = idle.nanos / 4;
        if quarter >= 100_000_000 {
            Some(Span { nanos: quarter })
        } else {
            Some(Span { nanos: 100_000_000 })
        }
    }
}

/// What decides about a bridge as a whole.
#[derive(Clone, Copy, Debug, PartialEq, Eq, Structural)]
pub struct Bridge {
    /// When bytes last moved, in milliseconds.
    pub last_ms: u64,
    /// No more input is taken.
    pub stopping: bool,
    /// It was an upgrade that stopped it.
    pub upgrade: bool,
}

impl Bridge {
    pub fn new(now_ms: u64) -> (b: Self)
        ensures
            b == (Bridge { last_ms: now_ms, stopping: false, upgrade: false }),
    {
        Bridge { last_ms: now_ms, stopping: false, upgrade: false }
    }

    /// Bytes moved.
    pub fn moved(&mut self, now_ms: u64)
        ensures
            *final(self) == (Bridge { last_ms: now_ms, ..*old(self) }),
    {
        self.last_ms = now_ms;
    }

    /// One side closed or failed.
    pub fn side_closed(&mut self)
        ensures
            *final(self) == (Bridge { stopping: true, ..*old(self) }),
    {
        self.stopping = true;
    }

    /// An upgrade wants the streams. A bridge that is stopping anyway has none to give.
    pub fn upgrade_requested(&mut self)
        ensures
            *final(self) == (Bridge {
                stopping: true,
                upgrade: old(self).upgrade || !old(self).stopping,
                ..*old(self)
            }),
    {
        if !self.stopping {
            self.upgrade = true;
        }
        self.stopping = true;
    }

    /// Stops the bridge where nothing has moved for longer than `idle`.
    pub fn check_idle(&mut self, now_ms: u64, idle: Span) -> (timed_out: bool)
        ensures
            timed_out == (now_ms - old(self).last_ms > millis_of(idle.nanos as nat)),
            timed_out == idle_for_too_long(old(self).last_ms, now_ms, idle),
            *final(self) == (Bridge {
                stopping: old(self).stopping || timed_out,
                ..*old(self)
            }),
    {
        let timed_out = now_ms.saturating_sub(self.last_ms) > duration_millis_u64(idle);
        if timed_out {
            self.stopping = true;
        }
        timed_out
    }

    pub fn exit(&self) -> (e: BridgeExit)
        ensures
            e == (if self.upgrade {
                BridgeExit::Cancelled
            } else {
                BridgeExit::Ended
            }),
    {
        if self.upgrade {
            BridgeExit::Cancelled
        } else {
            BridgeExit::Ended
        }
    }
}

/// What one direction of a bridge does next.
#[derive(Clone, Copy, Debug, PartialEq, Eq, Structural)]
pub enum CopyStep {
    /// Take the next bytes from the source.
    Take,
    /// Write what was taken to the sink.
    Give,
    Stop,
}

/// One direction of a bridge. `frame` is what was taken and not yet given.
#[derive(Debug)]
pub struct CopyDirection {
    pub frame: Vec<u8>,
    pub closed: bool,
}

/// What decides about one direction of a bridge.
pub struct CopyState {
    pub frame: Seq<u8>,
    pub closed: bool,
}

/// What a direction does next: a stop is heeded only while nothing is in flight.
pub open spec fn copy_step(s: CopyState, stopping: bool) -> CopyStep {
    if s.closed {
        CopyStep::Stop
    } else if s.frame.len() > 0 {
        CopyStep::Give
    } else if stopping {
        CopyStep::Stop
    } else {
        CopyStep::Take
    }
}

/// A direction that took `bytes`; none means that the source has ended.
pub open spec fn after_take(s: CopyState, bytes: Seq<u8>) -> CopyState {
    CopyState { frame: bytes, closed: s.closed || bytes.len() == 0 }
}

/// A direction whose frame was written in full, or could not be.
pub open spec fn after_give(s: CopyState, ok: bool) -> CopyState {
    if ok {
        CopyState { frame: seq![], ..s }
    } else {
        CopyState { closed: true, ..s }
    }
}

impl CopyDirection {
    pub open spec fn state(&self) -> CopyState {
        CopyState { frame: self.frame@, closed: self.closed }
    }

    pub fn new() -> (d: Self)
        ensures
            d.state() == (CopyState { frame: seq![], closed: false }),
    {
        let d = CopyDirection { frame: Vec::new(), closed: false };
        proof {
            assert(d.frame@ =~= seq![]);
        }
        d
    }

    /// What to do next.
    pub fn next(&self, stopping: bool) -> (s: CopyStep)
        ensures
            s == copy_step(self.state(), stopping),
    {
        if self.closed {
            CopyStep::Stop
        } else if self.frame.len() > 0 {
            CopyStep::Give
        } else if stopping {
            CopyStep::Stop
        } else {
            CopyStep::Take
        }
    }

    /// Bytes came from the source.
    pub fn taken(&mut self, bytes: Vec<u8>)
        ensures
            final(self).state() == after_take(old(self).state(), bytes@),
    {
        if bytes.len() == 0 {
            self.closed = true;
        }
        self.frame = bytes;
    }

    /// The frame was written in full, or could not be.
    pub fn given(&mut self, ok: bool)
        ensures
            final(self).state() == after_give(old(self).state(), ok),
    {
        if ok {
            self.frame = Vec::new();
            proof {
                assert(self.frame@ =~= seq![]);
            }
        } else {
            self.closed = true;
        }
    }

    /// The source failed.
    pub fn source_failed(&mut self)
        ensures
            final(self).state() == (CopyState { closed: true, ..old(self).state() }),
    {
        self.closed = true;
    }
}

/// Where a TLS client stands.
#[derive(Clone, Copy, Debug, PartialEq, Eq, Structural)]
pub enum TlsStage {
    Handshake,
    OpeningSession,
    Bridging,
    Over,
}

/// What happens to a TLS client.
#[derive(Clone, Copy, Debug, PartialEq, Eq, Structural)]
pub enum TlsEvent {
    /// An upgrade cancelled what was under way.
    Cancelled,
    /// What was under way succeeded.
    Succeeded,
    /// What was under way failed.
    Failed,
    /// The bridge stopped.
    BridgeDone(BridgeExit),
}

/// What is done for a TLS client next.
#[derive(Clone, Copy, Debug, PartialEq, Eq, Structural)]
pub enum TlsAction {
    /// Open a session at the processor.
    OpenSession,
    /// Copy both ways.
    Bridge,
    /// Hand the live streams to the drainer, then forget the client.
    HandOver,
    /// Forget the client.
    Forget,
    Nothing,
}

/// The next stage of a TLS client, and what is done.
pub open spec fn tls_move(stage: TlsStage, event: TlsEvent) -> (TlsStage, TlsAction) {
    match (stage, event) {
        (TlsStage::Handshake, TlsEvent::Succeeded) => (
            TlsStage::OpeningSession,
            TlsAction::OpenSession,
        ),
        (TlsStage::OpeningSession, TlsEvent::Succeeded) => (TlsStage::Bridging, TlsAction::Bridge),
        (TlsStage::Bridging, TlsEvent::BridgeDone(BridgeExit::Cancelled)) => (
            TlsStage::Over,
            TlsAction::HandOver,
        ),
        (TlsStage::Bridging, TlsEvent::BridgeDone(BridgeExit::Ended)) => (
            TlsStage::Over,
            TlsAction::Forget,
        ),
        (TlsStage::Handshake, TlsEvent::Cancelled) | (TlsStage::Handshake, TlsEvent::Failed) => (
            TlsStage::Over,
            TlsAction::Forget,
        ),
        (TlsStage::OpeningSession, TlsEvent::Cancelled) | (
            TlsStage::OpeningSession,
            TlsEvent::Failed,
        ) => (TlsStage::Over, TlsAction::Forget),
        _ => (stage, TlsAction::Nothing),
    }
}

impl TlsStage {
    /// Decides what is done for a TLS client.
    pub fn run_tls_client(&mut self, event: TlsEvent) -> (a: TlsAction)
        ensures
            (*final(self), a) == tls_move(*old(self), event),
    {
        let (stage, action) = match (*self, event) {
            (TlsStage::Handshake, TlsEvent::Succeeded) => (
                TlsStage::OpeningSession,
                TlsAction::OpenSession,
            ),
            (TlsStage::OpeningSession, TlsEvent::Succeeded) => (
                TlsStage::Bridging,
                TlsAction::Bridge,
            ),
            (TlsStage::Bridging, TlsEvent::BridgeDone(BridgeExit::Cancelled)) => (
                TlsStage::Over,
                TlsAction::HandOver,
            ),
            (TlsStage::Bridging, TlsEvent::BridgeDone(BridgeExit::Ended)) => (
                TlsStage::Over,
                TlsAction::Forget,
            ),
            (TlsStage::Handshake, TlsEvent::Cancelled) | (
                TlsStage::Handshake,
                TlsEvent::Failed,
            ) => (TlsStage::Over, TlsAction::Forget),
            (TlsStage::OpeningSession, TlsEvent::Cancelled) | (
                TlsStage::OpeningSession,
                TlsEvent::Failed,
            ) => (TlsStage::Over, TlsAction::Forget),
            (other, _) => (other, TlsAction::Nothing),
        };
        *self = stage;
        action
    }
}

// Laws
/// What one direction of a bridge is told about what it asked for.
pub enum CopyEvent {
    Took(Seq<u8>),
    TakeFailed,
    Gave { ok: bool },
}

/// What one direction of a bridge took and gave, and where it stands.
pub struct CopyTrace {
    pub taken: Seq<u8>,
    pub given: Seq<u8>,
    pub state: CopyState,
}

/// One direction after an event; one that it did not ask for changes nothing.
pub open spec fn copy_move(t: CopyTrace, e: CopyEvent) -> CopyTrace {
    match (copy_step(t.state, false), e) {
        (CopyStep::Take, CopyEvent::Took(b)) => CopyTrace {
            taken: t.taken + b,
            state: after_take(t.state, b),
            ..t
        },
        (CopyStep::Take, CopyEvent::TakeFailed) => CopyTrace {
            state: CopyState { closed: true, ..t.state },
            ..t
        },
        (CopyStep::Give, CopyEvent::Gave { ok }) => CopyTrace {
            given: (if ok {
                t.given + t.state.frame
            } else {
                t.given
            }),
            state: after_give(t.state, ok),
            ..t
        },
        _ => t,
    }
}

/// One direction after a series of events.
pub open spec fn copied(events: Seq<CopyEvent>) -> CopyTrace
    decreases events.len(),
{
    if events.len() == 0 {
        CopyTrace {
            taken: seq![],
            given: seq![],
            state: CopyState { frame: seq![], closed: false },
        }
    } else {
        copy_move(copied(events.drop_last()), events.last())
    }
}

/// A bridge gives what it takes, in order, and holds back no more than the frame in flight.
pub proof fn bridge_keeps_every_byte(events: Seq<CopyEvent>)
    ensures
        copied(events).taken == copied(events).given + copied(events).state.frame,
    decreases events.len(),
{
    if events.len() > 0 {
        bridge_keeps_every_byte(events.drop_last());
        let u = copied(events);
        assert(u.taken =~= u.given + u.state.frame);
    } else {
        assert(copied(events).taken =~= copied(events).given + copied(events).state.frame);
    }
}

/// A direction that stops because it was told to, and not because a stream ended or failed, has
/// given everything that it took: an upgrade takes over streams with nothing in flight.
pub proof fn stopped_bridge_lost_nothing(events: Seq<CopyEvent>)
    requires
        !copied(events).state.closed,
        copy_step(copied(events).state, true) == CopyStep::Stop,
    ensures
        copied(events).given == copied(events).taken,
{
    bridge_keeps_every_byte(events);
    assert(copied(events).given =~= copied(events).taken);
}

/// A TLS client reaches the processor only after its handshake succeeded.
pub proof fn session_needs_a_handshake(stage: TlsStage, event: TlsEvent)
    ensures
        tls_move(stage, event).1 == TlsAction::OpenSession ==> stage == TlsStage::Handshake && event
            == TlsEvent::Succeeded,
        tls_move(stage, event).1 == TlsAction::HandOver ==> stage == TlsStage::Bridging && event
            == TlsEvent::BridgeDone(BridgeExit::Cancelled),
{
}

/// A slot is free exactly while fewer are taken than there are, or where there is no limit.
pub proof fn slot_is_free_below_the_limit(l: AcceptorLimits)
    ensures
        has_slot(l) <==> l.sessions.limit() == 0 || l.sessions.held() + 1 <= l.sessions.limit(),
{
}

/// A client that is forgotten is off the list, and every other one stays on it, in order.
pub proof fn only_the_client_named_is_forgotten<H>(c: Seq<(u64, H)>, id: u64)
    ensures
        without(c, id) == c.filter(|e: (u64, H)| e.0 != id),
    decreases c.len(),
{
    reveal(Seq::filter);
    if c.len() > 0 {
        only_the_client_named_is_forgotten(c.drop_last(), id);
    }
}

/// What was taken is given before anything else is taken, also when the bridge is to stop; a
/// direction that has nothing in flight takes more until the bridge is to stop; and one whose
/// stream has ended does nothing more.
pub proof fn frame_in_flight_is_given_first(s: CopyState, stopping: bool)
    ensures
        s.closed ==> copy_step(s, stopping) == CopyStep::Stop,
        !s.closed && s.frame.len() > 0 ==> copy_step(s, stopping) == CopyStep::Give,
        !s.closed && s.frame.len() == 0 && !stopping ==> copy_step(s, stopping) == CopyStep::Take,
        !s.closed && s.frame.len() == 0 && stopping ==> copy_step(s, stopping) == CopyStep::Stop,
{
}

/// The frame in flight is what was taken, whole; an empty one is the end of the stream. Once it is
/// given nothing is in flight, and where it could not be given the direction ends.
pub proof fn frame_is_what_was_taken(s: CopyState, bytes: Seq<u8>, ok: bool)
    ensures
        after_take(s, bytes).frame == bytes,
        !s.closed ==> (after_take(s, bytes).closed <==> bytes.len() == 0),
        after_give(s, true).frame.len() == 0,
        after_give(s, true).closed == s.closed,
        after_give(s, false).closed,
{
}

/// An idle bridge is looked for four times per idle time, but no more often than ten times a
/// second; never where there is no idle time.
pub proof fn idle_bridge_is_looked_for_in_time(idle: Span)
    ensures
        idle.nanos == 0 <==> idle_interval(idle) is None,
        idle.nanos > 0 ==> idle_interval(idle)->0.nanos >= 100_000_000,
        idle.nanos >= 400_000_000 ==> idle_interval(idle)->0.nanos * 4 <= idle.nanos < (
        idle_interval(idle)->0.nanos + 1) * 4,
        0 < idle.nanos < 400_000_000 ==> idle_interval(idle)->0.nanos == 100_000_000,
{
}

/// A TLS client that gets through its handshake has a session opened, and is bridged once that is
/// there; whoever fails before is forgotten. A bridge that an upgrade stopped hands its streams
/// over, and one that ended does not.
pub proof fn tls_client_takes_its_course(stage: TlsStage, event: TlsEvent)
    ensures
        tls_move(TlsStage::Handshake, TlsEvent::Succeeded) == (
            TlsStage::OpeningSession,
            TlsAction::OpenSession,
        ),
        tls_move(TlsStage::OpeningSession, TlsEvent::Succeeded) == (
            TlsStage::Bridging,
            TlsAction::Bridge,
        ),
        (stage == TlsStage::Handshake || stage == TlsStage::OpeningSession) && (event
            == TlsEvent::Failed || event == TlsEvent::Cancelled) ==> tls_move(stage, event) == (
            TlsStage::Over,
            TlsAction::Forget,
        ),
        tls_move(TlsStage::Bridging, TlsEvent::BridgeDone(BridgeExit::Cancelled)) == (
            TlsStage::Over,
            TlsAction::HandOver,
        ),
        tls_move(TlsStage::Bridging, TlsEvent::BridgeDone(BridgeExit::Ended)) == (
            TlsStage::Over,
            TlsAction::Forget,
        ),
        tls_move(TlsStage::Over, event) == (TlsStage::Over, TlsAction::Nothing),
{
}

/// What an acceptor is, and does, after an event.
pub open spec fn acceptor_move(s: AcceptorState, e: AcceptorEvent) -> (AcceptorState, AcceptorAction) {
    match e {
        AcceptorEvent::Shutdown(grace) => (
            s,
            AcceptorAction::StopAfter(
                if grace is Some {
                    grace->0
                } else {
                    0
                },
            ),
        ),
        AcceptorEvent::Upgrade { requested } => (
            s,
            if requested {
                AcceptorAction::StartUpgrade
            } else {
                AcceptorAction::Nothing
            },
        ),
        AcceptorEvent::Drain(on) => (
            AcceptorState { drained: s.drained || on, ..s },
            AcceptorAction::Nothing,
        ),
        AcceptorEvent::Reload => (
            s,
            if s.has_tls {
                AcceptorAction::ReloadCert(ReloadTrigger::Admin)
            } else {
                AcceptorAction::Nothing
            },
        ),
        AcceptorEvent::Hangup => (
            s,
            if s.has_tls {
                AcceptorAction::ReloadCert(ReloadTrigger::Hangup)
            } else {
                AcceptorAction::Nothing
            },
        ),
    }
}

/// The acceptor after a series of events.
pub open spec fn after_events(s: AcceptorState, events: Seq<AcceptorEvent>) -> AcceptorState
    decreases events.len(),
{
    if events.len() == 0 {
        s
    } else {
        acceptor_move(after_events(s, events.drop_last()), events.last()).0
    }
}

/// An acceptor takes nobody in any more exactly from the first order to drain on, whatever else it
/// is told before or after.
pub proof fn drained_acceptor_stays_drained(s: AcceptorState, events: Seq<AcceptorEvent>)
    ensures
        after_events(s, events).drained <==> s.drained || events.contains(
            AcceptorEvent::Drain(true),
        ),
        after_events(s, events).has_tls == s.has_tls,
    decreases events.len(),
{
    if events.len() > 0 {
        let rest = events.drop_last();
        drained_acceptor_stays_drained(s, rest);
        let d = AcceptorEvent::Drain(true);
        if rest.contains(d) {
            let k = choose|k: int| 0 <= k < rest.len() && rest[k] == d;
            assert(events[k] == d);
        }
        if events.contains(d) && !rest.contains(d) {
            let k = choose|k: int| 0 <= k < events.len() && events[k] == d;
            if k < rest.len() {
                assert(rest[k] == d);
            }
            assert(events.last() == d);
        }
        assert(events[events.len() - 1] == events.last());
    }
}

/// A shutdown keeps its grace, an upgrade starts only where one was asked for, and only an
/// acceptor with a certificate loads it again, telling why.
pub proof fn acceptor_does_what_it_is_told(s: AcceptorState, ms: u64)
    ensures
        acceptor_move(s, AcceptorEvent::Shutdown(Some(ms))).1 == AcceptorAction::StopAfter(ms),
        acceptor_move(s, AcceptorEvent::Shutdown(None)).1 == AcceptorAction::StopAfter(0),
        acceptor_move(s, AcceptorEvent::Upgrade { requested: true }).1
            == AcceptorAction::StartUpgrade,
        acceptor_move(s, AcceptorEvent::Upgrade { requested: false }).1
            == AcceptorAction::Nothing,
        acceptor_move(s, AcceptorEvent::Reload).1 is ReloadCert <==> s.has_tls,
        acceptor_move(s, AcceptorEvent::Hangup).1 is ReloadCert <==> s.has_tls,
        s.has_tls ==> acceptor_move(s, AcceptorEvent::Hangup).1 == AcceptorAction::ReloadCert(
            ReloadTrigger::Hangup,
        ),
        s.has_tls ==> acceptor_move(s, AcceptorEvent::Reload).1 == AcceptorAction::ReloadCert(
            ReloadTrigger::Admin,
        ),
{
}

/// A bridge has been idle for longer than it may.
pub open spec fn idle_for_too_long(last_ms: u64, now_ms: u64, idle: Span) -> bool {
    now_ms - last_ms > millis_of(idle.nanos as nat)
}

/// An idle time in whole milliseconds is granted in full, and a bridge that moves starts it over.
pub proof fn idle_time_is_granted_in_full(last_ms: u64, now_ms: u64, ms: u64, idle: Span)
    requires
        idle.nanos == ms * 1_000_000,
    ensures
        idle_for_too_long(last_ms, now_ms, idle) <==> now_ms > last_ms + ms,
        !idle_for_too_long(now_ms, now_ms, idle),
{
}

} // verus!
